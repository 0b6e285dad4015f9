//! A set of instruction definitions that decodes and encodes codewords.
//!
//! The set is built from the tables of the ISA tiers a configuration
//! enables. Decoding walks the definitions in order and specifies the first
//! one whose pattern matches. Encoding locates a definition of the
//! operation's kind, fills its pattern's argument nibbles from the
//! operation's operands, and accepts the codeword only if it decodes back to
//! the same operation, so an ambiguous placeholder can never produce a wrong
//! encoding.

use vstd::prelude::*;

use crate::codec::{
    pow16, spec_code_of, spec_feeds, spec_mask_of, spec_matches, spec_slot, spec_specify, Coding,
    CodewordMatcher, Definition, Pattern,
};
use crate::config::Config;
use crate::isa::{chip8_defs, chip8_table, superchip_defs, superchip_table, xochip_defs, xochip_table};
use crate::operations::{spec_op_data, spec_op_kind, Operation};
use crate::types::Codeword;

verus! {

/// What decoding a codeword against a list of definitions yields: the first
/// definition whose pattern matches, specified with the codeword's data.
pub open spec fn spec_decode(defs: Seq<Definition>, cw: u16) -> Option<Operation>
    decreases defs.len(),
{
    if defs.len() == 0 {
        Option::None
    } else if spec_matches(defs[0].pattern, cw) {
        Option::Some(spec_specify(defs[0], cw))
    } else {
        spec_decode(defs.skip(1), cw)
    }
}

/// Whether any definition in the list matches the codeword.
pub open spec fn spec_has_match(defs: Seq<Definition>, cw: u16) -> bool {
    exists|i: int| 0 <= i < defs.len() && spec_matches(#[trigger] defs[i].pattern, cw)
}

/// The slot that an argument coding fills its nibble from: the lowest slot
/// named by the mask, or -1 when the mask names none.
pub open spec fn spec_low_slot(m: usize) -> int {
    if m & 1 != 0 {
        0
    } else if m & 2 != 0 {
        1
    } else if m & 4 != 0 {
        2
    } else if m & 8 != 0 {
        3
    } else {
        -1
    }
}

/// How many codings after the given position feed the given slot.
pub open spec fn spec_count_after(p: Pattern, slot: int, pos: int) -> int {
    (if pos < 1 && spec_feeds(p[1], slot) {
        1int
    } else {
        0int
    }) + (if pos < 2 && spec_feeds(p[2], slot) {
        1int
    } else {
        0int
    }) + (if pos < 3 && spec_feeds(p[3], slot) {
        1int
    } else {
        0int
    })
}

/// The nibble an encoder writes at the given position: the literal for a
/// `C` coding, zero for an ignored coding, and for an argument coding the
/// matching four bits of the operand data of its lowest slot.
pub open spec fn spec_fill_nibble(def: Definition, op: Operation, pos: int) -> int {
    match def.pattern[pos] {
        Coding::C(n) => (n & 0xF) as int,
        Coding::X => 0,
        Coding::A(m) => {
            let k = spec_low_slot(m);
            let data = spec_op_data(op, k) as int;
            (data / pow16(spec_count_after(def.pattern, k, pos))) % 16
        },
    }
}

/// The codeword an encoder builds for an operation from one definition.
pub open spec fn spec_fill(def: Definition, op: Operation) -> u16 {
    (spec_fill_nibble(def, op, 0) * 4096 + spec_fill_nibble(def, op, 1) * 256 + spec_fill_nibble(
        def,
        op,
        2,
    ) * 16 + spec_fill_nibble(def, op, 3)) as u16
}

/// What encoding an operation against the remaining definitions yields: the
/// filled codeword of the first definition of the operation's kind whose
/// codeword decodes back to the operation against the whole list.
pub open spec fn spec_encode_from(
    all: Seq<Definition>,
    rest: Seq<Definition>,
    op: Operation,
) -> Option<Codeword>
    decreases rest.len(),
{
    if rest.len() == 0 {
        Option::None
    } else {
        let cand = spec_fill(rest[0], op);
        if rest[0].op == spec_op_kind(op) && spec_decode(all, cand) == Option::Some(op) {
            Option::Some(cand)
        } else {
            spec_encode_from(all, rest.skip(1), op)
        }
    }
}

/// What encoding an operation against a list of definitions yields.
pub open spec fn spec_encode(defs: Seq<Definition>, op: Operation) -> Option<Codeword> {
    spec_encode_from(defs, defs, op)
}

/// The definitions of the ISA tiers a configuration enables, in decoding
/// order: base CHIP-8 first, then SUPERCHIP, then XO-CHIP.
pub open spec fn spec_isa(c: Config) -> Seq<Definition> {
    (if c.isa_chip8 {
        chip8_defs()
    } else {
        Seq::<Definition>::empty()
    }) + (if c.isa_superchip {
        superchip_defs()
    } else {
        Seq::<Definition>::empty()
    }) + (if c.isa_xochip {
        xochip_defs()
    } else {
        Seq::<Definition>::empty()
    })
}

/// Sixteen to the power of `n`, executable form.
fn pow16_exec(n: usize) -> (r: usize)
    ensures
        r == pow16(n as int),
        r >= 1,
{
    if n == 0 {
        1
    } else if n == 1 {
        16
    } else if n == 2 {
        256
    } else if n == 3 {
        4096
    } else {
        65536
    }
}

/// Whether a coding feeds the given argument slot.
fn feeds(c: Coding, slot: usize) -> (r: bool)
    ensures
        r == spec_feeds(c, slot as int),
{
    match c {
        Coding::A(m) => {
            if slot == 0 {
                m & 1 != 0
            } else if slot == 1 {
                m & 2 != 0
            } else if slot == 2 {
                m & 4 != 0
            } else if slot == 3 {
                m & 8 != 0
            } else {
                false
            }
        },
        _ => false,
    }
}

/// Counts the codings after the given position that feed the given slot.
fn count_after(p: &Pattern, slot: usize, pos: usize) -> (r: usize)
    ensures
        r == spec_count_after(*p, slot as int, pos as int),
{
    let mut r: usize = 0;
    if pos < 1 && feeds(p[1], slot) {
        r = r + 1;
    }
    if pos < 2 && feeds(p[2], slot) {
        r = r + 1;
    }
    if pos < 3 && feeds(p[3], slot) {
        r = r + 1;
    }
    r
}

/// The nibble an encoder writes at one position of a definition's pattern.
fn fill_nibble(def: &Definition, op: &Operation, pos: usize) -> (r: u16)
    requires
        pos < 4,
    ensures
        r == spec_fill_nibble(*def, *op, pos as int),
        r < 16,
{
    match def.pattern[pos] {
        Coding::C(n) => {
            let r = (n & 0xF) as u16;
            assert(n & 0xF < 16) by (bit_vector);
            r
        },
        Coding::X => 0,
        Coding::A(m) => {
            let k: usize = if m & 1 != 0 {
                0
            } else if m & 2 != 0 {
                1
            } else if m & 4 != 0 {
                2
            } else if m & 8 != 0 {
                3
            } else {
                4
            };
            if k == 4 {
                assert(spec_low_slot(m) == -1);
                assert(spec_op_data(*op, -1) == 0);
                0
            } else {
                assert(spec_low_slot(m) == k);
                let data = op.slot_data(k);
                let cnt = count_after(&def.pattern, k, pos);
                let p = pow16_exec(cnt);
                ((data / p) % 16) as u16
            }
        },
    }
}

/// Builds the codeword that encodes an operation through one definition.
pub fn fill_codeword(def: &Definition, op: &Operation) -> (r: Codeword)
    ensures
        r == spec_fill(*def, *op),
{
    let n0 = fill_nibble(def, op, 0);
    let n1 = fill_nibble(def, op, 1);
    let n2 = fill_nibble(def, op, 2);
    let n3 = fill_nibble(def, op, 3);
    n0 * 4096 + n1 * 256 + n2 * 16 + n3
}

/// One definition together with its compiled codeword matcher.
#[derive(Copy, Clone, Debug)]
pub struct DefMatcher {
    /// The definition itself.
    pub definition: Definition,
    /// The compiled matcher of the definition's pattern.
    pub matcher: CodewordMatcher,
}

/// A CHIP-8 instruction set built for a particular configuration.
///
/// A 16-bit codeword can be decoded into an `Operation`, for instance by a
/// disassembler or an emulator's step; an `Operation` can be encoded into a
/// codeword, for instance by an assembler.
#[derive(Debug)]
pub struct InstructionSet {
    table: Vec<DefMatcher>,
}

impl InstructionSet {
    /// The definitions this set holds, in decoding order.
    pub closed spec fn defs(&self) -> Seq<Definition> {
        self.table@.map_values(|dm: DefMatcher| dm.definition)
    }

    /// Every cached matcher agrees with its definition's pattern.
    pub closed spec fn wf(&self) -> bool {
        forall|i: int|
            0 <= i < self.table@.len() ==> (#[trigger] self.table@[i]).matcher.code == spec_code_of(
                self.table@[i].definition.pattern,
            ) && self.table@[i].matcher.mask == spec_mask_of(self.table@[i].definition.pattern)
    }

    /// Creates a new set holding the tables the configuration enables.
    pub fn new(config: &Config) -> (s: InstructionSet)
        ensures
            s.wf(),
            s.defs() == spec_isa(*config),
    {
        let mut s = InstructionSet { table: Vec::new() };
        assert(s.defs() =~= Seq::<Definition>::empty());
        if config.isa_chip8 {
            let t = chip8_table();
            s.append(t.as_slice());
        }
        if config.isa_superchip {
            let t = superchip_table();
            s.append(t.as_slice());
        }
        if config.isa_xochip {
            let t = xochip_table();
            s.append(t.as_slice());
        }
        assert(s.defs() =~= spec_isa(*config));
        s
    }

    /// Adds a slice of definitions to the set, keeping their order.
    pub fn append(&mut self, set: &[Definition])
        requires
            old(self).wf(),
        ensures
            final(self).wf(),
            final(self).defs() == old(self).defs() + set@,
    {
        let ghost start = self.defs();
        let mut idx: usize = 0;
        while idx < set.len()
            invariant
                self.wf(),
                idx <= set@.len(),
                self.defs() == start + set@.take(idx as int),
            decreases set@.len() - idx,
        {
            self.push(set[idx]);
            assert(start + set@.take(idx as int) + seq![set@[idx as int]] =~= start + set@.take(
                idx as int + 1,
            ));
            idx = idx + 1;
        }
        assert(start + set@.take(set@.len() as int) =~= start + set@);
    }

    /// Adds a definition to the set, after the ones already there.
    pub fn push(&mut self, definition: Definition)
        requires
            old(self).wf(),
        ensures
            final(self).wf(),
            final(self).defs() == old(self).defs() + seq![definition],
    {
        let matcher = CodewordMatcher::new(definition.pattern);
        self.table.push(DefMatcher { definition, matcher });
        assert(final(self).defs() =~= old(self).defs() + seq![definition]);
    }

    /// Decodes a 16-bit codeword into the operation of the first matching
    /// definition, or nothing when no definition matches.
    pub fn decode(&self, codeword: Codeword) -> (r: Option<Operation>)
        requires
            self.wf(),
        ensures
            r == spec_decode(self.defs(), codeword),
    {
        let ghost defs = self.defs();
        proof {
            assert(defs.skip(0) =~= defs);
        }
        let mut idx: usize = 0;
        while idx < self.table.len()
            invariant
                self.wf(),
                idx <= self.table@.len(),
                defs == self.defs(),
                spec_decode(defs, codeword) == spec_decode(defs.skip(idx as int), codeword),
                forall|j: int| 0 <= j < idx ==> !spec_matches(#[trigger] defs[j].pattern, codeword),
            decreases self.table@.len() - idx,
        {
            let dm = &self.table[idx];
            if dm.matcher.is_match(codeword) {
                assert(spec_matches(defs[idx as int].pattern, codeword));
                assert(defs.skip(idx as int)[0] == defs[idx as int]);
                return Some(dm.definition.specify(codeword));
            }
            assert(defs.skip(idx as int).skip(1) =~= defs.skip(idx as int + 1));
            idx = idx + 1;
        }
        assert(defs.skip(idx as int).len() == 0);
        None
    }

    /// Encodes an operation into a 16-bit codeword, or nothing when no
    /// enabled definition can represent it faithfully.
    pub fn encode(&self, op: Operation) -> (r: Option<Codeword>)
        requires
            self.wf(),
        ensures
            r == spec_encode(self.defs(), op),
            r is Some ==> spec_decode(self.defs(), r.unwrap()) == Option::Some(op),
    {
        let ghost defs = self.defs();
        proof {
            assert(defs.skip(0) =~= defs);
        }
        let kind = op.kind();
        let mut idx: usize = 0;
        while idx < self.table.len()
            invariant
                self.wf(),
                idx <= self.table@.len(),
                defs == self.defs(),
                kind == spec_op_kind(op),
                spec_encode(defs, op) == spec_encode_from(defs, defs.skip(idx as int), op),
            decreases self.table@.len() - idx,
        {
            let dm = &self.table[idx];
            assert(defs.skip(idx as int)[0] == defs[idx as int]);
            if dm.definition.op == kind {
                let cand = fill_codeword(&dm.definition, &op);
                match self.decode(cand) {
                    Some(found) => {
                        if found == op {
                            return Some(cand);
                        }
                    },
                    None => {},
                }
            }
            assert(defs.skip(idx as int).skip(1) =~= defs.skip(idx as int + 1));
            idx = idx + 1;
        }
        assert(defs.skip(idx as int).len() == 0);
        None
    }

    /// Returns true if some definition in the set matches the codeword.
    pub fn codeword_exists(&self, codeword: Codeword) -> (r: bool)
        requires
            self.wf(),
        ensures
            r == spec_has_match(self.defs(), codeword),
    {
        let ghost defs = self.defs();
        let mut idx: usize = 0;
        while idx < self.table.len()
            invariant
                self.wf(),
                idx <= self.table@.len(),
                defs == self.defs(),
                forall|j: int| 0 <= j < idx ==> !spec_matches(#[trigger] defs[j].pattern, codeword),
            decreases self.table@.len() - idx,
        {
            let dm = &self.table[idx];
            if dm.matcher.is_match(codeword) {
                assert(spec_matches(defs[idx as int].pattern, codeword));
                return true;
            }
            idx = idx + 1;
        }
        false
    }
}

} // verus!
