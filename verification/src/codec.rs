//! Instruction definitions: bit patterns, matching, and operand extraction.
//!
//! A definition pairs an operation kind with a pattern of four codings, one
//! per codeword nibble. A `C(n)` coding must match the literal nibble `n`, an
//! `A(mask)` coding appends its nibble to every argument slot named by the
//! bits of `mask` (leftmost nibble most significant), and `X` is ignored.

use vstd::prelude::*;

use crate::operands::{DestKind, SrcKind};
use crate::operations::{spec_op_data, spec_project, Operation, OperationKind};
use crate::types::Codeword;

verus! {

/// Used to define the coding of each nibble of an instruction.
#[derive(Copy, Clone, Debug, PartialEq, Eq, Structural)]
pub enum Coding {
    /// The nibble contributes to the argument slots named by this bit mask.
    A(usize),
    /// A literal nibble that the codeword must match.
    C(u8),
    /// The nibble is ignored.
    X,
}

/// The coding of a full codeword, one entry per nibble, leftmost first.
pub type Pattern = [Coding; 4];

/// The nibble of a codeword at the given position, leftmost first.
pub open spec fn spec_nibble(cw: u16, pos: int) -> u16 {
    if pos == 0 {
        (cw >> 12) & 0xF
    } else if pos == 1 {
        (cw >> 8) & 0xF
    } else if pos == 2 {
        (cw >> 4) & 0xF
    } else {
        cw & 0xF
    }
}

/// Reads the nibble of a codeword at the given position, leftmost first.
pub fn nibble(cw: u16, pos: usize) -> (r: u16)
    requires
        pos < 4,
    ensures
        r == spec_nibble(cw, pos as int),
        r < 16,
{
    let r: u16 = if pos == 0 {
        (cw >> 12) & 0xF
    } else if pos == 1 {
        (cw >> 8) & 0xF
    } else if pos == 2 {
        (cw >> 4) & 0xF
    } else {
        cw & 0xF
    };
    assert(r < 16) by (bit_vector)
        requires
            r == (cw >> 12) & 0xF || r == (cw >> 8) & 0xF || r == (cw >> 4) & 0xF || r == cw
                & 0xF,
    ;
    r
}

/// One step of compiling a pattern into its literal code: a literal nibble
/// contributes its value, any other coding contributes zero.
pub open spec fn spec_code_step(acc: u16, c: Coding) -> u16 {
    match c {
        Coding::C(n) => (acc << 4) | ((n & 0xF) as u16),
        _ => acc << 4,
    }
}

/// One step of compiling a pattern into its mask: a literal nibble
/// contributes 0xF, any other coding contributes zero.
pub open spec fn spec_mask_step(acc: u16, c: Coding) -> u16 {
    match c {
        Coding::C(_) => (acc << 4) | 0xF,
        _ => acc << 4,
    }
}

/// The literal bits of a pattern, one nibble per `C` coding.
pub open spec fn spec_code_of(p: Pattern) -> u16 {
    spec_code_step(
        spec_code_step(spec_code_step(spec_code_step(0, p[0]), p[1]), p[2]),
        p[3],
    )
}

/// The mask selecting the literal nibbles of a pattern.
pub open spec fn spec_mask_of(p: Pattern) -> u16 {
    spec_mask_step(
        spec_mask_step(spec_mask_step(spec_mask_step(0, p[0]), p[1]), p[2]),
        p[3],
    )
}

/// A codeword matches a pattern when it agrees with the pattern's literal
/// nibbles: `cw & mask == code & mask`.
pub open spec fn spec_matches(p: Pattern, cw: u16) -> bool {
    cw & spec_mask_of(p) == spec_code_of(p) & spec_mask_of(p)
}

/// Whether a coding feeds the given argument slot.
pub open spec fn spec_feeds(c: Coding, slot: int) -> bool {
    match c {
        Coding::A(m) => {
            if slot == 0 {
                m & 1 != 0
            } else if slot == 1 {
                m & 2 != 0
            } else if slot == 2 {
                m & 4 != 0
            } else if slot == 3 {
                m & 8 != 0
            } else {
                false
            }
        },
        _ => false,
    }
}

/// One step of extracting an argument slot: a coding that feeds the slot
/// appends its nibble as the new low-order four bits.
pub open spec fn spec_slot_step(acc: int, c: Coding, nibval: int, slot: int) -> int {
    if spec_feeds(c, slot) {
        acc * 16 + nibval
    } else {
        acc
    }
}

/// The value of an argument slot extracted from a codeword by a pattern,
/// scanning the four nibbles left to right.
pub open spec fn spec_slot(p: Pattern, cw: u16, slot: int) -> int {
    let s1 = spec_slot_step(0, p[0], spec_nibble(cw, 0) as int, slot);
    let s2 = spec_slot_step(s1, p[1], spec_nibble(cw, 1) as int, slot);
    let s3 = spec_slot_step(s2, p[2], spec_nibble(cw, 2) as int, slot);
    spec_slot_step(s3, p[3], spec_nibble(cw, 3) as int, slot)
}

/// Defines the structure of a specific instruction: the operation performed
/// and the pattern that recognizes its codewords and carries its operands.
#[derive(Copy, Clone, Debug)]
pub struct Definition {
    /// The operation that is performed when this instruction executes.
    pub op: OperationKind,
    /// The coding of the instruction's four nibbles.
    pub pattern: Pattern,
}

/// The operation a definition assigns to a codeword: each argument slot is
/// extracted from the codeword and the operation kind is projected onto the
/// specified operands.
pub open spec fn spec_specify(def: Definition, cw: u16) -> Operation {
    spec_project(
        def.op,
        spec_slot(def.pattern, cw, 0) as usize,
        spec_slot(def.pattern, cw, 1) as usize,
        spec_slot(def.pattern, cw, 2) as usize,
    )
}

impl Definition {
    /// Returns a new Definition.
    pub fn new(op: OperationKind, pattern: Pattern) -> (r: Definition)
        ensures
            r == (Definition { op, pattern }),
    {
        Definition { op, pattern }
    }

    /// Extracts the four argument slots of this definition's pattern from a
    /// codeword.
    pub fn extract_slots(&self, cw: Codeword) -> (d: (usize, usize, usize, usize))
        ensures
            d.0 == spec_slot(self.pattern, cw, 0),
            d.1 == spec_slot(self.pattern, cw, 1),
            d.2 == spec_slot(self.pattern, cw, 2),
            d.3 == spec_slot(self.pattern, cw, 3),
            d.0 <= 0xFFFF && d.1 <= 0xFFFF && d.2 <= 0xFFFF && d.3 <= 0xFFFF,
    {
        let mut d0: usize = 0;
        let mut d1: usize = 0;
        let mut d2: usize = 0;
        let mut d3: usize = 0;
        let mut pos: usize = 0;
        while pos < 4
            invariant
                pos <= 4,
                d0 == spec_slot_prefix(self.pattern, cw, 0, pos as int),
                d1 == spec_slot_prefix(self.pattern, cw, 1, pos as int),
                d2 == spec_slot_prefix(self.pattern, cw, 2, pos as int),
                d3 == spec_slot_prefix(self.pattern, cw, 3, pos as int),
                d0 < 0x10000 && d1 < 0x10000 && d2 < 0x10000 && d3 < 0x10000,
            decreases 4 - pos,
        {
            proof {
                lemma_slot_prefix_bound(self.pattern, cw, 0, pos as int);
                lemma_slot_prefix_bound(self.pattern, cw, 1, pos as int);
                lemma_slot_prefix_bound(self.pattern, cw, 2, pos as int);
                lemma_slot_prefix_bound(self.pattern, cw, 3, pos as int);
            }
            let nb = nibble(cw, pos) as usize;
            match self.pattern[pos] {
                Coding::A(m) => {
                    if m & 1 != 0 {
                        d0 = d0 * 16 + nb;
                    }
                    if m & 2 != 0 {
                        d1 = d1 * 16 + nb;
                    }
                    if m & 4 != 0 {
                        d2 = d2 * 16 + nb;
                    }
                    if m & 8 != 0 {
                        d3 = d3 * 16 + nb;
                    }
                },
                _ => {},
            }
            pos = pos + 1;
        }
        proof {
            reveal_with_fuel(spec_slot_prefix, 5);
            assert(spec_slot_prefix(self.pattern, cw, 0, 4) == spec_slot(self.pattern, cw, 0));
            assert(spec_slot_prefix(self.pattern, cw, 1, 4) == spec_slot(self.pattern, cw, 1));
            assert(spec_slot_prefix(self.pattern, cw, 2, 4) == spec_slot(self.pattern, cw, 2));
            assert(spec_slot_prefix(self.pattern, cw, 3, 4) == spec_slot(self.pattern, cw, 3));
        }
        (d0, d1, d2, d3)
    }

    /// Specifies this definition's operation with the argument data the
    /// given codeword carries.
    pub fn specify(&self, codeword: Codeword) -> (r: Operation)
        ensures
            r == spec_specify(*self, codeword),
    {
        let (d0, d1, d2, _d3) = self.extract_slots(codeword);
        match self.op {
            OperationKind::NoOp => Operation::NoOp,
            OperationKind::Load(d, s) => Operation::Load(d.specify(d0), s.specify(d1)),
            OperationKind::Stash(a, b, f) => Operation::Stash(
                a.specify(d0),
                b.specify(d1),
                f.specify(d2),
            ),
            OperationKind::Fetch(a, b, f) => Operation::Fetch(
                a.specify(d0),
                b.specify(d1),
                f.specify(d2),
            ),
            OperationKind::Jump(a) => Operation::Jump(a.specify(d0)),
            OperationKind::JumpV0(a) => Operation::JumpV0(a.specify(d0)),
            OperationKind::Call(a) => Operation::Call(a.specify(d0)),
            OperationKind::Ret => Operation::Ret,
            OperationKind::SkipEq(a, b) => Operation::SkipEq(a.specify(d0), b.specify(d1)),
            OperationKind::SkipNotEq(a, b) => Operation::SkipNotEq(a.specify(d0), b.specify(d1)),
            OperationKind::SkipKey(k) => Operation::SkipKey(k.specify(d0)),
            OperationKind::SkipNotKey(k) => Operation::SkipNotKey(k.specify(d0)),
            OperationKind::Add(d, a, b) => Operation::Add(
                d.specify(d0),
                a.specify(d1),
                b.specify(d2),
            ),
            OperationKind::Sub(d, a, b) => Operation::Sub(
                d.specify(d0),
                a.specify(d1),
                b.specify(d2),
            ),
            OperationKind::Or(d, a, b) => Operation::Or(d.specify(d0), a.specify(d1), b.specify(d2)),
            OperationKind::And(d, a, b) => Operation::And(
                d.specify(d0),
                a.specify(d1),
                b.specify(d2),
            ),
            OperationKind::Xor(d, a, b) => Operation::Xor(
                d.specify(d0),
                a.specify(d1),
                b.specify(d2),
            ),
            OperationKind::Shr(d, s) => Operation::Shr(d.specify(d0), s.specify(d1)),
            OperationKind::Shl(d, s) => Operation::Shl(d.specify(d0), s.specify(d1)),
            OperationKind::Rand(d, s, m) => Operation::Rand(
                d.specify(d0),
                s.specify(d1),
                m.specify(d2),
            ),
            OperationKind::Cls => Operation::Cls,
            OperationKind::Sprite(x, y, n) => Operation::Sprite(
                x.specify(d0),
                y.specify(d1),
                n.specify(d2),
            ),
            OperationKind::Font(g, f) => Operation::Font(g.specify(d0), f.specify(d1)),
            OperationKind::Bcd(s) => Operation::Bcd(s.specify(d0)),
            OperationKind::WaitKey(d, k) => Operation::WaitKey(d.specify(d0), k.specify(d1)),
        }
    }
}

/// The value of an argument slot after scanning only the first `n` nibbles.
pub open spec fn spec_slot_prefix(p: Pattern, cw: u16, slot: int, n: int) -> int
    decreases n,
{
    if n <= 0 {
        0
    } else {
        spec_slot_step(
            spec_slot_prefix(p, cw, slot, n - 1),
            p[n - 1],
            spec_nibble(cw, n - 1) as int,
            slot,
        )
    }
}

/// Each scanned nibble multiplies the running slot value by at most sixteen,
/// so after `n` nibbles the value stays under `16^n`.
pub proof fn lemma_slot_prefix_bound(p: Pattern, cw: u16, slot: int, n: int)
    requires
        0 <= n <= 4,
    ensures
        0 <= spec_slot_prefix(p, cw, slot, n) < pow16(n),
    decreases n,
{
    assert(spec_nibble(cw, 0) < 16 && spec_nibble(cw, 1) < 16 && spec_nibble(cw, 2) < 16
        && spec_nibble(cw, 3) < 16) by (bit_vector);
    if n > 0 {
        lemma_slot_prefix_bound(p, cw, slot, n - 1);
    }
}

/// Sixteen to the power of `n`, for the four nibble positions.
pub open spec fn pow16(n: int) -> int {
    if n <= 0 {
        1
    } else if n == 1 {
        16
    } else if n == 2 {
        256
    } else if n == 3 {
        4096
    } else {
        65536
    }
}

/// A compiled `(code, mask)` pair that recognizes the codewords of one
/// pattern.
#[derive(Copy, Clone, Debug)]
pub struct CodewordMatcher {
    /// The literal bits of the pattern.
    pub code: Codeword,
    /// The mask selecting the literal nibbles.
    pub mask: Codeword,
}

impl CodewordMatcher {
    /// Compiles a pattern into its `(code, mask)` pair.
    pub fn new(pattern: Pattern) -> (r: CodewordMatcher)
        ensures
            r.code == spec_code_of(pattern),
            r.mask == spec_mask_of(pattern),
    {
        let mut code: Codeword = 0;
        let mut mask: Codeword = 0;
        let mut pos: usize = 0;
        while pos < 4
            invariant
                pos <= 4,
                code == spec_code_prefix(pattern, pos as int),
                mask == spec_mask_prefix(pattern, pos as int),
            decreases 4 - pos,
        {
            code = code << 4;
            mask = mask << 4;
            match pattern[pos] {
                Coding::C(n) => {
                    code = code | (((n & 0xF) as Codeword));
                    mask = mask | 0xF;
                },
                _ => {},
            }
            pos = pos + 1;
        }
        proof {
            reveal_with_fuel(spec_code_prefix, 5);
            reveal_with_fuel(spec_mask_prefix, 5);
            assert(spec_code_prefix(pattern, 4) == spec_code_of(pattern));
            assert(spec_mask_prefix(pattern, 4) == spec_mask_of(pattern));
        }
        CodewordMatcher { code, mask }
    }

    /// Returns true if a given codeword matches this compiled pattern.
    pub fn is_match(&self, codeword: Codeword) -> (r: bool)
        ensures
            r == ((codeword & self.mask) == (self.code & self.mask)),
    {
        (codeword & self.mask) == (self.code & self.mask)
    }
}

/// The literal bits of a pattern's first `n` nibbles.
pub open spec fn spec_code_prefix(p: Pattern, n: int) -> u16
    decreases n,
{
    if n <= 0 {
        0
    } else {
        spec_code_step(spec_code_prefix(p, n - 1), p[n - 1])
    }
}

/// The mask of a pattern's first `n` nibbles.
pub open spec fn spec_mask_prefix(p: Pattern, n: int) -> u16
    decreases n,
{
    if n <= 0 {
        0
    } else {
        spec_mask_step(spec_mask_prefix(p, n - 1), p[n - 1])
    }
}

} // verus!
