//! Quantified properties of the operation semantics, proved once and for
//! all machines.

use vstd::prelude::*;

use crate::codec::{
    pow16, spec_code_of, spec_code_step, spec_feeds, spec_mask_of, spec_mask_step, spec_matches,
    spec_nibble, spec_slot, spec_slot_step, spec_specify, Coding, Definition, Pattern,
};
use crate::execute::{load1_err, load1_ok, load2_err, load2_ok, model_wf, MachineModel};
use crate::config::Config;
use crate::fonts::CODE_SMALL;
use crate::isa::{chip8_defs, superchip_defs, xochip_defs};
use crate::operands::{Dest, Src};
use crate::operations::{
    lemma_project_data_roundtrip, spec_kind_consumes, spec_op_data, spec_op_kind, Operation,
    OperationKind,
};
use crate::execute::spec_pixel_index;
use crate::semantics::{
    fin_add, fin_fetch, fin_font, fin_stash, spec_bit, spec_draw_bits, spec_draw_rows,
    spec_fetch_from, spec_op_rel, spec_stash_from,
};
use crate::set::{
    spec_count_after, spec_decode, spec_encode, spec_encode_from, spec_fill, spec_fill_nibble,
    spec_isa, spec_low_slot,
};
use crate::types::{Chip8Error, Chip8Result};

verus! {

/// After `Cls`, every pixel of the frame buffer is zero.
pub proof fn lemma_cls_clears(m: MachineModel, m2: MachineModel, r: Chip8Result<()>)
    requires
        spec_op_rel(Operation::Cls, m, m2, r),
    ensures
        r == Chip8Result::<()>::Ok(()),
        forall|p: int| 0 <= p < m2.vram.len() ==> m2.vram[p] == 0u8,
{
}

/// Adding the literal `b` into a register twice leaves the register at its
/// initial value plus `2 b`, modulo 256, and the flag records whether the
/// second addition carried. The flag register itself is excluded: it is
/// overwritten by the carry as the final effect of each addition.
pub proof fn lemma_add_twice(
    m0: MachineModel,
    m1: MachineModel,
    m2: MachineModel,
    r1: Chip8Result<()>,
    r2: Chip8Result<()>,
    x: usize,
    b: usize,
)
    requires
        model_wf(m0),
        x < 15,
        b < 256,
        spec_op_rel(
            Operation::Add(Dest::Register(x), Src::Register(x), Src::Literal8(b)),
            m0,
            m1,
            r1,
        ),
        spec_op_rel(
            Operation::Add(Dest::Register(x), Src::Register(x), Src::Literal8(b)),
            m1,
            m2,
            r2,
        ),
    ensures
        r1 == Chip8Result::<()>::Ok(()),
        r2 == Chip8Result::<()>::Ok(()),
        m2.v[x as int] == (m0.v[x as int] + 2 * b) % 256,
        m2.v[15] == (if (m0.v[x as int] + b) % 256 + b > 255 {
            1u8
        } else {
            0u8
        }),
{
    let sum1 = lemma_add_once(m0, m1, r1, x, b);
    let sum2 = lemma_add_once(m1, m2, r2, x, b);
    vstd::arithmetic::div_mod::lemma_add_mod_noop(m0.v[x as int] as int, b as int, 256);
    vstd::arithmetic::div_mod::lemma_mod_mod(m0.v[x as int] + b, 256, 256);
    assert((((m0.v[x as int] + b) % 256) + b) % 256 == (m0.v[x as int] + 2 * b) % 256) by {
        vstd::arithmetic::div_mod::lemma_add_mod_noop(
            (m0.v[x as int] + b) % 256,
            b as int,
            256,
        );
        vstd::arithmetic::div_mod::lemma_add_mod_noop(m0.v[x as int] + b, b as int, 256);
    }
}

/// One `Add` of a literal into a general register always succeeds: the
/// register takes the sum modulo 256 and the flag takes the carry.
proof fn lemma_add_once(
    m0: MachineModel,
    m1: MachineModel,
    r: Chip8Result<()>,
    x: usize,
    b: usize,
) -> (sum: int)
    requires
        model_wf(m0),
        x < 15,
        b < 256,
        spec_op_rel(
            Operation::Add(Dest::Register(x), Src::Register(x), Src::Literal8(b)),
            m0,
            m1,
            r,
        ),
    ensures
        r == Chip8Result::<()>::Ok(()),
        sum == m0.v[x as int] + b,
        m1.v.len() == 16,
        m1.v[x as int] == sum % 256,
        m1.v[15] == (if sum > 255 {
            1u8
        } else {
            0u8
        }),
        m1 == (MachineModel { v: m1.v, ..m0 }),
        model_wf(m1),
{
    let a = Src::Register(x);
    let l = Src::Literal8(b);
    let d = Dest::Register(x);
    let op = Operation::Add(d, a, l);
    if exists|e: Chip8Error| (#[trigger] load2_err(m0, a, l, m1, e)) && r == Chip8Result::<
        (),
    >::Err(e) {
        let e = choose|e: Chip8Error|
            (#[trigger] load2_err(m0, a, l, m1, e)) && r == Chip8Result::<()>::Err(e);
        if load1_err(m0, a, m1, e) {
            assert(false);
        } else {
            let (mm, va) = choose|mm: MachineModel, va: usize|
                (#[trigger] load1_ok(m0, a, mm, va)) && load1_err(mm, l, m1, e);
            assert(false);
        }
    }
    let (va, vb, ml) = choose|va: usize, vb: usize, ml: MachineModel|
        (#[trigger] load2_ok(m0, a, l, ml, va, vb)) && fin_add(ml, d, va, vb, m1, r);
    let mm = choose|mm: MachineModel| (#[trigger] load1_ok(m0, a, mm, va)) && load1_ok(mm, l, ml, vb);
    assert(va == m0.v[x as int] && mm == m0);
    assert(vb == b && ml == m0);
    m0.v[x as int] + b
}

/// Looking up a small-font glyph points I at five consecutive RAM bytes
/// holding the configured glyph bitmap for the digit in the register.
pub proof fn lemma_font_small(
    m: MachineModel,
    m2: MachineModel,
    r: Chip8Result<()>,
    x: usize,
    d: usize,
)
    requires
        model_wf(m),
        x < 16,
        d < 16,
        m.v[x as int] == d,
        forall|j: int|
            0 <= j < 80 ==> #[trigger] m.ram[m.config.addr_font + j] == m.config.font_small@[j],
        spec_op_rel(Operation::Font(Src::Register(x), Src::Const(CODE_SMALL)), m, m2, r),
    ensures
        r == Chip8Result::<()>::Ok(()),
        m2.i == m.config.addr_font + 5 * d,
        m2.ram == m.ram,
        forall|j: int| 0 <= j < 5 ==> #[trigger] m2.ram[m2.i + j] == m.config.font_small@[5 * d + j],
{
    let g = Src::Register(x);
    let f = Src::Const(CODE_SMALL);
    let op = Operation::Font(g, f);
    if exists|e: Chip8Error| (#[trigger] load2_err(m, f, g, m2, e)) && r == Chip8Result::<
        (),
    >::Err(e) {
        let e = choose|e: Chip8Error|
            (#[trigger] load2_err(m, f, g, m2, e)) && r == Chip8Result::<()>::Err(e);
        if load1_err(m, f, m2, e) {
            assert(false);
        } else {
            let (mm, vf) = choose|mm: MachineModel, vf: usize|
                (#[trigger] load1_ok(m, f, mm, vf)) && load1_err(mm, g, m2, e);
            assert(false);
        }
    }
    let (vf, vg, ml) = choose|vf: usize, vg: usize, ml: MachineModel|
        (#[trigger] load2_ok(m, f, g, ml, vf, vg)) && fin_font(ml, vf, vg, m2, r);
    let mm = choose|mm: MachineModel| (#[trigger] load1_ok(m, f, mm, vf)) && load1_ok(mm, g, ml, vg);
    assert(vf == CODE_SMALL && mm == m);
    assert(vg == d && ml == m);
    assert(m.config.addr_font + 5 * d < 0x10000);
    vstd::arithmetic::div_mod::lemma_small_mod((m.config.addr_font + 5 * d) as nat, 0x10000);
    assert forall|j: int| 0 <= j < 5 implies #[trigger] m2.ram[m2.i + j] == m.config.font_small@[5
        * d + j] by {
        assert(m.ram[m.config.addr_font + (5 * d + j)] == m.config.font_small@[5 * d + j]);
    }
}

/// The RAM a successful in-bounds `Stash` run produces: the copied cells
/// hold the registers of the range and every other cell is untouched.
proof fn lemma_stash_run(ram: Seq<u8>, v: Seq<u8>, i: int, a: int, b: int, off: int)
    requires
        0 <= i,
        0 <= off,
        0 <= a,
        b < 16,
        v.len() == 16,
        a <= b + 1,
        i + off + (b + 1 - a) <= ram.len(),
    ensures
        ({
            let res = spec_stash_from(ram, v, i, a, b, off);
            &&& res is Ok
            &&& res.unwrap().len() == ram.len()
            &&& forall|t: int| 0 <= t < b + 1 - a ==> #[trigger] res.unwrap()[i + off + t] == v[a
                + t]
            &&& forall|p: int|
                0 <= p < ram.len() && !(i + off <= p < i + off + (b + 1 - a))
                    ==> #[trigger] res.unwrap()[p] == ram[p]
        }),
    decreases b + 1 - a,
{
    if a > b {
    } else {
        let ram1 = ram.update(i + off, v[a]);
        lemma_stash_run(ram1, v, i, a + 1, b, off + 1);
        let res = spec_stash_from(ram, v, i, a, b, off);
        assert(res == spec_stash_from(ram1, v, i, a + 1, b, off + 1));
        assert forall|t: int| 0 <= t < b + 1 - a implies #[trigger] res.unwrap()[i + off + t] == v[a
            + t] by {
            if t == 0 {
                assert(res.unwrap()[i + off] == ram1[i + off]);
            } else {
                assert(res.unwrap()[i + off + 1 + (t - 1)] == v[a + 1 + (t - 1)]);
            }
        }
        assert forall|p: int|
            0 <= p < ram.len() && !(i + off <= p < i + off + (b + 1 - a)) implies #[trigger] res.unwrap()[p]
            == ram[p] by {
            assert(res.unwrap()[p] == ram1[p]);
        }
    }
}

/// The registers a successful in-bounds `Fetch` run produces: the range
/// takes the RAM cells and every other register is untouched.
proof fn lemma_fetch_run(ram: Seq<u8>, v: Seq<u8>, i: int, a: int, b: int, off: int)
    requires
        0 <= i,
        0 <= off,
        0 <= a,
        b < 16,
        v.len() == 16,
        a <= b + 1,
        i + off + (b + 1 - a) <= ram.len(),
    ensures
        ({
            let res = spec_fetch_from(ram, v, i, a, b, off);
            &&& res is Ok
            &&& res.unwrap().len() == 16
            &&& forall|t: int| 0 <= t < b + 1 - a ==> #[trigger] res.unwrap()[a + t] == ram[i + off
                + t]
            &&& forall|q: int| 0 <= q < 16 && !(a <= q <= b) ==> #[trigger] res.unwrap()[q] == v[q]
        }),
    decreases b + 1 - a,
{
    if a > b {
    } else {
        let v1 = v.update(a, ram[i + off]);
        lemma_fetch_run(ram, v1, i, a + 1, b, off + 1);
        let res = spec_fetch_from(ram, v, i, a, b, off);
        assert(res == spec_fetch_from(ram, v1, i, a + 1, b, off + 1));
        assert forall|t: int| 0 <= t < b + 1 - a implies #[trigger] res.unwrap()[a + t] == ram[i
            + off + t] by {
            if t == 0 {
                assert(res.unwrap()[a] == v1[a]);
            } else {
                assert(res.unwrap()[a + 1 + (t - 1)] == ram[i + off + 1 + (t - 1)]);
            }
        }
        assert forall|q: int| 0 <= q < 16 && !(a <= q <= b) implies #[trigger] res.unwrap()[q] == v[q] by {
            assert(res.unwrap()[q] == v1[q]);
        }
    }
}

/// `Stash` followed by `Fetch` over the same register range, with flag
/// zero and the same I, restores every register: the round trip is the
/// identity on the register file.
pub proof fn lemma_stash_fetch_roundtrip(
    m0: MachineModel,
    m1: MachineModel,
    m2: MachineModel,
    r1: Chip8Result<()>,
    r2: Chip8Result<()>,
    first: usize,
    last: usize,
)
    requires
        model_wf(m0),
        first <= last < 16,
        m0.i + (last - first + 1) <= m0.ram.len(),
        spec_op_rel(
            Operation::Stash(Src::Register(first), Src::Register(last), Src::Const(0)),
            m0,
            m1,
            r1,
        ),
        spec_op_rel(
            Operation::Fetch(Src::Register(first), Src::Register(last), Src::Const(0)),
            m1,
            m2,
            r2,
        ),
    ensures
        r1 == Chip8Result::<()>::Ok(()),
        r2 == Chip8Result::<()>::Ok(()),
        m2.v == m0.v,
        m2.i == m0.i,
        m2.pc == m0.pc,
{
    let fl = Src::Const(0);
    // the stash
    if exists|e: Chip8Error| (#[trigger] load1_err(m0, fl, m1, e)) && r1 == Chip8Result::<
        (),
    >::Err(e) {
        let e = choose|e: Chip8Error|
            (#[trigger] load1_err(m0, fl, m1, e)) && r1 == Chip8Result::<()>::Err(e);
        assert(false);
    }
    let (vf1, ml1) = choose|vf: usize, ml: MachineModel|
        (#[trigger] load1_ok(m0, fl, ml, vf)) && fin_stash(ml, first, last, vf, m1, r1);
    assert(vf1 == 0 && ml1 == m0);
    lemma_stash_run(m0.ram, m0.v, m0.i as int, first as int, last as int, 0);
    let ram1 = spec_stash_from(
        m0.ram,
        m0.v,
        m0.i as int,
        first as int,
        last as int,
        0,
    ).unwrap();
    assert(m1 == (MachineModel { ram: ram1, ..m0 }));
    // the fetch
    if exists|e: Chip8Error| (#[trigger] load1_err(m1, fl, m2, e)) && r2 == Chip8Result::<
        (),
    >::Err(e) {
        let e = choose|e: Chip8Error|
            (#[trigger] load1_err(m1, fl, m2, e)) && r2 == Chip8Result::<()>::Err(e);
        assert(false);
    }
    let (vf2, ml2) = choose|vf: usize, ml: MachineModel|
        (#[trigger] load1_ok(m1, fl, ml, vf)) && fin_fetch(ml, first, last, vf, m2, r2);
    assert(vf2 == 0 && ml2 == m1);
    lemma_fetch_run(m1.ram, m1.v, m1.i as int, first as int, last as int, 0);
    let v2 = spec_fetch_from(
        m1.ram,
        m1.v,
        m1.i as int,
        first as int,
        last as int,
        0,
    ).unwrap();
    assert(m2 == (MachineModel { v: v2, ..m1 }));
    assert forall|q: int| 0 <= q < 16 implies v2[q] == m0.v[q] by {
        if first <= q <= last {
            let t = q - first;
            assert(v2[first as int + t] == m1.ram[m1.i as int + t]);
            assert(ram1[m0.i as int + t] == m0.v[first as int + t]);
        } else {
            assert(v2[q] == m1.v[q]);
        }
    }
    assert(v2 =~= m0.v);
}

/// The nibble of a codeword is a four-bit value.
proof fn lemma_nibble_bound(cw: u16, pos: int)
    ensures
        0 <= spec_nibble(cw, pos) < 16,
{
    assert((cw >> 12) & 0xF < 16 && (cw >> 8) & 0xF < 16 && (cw >> 4) & 0xF < 16 && cw & 0xF
        < 16) by (bit_vector);
}

/// A codeword is the base-sixteen composition of its four nibbles.
proof fn lemma_nibble_decomposition(cw: u16)
    ensures
        cw == spec_nibble(cw, 0) * 4096 + spec_nibble(cw, 1) * 256 + spec_nibble(cw, 2) * 16
            + spec_nibble(cw, 3),
{
    assert(cw == (((cw >> 12) & 0xF) * 4096 + ((cw >> 8) & 0xF) * 256 + ((cw >> 4) & 0xF) * 16 + (
    cw & 0xF)) as u16) by (bit_vector);
    lemma_nibble_bound(cw, 0);
    lemma_nibble_bound(cw, 1);
    lemma_nibble_bound(cw, 2);
    lemma_nibble_bound(cw, 3);
}

/// Appending a four-bit value to an accumulator below 0x1000 is base
/// sixteen arithmetic.
proof fn lemma_shl4_or(acc: u16, x: u16)
    requires
        acc < 0x1000,
        x < 0x10,
    ensures
        ((acc << 4) | x) == acc * 16 + x,
{
    assert(((acc << 4) | x) == acc * 16 + x) by (bit_vector)
        requires
            acc < 0x1000 && x < 0x10,
    ;
}

/// One compile step in base-sixteen form: the accumulator shifts up one
/// nibble and the coding's contribution lands in the low four bits.
proof fn lemma_step_arith(acc: u16, c: Coding)
    requires
        acc < 0x1000,
    ensures
        spec_code_step(acc, c) == acc * 16 + spec_cnib(c),
        spec_mask_step(acc, c) == acc * 16 + spec_mnib(c),
{
    match c {
        Coding::C(n) => {
            assert(n & 0xF < 16) by (bit_vector);
            lemma_shl4_or(acc, (n & 0xF) as u16);
            lemma_shl4_or(acc, 0xF);
        },
        _ => {
            assert((acc << 4) == acc * 16) by (bit_vector)
                requires
                    acc < 0x1000,
            ;
        },
    }
}

/// The literal nibble a coding contributes to the compiled code.
pub open spec fn spec_cnib(c: Coding) -> u16 {
    match c {
        Coding::C(n) => (n & 0xF) as u16,
        _ => 0,
    }
}

/// The nibble a coding contributes to the compiled mask.
pub open spec fn spec_mnib(c: Coding) -> u16 {
    match c {
        Coding::C(_) => 0xF,
        _ => 0,
    }
}

/// The compiled code and mask of a pattern are the base-sixteen
/// compositions of their per-coding nibbles.
proof fn lemma_code_mask_nibbles(p: Pattern)
    ensures
        spec_code_of(p) == spec_cnib(p[0]) * 4096 + spec_cnib(p[1]) * 256 + spec_cnib(p[2]) * 16
            + spec_cnib(p[3]),
        spec_mask_of(p) == spec_mnib(p[0]) * 4096 + spec_mnib(p[1]) * 256 + spec_mnib(p[2]) * 16
            + spec_mnib(p[3]),
        forall|i: int| 0 <= i < 4 ==> spec_cnib(#[trigger] p[i]) < 16,
        forall|i: int| 0 <= i < 4 ==> spec_mnib(#[trigger] p[i]) == 0 || spec_mnib(p[i]) == 0xF,
{
    assert forall|i: int| 0 <= i < 4 implies spec_cnib(#[trigger] p[i]) < 16 by {
        match p[i] {
            Coding::C(n) => {
                assert(n & 0xF < 16) by (bit_vector);
            },
            _ => {},
        }
    }
    let c0 = spec_cnib(p[0]);
    let c1 = spec_cnib(p[1]);
    let c2 = spec_cnib(p[2]);
    let c3 = spec_cnib(p[3]);
    let m0 = spec_mnib(p[0]);
    let m1 = spec_mnib(p[1]);
    let m2 = spec_mnib(p[2]);
    let m3 = spec_mnib(p[3]);
    let s1 = spec_code_step(0, p[0]);
    let s2 = spec_code_step(s1, p[1]);
    let s3 = spec_code_step(s2, p[2]);
    lemma_step_arith(0, p[0]);
    assert(s1 == c0);
    lemma_step_arith(s1, p[1]);
    assert(s2 == c0 * 16 + c1);
    lemma_step_arith(s2, p[2]);
    assert(s3 == (c0 * 16 + c1) * 16 + c2);
    lemma_step_arith(s3, p[3]);
    assert(spec_code_of(p) == ((c0 * 16 + c1) * 16 + c2) * 16 + c3);
    let t1 = spec_mask_step(0, p[0]);
    let t2 = spec_mask_step(t1, p[1]);
    let t3 = spec_mask_step(t2, p[2]);
    lemma_step_arith(0, p[0]);
    assert(t1 == m0);
    lemma_step_arith(t1, p[1]);
    assert(t2 == m0 * 16 + m1);
    lemma_step_arith(t2, p[2]);
    assert(t3 == (m0 * 16 + m1) * 16 + m2);
    lemma_step_arith(t3, p[3]);
    assert(spec_mask_of(p) == ((m0 * 16 + m1) * 16 + m2) * 16 + m3);
}

/// A codeword matching a pattern carries each literal nibble of the
/// pattern verbatim.
proof fn lemma_match_nibble(p: Pattern, cw: u16, pos: int, n: u8)
    requires
        spec_matches(p, cw),
        0 <= pos < 4,
        p[pos] == Coding::C(n),
    ensures
        spec_nibble(cw, pos) == (n & 0xF) as u16,
{
    lemma_code_mask_nibbles(p);
    let c0 = spec_cnib(p[0]);
    let c1 = spec_cnib(p[1]);
    let c2 = spec_cnib(p[2]);
    let c3 = spec_cnib(p[3]);
    let m0 = spec_mnib(p[0]);
    let m1 = spec_mnib(p[1]);
    let m2 = spec_mnib(p[2]);
    let m3 = spec_mnib(p[3]);
    let code = spec_code_of(p);
    let mask = spec_mask_of(p);
    if pos == 0 {
        assert((cw >> 12) & 0xF == c0) by (bit_vector)
            requires
                cw & mask == code & mask,
                code == c0 * 4096 + c1 * 256 + c2 * 16 + c3,
                mask == 0xF * 4096 + m1 * 256 + m2 * 16 + m3,
                c0 < 16 && c1 < 16 && c2 < 16 && c3 < 16,
                (m1 == 0 || m1 == 0xF) && (m2 == 0 || m2 == 0xF) && (m3 == 0 || m3 == 0xF),
        ;
    } else if pos == 1 {
        assert((cw >> 8) & 0xF == c1) by (bit_vector)
            requires
                cw & mask == code & mask,
                code == c0 * 4096 + c1 * 256 + c2 * 16 + c3,
                mask == m0 * 4096 + 0xF * 256 + m2 * 16 + m3,
                c0 < 16 && c1 < 16 && c2 < 16 && c3 < 16,
                (m0 == 0 || m0 == 0xF) && (m2 == 0 || m2 == 0xF) && (m3 == 0 || m3 == 0xF),
        ;
    } else if pos == 2 {
        assert((cw >> 4) & 0xF == c2) by (bit_vector)
            requires
                cw & mask == code & mask,
                code == c0 * 4096 + c1 * 256 + c2 * 16 + c3,
                mask == m0 * 4096 + m1 * 256 + 0xF * 16 + m3,
                c0 < 16 && c1 < 16 && c2 < 16 && c3 < 16,
                (m0 == 0 || m0 == 0xF) && (m1 == 0 || m1 == 0xF) && (m3 == 0 || m3 == 0xF),
        ;
    } else {
        assert(cw & 0xF == c3) by (bit_vector)
            requires
                cw & mask == code & mask,
                code == c0 * 4096 + c1 * 256 + c2 * 16 + c3,
                mask == m0 * 4096 + m1 * 256 + m2 * 16 + 0xF,
                c0 < 16 && c1 < 16 && c2 < 16 && c3 < 16,
                (m0 == 0 || m0 == 0xF) && (m1 == 0 || m1 == 0xF) && (m2 == 0 || m2 == 0xF),
        ;
    }
}

/// Base sixteen division: appending a nibble and dividing it away are
/// inverses.
proof fn lemma_base16(a: int, b: int)
    requires
        0 <= a,
        0 <= b < 16,
    ensures
        (a * 16 + b) / 16 == a,
        (a * 16 + b) % 16 == b,
{
    assert((a * 16 + b) / 16 == a && (a * 16 + b) % 16 == b) by (nonlinear_arith)
        requires
            0 <= a && 0 <= b < 16,
    ;
}

/// The slot value extracted by a pattern hands back each contributing
/// nibble: dividing by sixteen once for every later contribution isolates
/// the nibble a position appended.
proof fn lemma_slot_nibble(p: Pattern, cw: u16, pos: int, k: int)
    requires
        0 <= pos < 4,
        spec_feeds(p[pos], k),
    ensures
        (spec_slot(p, cw, k) / pow16(spec_count_after(p, k, pos))) % 16 == spec_nibble(
            cw,
            pos,
        ) as int,
{
    lemma_nibble_bound(cw, 0);
    lemma_nibble_bound(cw, 1);
    lemma_nibble_bound(cw, 2);
    lemma_nibble_bound(cw, 3);
    let n0 = spec_nibble(cw, 0) as int;
    let n1 = spec_nibble(cw, 1) as int;
    let n2 = spec_nibble(cw, 2) as int;
    let n3 = spec_nibble(cw, 3) as int;
    let s1 = spec_slot_step(0, p[0], n0, k);
    let s2 = spec_slot_step(s1, p[1], n1, k);
    let s3 = spec_slot_step(s2, p[2], n2, k);
    let s4 = spec_slot_step(s3, p[3], n3, k);
    assert(spec_slot(p, cw, k) == s4);
    assert(0 <= s1 <= 15 && 0 <= s2 <= 255 && 0 <= s3 <= 4095 && 0 <= s4 <= 65535);
    let f1 = spec_feeds(p[1], k);
    let f2 = spec_feeds(p[2], k);
    let f3 = spec_feeds(p[3], k);
    if pos == 3 {
        assert(spec_count_after(p, k, 3) == 0);
        assert(s4 == s3 * 16 + n3);
        lemma_base16(s3, n3);
    } else if pos == 2 {
        assert(s3 == s2 * 16 + n2);
        if f3 {
            assert(s4 == s3 * 16 + n3);
            lemma_base16(s3, n3);
            lemma_base16(s2, n2);
        } else {
            assert(s4 == s3);
            lemma_base16(s2, n2);
        }
    } else if pos == 1 {
        assert(s2 == s1 * 16 + n1);
        lemma_base16(s1, n1);
        if f2 && f3 {
            assert(s3 == s2 * 16 + n2 && s4 == s3 * 16 + n3);
            lemma_base16(s3, n3);
            lemma_base16(s2, n2);
            vstd::arithmetic::div_mod::lemma_div_denominator(s4, 16, 16);
            assert(s4 / 256 == s2);
        } else if f2 {
            assert(s3 == s2 * 16 + n2 && s4 == s3);
            lemma_base16(s2, n2);
        } else if f3 {
            assert(s3 == s2 && s4 == s3 * 16 + n3);
            lemma_base16(s2, n3);
        } else {
            assert(s4 == s2);
        }
    } else {
        assert(s1 == n0);
        lemma_base16(0, n0);
        if f1 && f2 && f3 {
            assert(s2 == n0 * 16 + n1 && s3 == s2 * 16 + n2 && s4 == s3 * 16 + n3);
            lemma_base16(s3, n3);
            lemma_base16(s2, n2);
            lemma_base16(s1, n1);
            vstd::arithmetic::div_mod::lemma_div_denominator(s4, 16, 16);
            assert(s4 / 256 == s2);
            vstd::arithmetic::div_mod::lemma_div_denominator(s4, 256, 16);
            assert(s4 / 4096 == s2 / 16);
        } else if f1 && f2 {
            assert(s2 == n0 * 16 + n1 && s3 == s2 * 16 + n2 && s4 == s3);
            lemma_base16(s2, n2);
            lemma_base16(s1, n1);
            vstd::arithmetic::div_mod::lemma_div_denominator(s4, 16, 16);
            assert(s4 / 256 == s2 / 16);
        } else if f1 && f3 {
            assert(s2 == n0 * 16 + n1 && s3 == s2 && s4 == s3 * 16 + n3);
            lemma_base16(s2, n3);
            lemma_base16(s1, n1);
            vstd::arithmetic::div_mod::lemma_div_denominator(s4, 16, 16);
            assert(s4 / 256 == s2 / 16);
        } else if f2 && f3 {
            assert(s2 == s1 && s3 == s2 * 16 + n2 && s4 == s3 * 16 + n3);
            lemma_base16(s3, n3);
            lemma_base16(s2, n2);
            vstd::arithmetic::div_mod::lemma_div_denominator(s4, 16, 16);
            assert(s4 / 256 == s2);
        } else if f1 {
            assert(s4 == n0 * 16 + n1);
            lemma_base16(n0, n1);
        } else if f2 {
            assert(s4 == n0 * 16 + n2);
            lemma_base16(n0, n2);
        } else if f3 {
            assert(s4 == n0 * 16 + n3);
            lemma_base16(n0, n3);
        } else {
            assert(s4 == n0);
        }
    }
}


/// An extracted argument slot fits in sixteen bits.
proof fn lemma_slot_bound(p: Pattern, cw: u16, k: int)
    ensures
        0 <= spec_slot(p, cw, k) <= 0xFFFF,
{
    lemma_nibble_bound(cw, 0);
    lemma_nibble_bound(cw, 1);
    lemma_nibble_bound(cw, 2);
    lemma_nibble_bound(cw, 3);
}

/// A definition the encoder can always invert: literal nibbles fit in four
/// bits, no nibble is ignored, and every argument coding's lowest slot is
/// consumed verbatim by the corresponding operand of the operation kind.
pub open spec fn def_encodable(def: Definition) -> bool {
    forall|pos: int|
        0 <= pos < 4 ==> match #[trigger] def.pattern[pos] {
            Coding::C(n) => n <= 0xF,
            Coding::A(m) => 1 <= m <= 0xF && 0 <= spec_low_slot(m) <= 2 && spec_kind_consumes(
                def.op,
                spec_low_slot(m),
            ),
            Coding::X => false,
        }
}

/// Filling a definition's pattern with the operands decoded from a
/// matching codeword rebuilds that codeword exactly.
proof fn lemma_fill_extract_identity(def: Definition, cw: u16)
    requires
        def_encodable(def),
        spec_matches(def.pattern, cw),
    ensures
        spec_fill(def, spec_specify(def, cw)) == cw,
{
    let p = def.pattern;
    let op = spec_specify(def, cw);
    let d0 = spec_slot(p, cw, 0);
    let d1 = spec_slot(p, cw, 1);
    let d2 = spec_slot(p, cw, 2);
    lemma_slot_bound(p, cw, 0);
    lemma_slot_bound(p, cw, 1);
    lemma_slot_bound(p, cw, 2);
    lemma_project_data_roundtrip(def.op, d0 as usize, d1 as usize, d2 as usize);
    assert forall|pos: int|
        0 <= pos < 4 implies spec_fill_nibble(def, op, pos) == spec_nibble(cw, pos) as int by {
        match p[pos] {
            Coding::C(n) => {
                lemma_match_nibble(p, cw, pos, n);
            },
            Coding::A(m) => {
                let k = spec_low_slot(m);
                assert(spec_feeds(p[pos], k));
                assert(spec_op_data(op, k) as int == spec_slot(p, cw, k));
                lemma_slot_nibble(p, cw, pos, k);
            },
            Coding::X => {
                assert(false);
            },
        }
    }
    lemma_nibble_decomposition(cw);
}

/// An encoding the search accepts decodes back to its operation.
proof fn lemma_encode_from_sound(all: Seq<Definition>, rest: Seq<Definition>, op: Operation)
    requires
        spec_encode_from(all, rest, op) is Some,
    ensures
        spec_decode(all, spec_encode_from(all, rest, op).unwrap()) == Option::Some(op),
    decreases rest.len(),
{
    if rest.len() == 0 {
    } else {
        let cand = spec_fill(rest[0], op);
        if rest[0].op == spec_op_kind(op) && spec_decode(all, cand) == Option::Some(op) {
        } else {
            lemma_encode_from_sound(all, rest.skip(1), op);
        }
    }
}

/// The search succeeds whenever some definition of the operation's kind
/// fills to a codeword that decodes back to the operation.
proof fn lemma_encode_from_complete(
    all: Seq<Definition>,
    rest: Seq<Definition>,
    op: Operation,
    j: int,
)
    requires
        0 <= j < rest.len(),
        rest[j].op == spec_op_kind(op),
        spec_decode(all, spec_fill(rest[j], op)) == Option::Some(op),
    ensures
        spec_encode_from(all, rest, op) is Some,
    decreases rest.len(),
{
    let cand = spec_fill(rest[0], op);
    if rest[0].op == spec_op_kind(op) && spec_decode(all, cand) == Option::Some(op) {
    } else {
        assert(j != 0);
        assert(rest.skip(1)[j - 1] == rest[j]);
        lemma_encode_from_complete(all, rest.skip(1), op, j - 1);
    }
}

/// A decodable codeword has a first matching definition, and decoding
/// specifies exactly that definition.
proof fn lemma_decode_witness(defs: Seq<Definition>, cw: u16)
    requires
        spec_decode(defs, cw) is Some,
    ensures
        exists|j: int|
            0 <= j < defs.len() && spec_matches((#[trigger] defs[j]).pattern, cw) && spec_decode(
                defs,
                cw,
            ) == Option::Some(spec_specify(defs[j], cw)),
    decreases defs.len(),
{
    if spec_matches(defs[0].pattern, cw) {
        assert(0 <= 0 < defs.len() && spec_matches((defs[0]).pattern, cw) && spec_decode(defs, cw)
            == Option::Some(spec_specify(defs[0], cw)));
    } else {
        lemma_decode_witness(defs.skip(1), cw);
        let j = choose|j: int|
            0 <= j < defs.skip(1).len() && spec_matches(
                (#[trigger] defs.skip(1)[j]).pattern,
                cw,
            ) && spec_decode(defs.skip(1), cw) == Option::Some(
                spec_specify(defs.skip(1)[j], cw),
            );
        assert(defs.skip(1)[j] == defs[j + 1]);
        assert(0 <= j + 1 < defs.len() && spec_matches((defs[j + 1]).pattern, cw) && spec_decode(
            defs,
            cw,
        ) == Option::Some(spec_specify(defs[j + 1], cw)));
    }
}

/// A decodable codeword whose first matching definition is invertible
/// round-trips: encoding its operation succeeds and decodes back to it.
proof fn lemma_roundtrip_at(defs: Seq<Definition>, cw: u16, j: int)
    requires
        0 <= j < defs.len(),
        spec_matches(defs[j].pattern, cw),
        spec_decode(defs, cw) == Option::Some(spec_specify(defs[j], cw)),
        def_encodable(defs[j]),
    ensures
        spec_encode(defs, spec_decode(defs, cw).unwrap()) is Some,
        spec_decode(defs, spec_encode(defs, spec_decode(defs, cw).unwrap()).unwrap())
            == spec_decode(defs, cw),
{
    let op = spec_decode(defs, cw).unwrap();
    let d = defs[j];
    lemma_slot_bound(d.pattern, cw, 0);
    lemma_slot_bound(d.pattern, cw, 1);
    lemma_slot_bound(d.pattern, cw, 2);
    lemma_project_data_roundtrip(
        d.op,
        spec_slot(d.pattern, cw, 0) as usize,
        spec_slot(d.pattern, cw, 1) as usize,
        spec_slot(d.pattern, cw, 2) as usize,
    );
    assert(spec_op_kind(op) == d.op);
    lemma_fill_extract_identity(d, cw);
    assert(spec_fill(d, op) == cw);
    lemma_encode_from_complete(defs, defs, op, j);
    lemma_encode_from_sound(defs, defs, op);
}

/// For every decodable codeword in a set of invertible definitions, the
/// decoded operation has an encoding, and that encoding decodes back to
/// the same operation: decode of encode of decode is decode.
pub proof fn lemma_decode_encode_roundtrip(defs: Seq<Definition>, cw: u16)
    requires
        forall|j: int| 0 <= j < defs.len() ==> def_encodable(#[trigger] defs[j]),
        spec_decode(defs, cw) is Some,
    ensures
        spec_encode(defs, spec_decode(defs, cw).unwrap()) is Some,
        spec_decode(defs, spec_encode(defs, spec_decode(defs, cw).unwrap()).unwrap())
            == spec_decode(defs, cw),
{
    lemma_decode_witness(defs, cw);
    let j = choose|j: int|
        0 <= j < defs.len() && spec_matches((#[trigger] defs[j]).pattern, cw) && spec_decode(
            defs,
            cw,
        ) == Option::Some(spec_specify(defs[j], cw));
    lemma_roundtrip_at(defs, cw, j);
}

/// The lowest slot of each argument mask the tables use.
proof fn lemma_small_masks()
    ensures
        spec_low_slot(1) == 0,
        spec_low_slot(2) == 1,
        spec_low_slot(3) == 0,
        spec_low_slot(4) == 2,
        spec_low_slot(5) == 0,
{
    assert(1usize & 1 != 0) by (bit_vector);
    assert(2usize & 1 == 0 && 2usize & 2 != 0) by (bit_vector);
    assert(3usize & 1 != 0) by (bit_vector);
    assert(4usize & 1 == 0 && 4usize & 2 == 0 && 4usize & 4 != 0) by (bit_vector);
    assert(5usize & 1 != 0) by (bit_vector);
}

/// Every definition of the three instruction tables is invertible, or is
/// a placeholder whose operation is `NoOp`.
#[verifier::rlimit(100)]
proof fn lemma_tables_encodable()
    ensures
        forall|j: int| 0 <= j < chip8_defs().len() ==> def_encodable(#[trigger] chip8_defs()[j]),
        forall|j: int|
            0 <= j < superchip_defs().len() ==> def_encodable(#[trigger] superchip_defs()[j])
                || superchip_defs()[j].op == OperationKind::NoOp,
        forall|j: int|
            0 <= j < xochip_defs().len() ==> def_encodable(#[trigger] xochip_defs()[j])
                || xochip_defs()[j].op == OperationKind::NoOp,
{
    assert forall|j: int|
        0 <= j < chip8_defs().len() implies def_encodable(#[trigger] chip8_defs()[j]) by {
        lemma_small_masks();
        assert(def_encodable(chip8_defs()[0]));
        assert(def_encodable(chip8_defs()[1]));
        assert(def_encodable(chip8_defs()[2]));
        assert(def_encodable(chip8_defs()[3]));
        assert(def_encodable(chip8_defs()[4]));
        assert(def_encodable(chip8_defs()[5]));
        assert(def_encodable(chip8_defs()[6]));
        assert(def_encodable(chip8_defs()[7]));
        assert(def_encodable(chip8_defs()[8]));
        assert(def_encodable(chip8_defs()[9]));
        assert(def_encodable(chip8_defs()[10]));
        assert(def_encodable(chip8_defs()[11]));
        assert(def_encodable(chip8_defs()[12]));
        assert(def_encodable(chip8_defs()[13]));
        assert(def_encodable(chip8_defs()[14]));
        assert(def_encodable(chip8_defs()[15]));
        assert(def_encodable(chip8_defs()[16]));
        assert(def_encodable(chip8_defs()[17]));
        assert(def_encodable(chip8_defs()[18]));
        assert(def_encodable(chip8_defs()[19]));
        assert(def_encodable(chip8_defs()[20]));
        assert(def_encodable(chip8_defs()[21]));
        assert(def_encodable(chip8_defs()[22]));
        assert(def_encodable(chip8_defs()[23]));
        assert(def_encodable(chip8_defs()[24]));
        assert(def_encodable(chip8_defs()[25]));
        assert(def_encodable(chip8_defs()[26]));
        assert(def_encodable(chip8_defs()[27]));
        assert(def_encodable(chip8_defs()[28]));
        assert(def_encodable(chip8_defs()[29]));
        assert(def_encodable(chip8_defs()[30]));
        assert(def_encodable(chip8_defs()[31]));
        assert(def_encodable(chip8_defs()[32]));
        assert(def_encodable(chip8_defs()[33]));
        assert(def_encodable(chip8_defs()[34]));
    }
    assert forall|j: int|
        0 <= j < superchip_defs().len() implies def_encodable(#[trigger] superchip_defs()[j])
            || superchip_defs()[j].op == OperationKind::NoOp by {
        lemma_small_masks();
        assert(def_encodable(superchip_defs()[0]) || superchip_defs()[0].op == OperationKind::NoOp);
        assert(def_encodable(superchip_defs()[1]) || superchip_defs()[1].op == OperationKind::NoOp);
        assert(def_encodable(superchip_defs()[2]) || superchip_defs()[2].op == OperationKind::NoOp);
        assert(def_encodable(superchip_defs()[3]) || superchip_defs()[3].op == OperationKind::NoOp);
        assert(def_encodable(superchip_defs()[4]) || superchip_defs()[4].op == OperationKind::NoOp);
        assert(def_encodable(superchip_defs()[5]) || superchip_defs()[5].op == OperationKind::NoOp);
        assert(def_encodable(superchip_defs()[6]) || superchip_defs()[6].op == OperationKind::NoOp);
        assert(def_encodable(superchip_defs()[7]) || superchip_defs()[7].op == OperationKind::NoOp);
        assert(def_encodable(superchip_defs()[8]) || superchip_defs()[8].op == OperationKind::NoOp);
    }
    assert forall|j: int|
        0 <= j < xochip_defs().len() implies def_encodable(#[trigger] xochip_defs()[j])
            || xochip_defs()[j].op == OperationKind::NoOp by {
        lemma_small_masks();
        assert(def_encodable(xochip_defs()[0]) || xochip_defs()[0].op == OperationKind::NoOp);
        assert(def_encodable(xochip_defs()[1]) || xochip_defs()[1].op == OperationKind::NoOp);
        assert(def_encodable(xochip_defs()[2]) || xochip_defs()[2].op == OperationKind::NoOp);
        assert(def_encodable(xochip_defs()[3]) || xochip_defs()[3].op == OperationKind::NoOp);
        assert(def_encodable(xochip_defs()[4]) || xochip_defs()[4].op == OperationKind::NoOp);
        assert(def_encodable(xochip_defs()[5]) || xochip_defs()[5].op == OperationKind::NoOp);
    }
}

/// A `NoOp` operation filled through any definition yields exactly the
/// definition's literal code, which that definition matches.
proof fn lemma_noop_fill_is_code(w: Definition)
    ensures
        spec_fill(w, Operation::NoOp) == spec_code_of(w.pattern),
        spec_matches(w.pattern, spec_code_of(w.pattern)),
{
    lemma_code_mask_nibbles(w.pattern);
    assert forall|pos: int|
        0 <= pos < 4 implies spec_fill_nibble(w, Operation::NoOp, pos) == spec_cnib(
        #[trigger] w.pattern[pos],
    ) as int by {
        match w.pattern[pos] {
            Coding::C(n) => {},
            Coding::X => {},
            Coding::A(m) => {
                let k = spec_low_slot(m);
                assert(spec_op_data(Operation::NoOp, k) == 0);
                let pw = pow16(spec_count_after(w.pattern, k, pos));
                assert(pw >= 1);
                assert(0int / pw == 0) by (nonlinear_arith)
                    requires
                        pw >= 1,
                ;
            },
        }
    }
}

/// Every definition of an enabled instruction set is invertible or a
/// `NoOp` placeholder.
proof fn lemma_isa_def_classification(c: Config, j: int)
    requires
        0 <= j < spec_isa(c).len(),
    ensures
        def_encodable(spec_isa(c)[j]) || spec_isa(c)[j].op == OperationKind::NoOp,
{
    lemma_tables_encodable();
    let t1 = if c.isa_chip8 {
        chip8_defs()
    } else {
        Seq::<Definition>::empty()
    };
    let t2 = if c.isa_superchip {
        superchip_defs()
    } else {
        Seq::<Definition>::empty()
    };
    let t3 = if c.isa_xochip {
        xochip_defs()
    } else {
        Seq::<Definition>::empty()
    };
    assert(spec_isa(c) == t1 + t2 + t3);
    if j < t1.len() {
        assert(spec_isa(c)[j] == t1[j]);
    } else if j < t1.len() + t2.len() {
        assert(spec_isa(c)[j] == t2[j - t1.len()]);
    } else {
        assert(spec_isa(c)[j] == t3[j - t1.len() - t2.len()]);
    }
}

/// In a set whose first definition is a `NoOp` placeholder, the `NoOp`
/// operation encodes through that very definition.
proof fn lemma_noop_encodes_first(defs: Seq<Definition>)
    requires
        defs.len() > 0,
        defs[0].op == OperationKind::NoOp,
    ensures
        spec_encode(defs, Operation::NoOp) is Some,
{
    let op = Operation::NoOp;
    let w = defs[0];
    lemma_noop_fill_is_code(w);
    let cand = spec_fill(w, op);
    assert(spec_matches(w.pattern, cand));
    assert(spec_decode(defs, cand) == Option::Some(spec_specify(defs[0], cand)));
    assert(spec_specify(defs[0], cand) == Operation::NoOp);
    lemma_encode_from_complete(defs, defs, op, 0);
}

/// With only the XO-CHIP table enabled, the `NoOp` operation encodes
/// through the table's all-literal placeholder.
proof fn lemma_noop_encodes_xochip(c: Config)
    requires
        !c.isa_chip8,
        !c.isa_superchip,
        c.isa_xochip,
    ensures
        spec_encode(spec_isa(c), Operation::NoOp) is Some,
{
    let op = Operation::NoOp;
    let defs = spec_isa(c);
    assert(defs =~= xochip_defs());
    let w = defs[2];
    assert(w == xochip_defs()[2]);
    lemma_noop_fill_is_code(w);
    let cand = spec_fill(w, op);
    assert(cand == spec_code_of(w.pattern));
    lemma_code_mask_nibbles(defs[0].pattern);
    lemma_code_mask_nibbles(defs[1].pattern);
    lemma_code_mask_nibbles(w.pattern);
    assert(spec_cnib(Coding::C(0xF)) == 0xF && spec_cnib(Coding::C(0x5)) == 0x5 && spec_cnib(
        Coding::C(0x2),
    ) == 0x2 && spec_cnib(Coding::C(0x3)) == 0x3 && spec_cnib(Coding::C(0x0)) == 0x0)
        by (bit_vector);
    assert(cand == 0xF000);
    assert(spec_mask_of(defs[0].pattern) == 0xF00F);
    assert(spec_code_of(defs[0].pattern) == 0x5002);
    assert((0xF000u16 & 0xF00Fu16) != (0x5002u16 & 0xF00Fu16)) by (bit_vector);
    assert(!spec_matches(defs[0].pattern, cand));
    assert(spec_mask_of(defs[1].pattern) == 0xF00F);
    assert(spec_code_of(defs[1].pattern) == 0x5003);
    assert((0xF000u16 & 0xF00Fu16) != (0x5003u16 & 0xF00Fu16)) by (bit_vector);
    assert(!spec_matches(defs[1].pattern, cand));
    assert(spec_decode(defs, cand) == spec_decode(defs.skip(1), cand));
    assert(defs.skip(1)[0] == defs[1]);
    assert(spec_decode(defs.skip(1), cand) == spec_decode(defs.skip(1).skip(1), cand));
    assert(defs.skip(1).skip(1) =~= defs.skip(2));
    assert(defs.skip(2)[0] == defs[2]);
    assert(spec_matches(w.pattern, cand));
    assert(spec_decode(defs.skip(2), cand) == Option::Some(spec_specify(defs[2], cand)));
    assert(spec_specify(defs[2], cand) == Operation::NoOp);
    assert(spec_decode(defs, cand) == Option::Some(op));
    lemma_encode_from_complete(defs, defs, op, 2);
}

/// The `NoOp` operation encodes in every enabled instruction set.
proof fn lemma_noop_encodes(c: Config)
    requires
        spec_isa(c).len() > 0,
    ensures
        spec_encode(spec_isa(c), Operation::NoOp) is Some,
{
    let defs = spec_isa(c);
    let t1 = if c.isa_chip8 {
        chip8_defs()
    } else {
        Seq::<Definition>::empty()
    };
    let t2 = if c.isa_superchip {
        superchip_defs()
    } else {
        Seq::<Definition>::empty()
    };
    let t3 = if c.isa_xochip {
        xochip_defs()
    } else {
        Seq::<Definition>::empty()
    };
    assert(defs == t1 + t2 + t3);
    if c.isa_chip8 {
        assert(defs[0] == chip8_defs()[0]);
        lemma_noop_encodes_first(defs);
    } else if c.isa_superchip {
        assert(defs[0] == superchip_defs()[0]);
        lemma_noop_encodes_first(defs);
    } else if c.isa_xochip {
        lemma_noop_encodes_xochip(c);
    } else {
        assert(false);
    }
}

/// For every decodable codeword of an enabled instruction set, and the
/// operation it decodes to, there is an encoding, and decoding that
/// encoding yields the operation back.
pub proof fn lemma_isa_decode_encode_roundtrip(c: Config, cw: u16)
    requires
        spec_decode(spec_isa(c), cw) is Some,
    ensures
        spec_encode(spec_isa(c), spec_decode(spec_isa(c), cw).unwrap()) is Some,
        spec_decode(spec_isa(c), spec_encode(spec_isa(c), spec_decode(spec_isa(c), cw).unwrap()).unwrap())
            == spec_decode(spec_isa(c), cw),
{
    let defs = spec_isa(c);
    lemma_decode_witness(defs, cw);
    let j = choose|j: int|
        0 <= j < defs.len() && spec_matches((#[trigger] defs[j]).pattern, cw) && spec_decode(
            defs,
            cw,
        ) == Option::Some(spec_specify(defs[j], cw));
    let d = defs[j];
    lemma_isa_def_classification(c, j);
    if def_encodable(d) {
        lemma_roundtrip_at(defs, cw, j);
    } else {
        let op = spec_decode(defs, cw).unwrap();
        assert(op == spec_specify(d, cw));
        assert(op == Operation::NoOp);
        lemma_noop_encodes(c);
        lemma_encode_from_sound(defs, defs, op);
    }
}


/// Two distinct offsets within a window narrower than the modulus land on
/// distinct wrapped values.
proof fn lemma_mod_distinct(a: int, b: int, m: int)
    requires
        0 <= a < b,
        b - a < m,
        0 < m,
    ensures
        a % m != b % m,
{
    vstd::arithmetic::div_mod::lemma_fundamental_div_mod(a, m);
    vstd::arithmetic::div_mod::lemma_fundamental_div_mod(b, m);
    let qa = a / m;
    let ra = a % m;
    let qb = b / m;
    let rb = b % m;
    assert(a == m * qa + ra);
    assert(b == m * qb + rb);
    if ra == rb {
        assert(b - a == m * (qb - qa)) by (nonlinear_arith)
            requires
                a == m * qa + ra,
                b == m * qb + rb,
                ra == rb,
        ;
        assert(false) by (nonlinear_arith)
            requires
                b - a == m * (qb - qa),
                0 < b - a < m,
        ;
    }
}

/// Two distinct bit offsets of one sprite row hit distinct pixels.
proof fn lemma_row_pixels_distinct(x: int, y: int, b1: int, b2: int)
    requires
        0 <= x,
        0 <= y,
        0 <= b1 < 8,
        0 <= b2 < 8,
        b1 != b2,
    ensures
        spec_pixel_index(x + 7 - b1, y) != spec_pixel_index(x + 7 - b2, y),
{
    vstd::arithmetic::div_mod::lemma_mod_division_less_than_divisor(x + 7 - b1, 64);
    vstd::arithmetic::div_mod::lemma_mod_division_less_than_divisor(x + 7 - b2, 64);
    vstd::arithmetic::div_mod::lemma_mod_division_less_than_divisor(y, 32);
    if b1 < b2 {
        lemma_mod_distinct(x + 7 - b2, x + 7 - b1, 64);
    } else {
        lemma_mod_distinct(x + 7 - b1, x + 7 - b2, 64);
    }
}

/// What drawing the low bits of one sprite row byte does, pixel by pixel:
/// pixels off the row are untouched, each drawn pixel is the XOR of the
/// old pixel and its sprite bit, and a collision is recorded exactly when
/// some lit sprite bit lands on a lit pixel.
proof fn lemma_draw_bits_char(vr: Seq<u8>, byte: u8, x: int, y: int, nb: int)
    requires
        0 <= nb <= 8,
        vr.len() == 2048,
        0 <= x,
        0 <= y,
    ensures
        spec_draw_bits(vr, byte, x, y, nb).0.len() == 2048,
        forall|p: int|
            0 <= p < 2048 && !(exists|b: int|
                0 <= b < nb && p == #[trigger] spec_pixel_index(x + 7 - b, y)) ==> #[trigger] spec_draw_bits(
                vr,
                byte,
                x,
                y,
                nb,
            ).0[p] == vr[p],
        forall|b: int|
            0 <= b < nb ==> #[trigger] spec_draw_bits(vr, byte, x, y, nb).0[spec_pixel_index(
                x + 7 - b,
                y,
            )] == vr[spec_pixel_index(x + 7 - b, y)] ^ spec_bit(byte, b),
        spec_draw_bits(vr, byte, x, y, nb).1 == exists|b: int|
            0 <= b < nb && vr[spec_pixel_index(x + 7 - b, y)] & spec_bit(byte, b) != 0,
    decreases nb,
{
    vstd::arithmetic::div_mod::lemma_mod_division_less_than_divisor(y, 32);
    if nb == 0 {
    } else {
        lemma_draw_bits_char(vr, byte, x, y, nb - 1);
        let prev = spec_draw_bits(vr, byte, x, y, nb - 1);
        let cur = spec_draw_bits(vr, byte, x, y, nb);
        let bn = nb - 1;
        let ix = spec_pixel_index(x + 7 - bn, y);
        vstd::arithmetic::div_mod::lemma_mod_division_less_than_divisor(x + 7 - bn, 64);
        assert(0 <= ix < 2048);
        // earlier bits hit other pixels, so the drawn pixel is untouched
        assert forall|b: int| 0 <= b < bn implies ix != #[trigger] spec_pixel_index(x + 7 - b, y) by {
            lemma_row_pixels_distinct(x, y, bn, b);
        }
        assert(prev.0[ix] == vr[ix]);
        assert(cur.0 == prev.0.update(ix, prev.0[ix] ^ spec_bit(byte, bn)));
        // untouched pixels
        assert forall|p: int|
            0 <= p < 2048 && !(exists|b: int|
                0 <= b < nb && p == #[trigger] spec_pixel_index(x + 7 - b, y)) implies #[trigger] cur.0[p]
            == vr[p] by {
            assert(!(exists|b: int| 0 <= b < nb - 1 && p == #[trigger] spec_pixel_index(x + 7 - b, y)));
            assert(p != ix);
        }
        // drawn pixels
        assert forall|b: int|
            0 <= b < nb implies #[trigger] cur.0[spec_pixel_index(x + 7 - b, y)] == vr[
        spec_pixel_index(x + 7 - b, y)] ^ spec_bit(byte, b) by {
            if b == bn {
            } else {
                lemma_row_pixels_distinct(x, y, bn, b);
            }
        }
        // collision flag
        if prev.1 {
            let b = choose|b: int|
                0 <= b < nb - 1 && vr[spec_pixel_index(x + 7 - b, y)] & spec_bit(byte, b) != 0;
            assert(0 <= b < nb && vr[spec_pixel_index(x + 7 - b, y)] & spec_bit(byte, b) != 0);
        } else if prev.0[ix] & spec_bit(byte, bn) != 0 {
            assert(0 <= bn < nb && vr[spec_pixel_index(x + 7 - bn, y)] & spec_bit(byte, bn) != 0);
        } else {
            if exists|b: int|
                0 <= b < nb && vr[spec_pixel_index(x + 7 - b, y)] & spec_bit(byte, b) != 0 {
                let b = choose|b: int|
                    0 <= b < nb && vr[spec_pixel_index(x + 7 - b, y)] & spec_bit(byte, b) != 0;
                assert(b < nb - 1 || b == bn);
                assert(false);
            }
        }
    }
}


/// Two distinct sprite bits, by bit offset and row, hit distinct pixels,
/// as long as the sprite is at most thirty-two rows tall.
proof fn lemma_sprite_pixels_distinct(x: int, y: int, k1: int, r1: int, k2: int, r2: int)
    requires
        0 <= x,
        0 <= y,
        0 <= k1 < 8,
        0 <= k2 < 8,
        0 <= r1 < 32,
        0 <= r2 < 32,
        k1 != k2 || r1 != r2,
    ensures
        spec_pixel_index(x + k1, y + r1) != spec_pixel_index(x + k2, y + r2),
{
    vstd::arithmetic::div_mod::lemma_mod_division_less_than_divisor(x + k1, 64);
    vstd::arithmetic::div_mod::lemma_mod_division_less_than_divisor(x + k2, 64);
    vstd::arithmetic::div_mod::lemma_mod_division_less_than_divisor(y + r1, 32);
    vstd::arithmetic::div_mod::lemma_mod_division_less_than_divisor(y + r2, 32);
    if r1 != r2 {
        if r1 < r2 {
            lemma_mod_distinct(y + r1, y + r2, 32);
        } else {
            lemma_mod_distinct(y + r2, y + r1, 32);
        }
    } else {
        if k1 < k2 {
            lemma_mod_distinct(x + k1, x + k2, 64);
        } else {
            lemma_mod_distinct(x + k2, x + k1, 64);
        }
    }
}

/// What drawing a whole sprite does, pixel by pixel: pixels off the
/// sprite are untouched, each sprite bit is XORed into its wrapped pixel,
/// and a collision is recorded exactly when some lit sprite bit lands on
/// a lit pixel.
proof fn lemma_draw_rows_char(vr: Seq<u8>, ram: Seq<u8>, i: int, x: int, y: int, n: int)
    requires
        0 <= n <= 15,
        vr.len() == 2048,
        0 <= x,
        0 <= y,
    ensures
        spec_draw_rows(vr, ram, i, x, y, n).0.len() == 2048,
        forall|p: int|
            0 <= p < 2048 && !(exists|k: int, rr: int|
                0 <= k < 8 && 0 <= rr < n && p == #[trigger] spec_pixel_index(x + k, y + rr))
                ==> #[trigger] spec_draw_rows(vr, ram, i, x, y, n).0[p] == vr[p],
        forall|k: int, rr: int|
            0 <= k < 8 && 0 <= rr < n ==> #[trigger] spec_draw_rows(vr, ram, i, x, y, n).0[
        spec_pixel_index(x + k, y + rr)] == vr[spec_pixel_index(x + k, y + rr)] ^ spec_bit(
                ram[i + rr],
                7 - k,
            ),
        spec_draw_rows(vr, ram, i, x, y, n).1 == exists|k: int, rr: int|
            0 <= k < 8 && 0 <= rr < n && vr[#[trigger] spec_pixel_index(x + k, y + rr)] & spec_bit(
                ram[i + rr],
                7 - k,
            ) != 0,
    decreases n,
{
    if n == 0 {
    } else {
        lemma_draw_rows_char(vr, ram, i, x, y, n - 1);
        let prev = spec_draw_rows(vr, ram, i, x, y, n - 1);
        let cur = spec_draw_rows(vr, ram, i, x, y, n);
        let rn = n - 1;
        let byte = ram[i + rn];
        lemma_draw_bits_char(prev.0, byte, x, y + rn, 8);
        let row = spec_draw_bits(prev.0, byte, x, y + rn, 8);
        assert(cur.0 == row.0 && cur.1 == (prev.1 || row.1));
        // a pixel of the new row was untouched by the earlier rows
        assert forall|k: int|
            0 <= k < 8 implies #[trigger] prev.0[spec_pixel_index(x + k, y + rn)] == vr[
        spec_pixel_index(x + k, y + rn)] by {
            assert forall|k2: int, rr2: int|
                0 <= k2 < 8 && 0 <= rr2 < rn implies spec_pixel_index(x + k, y + rn)
                    != #[trigger] spec_pixel_index(x + k2, y + rr2) by {
                lemma_sprite_pixels_distinct(x, y, k, rn, k2, rr2);
            }
        }
        // untouched pixels stay untouched
        assert forall|p: int|
            0 <= p < 2048 && !(exists|k: int, rr: int|
                0 <= k < 8 && 0 <= rr < n && p == #[trigger] spec_pixel_index(x + k, y + rr))
            implies #[trigger] cur.0[p] == vr[p] by {
            assert(!(exists|k: int, rr: int|
                0 <= k < 8 && 0 <= rr < rn && p == #[trigger] spec_pixel_index(x + k, y + rr)));
            assert(prev.0[p] == vr[p]);
            assert forall|b: int| 0 <= b < 8 implies p != #[trigger] spec_pixel_index(
                x + 7 - b,
                y + rn,
            ) by {
                assert(p != spec_pixel_index(x + (7 - b), y + rn));
            }
            assert(cur.0[p] == prev.0[p]);
        }
        // each sprite bit is XORed into its wrapped pixel
        assert forall|k: int, rr: int|
            0 <= k < 8 && 0 <= rr < n implies #[trigger] cur.0[spec_pixel_index(x + k, y + rr)]
            == vr[spec_pixel_index(x + k, y + rr)] ^ spec_bit(ram[i + rr], 7 - k) by {
            let ix = spec_pixel_index(x + k, y + rr);
            if rr == rn {
                assert(row.0[spec_pixel_index(x + 7 - (7 - k), y + rn)] == prev.0[
                spec_pixel_index(x + 7 - (7 - k), y + rn)] ^ spec_bit(byte, 7 - k));
                assert(prev.0[ix] == vr[ix]);
            } else {
                assert(prev.0[ix] == vr[ix] ^ spec_bit(ram[i + rr], 7 - k));
                assert forall|b: int| 0 <= b < 8 implies ix != #[trigger] spec_pixel_index(
                    x + 7 - b,
                    y + rn,
                ) by {
                    lemma_sprite_pixels_distinct(x, y, k, rr, 7 - b, rn);
                }
                assert(cur.0[ix] == prev.0[ix]);
            }
        }
        // the collision flag accumulates exactly the lit-on-lit bits
        if prev.1 {
            let (k, rr) = choose|k: int, rr: int|
                0 <= k < 8 && 0 <= rr < rn && vr[#[trigger] spec_pixel_index(x + k, y + rr)]
                    & spec_bit(ram[i + rr], 7 - k) != 0;
            assert(0 <= k < 8 && 0 <= rr < n && vr[spec_pixel_index(x + k, y + rr)] & spec_bit(
                ram[i + rr],
                7 - k,
            ) != 0);
        } else if row.1 {
            let b = choose|b: int|
                0 <= b < 8 && prev.0[spec_pixel_index(x + 7 - b, y + rn)] & spec_bit(byte, b) != 0;
            let k = 7 - b;
            assert(prev.0[spec_pixel_index(x + k, y + rn)] == vr[spec_pixel_index(x + k, y + rn)]);
            assert(0 <= k < 8 && 0 <= rn < n && vr[spec_pixel_index(x + k, y + rn)] & spec_bit(
                ram[i + rn],
                7 - k,
            ) != 0);
        } else {
            if exists|k: int, rr: int|
                0 <= k < 8 && 0 <= rr < n && vr[#[trigger] spec_pixel_index(x + k, y + rr)]
                    & spec_bit(ram[i + rr], 7 - k) != 0 {
                let (k, rr) = choose|k: int, rr: int|
                    0 <= k < 8 && 0 <= rr < n && vr[#[trigger] spec_pixel_index(x + k, y + rr)]
                        & spec_bit(ram[i + rr], 7 - k) != 0;
                if rr < rn {
                    assert(false);
                } else {
                    assert(rr == rn);
                    let b = 7 - k;
                    assert(prev.0[spec_pixel_index(x + 7 - b, y + rn)] == vr[spec_pixel_index(
                        x + k,
                        y + rn,
                    )]);
                    assert(prev.0[spec_pixel_index(x + 7 - b, y + rn)] & spec_bit(byte, b) != 0);
                    assert(false);
                }
            }
        }
    }
}

/// After a sprite draw of at most fifteen rows over a frame buffer of
/// zero-or-one pixels, every changed pixel lies at a wrapped sprite
/// coordinate, and the collision flag is one exactly when some pixel went
/// from lit to unlit.
pub proof fn lemma_sprite_characterization(
    vr: Seq<u8>,
    ram: Seq<u8>,
    i: int,
    x: int,
    y: int,
    n: int,
)
    requires
        0 <= n <= 15,
        vr.len() == 2048,
        0 <= x,
        0 <= y,
        forall|p: int| 0 <= p < 2048 ==> #[trigger] vr[p] <= 1,
    ensures
        forall|p: int|
            0 <= p < 2048 && #[trigger] spec_draw_rows(vr, ram, i, x, y, n).0[p] != vr[p]
                ==> exists|k: int, rr: int|
                0 <= k < 8 && 0 <= rr < n && p == #[trigger] spec_pixel_index(x + k, y + rr),
        spec_draw_rows(vr, ram, i, x, y, n).1 <==> exists|p: int|
            0 <= p < 2048 && #[trigger] spec_draw_rows(vr, ram, i, x, y, n).0[p] == 0 && vr[p]
                == 1,
{
    lemma_draw_rows_char(vr, ram, i, x, y, n);
    let res = spec_draw_rows(vr, ram, i, x, y, n);
    assert forall|p: int| 0 <= p < 2048 && #[trigger] res.0[p] != vr[p] implies exists|k: int, rr: int|
        0 <= k < 8 && 0 <= rr < n && p == #[trigger] spec_pixel_index(x + k, y + rr) by {
        if !(exists|k: int, rr: int|
            0 <= k < 8 && 0 <= rr < n && p == #[trigger] spec_pixel_index(x + k, y + rr)) {
            assert(res.0[p] == vr[p]);
        }
    }
    if res.1 {
        let (k, rr) = choose|k: int, rr: int|
            0 <= k < 8 && 0 <= rr < n && vr[#[trigger] spec_pixel_index(x + k, y + rr)] & spec_bit(
                ram[i + rr],
                7 - k,
            ) != 0;
        let ix = spec_pixel_index(x + k, y + rr);
        vstd::arithmetic::div_mod::lemma_mod_division_less_than_divisor(x + k, 64);
        vstd::arithmetic::div_mod::lemma_mod_division_less_than_divisor(y + rr, 32);
        let old_px = vr[ix];
        let bit = spec_bit(ram[i + rr], 7 - k);
        assert(bit <= 1);
        assert(old_px == 1 && bit == 1) by (bit_vector)
            requires
                old_px & bit != 0 && old_px <= 1 && bit <= 1,
        ;
        assert(1u8 ^ 1u8 == 0u8) by (bit_vector);
        assert(res.0[ix] == 0 && vr[ix] == 1);
    }
    if exists|p: int| 0 <= p < 2048 && #[trigger] res.0[p] == 0 && vr[p] == 1 {
        let p = choose|p: int| 0 <= p < 2048 && #[trigger] res.0[p] == 0 && vr[p] == 1;
        assert(res.0[p] != vr[p]);
        let (k, rr) = choose|k: int, rr: int|
            0 <= k < 8 && 0 <= rr < n && p == #[trigger] spec_pixel_index(x + k, y + rr);
        let bit = spec_bit(ram[i + rr], 7 - k);
        assert(res.0[p] == vr[p] ^ bit);
        let old_px = vr[p];
        assert(bit <= 1);
        assert(old_px & bit != 0) by (bit_vector)
            requires
                old_px ^ bit == 0 && old_px == 1 && bit <= 1,
        ;
        assert(res.1);
    }
}


} // verus!
