//! The behavioral contract of every operation, stated over machine models.
//!
//! `spec_op_rel` relates the machine before an operation, the machine after
//! it, and the reported result. Operand loads are relational so that a
//! drawn random byte may be any value when no deterministic sequence was
//! supplied; everything after the loads is a function of the loaded values.
//! Operations that set the flag register write vF once, as their final
//! effect.

use vstd::prelude::*;

use crate::execute::{
    load1_err, load1_ok, load2_err, load2_ok, load3_err, load3_ok, spec_advanced_pc,
    spec_jump_rel, spec_pixel_index, spec_set_flag, spec_store, spec_store_rel, spec_with_pc,
    MachineModel,
};
use crate::fonts::CODE_SMALL;
use crate::operands::{Dest, Src};
use crate::operations::Operation;
use crate::types::{Chip8Error, Chip8Result};

verus! {

/// The result value stored by `Add`, and whether it carried.
pub open spec fn fin_add(
    ml: MachineModel,
    d: Dest,
    va: usize,
    vb: usize,
    m2: MachineModel,
    r: Chip8Result<()>,
) -> bool {
    match spec_store(ml, d, va + vb) {
        Result::Ok(ms) => m2 == spec_set_flag(ms, va + vb > 0xFF) && r == Chip8Result::<()>::Ok(
            (),
        ),
        Result::Err(e) => m2 == ml && r == Chip8Result::<()>::Err(e),
    }
}

/// The result stored by `Sub`: the difference modulo 256, with the flag
/// set exactly when no borrow occurred.
pub open spec fn fin_sub(
    ml: MachineModel,
    d: Dest,
    va: usize,
    vb: usize,
    m2: MachineModel,
    r: Chip8Result<()>,
) -> bool {
    match spec_store(ml, d, (va - vb) % 256) {
        Result::Ok(ms) => m2 == spec_set_flag(ms, va >= vb) && r == Chip8Result::<()>::Ok(()),
        Result::Err(e) => m2 == ml && r == Chip8Result::<()>::Err(e),
    }
}

/// The right shift stored by `Shr`, with the flag holding the old lowest
/// bit.
pub open spec fn fin_shr(
    ml: MachineModel,
    d: Dest,
    v: usize,
    m2: MachineModel,
    r: Chip8Result<()>,
) -> bool {
    match spec_store(ml, d, v as int / 2) {
        Result::Ok(ms) => m2 == spec_set_flag(ms, v % 2 == 1) && r == Chip8Result::<()>::Ok(()),
        Result::Err(e) => m2 == ml && r == Chip8Result::<()>::Err(e),
    }
}

/// The left shift stored by `Shl`, with the flag holding the old highest
/// bit of the eight-bit value.
pub open spec fn fin_shl(
    ml: MachineModel,
    d: Dest,
    v: usize,
    m2: MachineModel,
    r: Chip8Result<()>,
) -> bool {
    match spec_store(ml, d, v * 2) {
        Result::Ok(ms) => m2 == spec_set_flag(ms, (v / 128) % 2 == 1) && r == Chip8Result::<
            (),
        >::Ok(()),
        Result::Err(e) => m2 == ml && r == Chip8Result::<()>::Err(e),
    }
}

/// Advancing past the next instruction when a test holds.
pub open spec fn fin_skip(ml: MachineModel, cond: bool, m2: MachineModel, r: Chip8Result<()>) -> bool {
    &&& m2 == (if cond {
        spec_with_pc(ml, spec_advanced_pc(ml.pc))
    } else {
        ml
    })
    &&& r == Chip8Result::<()>::Ok(())
}

/// Skipping on a key's state: the key index must name one of the sixteen
/// keys; `want` is the key state that causes the skip.
pub open spec fn fin_skip_key(
    ml: MachineModel,
    key: usize,
    want: bool,
    m2: MachineModel,
    r: Chip8Result<()>,
) -> bool {
    if key >= 16 {
        m2 == ml && r == Chip8Result::<()>::Err(Chip8Error::OutOfBoundsAt(key))
    } else {
        fin_skip(ml, ml.keys[key as int] == want, m2, r)
    }
}

/// The address stored into I by `Font`: glyphs of the small font are five
/// bytes tall, glyphs of the big font ten.
pub open spec fn fin_font(
    ml: MachineModel,
    vf: usize,
    vg: usize,
    m2: MachineModel,
    r: Chip8Result<()>,
) -> bool {
    let addr = if vf == CODE_SMALL {
        ml.config.addr_font + vg * 5
    } else {
        ml.config.addr_font_big + vg * 10
    };
    spec_store_rel(ml, Dest::I, addr as int, m2, r)
}

/// The three decimal digits written by `Bcd` at I, I+1 and I+2, hundreds
/// first; a write past RAM aborts the sequence where it failed.
pub open spec fn fin_bcd(
    ml: MachineModel,
    val: usize,
    m2: MachineModel,
    r: Chip8Result<()>,
) -> bool {
    let i = ml.i as usize;
    match spec_store(ml, Dest::Address12(i), (val / 100) as int) {
        Result::Err(e) => m2 == ml && r == Chip8Result::<()>::Err(e),
        Result::Ok(m1) => match spec_store(m1, Dest::Address12((i + 1) as usize), ((val / 10) % 10) as int) {
            Result::Err(e) => m2 == m1 && r == Chip8Result::<()>::Err(e),
            Result::Ok(mm) => match spec_store(mm, Dest::Address12((i + 2) as usize), (val % 10) as int) {
                Result::Err(e) => m2 == mm && r == Chip8Result::<()>::Err(e),
                Result::Ok(mf) => m2 == mf && r == Chip8Result::<()>::Ok(()),
            },
        },
    }
}

/// The register index a `Stash`/`Fetch` range operand denotes: a register
/// operand or an injected constant; anything else cannot be consumed.
pub open spec fn spec_range_reg(s: Src) -> Option<usize> {
    match s {
        Src::Register(r) => Option::Some(r),
        Src::Const(n) => Option::Some(n),
        _ => Option::None,
    }
}

/// The RAM contents after `Stash` copies registers `r..=last` to
/// `i + off` onwards, or the error of the first failing access: each
/// iteration reads register `r`, then writes the RAM cell.
pub open spec fn spec_stash_from(
    ram: Seq<u8>,
    v: Seq<u8>,
    i: int,
    r: int,
    last: int,
    off: int,
) -> Result<Seq<u8>, Chip8Error>
    decreases last - r + 1,
{
    if r > last {
        Result::Ok(ram)
    } else if r >= 16 {
        Result::Err(Chip8Error::OutOfBoundsAt(r as usize))
    } else if i + off >= ram.len() {
        Result::Err(Chip8Error::OutOfBoundsAt((i + off) as usize))
    } else {
        spec_stash_from(ram.update(i + off, v[r]), v, i, r + 1, last, off + 1)
    }
}

/// The register contents after `Fetch` copies RAM cells `i + off` onwards
/// into registers `r..=last`, or the error of the first failing access:
/// each iteration reads the RAM cell, then writes register `r`.
pub open spec fn spec_fetch_from(
    ram: Seq<u8>,
    v: Seq<u8>,
    i: int,
    r: int,
    last: int,
    off: int,
) -> Result<Seq<u8>, Chip8Error>
    decreases last - r + 1,
{
    if r > last {
        Result::Ok(v)
    } else if i + off >= ram.len() {
        Result::Err(Chip8Error::OutOfBoundsAt((i + off) as usize))
    } else if r >= 16 {
        Result::Err(Chip8Error::OutOfBoundsAt(r as usize))
    } else {
        spec_fetch_from(ram, v.update(r, ram[i + off]), i, r + 1, last, off + 1)
    }
}

/// The number of registers a `Stash`/`Fetch` range covers.
pub open spec fn spec_range_count(first: int, last: int) -> int {
    if first > last {
        0
    } else {
        last - first + 1
    }
}

/// What `Stash` leaves behind once its range operands are resolved and the
/// flag operand is loaded: the copy runs register by register, and with
/// flag one a successful copy then advances I past the range.
pub open spec fn fin_stash(
    ml: MachineModel,
    first: usize,
    last: usize,
    flag: usize,
    m2: MachineModel,
    r: Chip8Result<()>,
) -> bool {
    match spec_stash_from(ml.ram, ml.v, ml.i as int, first as int, last as int, 0) {
        Result::Err(e) => {
            // the copy stops at its first failing access
            exists|k: int|
                0 <= k && ((#[trigger] spec_stash_from(
                    ml.ram,
                    ml.v,
                    ml.i as int,
                    first as int,
                    first as int + k - 1,
                    0,
                )) matches Result::Ok(partial) && m2 == (MachineModel { ram: partial, ..ml }) && r
                    == Chip8Result::<()>::Err(e))
        },
        Result::Ok(ram2) => {
            let mi = MachineModel { ram: ram2, ..ml };
            if flag == 1 {
                m2 == (MachineModel {
                    i: ((ml.i + spec_range_count(first as int, last as int)) % 0x10000) as u16,
                    ..mi
                }) && r == Chip8Result::<()>::Ok(())
            } else {
                m2 == mi && r == Chip8Result::<()>::Ok(())
            }
        },
    }
}

/// What `Fetch` leaves behind once its range operands are resolved and the
/// flag operand is loaded.
pub open spec fn fin_fetch(
    ml: MachineModel,
    first: usize,
    last: usize,
    flag: usize,
    m2: MachineModel,
    r: Chip8Result<()>,
) -> bool {
    match spec_fetch_from(ml.ram, ml.v, ml.i as int, first as int, last as int, 0) {
        Result::Err(e) => {
            exists|k: int|
                0 <= k && ((#[trigger] spec_fetch_from(
                    ml.ram,
                    ml.v,
                    ml.i as int,
                    first as int,
                    first as int + k - 1,
                    0,
                )) matches Result::Ok(partial) && m2 == (MachineModel { v: partial, ..ml }) && r
                    == Chip8Result::<()>::Err(e))
        },
        Result::Ok(v2) => {
            let mi = MachineModel { v: v2, ..ml };
            if flag == 1 {
                m2 == (MachineModel {
                    i: ((ml.i + spec_range_count(first as int, last as int)) % 0x10000) as u16,
                    ..mi
                }) && r == Chip8Result::<()>::Ok(())
            } else {
                m2 == mi && r == Chip8Result::<()>::Ok(())
            }
        },
    }
}

/// Two to the power of a bit position within a byte.
pub open spec fn spec_bit_pow(b: int) -> int {
    if b <= 0 {
        1
    } else if b == 1 {
        2
    } else if b == 2 {
        4
    } else if b == 3 {
        8
    } else if b == 4 {
        16
    } else if b == 5 {
        32
    } else if b == 6 {
        64
    } else {
        128
    }
}

/// The bit of a byte at the given position, lowest bit first.
pub open spec fn spec_bit(byte: u8, b: int) -> u8 {
    ((byte as int / spec_bit_pow(b)) % 2) as u8
}

/// The frame buffer and collision flag after XORing in the low `nbits`
/// bits of one sprite row byte: bit `b` lands at column `x + 7 - b`, so the
/// highest bit is leftmost, and a collision is a lit pixel erased by a lit
/// sprite bit.
pub open spec fn spec_draw_bits(
    vr: Seq<u8>,
    byte: u8,
    x: int,
    y: int,
    nbits: int,
) -> (Seq<u8>, bool)
    decreases nbits,
{
    if nbits <= 0 {
        (vr, false)
    } else {
        let prev = spec_draw_bits(vr, byte, x, y, nbits - 1);
        let b = nbits - 1;
        let p = spec_bit(byte, b);
        let ix = spec_pixel_index(x + 7 - b, y);
        (prev.0.update(ix, prev.0[ix] ^ p), prev.1 || (prev.0[ix] & p) != 0)
    }
}

/// The frame buffer and collision flag after drawing the first `nrows`
/// rows of a sprite whose bytes start at RAM address `i`.
pub open spec fn spec_draw_rows(
    vr: Seq<u8>,
    ram: Seq<u8>,
    i: int,
    x: int,
    y: int,
    nrows: int,
) -> (Seq<u8>, bool)
    decreases nrows,
{
    if nrows <= 0 {
        (vr, false)
    } else {
        let prev = spec_draw_rows(vr, ram, i, x, y, nrows - 1);
        let r = nrows - 1;
        let row = spec_draw_bits(prev.0, ram[i + r], x, y + r, 8);
        (row.0, prev.1 || row.1)
    }
}

/// What `Sprite` leaves behind once its coordinates and height are loaded:
/// the rows must lie in RAM, every sprite bit is XORed into the wrapped
/// frame buffer, and the flag records whether any lit pixel was erased.
pub open spec fn fin_sprite(
    ml: MachineModel,
    vx: usize,
    vy: usize,
    vn: usize,
    m2: MachineModel,
    r: Chip8Result<()>,
) -> bool {
    let i = ml.i as int;
    if vn > 0 && i + vn > ml.ram.len() {
        let bad = if i >= ml.ram.len() {
            i
        } else {
            ml.ram.len() as int
        };
        m2 == ml && r == Chip8Result::<()>::Err(Chip8Error::OutOfBoundsAt(bad as usize))
    } else {
        let drawn = spec_draw_rows(ml.vram, ml.ram, i, vx as int, vy as int, vn as int);
        m2 == spec_set_flag(MachineModel { vram: drawn.0, ..ml }, drawn.1) && r == Chip8Result::<
            (),
        >::Ok(())
    }
}

/// Whether a key index is selected by a `WaitKey` mask: the index must
/// contain every bit of the mask, so the degenerate mask zero selects all
/// sixteen keys.
pub open spec fn spec_key_selected(j: int, mask: usize) -> bool {
    ((j as usize) & mask) == mask
}

/// The smallest selected key at or after index `j` that is pressed now
/// but was released at the previous keyboard sample, or -1 when none is.
pub open spec fn spec_first_new_key(
    keys: Seq<bool>,
    prev: Seq<bool>,
    mask: usize,
    j: int,
) -> int
    decreases 16 - j,
{
    if j < 0 || j >= 16 {
        -1
    } else if keys[j] && !prev[j] && spec_key_selected(j, mask) {
        j
    } else {
        spec_first_new_key(keys, prev, mask, j + 1)
    }
}

/// What `WaitKey` leaves behind once its mask operand is loaded: a key of
/// the masked set that went from released to pressed since the previous
/// keyboard sample has its index stored in the destination, and the
/// observed transition is consumed by taking the current keyboard as the
/// new baseline; with no such transition, the program counter moves back
/// one instruction so that the fetch-execute loop retries, which blocks
/// the program until the host's next keyboard update presses a key.
pub open spec fn fin_wait_key(
    ml: MachineModel,
    d: Dest,
    mask: usize,
    m2: MachineModel,
    r: Chip8Result<()>,
) -> bool {
    let k = spec_first_new_key(ml.keys, ml.prev_keys, mask, 0);
    if k >= 0 {
        match spec_store(ml, d, k) {
            Result::Ok(ms) => m2 == (MachineModel { prev_keys: ml.keys, ..ms }) && r
                == Chip8Result::<()>::Ok(()),
            Result::Err(e) => m2 == ml && r == Chip8Result::<()>::Err(e),
        }
    } else {
        m2 == spec_with_pc(ml, (((ml.pc + 0x10000) - 2) % 0x10000) as u16) && r == Chip8Result::<
            (),
        >::Ok(())
    }
}

/// How executing one operation relates the machine before, the machine
/// after, and the reported result.
pub open spec fn spec_op_rel(
    op: Operation,
    m: MachineModel,
    m2: MachineModel,
    r: Chip8Result<()>,
) -> bool {
    match op {
        Operation::NoOp => m2 == m && r == Chip8Result::<()>::Ok(()),
        Operation::Load(d, s) => {
            ||| (exists|e: Chip8Error| (#[trigger] load1_err(m, s, m2, e)) && r == Chip8Result::<()>::Err(e))
            ||| (exists|v: usize, ml: MachineModel|
                (#[trigger] load1_ok(m, s, ml, v)) && spec_store_rel(ml, d, v as int, m2, r))
        },
        Operation::Stash(a, b, f) => rel_stash(m, a, b, f, m2, r),
        Operation::Fetch(a, b, f) => rel_fetch(m, a, b, f, m2, r),
        Operation::Jump(a) => {
            match a {
                Src::Address12(x) => spec_jump_rel(m, (x % 0x1000) as u16, m2, r),
                _ => m2 == m && r == Chip8Result::<()>::Err(Chip8Error::InvalidOperand),
            }
        },
        Operation::JumpV0(a) => {
            match a {
                Src::Address12(x) => {
                    let target = ((x % 0x1000) + m.v[0] as int) % (m.config.ram_bytes as int);
                    m2 == spec_with_pc(m, target as u16) && r == Chip8Result::<()>::Ok(())
                },
                _ => m2 == m && r == Chip8Result::<()>::Err(Chip8Error::InvalidOperand),
            }
        },
        Operation::Call(a) => {
            match a {
                Src::Address12(x) => {
                    if m.stack.len() >= m.config.stack_size {
                        m2 == m && r == Chip8Result::<()>::Err(
                            Chip8Error::OutOfBoundsAt(m.stack.len() as usize),
                        )
                    } else {
                        let m1 = MachineModel { stack: m.stack.push(m.pc), ..m };
                        spec_jump_rel(m1, (x % 0x1000) as u16, m2, r)
                    }
                },
                _ => m2 == m && r == Chip8Result::<()>::Err(Chip8Error::InvalidOperand),
            }
        },
        Operation::Ret => {
            if m.stack.len() == 0 {
                m2 == m && r == Chip8Result::<()>::Err(Chip8Error::PopEmptyStack)
            } else {
                let m1 = MachineModel { stack: m.stack.drop_last(), ..m };
                spec_jump_rel(m1, m.stack.last(), m2, r)
            }
        },
        Operation::SkipEq(a, b) => {
            ||| (exists|e: Chip8Error| (#[trigger] load2_err(m, a, b, m2, e)) && r == Chip8Result::<()>::Err(e))
            ||| (exists|va: usize, vb: usize, ml: MachineModel|
                (#[trigger] load2_ok(m, a, b, ml, va, vb)) && fin_skip(ml, va == vb, m2, r))
        },
        Operation::SkipNotEq(a, b) => {
            ||| (exists|e: Chip8Error| (#[trigger] load2_err(m, a, b, m2, e)) && r == Chip8Result::<()>::Err(e))
            ||| (exists|va: usize, vb: usize, ml: MachineModel|
                (#[trigger] load2_ok(m, a, b, ml, va, vb)) && fin_skip(ml, va != vb, m2, r))
        },
        Operation::SkipKey(k) => {
            ||| (exists|e: Chip8Error| (#[trigger] load1_err(m, k, m2, e)) && r == Chip8Result::<()>::Err(e))
            ||| (exists|v: usize, ml: MachineModel|
                (#[trigger] load1_ok(m, k, ml, v)) && fin_skip_key(ml, v, true, m2, r))
        },
        Operation::SkipNotKey(k) => {
            ||| (exists|e: Chip8Error| (#[trigger] load1_err(m, k, m2, e)) && r == Chip8Result::<()>::Err(e))
            ||| (exists|v: usize, ml: MachineModel|
                (#[trigger] load1_ok(m, k, ml, v)) && fin_skip_key(ml, v, false, m2, r))
        },
        Operation::Add(d, a, b) => {
            ||| (exists|e: Chip8Error| (#[trigger] load2_err(m, a, b, m2, e)) && r == Chip8Result::<()>::Err(e))
            ||| (exists|va: usize, vb: usize, ml: MachineModel|
                (#[trigger] load2_ok(m, a, b, ml, va, vb)) && fin_add(ml, d, va, vb, m2, r))
        },
        Operation::Sub(d, a, b) => {
            ||| (exists|e: Chip8Error| (#[trigger] load2_err(m, a, b, m2, e)) && r == Chip8Result::<()>::Err(e))
            ||| (exists|va: usize, vb: usize, ml: MachineModel|
                (#[trigger] load2_ok(m, a, b, ml, va, vb)) && fin_sub(ml, d, va, vb, m2, r))
        },
        Operation::Or(d, a, b) => {
            ||| (exists|e: Chip8Error| (#[trigger] load2_err(m, a, b, m2, e)) && r == Chip8Result::<()>::Err(e))
            ||| (exists|va: usize, vb: usize, ml: MachineModel|
                (#[trigger] load2_ok(m, a, b, ml, va, vb)) && spec_store_rel(ml, d, (va | vb) as int, m2, r))
        },
        Operation::And(d, a, b) => {
            ||| (exists|e: Chip8Error| (#[trigger] load2_err(m, a, b, m2, e)) && r == Chip8Result::<()>::Err(e))
            ||| (exists|va: usize, vb: usize, ml: MachineModel|
                (#[trigger] load2_ok(m, a, b, ml, va, vb)) && spec_store_rel(ml, d, (va & vb) as int, m2, r))
        },
        Operation::Xor(d, a, b) => {
            ||| (exists|e: Chip8Error| (#[trigger] load2_err(m, a, b, m2, e)) && r == Chip8Result::<()>::Err(e))
            ||| (exists|va: usize, vb: usize, ml: MachineModel|
                (#[trigger] load2_ok(m, a, b, ml, va, vb)) && spec_store_rel(ml, d, (va ^ vb) as int, m2, r))
        },
        Operation::Shr(d, s) => rel_shr(m, d, s, m2, r),
        Operation::Shl(d, s) => rel_shl(m, d, s, m2, r),
        Operation::Rand(d, s, mask) => {
            ||| (exists|e: Chip8Error|
                (#[trigger] load2_err(m, s, mask, m2, e)) && r == Chip8Result::<()>::Err(e))
            ||| (exists|vs: usize, vm: usize, ml: MachineModel|
                (#[trigger] load2_ok(m, s, mask, ml, vs, vm)) && spec_store_rel(ml, d, (vs & vm) as int, m2, r))
        },
        Operation::Cls => {
            &&& m2 == (MachineModel { vram: Seq::new(m.vram.len(), |j: int| 0u8), ..m })
            &&& r == Chip8Result::<()>::Ok(())
        },
        Operation::Sprite(x, y, n) => {
            ||| (exists|e: Chip8Error|
                (#[trigger] load3_err(m, x, y, n, m2, e)) && r == Chip8Result::<()>::Err(e))
            ||| (exists|vx: usize, vy: usize, vn: usize, ml: MachineModel|
                (#[trigger] load3_ok(m, x, y, n, ml, vx, vy, vn)) && fin_sprite(ml, vx, vy, vn, m2, r))
        },
        Operation::Font(g, f) => {
            ||| (exists|e: Chip8Error| (#[trigger] load2_err(m, f, g, m2, e)) && r == Chip8Result::<()>::Err(e))
            ||| (exists|vf: usize, vg: usize, ml: MachineModel|
                (#[trigger] load2_ok(m, f, g, ml, vf, vg)) && fin_font(ml, vf, vg, m2, r))
        },
        Operation::Bcd(s) => {
            ||| (exists|e: Chip8Error| (#[trigger] load1_err(m, s, m2, e)) && r == Chip8Result::<()>::Err(e))
            ||| (exists|v: usize, ml: MachineModel|
                (#[trigger] load1_ok(m, s, ml, v)) && fin_bcd(ml, v, m2, r))
        },
        Operation::WaitKey(d, k) => {
            ||| (exists|e: Chip8Error| (#[trigger] load1_err(m, k, m2, e)) && r == Chip8Result::<()>::Err(e))
            ||| (exists|v: usize, ml: MachineModel|
                (#[trigger] load1_ok(m, k, ml, v)) && fin_wait_key(ml, d, v, m2, r))
        },
    }
}



/// How `Stash` relates the machine before and after.
pub open spec fn rel_stash(m: MachineModel, a: Src, b: Src, f: Src, m2: MachineModel, r: Chip8Result<()>) -> bool {

            match (spec_range_reg(a), spec_range_reg(b)) {
                (Option::Some(first), Option::Some(last)) => {
                    ||| (exists|e: Chip8Error|
                        (#[trigger] load1_err(m, f, m2, e)) && r == Chip8Result::<()>::Err(e))
                    ||| (exists|vf: usize, ml: MachineModel|
                        (#[trigger] load1_ok(m, f, ml, vf)) && fin_stash(ml, first, last, vf, m2, r))
                },
                _ => m2 == m && r == Chip8Result::<()>::Err(Chip8Error::InvalidOperand),
            }
}

/// How `Fetch` relates the machine before and after.
pub open spec fn rel_fetch(m: MachineModel, a: Src, b: Src, f: Src, m2: MachineModel, r: Chip8Result<()>) -> bool {

            match (spec_range_reg(a), spec_range_reg(b)) {
                (Option::Some(first), Option::Some(last)) => {
                    ||| (exists|e: Chip8Error|
                        (#[trigger] load1_err(m, f, m2, e)) && r == Chip8Result::<()>::Err(e))
                    ||| (exists|vf: usize, ml: MachineModel|
                        (#[trigger] load1_ok(m, f, ml, vf)) && fin_fetch(ml, first, last, vf, m2, r))
                },
                _ => m2 == m && r == Chip8Result::<()>::Err(Chip8Error::InvalidOperand),
            }
}

/// The operand a shift reads: the source, or the destination register
/// itself when the shift quirk is on.
pub open spec fn shift_operand(m: MachineModel, d: Dest, s: Src) -> Option<Src> {
    if m.config.quirk_shift {
        shift_quirk_src(d)
    } else {
        Option::Some(s)
    }
}

/// How `Shr` relates the machine before and after.
pub open spec fn rel_shr(m: MachineModel, d: Dest, s: Src, m2: MachineModel, r: Chip8Result<()>) -> bool {
    if shift_operand(m, d, s) is None {
        m2 == m && r == Chip8Result::<()>::Err(Chip8Error::InvalidOperand)
    } else {
        let s2 = shift_operand(m, d, s).unwrap();
        ||| (exists|e: Chip8Error| (#[trigger] load1_err(m, s2, m2, e)) && r == Chip8Result::<()>::Err(e))
        ||| (exists|v: usize, ml: MachineModel|
            (#[trigger] load1_ok(m, s2, ml, v)) && fin_shr(ml, d, v, m2, r))
    }
}

/// How `Shl` relates the machine before and after.
pub open spec fn rel_shl(m: MachineModel, d: Dest, s: Src, m2: MachineModel, r: Chip8Result<()>) -> bool {
    if shift_operand(m, d, s) is None {
        m2 == m && r == Chip8Result::<()>::Err(Chip8Error::InvalidOperand)
    } else {
        let s2 = shift_operand(m, d, s).unwrap();
        ||| (exists|e: Chip8Error| (#[trigger] load1_err(m, s2, m2, e)) && r == Chip8Result::<()>::Err(e))
        ||| (exists|v: usize, ml: MachineModel|
            (#[trigger] load1_ok(m, s2, ml, v)) && fin_shl(ml, d, v, m2, r))
    }
}

/// The operand a shift reads when the shift quirk is on: the destination
/// register itself; a non-register destination cannot be read back.
pub open spec fn shift_quirk_src(d: Dest) -> Option<Src> {
    match d {
        Dest::Register(r) => Option::Some(Src::Register(r)),
        _ => Option::None,
    }
}

} // verus!
