//! Generic implementations of the operations.
//!
//! Every function manipulates the machine only through the `Execute`
//! capability, and each is proved against the corresponding arm of
//! `spec_op_rel`, so the same implementations drive any conforming state.

use vstd::prelude::*;

use crate::execute::{
    load1_err, load1_ok, load2_err, load2_ok, load3_err, load3_ok, spec_load_rel, Execute,
    MachineModel,
};
use crate::fonts::CODE_SMALL;
use crate::operands::{Dest, Src};
use crate::operations::Operation;
use crate::execute::spec_pixel_index;
use crate::semantics::{
    fin_add, fin_bcd, fin_fetch, fin_font, fin_shl, fin_shr, fin_skip, fin_skip_key, fin_sprite,
    fin_stash, fin_sub, fin_wait_key, rel_shl, rel_shr, shift_operand, shift_quirk_src,
    spec_bit, spec_bit_pow, spec_draw_bits, spec_draw_rows, spec_fetch_from,
    rel_fetch, rel_stash, spec_first_new_key, spec_key_selected, spec_op_rel,
    spec_range_count, spec_stash_from,
};
use crate::types::{Chip8Error, Chip8Result};

verus! {

/// Copies the source's value into the destination.
pub fn load<E: Execute>(exec: &mut E, dest: Dest, src: Src) -> (r: Chip8Result<()>)
    requires
        old(exec).inv(),
    ensures
        final(exec).inv(),
        spec_op_rel(Operation::Load(dest, src), old(exec).m(), final(exec).m(), r),
{
    let ghost m0 = exec.m();
    let data = match exec.load(src) {
        Ok(v) => v,
        Err(e) => {
            proof {
                assert(load1_err(m0, src, exec.m(), e));
            }
            return Err(e);
        },
    };
    proof {
        assert(load1_ok(m0, src, exec.m(), data));
    }
    exec.store(dest, data)
}

/// Adds the two sources into the destination; the flag records the carry.
pub fn add<E: Execute>(exec: &mut E, dest: Dest, lhs: Src, rhs: Src) -> (r: Chip8Result<()>)
    requires
        old(exec).inv(),
    ensures
        final(exec).inv(),
        spec_op_rel(Operation::Add(dest, lhs, rhs), old(exec).m(), final(exec).m(), r),
{
    let (va, vb) = match load_pair(exec, lhs, rhs) {
        Ok(p) => p,
        Err(e) => {
            return Err(e);
        },
    };
    let ghost ml = exec.m();
    let total = va + vb;
    match exec.store(dest, total) {
        Ok(_) => {
            exec.set_flag(total > 0xFF);
            proof {
                assert(fin_add(ml, dest, va, vb, exec.m(), Chip8Result::<()>::Ok(())));
            }
            Ok(())
        },
        Err(e) => {
            proof {
                assert(fin_add(ml, dest, va, vb, exec.m(), Chip8Result::<()>::Err(e)));
            }
            Err(e)
        },
    }
}

/// Subtracts the second source from the first into the destination; the
/// flag records that no borrow occurred.
pub fn sub<E: Execute>(exec: &mut E, dest: Dest, lhs: Src, rhs: Src) -> (r: Chip8Result<()>)
    requires
        old(exec).inv(),
    ensures
        final(exec).inv(),
        spec_op_rel(Operation::Sub(dest, lhs, rhs), old(exec).m(), final(exec).m(), r),
{
    let (va, vb) = match load_pair(exec, lhs, rhs) {
        Ok(p) => p,
        Err(e) => {
            return Err(e);
        },
    };
    let ghost ml = exec.m();
    let total = (va + 0x10000 - vb) % 256;
    proof {
        vstd::arithmetic::div_mod::lemma_mod_multiples_vanish(256, va - vb, 256);
        assert(total == (va - vb) % 256);
    }
    match exec.store(dest, total) {
        Ok(_) => {
            exec.set_flag(va >= vb);
            proof {
                assert(fin_sub(ml, dest, va, vb, exec.m(), Chip8Result::<()>::Ok(())));
            }
            Ok(())
        },
        Err(e) => {
            proof {
                assert(fin_sub(ml, dest, va, vb, exec.m(), Chip8Result::<()>::Err(e)));
            }
            Err(e)
        },
    }
}

/// ORs the two sources into the destination; the flag is not touched.
pub fn or<E: Execute>(exec: &mut E, dest: Dest, lhs: Src, rhs: Src) -> (r: Chip8Result<()>)
    requires
        old(exec).inv(),
    ensures
        final(exec).inv(),
        spec_op_rel(Operation::Or(dest, lhs, rhs), old(exec).m(), final(exec).m(), r),
{
    let (va, vb) = match load_pair(exec, lhs, rhs) {
        Ok(p) => p,
        Err(e) => {
            return Err(e);
        },
    };
    exec.store(dest, va | vb)
}

/// ANDs the two sources into the destination; the flag is not touched.
pub fn and<E: Execute>(exec: &mut E, dest: Dest, lhs: Src, rhs: Src) -> (r: Chip8Result<()>)
    requires
        old(exec).inv(),
    ensures
        final(exec).inv(),
        spec_op_rel(Operation::And(dest, lhs, rhs), old(exec).m(), final(exec).m(), r),
{
    let (va, vb) = match load_pair(exec, lhs, rhs) {
        Ok(p) => p,
        Err(e) => {
            return Err(e);
        },
    };
    exec.store(dest, va & vb)
}

/// XORs the two sources into the destination; the flag is not touched.
pub fn xor<E: Execute>(exec: &mut E, dest: Dest, lhs: Src, rhs: Src) -> (r: Chip8Result<()>)
    requires
        old(exec).inv(),
    ensures
        final(exec).inv(),
        spec_op_rel(Operation::Xor(dest, lhs, rhs), old(exec).m(), final(exec).m(), r),
{
    let (va, vb) = match load_pair(exec, lhs, rhs) {
        Ok(p) => p,
        Err(e) => {
            return Err(e);
        },
    };
    exec.store(dest, va ^ vb)
}

/// Loads two sources in order, reporting the first failure.
fn load_pair<E: Execute>(exec: &mut E, a: Src, b: Src) -> (r: Chip8Result<(usize, usize)>)
    requires
        old(exec).inv(),
    ensures
        final(exec).inv(),
        match r {
            Result::Ok(p) => load2_ok(old(exec).m(), a, b, final(exec).m(), p.0, p.1) && p.0
                <= 0xFFFF && p.1 <= 0xFFFF,
            Result::Err(e) => load2_err(old(exec).m(), a, b, final(exec).m(), e),
        },
{
    let ghost m0 = exec.m();
    let va = match exec.load(a) {
        Ok(v) => v,
        Err(e) => {
            proof {
                assert(load1_err(m0, a, exec.m(), e));
            }
            return Err(e);
        },
    };
    let ghost m1 = exec.m();
    proof {
        assert(load1_ok(m0, a, m1, va));
    }
    let vb = match exec.load(b) {
        Ok(v) => v,
        Err(e) => {
            proof {
                assert(load1_err(m1, b, exec.m(), e));
            }
            return Err(e);
        },
    };
    proof {
        assert(load1_ok(m1, b, exec.m(), vb));
        assert(load2_ok(m0, a, b, exec.m(), va, vb));
    }
    Ok((va, vb))
}

/// Shifts the shifted operand right one bit into the destination; the flag
/// records the old lowest bit. With the shift quirk on, the destination
/// register itself is the operand and the source is ignored.
#[verifier::rlimit(100)]
pub fn shr<E: Execute>(exec: &mut E, dest: Dest, src: Src) -> (r: Chip8Result<()>)
    requires
        old(exec).inv(),
    ensures
        final(exec).inv(),
        spec_op_rel(Operation::Shr(dest, src), old(exec).m(), final(exec).m(), r),
{
    let ghost m0 = exec.m();
    let from: Src = if exec.config().quirk_shift {
        match dest {
            Dest::Register(n) => Src::Register(n),
            _ => {
                return Err(Chip8Error::InvalidOperand);
            },
        }
    } else {
        src
    };
    let value = match exec.load(from) {
        Ok(v) => v,
        Err(e) => {
            proof {
                assert(load1_err(m0, from, exec.m(), e));
                assert(shift_operand(m0, dest, src) == Option::<Src>::Some(from));
                assert(rel_shr(m0, dest, src, exec.m(), Chip8Result::<()>::Err(e)));
            }
            return Err(e);
        },
    };
    let ghost ml = exec.m();
    proof {
        assert(load1_ok(m0, from, ml, value));
    }
    match exec.store(dest, value / 2) {
        Ok(_) => {
            exec.set_flag(value % 2 == 1);
            proof {
                assert(fin_shr(ml, dest, value, exec.m(), Chip8Result::<()>::Ok(())));
                assert(load1_ok(m0, from, ml, value));
                assert(shift_operand(m0, dest, src) == Option::<Src>::Some(from));
                assert(rel_shr(m0, dest, src, exec.m(), Chip8Result::<()>::Ok(())));
            }
            Ok(())
        },
        Err(e) => {
            proof {
                assert(fin_shr(ml, dest, value, exec.m(), Chip8Result::<()>::Err(e)));
                assert(shift_operand(m0, dest, src) == Option::<Src>::Some(from));
                assert(rel_shr(m0, dest, src, exec.m(), Chip8Result::<()>::Err(e)));
            }
            Err(e)
        },
    }
}

/// Shifts the shifted operand left one bit into the destination; the flag
/// records the old highest bit of the byte. With the shift quirk on, the
/// destination register itself is the operand and the source is ignored.
#[verifier::rlimit(100)]
pub fn shl<E: Execute>(exec: &mut E, dest: Dest, src: Src) -> (r: Chip8Result<()>)
    requires
        old(exec).inv(),
    ensures
        final(exec).inv(),
        spec_op_rel(Operation::Shl(dest, src), old(exec).m(), final(exec).m(), r),
{
    let ghost m0 = exec.m();
    let from: Src = if exec.config().quirk_shift {
        match dest {
            Dest::Register(n) => Src::Register(n),
            _ => {
                return Err(Chip8Error::InvalidOperand);
            },
        }
    } else {
        src
    };
    let value = match exec.load(from) {
        Ok(v) => v,
        Err(e) => {
            proof {
                assert(load1_err(m0, from, exec.m(), e));
                assert(shift_operand(m0, dest, src) == Option::<Src>::Some(from));
                assert(rel_shl(m0, dest, src, exec.m(), Chip8Result::<()>::Err(e)));
            }
            return Err(e);
        },
    };
    let ghost ml = exec.m();
    proof {
        assert(load1_ok(m0, from, ml, value));
    }
    match exec.store(dest, value * 2) {
        Ok(_) => {
            exec.set_flag((value / 128) % 2 == 1);
            proof {
                assert(fin_shl(ml, dest, value, exec.m(), Chip8Result::<()>::Ok(())));
                assert(load1_ok(m0, from, ml, value));
                assert(shift_operand(m0, dest, src) == Option::<Src>::Some(from));
                assert(rel_shl(m0, dest, src, exec.m(), Chip8Result::<()>::Ok(())));
            }
            Ok(())
        },
        Err(e) => {
            proof {
                assert(fin_shl(ml, dest, value, exec.m(), Chip8Result::<()>::Err(e)));
                assert(shift_operand(m0, dest, src) == Option::<Src>::Some(from));
                assert(rel_shl(m0, dest, src, exec.m(), Chip8Result::<()>::Err(e)));
            }
            Err(e)
        },
    }
}

/// Masks the first source with the second into the destination; with the
/// `Random` source this is the random-number instruction.
pub fn random<E: Execute>(exec: &mut E, dest: Dest, src: Src, mask: Src) -> (r: Chip8Result<()>)
    requires
        old(exec).inv(),
    ensures
        final(exec).inv(),
        spec_op_rel(Operation::Rand(dest, src, mask), old(exec).m(), final(exec).m(), r),
{
    let (data, bitmask) = match load_pair(exec, src, mask) {
        Ok(p) => p,
        Err(e) => {
            return Err(e);
        },
    };
    exec.store(dest, data & bitmask)
}

/// Jumps to a literal address.
pub fn jump<E: Execute>(exec: &mut E, addr: Src) -> (r: Chip8Result<()>)
    requires
        old(exec).inv(),
    ensures
        final(exec).inv(),
        spec_op_rel(Operation::Jump(addr), old(exec).m(), final(exec).m(), r),
{
    match addr {
        Src::Address12(a) => exec.jump((a % 0x1000) as u16),
        _ => Err(Chip8Error::InvalidOperand),
    }
}

/// Jumps to a literal address displaced by v0, wrapping at the RAM size.
pub fn jump_v0<E: Execute>(exec: &mut E, addr: Src) -> (r: Chip8Result<()>)
    requires
        old(exec).inv(),
    ensures
        final(exec).inv(),
        spec_op_rel(Operation::JumpV0(addr), old(exec).m(), final(exec).m(), r),
{
    let ghost m0 = exec.m();
    proof {
        exec.inv_wf();
    }
    let v0 = match exec.load(Src::Register(0)) {
        Ok(v) => v,
        Err(e) => {
            proof {
                assert(false);
            }
            return Err(e);
        },
    };
    match addr {
        Src::Address12(a) => {
            let ram_bytes = exec.config().ram_bytes;
            let target = ((a % 0x1000) + v0) % ram_bytes;
            let r = exec.jump(target as u16);
            proof {
                assert(r == Chip8Result::<()>::Ok(()));
            }
            r
        },
        _ => Err(Chip8Error::InvalidOperand),
    }
}

/// Pushes the current program counter and jumps to a literal address.
pub fn call<E: Execute>(exec: &mut E, addr: Src) -> (r: Chip8Result<()>)
    requires
        old(exec).inv(),
    ensures
        final(exec).inv(),
        spec_op_rel(Operation::Call(addr), old(exec).m(), final(exec).m(), r),
{
    match addr {
        Src::Address12(a) => {
            let pc = exec.pc();
            match exec.stack_push(pc) {
                Ok(_) => exec.jump((a % 0x1000) as u16),
                Err(e) => Err(e),
            }
        },
        _ => Err(Chip8Error::InvalidOperand),
    }
}

/// Pops the youngest return address into the program counter.
pub fn ret<E: Execute>(exec: &mut E) -> (r: Chip8Result<()>)
    requires
        old(exec).inv(),
    ensures
        final(exec).inv(),
        spec_op_rel(Operation::Ret, old(exec).m(), final(exec).m(), r),
{
    match exec.stack_pop() {
        Some(a) => exec.jump(a),
        None => Err(Chip8Error::PopEmptyStack),
    }
}

/// Advances past the next instruction when the two sources are equal.
pub fn skip_eq<E: Execute>(exec: &mut E, lhs: Src, rhs: Src) -> (r: Chip8Result<()>)
    requires
        old(exec).inv(),
    ensures
        final(exec).inv(),
        spec_op_rel(Operation::SkipEq(lhs, rhs), old(exec).m(), final(exec).m(), r),
{
    let (va, vb) = match load_pair(exec, lhs, rhs) {
        Ok(p) => p,
        Err(e) => {
            return Err(e);
        },
    };
    let ghost ml = exec.m();
    if va == vb {
        exec.advance_pc();
    }
    proof {
        assert(fin_skip(ml, va == vb, exec.m(), Chip8Result::<()>::Ok(())));
    }
    Ok(())
}

/// Advances past the next instruction when the two sources differ.
pub fn skip_not_eq<E: Execute>(exec: &mut E, lhs: Src, rhs: Src) -> (r: Chip8Result<()>)
    requires
        old(exec).inv(),
    ensures
        final(exec).inv(),
        spec_op_rel(Operation::SkipNotEq(lhs, rhs), old(exec).m(), final(exec).m(), r),
{
    let (va, vb) = match load_pair(exec, lhs, rhs) {
        Ok(p) => p,
        Err(e) => {
            return Err(e);
        },
    };
    let ghost ml = exec.m();
    if va != vb {
        exec.advance_pc();
    }
    proof {
        assert(fin_skip(ml, va != vb, exec.m(), Chip8Result::<()>::Ok(())));
    }
    Ok(())
}

/// Advances past the next instruction when the named key is pressed.
pub fn skip_key_pressed<E: Execute>(exec: &mut E, key: Src) -> (r: Chip8Result<()>)
    requires
        old(exec).inv(),
    ensures
        final(exec).inv(),
        spec_op_rel(Operation::SkipKey(key), old(exec).m(), final(exec).m(), r),
{
    let ghost m0 = exec.m();
    let k = match exec.load(key) {
        Ok(v) => v,
        Err(e) => {
            proof {
                assert(load1_err(m0, key, exec.m(), e));
            }
            return Err(e);
        },
    };
    let ghost ml = exec.m();
    proof {
        assert(load1_ok(m0, key, ml, k));
    }
    if k >= 16 {
        return Err(Chip8Error::OutOfBoundsAt(k));
    }
    let keys = match exec.keyboard() {
        Ok(ks) => ks,
        Err(e) => {
            proof {
                assert(false);
            }
            return Err(e);
        },
    };
    if keys[k] {
        exec.advance_pc();
    }
    proof {
        assert(fin_skip_key(ml, k, true, exec.m(), Chip8Result::<()>::Ok(())));
    }
    Ok(())
}

/// Advances past the next instruction when the named key is released.
pub fn skip_key_not_pressed<E: Execute>(exec: &mut E, key: Src) -> (r: Chip8Result<()>)
    requires
        old(exec).inv(),
    ensures
        final(exec).inv(),
        spec_op_rel(Operation::SkipNotKey(key), old(exec).m(), final(exec).m(), r),
{
    let ghost m0 = exec.m();
    let k = match exec.load(key) {
        Ok(v) => v,
        Err(e) => {
            proof {
                assert(load1_err(m0, key, exec.m(), e));
            }
            return Err(e);
        },
    };
    let ghost ml = exec.m();
    proof {
        assert(load1_ok(m0, key, ml, k));
    }
    if k >= 16 {
        return Err(Chip8Error::OutOfBoundsAt(k));
    }
    let keys = match exec.keyboard() {
        Ok(ks) => ks,
        Err(e) => {
            proof {
                assert(false);
            }
            return Err(e);
        },
    };
    if !keys[k] {
        exec.advance_pc();
    }
    proof {
        assert(fin_skip_key(ml, k, false, exec.m(), Chip8Result::<()>::Ok(())));
    }
    Ok(())
}

/// Points I at the first byte of a glyph of the selected font.
pub fn font<E: Execute>(exec: &mut E, glyph: Src, font_code: Src) -> (r: Chip8Result<()>)
    requires
        old(exec).inv(),
    ensures
        final(exec).inv(),
        spec_op_rel(Operation::Font(glyph, font_code), old(exec).m(), final(exec).m(), r),
{
    let ghost m0 = exec.m();
    proof {
        exec.inv_wf();
    }
    let (code, g) = match load_pair(exec, font_code, glyph) {
        Ok(p) => p,
        Err(e) => {
            return Err(e);
        },
    };
    let ghost ml = exec.m();
    let config = exec.config();
    let addr = if code == CODE_SMALL {
        config.addr_font + g * 5
    } else {
        config.addr_font_big + g * 10
    };
    let r = exec.store(Dest::I, addr);
    proof {
        assert(fin_font(ml, code, g, exec.m(), r));
    }
    r
}

/// Writes the decimal digits of the source to RAM at I, hundreds first.
pub fn bcd<E: Execute>(exec: &mut E, src: Src) -> (r: Chip8Result<()>)
    requires
        old(exec).inv(),
    ensures
        final(exec).inv(),
        spec_op_rel(Operation::Bcd(src), old(exec).m(), final(exec).m(), r),
{
    let ghost m0 = exec.m();
    let val = match exec.load(src) {
        Ok(v) => v,
        Err(e) => {
            proof {
                assert(load1_err(m0, src, exec.m(), e));
            }
            return Err(e);
        },
    };
    let ghost ml = exec.m();
    proof {
        assert(load1_ok(m0, src, ml, val));
    }
    let i = match exec.load(Src::I) {
        Ok(v) => v,
        Err(e) => {
            proof {
                assert(false);
            }
            return Err(e);
        },
    };
    let hundreds = val / 100;
    let tens = (val / 10) % 10;
    let ones = val % 10;
    match exec.store(Dest::Address12(i), hundreds) {
        Ok(_) => {},
        Err(e) => {
            proof {
                assert(fin_bcd(ml, val, exec.m(), Chip8Result::<()>::Err(e)));
            }
            return Err(e);
        },
    }
    match exec.store(Dest::Address12(i + 1), tens) {
        Ok(_) => {},
        Err(e) => {
            proof {
                assert(fin_bcd(ml, val, exec.m(), Chip8Result::<()>::Err(e)));
            }
            return Err(e);
        },
    }
    match exec.store(Dest::Address12(i + 2), ones) {
        Ok(_) => {},
        Err(e) => {
            proof {
                assert(fin_bcd(ml, val, exec.m(), Chip8Result::<()>::Err(e)));
            }
            return Err(e);
        },
    }
    proof {
        assert(fin_bcd(ml, val, exec.m(), Chip8Result::<()>::Ok(())));
    }
    Ok(())
}

/// Waits for a key: when a key of the masked set has gone from released
/// to pressed since the previous keyboard sample, its index is stored and
/// the current keyboard becomes the new baseline; otherwise the program
/// counter moves back one instruction so that the step is retried until
/// the host's next keyboard update presses a key.
pub fn wait_key<E: Execute>(exec: &mut E, dest: Dest, key: Src) -> (r: Chip8Result<()>)
    requires
        old(exec).inv(),
    ensures
        final(exec).inv(),
        spec_op_rel(Operation::WaitKey(dest, key), old(exec).m(), final(exec).m(), r),
{
    let ghost m0 = exec.m();
    let mask = match exec.load(key) {
        Ok(v) => v,
        Err(e) => {
            proof {
                assert(load1_err(m0, key, exec.m(), e));
            }
            return Err(e);
        },
    };
    let ghost ml = exec.m();
    proof {
        assert(load1_ok(m0, key, ml, mask));
        exec.inv_wf();
    }
    let keys = match exec.keyboard() {
        Ok(ks) => ks,
        Err(e) => {
            proof {
                assert(false);
            }
            return Err(e);
        },
    };
    let prev = match exec.keyboard_previous() {
        Ok(ks) => ks,
        Err(e) => {
            proof {
                assert(false);
            }
            return Err(e);
        },
    };
    let mut j: usize = 0;
    while j < 16 && !(keys[j] && !prev[j] && (j & mask) == mask)
        invariant
            0 <= j <= 16,
            keys@ == ml.keys,
            prev@ == ml.prev_keys,
            spec_first_new_key(ml.keys, ml.prev_keys, mask, 0) == spec_first_new_key(
                ml.keys,
                ml.prev_keys,
                mask,
                j as int,
            ),
            forall|t: int|
                0 <= t < j ==> !(ml.keys[t] && !ml.prev_keys[t] && spec_key_selected(t, mask)),
        decreases 16 - j,
    {
        j = j + 1;
    }
    if j < 16 {
        proof {
            assert(spec_first_new_key(ml.keys, ml.prev_keys, mask, 0) == j);
        }
        match exec.store(dest, j) {
            Ok(_) => {
                let rk = exec.set_keyboard(&keys);
                proof {
                    assert(rk == Chip8Result::<()>::Ok(()));
                    assert(fin_wait_key(ml, dest, mask, exec.m(), Chip8Result::<()>::Ok(())));
                }
                Ok(())
            },
            Err(e) => {
                proof {
                    assert(fin_wait_key(ml, dest, mask, exec.m(), Chip8Result::<()>::Err(e)));
                }
                Err(e)
            },
        }
    } else {
        proof {
            assert(spec_first_new_key(ml.keys, ml.prev_keys, mask, 0) == -1);
        }
        let pc = exec.pc();
        let back = ((pc as u32 + 0x10000 - 2) % 0x10000) as usize;
        let r = exec.store(Dest::PC, back);
        proof {
            assert(r == Chip8Result::<()>::Ok(()));
            assert(fin_wait_key(ml, dest, mask, exec.m(), Chip8Result::<()>::Ok(())));
        }
        r
    }
}

/// Loads three sources in order, reporting the first failure.
fn load_triple<E: Execute>(exec: &mut E, a: Src, b: Src, c: Src) -> (r: Chip8Result<
    (usize, usize, usize),
>)
    requires
        old(exec).inv(),
    ensures
        final(exec).inv(),
        match r {
            Result::Ok(p) => load3_ok(old(exec).m(), a, b, c, final(exec).m(), p.0, p.1, p.2)
                && p.0 <= 0xFFFF && p.1 <= 0xFFFF && p.2 <= 0xFFFF,
            Result::Err(e) => load3_err(old(exec).m(), a, b, c, final(exec).m(), e),
        },
{
    let ghost m0 = exec.m();
    let (va, vb) = match load_pair(exec, a, b) {
        Ok(p) => p,
        Err(e) => {
            return Err(e);
        },
    };
    let ghost m1 = exec.m();
    let vc = match exec.load(c) {
        Ok(v) => v,
        Err(e) => {
            proof {
                assert(load1_err(m1, c, exec.m(), e));
            }
            return Err(e);
        },
    };
    proof {
        assert(load1_ok(m1, c, exec.m(), vc));
        assert(load3_ok(m0, a, b, c, exec.m(), va, vb, vc));
    }
    Ok((va, vb, vc))
}

/// Clears the frame buffer: every pixel becomes zero.
pub fn clear_screen<E: Execute>(exec: &mut E) -> (r: Chip8Result<()>)
    requires
        old(exec).inv(),
    ensures
        final(exec).inv(),
        spec_op_rel(Operation::Cls, old(exec).m(), final(exec).m(), r),
{
    let ghost m0 = exec.m();
    proof {
        exec.inv_wf();
        assert(Seq::new(
            m0.vram.len(),
            |p: int|
                if p < 0 {
                    0u8
                } else {
                    m0.vram[p]
                },
        ) =~= m0.vram);
    }
    let mut t: usize = 0;
    while t < 2048
        invariant
            exec.inv(),
            t <= 2048,
            m0.vram.len() == 2048,
            exec.m() == (MachineModel {
                vram: Seq::new(
                    m0.vram.len(),
                    |p: int|
                        if p < t {
                            0u8
                        } else {
                            m0.vram[p]
                        },
                ),
                ..m0
            }),
        decreases 2048 - t,
    {
        let ghost prev = exec.m().vram;
        let x = t % 64;
        let y = t / 64;
        let res = exec.set_pixel(x, y, 0);
        proof {
            vstd::arithmetic::div_mod::lemma_fundamental_div_mod(t as int, 64);
            assert(y < 32) by (nonlinear_arith)
                requires
                    y == t / 64,
                    t < 2048,
            ;
            vstd::arithmetic::div_mod::lemma_small_mod(x as nat, 64);
            vstd::arithmetic::div_mod::lemma_small_mod(y as nat, 32);
            assert(spec_pixel_index(x as int, y as int) == t as int);
            assert(exec.m().vram =~= Seq::new(
                m0.vram.len(),
                |p: int|
                    if p < t + 1 {
                        0u8
                    } else {
                        m0.vram[p]
                    },
            ));
        }
        t = t + 1;
    }
    proof {
        assert(exec.m().vram =~= Seq::new(m0.vram.len(), |p: int| 0u8));
    }
    Ok(())
}

/// Two to the power of a bit position, executable form.
fn bit_pow(b: usize) -> (r: usize)
    ensures
        r == spec_bit_pow(b as int),
        r >= 1,
{
    if b == 0 {
        1
    } else if b == 1 {
        2
    } else if b == 2 {
        4
    } else if b == 3 {
        8
    } else if b == 4 {
        16
    } else if b == 5 {
        32
    } else if b == 6 {
        64
    } else {
        128
    }
}

/// Draws a sprite: XORs `n` rows of eight pixels read from RAM at I into
/// the frame buffer at the loaded coordinates, wrapping on both axes; the
/// flag records whether any lit pixel was erased. The rows must lie in
/// RAM, and nothing is drawn when they do not.
pub fn sprite<E: Execute>(exec: &mut E, x: Src, y: Src, n: Src) -> (r: Chip8Result<()>)
    requires
        old(exec).inv(),
    ensures
        final(exec).inv(),
        spec_op_rel(Operation::Sprite(x, y, n), old(exec).m(), final(exec).m(), r),
{
    let (vx, vy, vn) = match load_triple(exec, x, y, n) {
        Ok(p) => p,
        Err(e) => {
            return Err(e);
        },
    };
    let ghost ml = exec.m();
    proof {
        exec.inv_wf();
    }
    let i = match exec.load(Src::I) {
        Ok(v) => v,
        Err(e) => {
            proof {
                assert(false);
            }
            return Err(e);
        },
    };
    let ram_bytes = exec.config().ram_bytes;
    if vn > 0 && i + vn > ram_bytes {
        let bad = if i >= ram_bytes {
            i
        } else {
            ram_bytes
        };
        proof {
            assert(fin_sprite(ml, vx, vy, vn, exec.m(), Chip8Result::<()>::Err(
                Chip8Error::OutOfBoundsAt(bad),
            )));
        }
        return Err(Chip8Error::OutOfBoundsAt(bad));
    }
    let mut collided: bool = false;
    let mut row: usize = 0;
    while row < vn
        invariant
            exec.inv(),
            row <= vn,
            vx <= 0xFFFF && vy <= 0xFFFF && vn <= 0xFFFF,
            i == ml.i as usize,
            vn > 0 ==> i + vn <= ml.ram.len(),
            ({
                let d = spec_draw_rows(ml.vram, ml.ram, i as int, vx as int, vy as int, row as int);
                exec.m() == (MachineModel { vram: d.0, ..ml }) && collided == d.1
            }),
        decreases vn - row,
    {
        let data = match exec.load(Src::Address12(i + row)) {
            Ok(v) => v,
            Err(e) => {
                proof {
                    assert(false);
                }
                return Err(e);
            },
        };
        let ghost row_start = exec.m().vram;
        let ghost flag_start = collided;
        let ghost byte = ml.ram[i + row];
        proof {
            assert(data == byte as usize);
        }
        let mut bit: usize = 0;
        while bit < 8
            invariant
                exec.inv(),
                bit <= 8,
                vx <= 0xFFFF && vy <= 0xFFFF && vn <= 0xFFFF,
                row < vn,
                data == byte as usize,
                ({
                    let db = spec_draw_bits(
                        row_start,
                        byte,
                        vx as int,
                        vy as int + row as int,
                        bit as int,
                    );
                    exec.m() == (MachineModel { vram: db.0, ..ml }) && collided == (flag_start
                        || db.1)
                }),
            decreases 8 - bit,
        {
            let p = ((data / bit_pow(bit)) % 2) as u8;
            let c = match exec.xor_pixel(vx + (7 - bit), vy + row, p) {
                Ok(b) => b,
                Err(e) => {
                    proof {
                        assert(false);
                    }
                    return Err(e);
                },
            };
            collided = collided || c;
            proof {
                assert(p == spec_bit(byte, bit as int));
            }
            bit = bit + 1;
        }
        row = row + 1;
    }
    exec.set_flag(collided);
    proof {
        assert(fin_sprite(ml, vx, vy, vn, exec.m(), Chip8Result::<()>::Ok(())));
    }
    Ok(())
}

/// A successful partial copy keeps the length of RAM.
proof fn lemma_stash_len(ram: Seq<u8>, v: Seq<u8>, i: int, a: int, b: int, off: int, p: Seq<u8>)
    requires
        0 <= i,
        0 <= off,
        spec_stash_from(ram, v, i, a, b, off) == Result::<Seq<u8>, Chip8Error>::Ok(p),
    ensures
        p.len() == ram.len(),
    decreases b - a + 1,
{
    if a > b {
    } else if a >= 16 {
    } else if i + off >= ram.len() {
    } else {
        lemma_stash_len(ram.update(i + off, v[a]), v, i, a + 1, b, off + 1, p);
    }
}

/// Extending a successful partial copy by one more register appends one
/// more RAM write.
proof fn lemma_stash_extend(
    ram: Seq<u8>,
    v: Seq<u8>,
    i: int,
    a: int,
    r: int,
    off: int,
    p: Seq<u8>,
)
    requires
        0 <= i,
        0 <= off,
        a <= r,
        0 <= r < 16,
        spec_stash_from(ram, v, i, a, r - 1, off) == Result::<Seq<u8>, Chip8Error>::Ok(p),
        i + off + (r - a) < ram.len(),
    ensures
        spec_stash_from(ram, v, i, a, r, off) == Result::<Seq<u8>, Chip8Error>::Ok(
            p.update(i + off + (r - a), v[r]),
        ),
    decreases r - a,
{
    if a == r {
        assert(p == ram);
    } else if a >= 16 {
    } else if i + off >= ram.len() {
    } else {
        lemma_stash_extend(ram.update(i + off, v[a]), v, i, a + 1, r, off + 1, p);
    }
}

/// Extending a successful partial fetch by one more register appends one
/// more register write.
proof fn lemma_fetch_extend(
    ram: Seq<u8>,
    v: Seq<u8>,
    i: int,
    a: int,
    r: int,
    off: int,
    p: Seq<u8>,
)
    requires
        0 <= i,
        0 <= off,
        a <= r,
        0 <= r < 16,
        spec_fetch_from(ram, v, i, a, r - 1, off) == Result::<Seq<u8>, Chip8Error>::Ok(p),
        i + off + (r - a) < ram.len(),
    ensures
        spec_fetch_from(ram, v, i, a, r, off) == Result::<Seq<u8>, Chip8Error>::Ok(
            p.update(r, ram[i + off + (r - a)]),
        ),
    decreases r - a,
{
    if a == r {
        assert(p == v);
    } else if i + off >= ram.len() {
    } else if a >= 16 {
    } else {
        lemma_fetch_extend(ram, v.update(a, ram[i + off]), i, a + 1, r, off + 1, p);
    }
}

/// Stores registers `first..=last` to RAM at I; with flag one, I is then
/// advanced past the copied range.
#[verifier::loop_isolation(false)]
#[verifier::rlimit(100)]
pub fn stash<E: Execute>(exec: &mut E, first: Src, last: Src, flag: Src) -> (r: Chip8Result<()>)
    requires
        old(exec).inv(),
    ensures
        final(exec).inv(),
        spec_op_rel(Operation::Stash(first, last, flag), old(exec).m(), final(exec).m(), r),
{
    let ghost m0 = exec.m();
    let first_reg = match first {
        Src::Register(n) => n,
        Src::Const(n) => n,
        _ => {
            return Err(Chip8Error::InvalidOperand);
        },
    };
    let last_reg = match last {
        Src::Register(n) => n,
        Src::Const(n) => n,
        _ => {
            return Err(Chip8Error::InvalidOperand);
        },
    };
    let vf = match exec.load(flag) {
        Ok(v) => v,
        Err(e) => {
            proof {
                assert(load1_err(m0, flag, exec.m(), e));
            }
            return Err(e);
        },
    };
    let ghost ml = exec.m();
    proof {
        assert(load1_ok(m0, flag, ml, vf));
        exec.inv_wf();
    }
    let i = match exec.load(Src::I) {
        Ok(v) => v,
        Err(e) => {
            proof {
                assert(false);
            }
            return Err(e);
        },
    };
    let mut reg: usize = first_reg;
    let mut off: usize = 0;
    while reg <= last_reg
        invariant
            exec.inv(),
            i == ml.i as usize,
            first_reg <= reg,
            off == reg - first_reg,
            spec_stash_from(
                ml.ram,
                ml.v,
                ml.i as int,
                first_reg as int,
                last_reg as int,
                0,
            ) == spec_stash_from(
                exec.m().ram,
                ml.v,
                ml.i as int,
                reg as int,
                last_reg as int,
                off as int,
            ),
            off <= 16,
            first_reg > last_reg ==> reg == first_reg,
            first_reg <= last_reg ==> reg <= last_reg + 1,
            spec_stash_from(ml.ram, ml.v, ml.i as int, first_reg as int, reg as int - 1, 0)
                == Result::<Seq<u8>, Chip8Error>::Ok(exec.m().ram),
            exec.m() == (MachineModel { ram: exec.m().ram, ..ml }),
        decreases last_reg + 1 - reg,
    {
        if reg >= 16 {
            proof {
                let ghost k = reg as int - first_reg as int;
                assert(spec_stash_from(
                    ml.ram,
                    ml.v,
                    ml.i as int,
                    first_reg as int,
                    first_reg as int + k - 1,
                    0,
                ) == Result::<Seq<u8>, Chip8Error>::Ok(exec.m().ram));
                assert(fin_stash(ml, first_reg, last_reg, vf, exec.m(), Chip8Result::<()>::Err(
                    Chip8Error::OutOfBoundsAt(reg),
                )));
                assert(load1_ok(m0, flag, ml, vf));
                assert(rel_stash(m0, first, last, flag, exec.m(), Chip8Result::<()>::Err(
                    Chip8Error::OutOfBoundsAt(reg),
                )));
            }
            return Err(Chip8Error::OutOfBoundsAt(reg));
        }
        let value = match exec.load(Src::Register(reg)) {
            Ok(v) => v,
            Err(e) => {
                proof {
                    assert(false);
                }
                return Err(e);
            },
        };
        let ghost ram_before = exec.m().ram;
        match exec.store(Dest::Address12(i + off), value) {
            Ok(_) => {
                proof {
                    lemma_stash_len(
                        ml.ram,
                        ml.v,
                        ml.i as int,
                        first_reg as int,
                        reg as int - 1,
                        0,
                        ram_before,
                    );
                    lemma_stash_extend(
                        ml.ram,
                        ml.v,
                        ml.i as int,
                        first_reg as int,
                        reg as int,
                        0,
                        ram_before,
                    );
                }
            },
            Err(e) => {
                proof {
                    let ghost k = reg as int - first_reg as int;
                    lemma_stash_len(
                        ml.ram,
                        ml.v,
                        ml.i as int,
                        first_reg as int,
                        reg as int - 1,
                        0,
                        ram_before,
                    );
                    assert(spec_stash_from(
                        ml.ram,
                        ml.v,
                        ml.i as int,
                        first_reg as int,
                        first_reg as int + k - 1,
                        0,
                    ) == Result::<Seq<u8>, Chip8Error>::Ok(exec.m().ram));
                    assert(fin_stash(ml, first_reg, last_reg, vf, exec.m(), Chip8Result::<()>::Err(
                        e,
                    )));
                    assert(load1_ok(m0, flag, ml, vf));
                    assert(rel_stash(m0, first, last, flag, exec.m(), Chip8Result::<()>::Err(e)));
                }
                return Err(e);
            },
        }
        reg = reg + 1;
        off = off + 1;
    }
    proof {
        assert(spec_stash_from(
            exec.m().ram,
            ml.v,
            ml.i as int,
            reg as int,
            last_reg as int,
            off as int,
        ) == Result::<Seq<u8>, Chip8Error>::Ok(exec.m().ram));
        assert(off == spec_range_count(first_reg as int, last_reg as int));
    }
    if vf == 1 {
        let res = exec.store(Dest::I, i + off);
        proof {
            assert(res == Chip8Result::<()>::Ok(()));
            assert(fin_stash(ml, first_reg, last_reg, vf, exec.m(), Chip8Result::<()>::Ok(())));
            assert(load1_ok(m0, flag, ml, vf));
            assert(rel_stash(m0, first, last, flag, exec.m(), Chip8Result::<()>::Ok(())));
        }
        Ok(())
    } else {
        proof {
            assert(fin_stash(ml, first_reg, last_reg, vf, exec.m(), Chip8Result::<()>::Ok(())));
            assert(load1_ok(m0, flag, ml, vf));
            assert(rel_stash(m0, first, last, flag, exec.m(), Chip8Result::<()>::Ok(())));
        }
        Ok(())
    }
}

/// Loads registers `first..=last` from RAM at I; with flag one, I is then
/// advanced past the copied range.
#[verifier::loop_isolation(false)]
#[verifier::rlimit(100)]
pub fn fetch<E: Execute>(exec: &mut E, first: Src, last: Src, flag: Src) -> (r: Chip8Result<()>)
    requires
        old(exec).inv(),
    ensures
        final(exec).inv(),
        spec_op_rel(Operation::Fetch(first, last, flag), old(exec).m(), final(exec).m(), r),
{
    let ghost m0 = exec.m();
    let first_reg = match first {
        Src::Register(n) => n,
        Src::Const(n) => n,
        _ => {
            return Err(Chip8Error::InvalidOperand);
        },
    };
    let last_reg = match last {
        Src::Register(n) => n,
        Src::Const(n) => n,
        _ => {
            return Err(Chip8Error::InvalidOperand);
        },
    };
    let vf = match exec.load(flag) {
        Ok(v) => v,
        Err(e) => {
            proof {
                assert(load1_err(m0, flag, exec.m(), e));
                assert(rel_fetch(m0, first, last, flag, exec.m(), Chip8Result::<()>::Err(e)));
            }
            return Err(e);
        },
    };
    let ghost ml = exec.m();
    proof {
        assert(load1_ok(m0, flag, ml, vf));
        exec.inv_wf();
    }
    let i = match exec.load(Src::I) {
        Ok(v) => v,
        Err(e) => {
            proof {
                assert(false);
            }
            return Err(e);
        },
    };
    let mut reg: usize = first_reg;
    let mut off: usize = 0;
    while reg <= last_reg
        invariant
            exec.inv(),
            i == ml.i as usize,
            first_reg <= reg,
            off == reg - first_reg,
            off <= 16,
            first_reg > last_reg ==> reg == first_reg,
            first_reg <= last_reg ==> reg <= last_reg + 1,
            spec_fetch_from(
                ml.ram,
                ml.v,
                ml.i as int,
                first_reg as int,
                last_reg as int,
                0,
            ) == spec_fetch_from(
                ml.ram,
                exec.m().v,
                ml.i as int,
                reg as int,
                last_reg as int,
                off as int,
            ),
            spec_fetch_from(ml.ram, ml.v, ml.i as int, first_reg as int, reg as int - 1, 0)
                == Result::<Seq<u8>, Chip8Error>::Ok(exec.m().v),
            exec.m() == (MachineModel { v: exec.m().v, ..ml }),
        decreases last_reg + 1 - reg,
    {
        let value = match exec.load(Src::Address12(i + off)) {
            Ok(v) => v,
            Err(e) => {
                proof {
                    let ghost k = reg as int - first_reg as int;
                    assert(spec_fetch_from(
                        ml.ram,
                        ml.v,
                        ml.i as int,
                        first_reg as int,
                        first_reg as int + k - 1,
                        0,
                    ) == Result::<Seq<u8>, Chip8Error>::Ok(exec.m().v));
                    assert(fin_fetch(ml, first_reg, last_reg, vf, exec.m(), Chip8Result::<()>::Err(
                        e,
                    )));
                    assert(load1_ok(m0, flag, ml, vf));
                    assert(rel_fetch(m0, first, last, flag, exec.m(), Chip8Result::<()>::Err(e)));
                }
                return Err(e);
            },
        };
        if reg >= 16 {
            proof {
                let ghost k = reg as int - first_reg as int;
                assert(spec_fetch_from(
                    ml.ram,
                    ml.v,
                    ml.i as int,
                    first_reg as int,
                    first_reg as int + k - 1,
                    0,
                ) == Result::<Seq<u8>, Chip8Error>::Ok(exec.m().v));
                assert(fin_fetch(ml, first_reg, last_reg, vf, exec.m(), Chip8Result::<()>::Err(
                    Chip8Error::OutOfBoundsAt(reg),
                )));
                assert(load1_ok(m0, flag, ml, vf));
                assert(rel_fetch(m0, first, last, flag, exec.m(), Chip8Result::<()>::Err(
                    Chip8Error::OutOfBoundsAt(reg),
                )));
            }
            return Err(Chip8Error::OutOfBoundsAt(reg));
        }
        let ghost v_before = exec.m().v;
        match exec.store(Dest::Register(reg), value) {
            Ok(_) => {
                proof {
                    lemma_fetch_extend(
                        ml.ram,
                        ml.v,
                        ml.i as int,
                        first_reg as int,
                        reg as int,
                        0,
                        v_before,
                    );
                }
            },
            Err(e) => {
                proof {
                    assert(false);
                }
                return Err(e);
            },
        }
        reg = reg + 1;
        off = off + 1;
    }
    proof {
        assert(spec_fetch_from(
            ml.ram,
            exec.m().v,
            ml.i as int,
            reg as int,
            last_reg as int,
            off as int,
        ) == Result::<Seq<u8>, Chip8Error>::Ok(exec.m().v));
        assert(off == spec_range_count(first_reg as int, last_reg as int));
    }
    if vf == 1 {
        let res = exec.store(Dest::I, i + off);
        proof {
            assert(res == Chip8Result::<()>::Ok(()));
            assert(fin_fetch(ml, first_reg, last_reg, vf, exec.m(), Chip8Result::<()>::Ok(())));
            assert(load1_ok(m0, flag, ml, vf));
            assert(rel_fetch(m0, first, last, flag, exec.m(), Chip8Result::<()>::Ok(())));
        }
        Ok(())
    } else {
        proof {
            assert(fin_fetch(ml, first_reg, last_reg, vf, exec.m(), Chip8Result::<()>::Ok(())));
            assert(load1_ok(m0, flag, ml, vf));
            assert(rel_fetch(m0, first, last, flag, exec.m(), Chip8Result::<()>::Ok(())));
        }
        Ok(())
    }
}

impl Operation {
    /// Executes this operation against a machine state through the
    /// `Execute` capability.
    pub fn execute<E: Execute>(&self, exec: &mut E) -> (r: Chip8Result<()>)
        requires
            old(exec).inv(),
        ensures
            final(exec).inv(),
            spec_op_rel(*self, old(exec).m(), final(exec).m(), r),
    {
        match *self {
            Operation::NoOp => Ok(()),
            Operation::Load(d, s) => crate::implementations::load(exec, d, s),
            Operation::Add(d, a, b) => crate::implementations::add(exec, d, a, b),
            Operation::Sub(d, a, b) => crate::implementations::sub(exec, d, a, b),
            Operation::Jump(a) => crate::implementations::jump(exec, a),
            Operation::JumpV0(a) => crate::implementations::jump_v0(exec, a),
            Operation::Call(a) => crate::implementations::call(exec, a),
            Operation::Ret => crate::implementations::ret(exec),
            Operation::Or(d, a, b) => crate::implementations::or(exec, d, a, b),
            Operation::And(d, a, b) => crate::implementations::and(exec, d, a, b),
            Operation::Xor(d, a, b) => crate::implementations::xor(exec, d, a, b),
            Operation::Shr(d, s) => crate::implementations::shr(exec, d, s),
            Operation::Shl(d, s) => crate::implementations::shl(exec, d, s),
            Operation::Font(g, f) => crate::implementations::font(exec, g, f),
            Operation::Bcd(v) => crate::implementations::bcd(exec, v),
            Operation::SkipEq(a, b) => crate::implementations::skip_eq(exec, a, b),
            Operation::SkipNotEq(a, b) => crate::implementations::skip_not_eq(exec, a, b),
            Operation::SkipKey(k) => crate::implementations::skip_key_pressed(exec, k),
            Operation::SkipNotKey(k) => crate::implementations::skip_key_not_pressed(exec, k),
            Operation::WaitKey(d, k) => crate::implementations::wait_key(exec, d, k),
            Operation::Cls => crate::implementations::clear_screen(exec),
            Operation::Stash(a, b, f) => crate::implementations::stash(exec, a, b, f),
            Operation::Fetch(a, b, f) => crate::implementations::fetch(exec, a, b, f),
            Operation::Rand(d, s, mk) => crate::implementations::random(exec, d, s, mk),
            Operation::Sprite(x, y, n) => crate::implementations::sprite(exec, x, y, n),
        }
    }
}

} // verus!
