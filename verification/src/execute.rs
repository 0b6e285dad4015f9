//! The machine-state capability that operation semantics are written
//! against, and the mathematical model of a machine state.
//!
//! Every operation implementation manipulates the state only through the
//! `Execute` trait, so the same semantics can drive any conforming state.
//! The contracts of the trait's methods are stated over `MachineModel`, a
//! mathematical snapshot of a machine: RAM, registers, program counter,
//! stack, timers, frame buffer, keyboard, buzzer, audio pattern, and the
//! optional deterministic random sequence.

use vstd::prelude::*;

use crate::config::Config;
use crate::operands::{Dest, Src};
use crate::types::{Audio, Chip8Error, Chip8Result, Keyboard, Vram};

verus! {

/// The mathematical model of a machine state.
pub struct MachineModel {
    /// The configuration the machine was built with.
    pub config: Config,
    /// The bytes of RAM.
    pub ram: Seq<u8>,
    /// The sixteen general registers v0-vF.
    pub v: Seq<u8>,
    /// The 16-bit index register I.
    pub i: u16,
    /// The program counter.
    pub pc: u16,
    /// The call stack, oldest frame first.
    pub stack: Seq<u16>,
    /// The sound timer.
    pub st: u8,
    /// The delay timer.
    pub dt: u8,
    /// The frame buffer, row-major, one cell per pixel.
    pub vram: Seq<u8>,
    /// The sixteen keys, true when pressed.
    pub keys: Seq<bool>,
    /// The sixteen keys as they stood before the last keyboard update;
    /// `WaitKey` watches for a key released here and pressed now.
    pub prev_keys: Seq<bool>,
    /// The buzzer flag.
    pub buzzer: bool,
    /// The sixteen-byte audio pattern.
    pub audio: Seq<u8>,
    /// The user-supplied random bytes, or nothing when the machine draws
    /// from a system generator.
    pub rand: Option<Seq<u8>>,
}

/// A machine model with the sizes its configuration promises.
pub open spec fn model_wf(m: MachineModel) -> bool {
    &&& m.config.wf()
    &&& m.ram.len() == m.config.ram_bytes
    &&& m.v.len() == 16
    &&& m.stack.len() <= m.config.stack_size
    &&& m.vram.len() == m.config.vram_size
    &&& m.keys.len() == 16
    &&& m.prev_keys.len() == 16
    &&& m.audio.len() == 16
}

/// The index of a frame-buffer cell: coordinates wrap on the 64 x 32 grid.
pub open spec fn spec_pixel_index(x: int, y: int) -> int {
    (x % 64) + (y % 32) * 64
}

/// The value a deterministic load yields, and the error it reports when the
/// source is out of range. Meaningful for every source but `Random`.
/// Literal operands are taken modulo their width; every loaded value fits
/// in sixteen bits.
pub open spec fn spec_load_val(m: MachineModel, src: Src) -> Result<usize, Chip8Error> {
    match src {
        Src::Const(n) => Result::Ok((n % 0x10000) as usize),
        Src::Register(r) => if r < 16 {
            Result::Ok(m.v[r as int] as usize)
        } else {
            Result::Err(Chip8Error::OutOfBoundsAt(r))
        },
        Src::Address12(a) => if a < m.ram.len() {
            Result::Ok(m.ram[a as int] as usize)
        } else {
            Result::Err(Chip8Error::OutOfBoundsAt(a))
        },
        Src::I => Result::Ok(m.i as usize),
        Src::IndirectI => if m.i < m.ram.len() && m.ram[m.i as int] < m.ram.len() {
            Result::Ok(m.ram[m.ram[m.i as int] as int] as usize)
        } else {
            Result::Err(Chip8Error::OutOfBounds)
        },
        Src::Literal12(n) => Result::Ok((n % 0x1000) as usize),
        Src::Literal8(n) => Result::Ok((n % 0x100) as usize),
        Src::Literal4(n) => Result::Ok((n % 0x10) as usize),
        Src::DelayTimer => Result::Ok(m.dt as usize),
        Src::SoundTimer => Result::Ok(m.st as usize),
        Src::Random => Result::Ok(0),
        Src::PC => Result::Ok(m.pc as usize),
    }
}

/// How drawing one random byte relates the machine before and after: a
/// supplied sequence yields its first byte, or zero once exhausted, and is
/// consumed; with a system generator the state is unchanged and any byte
/// may come back.
pub open spec fn spec_rand_drawn(m: MachineModel, v: usize, m2: MachineModel) -> bool {
    match m.rand {
        Option::Some(s) => {
            &&& v == (if s.len() > 0 {
                s[0] as usize
            } else {
                0
            })
            &&& m2 == (MachineModel {
                rand: Option::Some(
                    if s.len() > 0 {
                        s.skip(1)
                    } else {
                        s
                    },
                ),
                ..m
            })
        },
        Option::None => {
            &&& v < 256
            &&& m2 == m
        },
    }
}

/// How a load relates the machine before and after: every source but
/// `Random` is deterministic and leaves the state unchanged; `Random` draws
/// a byte and never fails.
pub open spec fn spec_load_rel(
    m: MachineModel,
    src: Src,
    m2: MachineModel,
    r: Result<usize, Chip8Error>,
) -> bool {
    match src {
        Src::Random => match r {
            Result::Ok(v) => spec_rand_drawn(m, v, m2),
            Result::Err(_) => false,
        },
        _ => m2 == m && r == spec_load_val(m, src),
    }
}

/// A successful load: the value is at most sixteen bits wide.
pub open spec fn load1_ok(m: MachineModel, a: Src, ml: MachineModel, va: usize) -> bool {
    spec_load_rel(m, a, ml, Result::Ok(va)) && va <= 0xFFFF
}

/// A failing load: the state is unchanged.
pub open spec fn load1_err(m: MachineModel, a: Src, m2: MachineModel, e: Chip8Error) -> bool {
    spec_load_rel(m, a, m2, Result::Err(e))
}

/// Two loads in order, both succeeding.
pub open spec fn load2_ok(
    m: MachineModel,
    a: Src,
    b: Src,
    ml: MachineModel,
    va: usize,
    vb: usize,
) -> bool {
    exists|mm: MachineModel| #[trigger] load1_ok(m, a, mm, va) && load1_ok(mm, b, ml, vb)
}

/// Two loads in order, the first or second failing.
pub open spec fn load2_err(
    m: MachineModel,
    a: Src,
    b: Src,
    m2: MachineModel,
    e: Chip8Error,
) -> bool {
    ||| load1_err(m, a, m2, e)
    ||| exists|mm: MachineModel, va: usize|
        #[trigger] load1_ok(m, a, mm, va) && load1_err(mm, b, m2, e)
}

/// Three loads in order, all succeeding.
pub open spec fn load3_ok(
    m: MachineModel,
    a: Src,
    b: Src,
    c: Src,
    ml: MachineModel,
    va: usize,
    vb: usize,
    vc: usize,
) -> bool {
    exists|mm: MachineModel| #[trigger] load2_ok(m, a, b, mm, va, vb) && load1_ok(mm, c, ml, vc)
}

/// Three loads in order, one of them failing.
pub open spec fn load3_err(
    m: MachineModel,
    a: Src,
    b: Src,
    c: Src,
    m2: MachineModel,
    e: Chip8Error,
) -> bool {
    ||| load2_err(m, a, b, m2, e)
    ||| exists|mm: MachineModel, va: usize, vb: usize|
        #[trigger] load2_ok(m, a, b, mm, va, vb) && load1_err(mm, c, m2, e)
}

/// What storing data into a destination yields: the new machine, or the
/// error reported for an out-of-range destination. Stored data is reduced
/// modulo the destination's width: eight bits for registers, RAM cells and
/// timers, sixteen bits for I and the program counter.
pub open spec fn spec_store(m: MachineModel, dest: Dest, data: int) -> Result<
    MachineModel,
    Chip8Error,
> {
    match dest {
        Dest::Register(r) => if r < 16 {
            Result::Ok(MachineModel { v: m.v.update(r as int, (data % 256) as u8), ..m })
        } else {
            Result::Err(Chip8Error::OutOfBoundsAt(r))
        },
        Dest::Address12(a) => if a < m.ram.len() {
            Result::Ok(MachineModel { ram: m.ram.update(a as int, (data % 256) as u8), ..m })
        } else {
            Result::Err(Chip8Error::OutOfBoundsAt(a))
        },
        Dest::I => Result::Ok(MachineModel { i: (data % 0x10000) as u16, ..m }),
        Dest::IndirectI => if m.i < m.ram.len() {
            Result::Ok(
                MachineModel { ram: m.ram.update(m.i as int, (data % 256) as u8), ..m },
            )
        } else {
            Result::Err(Chip8Error::OutOfBoundsAt(m.i as usize))
        },
        Dest::DelayTimer => Result::Ok(MachineModel { dt: (data % 256) as u8, ..m }),
        Dest::SoundTimer => Result::Ok(MachineModel { st: (data % 256) as u8, ..m }),
        Dest::PC => Result::Ok(MachineModel { pc: (data % 0x10000) as u16, ..m }),
    }
}

/// How a store relates the machine before and after: the successful store
/// updates the destination, the failing store leaves the state unchanged.
pub open spec fn spec_store_rel(
    m: MachineModel,
    dest: Dest,
    data: int,
    m2: MachineModel,
    r: Chip8Result<()>,
) -> bool {
    match spec_store(m, dest, data) {
        Result::Ok(ms) => m2 == ms && r == Chip8Result::<()>::Ok(()),
        Result::Err(e) => m2 == m && r == Chip8Result::<()>::Err(e),
    }
}

/// The machine with the flag register vF set to one or zero.
pub open spec fn spec_set_flag(m: MachineModel, flag: bool) -> MachineModel {
    MachineModel {
        v: m.v.update(
            15,
            if flag {
                1u8
            } else {
                0u8
            },
        ),
        ..m
    }
}

/// The machine with the program counter set.
pub open spec fn spec_with_pc(m: MachineModel, pc: u16) -> MachineModel {
    MachineModel { pc, ..m }
}

/// How a jump relates the machine before and after: in-range targets set
/// the program counter, out-of-range targets report the index and leave the
/// state unchanged.
pub open spec fn spec_jump_rel(
    m: MachineModel,
    addr: u16,
    m2: MachineModel,
    r: Chip8Result<()>,
) -> bool {
    if (addr as int) < m.config.ram_bytes {
        m2 == spec_with_pc(m, addr) && r == Chip8Result::<()>::Ok(())
    } else {
        m2 == m && r == Chip8Result::<()>::Err(Chip8Error::OutOfBoundsAt(addr as usize))
    }
}

/// The program counter advanced by one instruction, wrapping at the top of
/// the 16-bit address space.
pub open spec fn spec_advanced_pc(pc: u16) -> u16 {
    ((pc + 2) % 0x10000) as u16
}

/// Implementations of `Execute` can manipulate a machine state.
///
/// Each operation uses these functions to read and alter the state of the
/// machine as instructions are executed.
pub trait Execute: Sized {
    /// The mathematical model of the current state.
    spec fn m(&self) -> MachineModel;

    /// The representation invariant of the state.
    spec fn inv(&self) -> bool;

    /// A valid state models a well-formed machine.
    proof fn inv_wf(&self)
        requires
            self.inv(),
        ensures
            model_wf(self.m()),
    ;

    /// Returns the configuration the machine was built with.
    fn config(&self) -> (c: Config)
        requires
            self.inv(),
        ensures
            c == self.m().config,
    ;

    /// Loads a value from the source operand.
    fn load(&mut self, src: Src) -> (r: Chip8Result<usize>)
        requires
            old(self).inv(),
        ensures
            final(self).inv(),
            spec_load_rel(old(self).m(), src, final(self).m(), r),
            r is Ok ==> r.unwrap() <= 0xFFFF,
    ;

    /// Stores a value into the destination operand.
    fn store(&mut self, dest: Dest, data: usize) -> (r: Chip8Result<()>)
        requires
            old(self).inv(),
        ensures
            final(self).inv(),
            spec_store_rel(old(self).m(), dest, data as int, final(self).m(), r),
    ;

    /// Pops the youngest address off the stack.
    fn stack_pop(&mut self) -> (r: Option<u16>)
        requires
            old(self).inv(),
        ensures
            final(self).inv(),
            old(self).m().stack.len() == 0 ==> r is None && final(self).m() == old(self).m(),
            old(self).m().stack.len() > 0 ==> r == Option::Some(old(self).m().stack.last())
                && final(self).m() == (MachineModel {
                stack: old(self).m().stack.drop_last(),
                ..old(self).m()
            }),
    ;

    /// Pushes an address onto the stack; a full stack reports its depth.
    fn stack_push(&mut self, address: u16) -> (r: Chip8Result<()>)
        requires
            old(self).inv(),
        ensures
            final(self).inv(),
            old(self).m().stack.len() < old(self).m().config.stack_size ==> r
                == Chip8Result::<()>::Ok(()) && final(self).m() == (MachineModel {
                stack: old(self).m().stack.push(address),
                ..old(self).m()
            }),
            old(self).m().stack.len() >= old(self).m().config.stack_size ==> r
                == Chip8Result::<()>::Err(Chip8Error::OutOfBoundsAt(old(self).m().stack.len() as usize))
                && final(self).m() == old(self).m(),
    ;

    /// Returns the address the program counter points to.
    fn pc(&self) -> (r: u16)
        requires
            self.inv(),
        ensures
            r == self.m().pc,
    ;

    /// Advances the program counter one instruction, wrapping at the top of
    /// the address space.
    fn advance_pc(&mut self)
        requires
            old(self).inv(),
        ensures
            final(self).inv(),
            final(self).m() == spec_with_pc(old(self).m(), spec_advanced_pc(old(self).m().pc)),
    ;

    /// Jumps the program counter to a given address.
    fn jump(&mut self, addr: u16) -> (r: Chip8Result<()>)
        requires
            old(self).inv(),
        ensures
            final(self).inv(),
            spec_jump_rel(old(self).m(), addr, final(self).m(), r),
    ;

    /// Stores a flag in vF: one for true, zero for false.
    fn set_flag(&mut self, state: bool)
        requires
            old(self).inv(),
        ensures
            final(self).inv(),
            final(self).m() == spec_set_flag(old(self).m(), state),
    ;

    /// Sets a pixel directly; coordinates wrap on the 64 x 32 grid.
    fn set_pixel(&mut self, x: usize, y: usize, pixel: u8) -> (r: Chip8Result<()>)
        requires
            old(self).inv(),
        ensures
            final(self).inv(),
            r == Chip8Result::<()>::Ok(()),
            final(self).m() == (MachineModel {
                vram: old(self).m().vram.update(spec_pixel_index(x as int, y as int), pixel),
                ..old(self).m()
            }),
    ;

    /// XORs a pixel in; coordinates wrap on the 64 x 32 grid. Returns true
    /// exactly when a lit pixel was erased by a lit sprite bit.
    fn xor_pixel(&mut self, x: usize, y: usize, pixel: u8) -> (r: Chip8Result<bool>)
        requires
            old(self).inv(),
        ensures
            final(self).inv(),
            ({
                let ix = spec_pixel_index(x as int, y as int);
                let old_px = old(self).m().vram[ix];
                &&& r == Chip8Result::<bool>::Ok((old_px & pixel) != 0)
                &&& final(self).m() == (MachineModel {
                    vram: old(self).m().vram.update(ix, old_px ^ pixel),
                    ..old(self).m()
                })
            }),
    ;

    /// Sets the keyboard state; the state it replaces is kept so that a
    /// released-to-pressed transition can be observed.
    fn set_keyboard(&mut self, keys: &Keyboard) -> (r: Chip8Result<()>)
        requires
            old(self).inv(),
        ensures
            final(self).inv(),
            r == Chip8Result::<()>::Ok(()),
            final(self).m() == (MachineModel {
                prev_keys: old(self).m().keys,
                keys: keys@,
                ..old(self).m()
            }),
    ;

    /// Returns the keyboard state.
    fn keyboard(&self) -> (r: Chip8Result<Keyboard>)
        requires
            self.inv(),
        ensures
            r is Ok && r.unwrap()@ == self.m().keys,
    ;

    /// Returns the keyboard state the last update replaced.
    fn keyboard_previous(&self) -> (r: Chip8Result<Keyboard>)
        requires
            self.inv(),
        ensures
            r is Ok && r.unwrap()@ == self.m().prev_keys,
    ;

    /// Returns a snapshot of the frame buffer.
    fn vram(&self) -> (r: Chip8Result<Vram>)
        requires
            self.inv(),
        ensures
            r is Ok && r.unwrap()@ == self.m().vram,
    ;

    /// Returns the buzzer state.
    fn buzzer(&self) -> (r: Chip8Result<bool>)
        requires
            self.inv(),
        ensures
            r == Chip8Result::<bool>::Ok(self.m().buzzer),
    ;

    /// Returns the audio pattern buffer.
    fn audio(&self) -> (r: Chip8Result<Audio>)
        requires
            self.inv(),
        ensures
            r is Ok && r.unwrap()@ == self.m().audio,
    ;
}

} // verus!
