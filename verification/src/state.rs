//! The concrete state of the CHIP-8 virtual machine.

use std::collections::VecDeque;

use vstd::prelude::*;

use crate::config::Config;
use crate::execute::{
    model_wf, spec_advanced_pc, spec_jump_rel, spec_load_rel, spec_load_val, spec_pixel_index,
    spec_rand_drawn, spec_set_flag, spec_store, spec_store_rel, spec_with_pc, Execute,
    MachineModel,
};
use crate::operands::{Dest, Src};
use crate::types::{Audio, Buzzer, Chip8Error, Chip8Result, Keyboard, Vram};

verus! {

/// User-provided random data, consumed from the front.
pub type RandomBytes = VecDeque<u8>;

/// Relies on rand::thread_rng and rand::Rng::gen to draw one byte from the
/// thread-local generator. Nothing is promised of the value.
#[verifier::external_body]
fn random_byte() -> (r: u8) {
    rand::Rng::gen::<u8>(&mut rand::thread_rng())
}

/// Builds a vector of `n` zero bytes.
fn zero_bytes(n: usize) -> (r: Vec<u8>)
    ensures
        r@ == Seq::new(n as nat, |j: int| 0u8),
{
    let mut r: Vec<u8> = Vec::new();
    while r.len() < n
        invariant
            r@.len() <= n,
            forall|j: int| 0 <= j < r@.len() ==> r@[j] == 0u8,
        decreases n - r@.len(),
    {
        r.push(0);
    }
    assert(r@ =~= Seq::new(n as nat, |j: int| 0u8));
    r
}

/// The machine state a freshly constructed or reset machine is in: RAM,
/// registers, program counter, timers, frame buffer, keyboard, buzzer and
/// audio are all zero or false.
pub open spec fn spec_initial_model(config: Config, rand: Option<Seq<u8>>) -> MachineModel {
    MachineModel {
        config,
        ram: Seq::new(config.ram_bytes as nat, |j: int| 0u8),
        v: Seq::new(16, |j: int| 0u8),
        i: 0,
        pc: 0,
        stack: Seq::empty(),
        st: 0,
        dt: 0,
        vram: Seq::new(config.vram_size as nat, |j: int| 0u8),
        keys: Seq::new(16, |j: int| false),
        prev_keys: Seq::new(16, |j: int| false),
        buzzer: false,
        audio: Seq::new(16, |j: int| 0u8),
        rand,
    }
}

/// The bytes of RAM after copying a byte string to a base address.
pub open spec fn spec_loaded_bytes(ram: Seq<u8>, bytes: Seq<u8>, addr: int) -> Seq<u8> {
    Seq::new(
        ram.len(),
        |j: int|
            if addr <= j < addr + bytes.len() {
                bytes[j - addr]
            } else {
                ram[j]
            },
    )
}

/// The machine state that configuration-driven initialization produces: the
/// power-on state of `spec_initial_model` with the configured small font
/// copied to its address and the program counter at the program base.
pub open spec fn spec_initialized_model(config: Config, rand: Option<Seq<u8>>) -> MachineModel {
    MachineModel {
        ram: spec_loaded_bytes(
            spec_initial_model(config, rand).ram,
            config.font_small@,
            config.addr_font as int,
        ),
        pc: config.addr_program as u16,
        ..spec_initial_model(config, rand)
    }
}

/// A CHIP-8 machine state: configuration, RAM, registers, program counter,
/// call stack, timers, frame buffer, keyboard, buzzer, audio pattern, and
/// the optional deterministic random sequence used for replay and testing.
pub struct Chip8 {
    /// The configuration of the machine.
    pub config: Config,
    /// The RAM.
    pub ram: Vec<u8>,
    /// The general purpose registers v0-vF.
    pub v: [u8; 16],
    /// The I register.
    pub i: u16,
    /// The program counter.
    pub pc: u16,
    /// The call stack.
    pub stack: Vec<u16>,
    /// The sound timer.
    pub st: u8,
    /// The delay timer.
    pub dt: u8,
    /// The frame buffer.
    pub vram: Vec<u8>,
    /// The state of the keyboard.
    pub keys: Keyboard,
    /// The keyboard state the last update replaced.
    pub prev_keys: Keyboard,
    /// The state of the buzzer.
    pub buzzer: Buzzer,
    /// The audio pattern buffer.
    pub audio: Audio,
    /// Optional user-provided random data for replay.
    pub random: Option<RandomBytes>,
}

impl Chip8 {
    /// Creates a new machine using the supplied configuration, with every
    /// mutable part of the state zeroed.
    pub fn new(config: &Config, random: Option<RandomBytes>) -> (c: Chip8)
        requires
            config.wf(),
        ensures
            c.inv(),
            c.m() == spec_initial_model(
                *config,
                match random {
                    Option::Some(rv) => Option::Some(rv@),
                    Option::None => Option::<Seq<u8>>::None,
                },
            ),
    {
        let c = Chip8 {
            config: *config,
            ram: zero_bytes(config.ram_bytes),
            v: [0; 16],
            i: 0,
            pc: 0,
            stack: Vec::new(),
            st: 0,
            dt: 0,
            vram: zero_bytes(config.vram_size),
            keys: [false; 16],
            prev_keys: [false; 16],
            buzzer: false,
            audio: [0; 16],
            random,
        };
        proof {
            assert(c.v@ =~= Seq::new(16, |j: int| 0u8));
            assert(c.keys@ =~= Seq::new(16, |j: int| false));
            assert(c.audio@ =~= Seq::new(16, |j: int| 0u8));
            assert(c.stack@ =~= Seq::<u16>::empty());
        }
        c
    }

    /// Draws the next random byte: the front of the supplied sequence, or
    /// zero once it is exhausted; without a supplied sequence, a byte from
    /// the system generator.
    fn next_random(&mut self) -> (r: u8)
        requires
            old(self).inv(),
        ensures
            final(self).inv(),
            spec_rand_drawn(old(self).m(), r as usize, final(self).m()),
    {
        match &mut self.random {
            Option::Some(rv) => {
                let ghost s = rv@;
                match rv.pop_front() {
                    Option::Some(b) => {
                        proof {
                            assert(rv@ =~= s.skip(1));
                        }
                        b
                    },
                    Option::None => 0,
                }
            },
            Option::None => random_byte(),
        }
    }

    /// Replaces the supplied random data.
    pub fn set_random(&mut self, iter: Option<RandomBytes>)
        requires
            old(self).inv(),
        ensures
            final(self).inv(),
            final(self).m() == (MachineModel {
                rand: match iter {
                    Option::Some(rv) => Option::Some(rv@),
                    Option::None => Option::<Seq<u8>>::None,
                },
                ..old(self).m()
            }),
    {
        self.random = iter;
    }

    /// Copies a byte string into RAM at the given address; a string that
    /// would run past the end of RAM is rejected whole, reporting the base
    /// address.
    pub fn load_bytes(&mut self, bytes: &[u8], address: u16) -> (r: Chip8Result<()>)
        requires
            old(self).inv(),
        ensures
            final(self).inv(),
            address as int + bytes@.len() > old(self).m().config.ram_bytes ==> r
                == Chip8Result::<()>::Err(Chip8Error::OutOfBoundsAt(address as usize))
                && final(self).m() == old(self).m(),
            address as int + bytes@.len() <= old(self).m().config.ram_bytes ==> r
                == Chip8Result::<()>::Ok(()) && final(self).m() == (MachineModel {
                ram: spec_loaded_bytes(old(self).m().ram, bytes@, address as int),
                ..old(self).m()
            }),
    {
        if bytes.len() > self.config.ram_bytes || address as usize > self.config.ram_bytes
            - bytes.len() {
            return Err(Chip8Error::OutOfBoundsAt(address as usize));
        }
        let ghost ram0 = self.ram@;
        let mut k: usize = 0;
        while k < bytes.len()
            invariant
                self.inv(),
                k <= bytes@.len(),
                address as int + bytes@.len() <= ram0.len(),
                self.ram@.len() == ram0.len(),
                self.config == old(self).config,
                self.v == old(self).v && self.i == old(self).i && self.pc == old(self).pc
                    && self.stack == old(self).stack && self.st == old(self).st && self.dt == old(
                    self,
                ).dt && self.vram == old(self).vram && self.keys == old(self).keys
                    && self.prev_keys == old(self).prev_keys && self.buzzer
                    == old(self).buzzer && self.audio == old(self).audio && self.random == old(
                    self,
                ).random,
                forall|j: int|
                    0 <= j < ram0.len() ==> self.ram@[j] == (if address as int <= j < address as int
                        + k {
                        bytes@[j - address as int]
                    } else {
                        ram0[j]
                    }),
            decreases bytes@.len() - k,
        {
            let idx = address as usize + k;
            self.ram[idx] = bytes[k];
            k = k + 1;
        }
        proof {
            assert(self.ram@ =~= spec_loaded_bytes(ram0, bytes@, address as int));
        }
        Ok(())
    }

    /// Resets the machine: every mutable part returns to zero and the
    /// configuration-driven initialization is applied again, so the small
    /// font sits at its configured address and the program counter at the
    /// program base. The configuration and the supplied random data are
    /// kept.
    pub fn reset(&mut self) -> (r: Chip8Result<()>)
        requires
            old(self).inv(),
        ensures
            final(self).inv(),
            r == Chip8Result::<()>::Ok(()),
            final(self).m() == spec_initialized_model(old(self).m().config, old(self).m().rand),
    {
        self.ram = zero_bytes(self.config.ram_bytes);
        self.v = [0; 16];
        self.i = 0;
        self.st = 0;
        self.dt = 0;
        self.stack = Vec::new();
        self.vram = zero_bytes(self.config.vram_size);
        self.keys = [false; 16];
        self.prev_keys = [false; 16];
        self.buzzer = false;
        self.audio = [0; 16];
        proof {
            assert(self.v@ =~= Seq::new(16, |j: int| 0u8));
            assert(self.keys@ =~= Seq::new(16, |j: int| false));
            assert(self.audio@ =~= Seq::new(16, |j: int| 0u8));
            assert(self.stack@ =~= Seq::<u16>::empty());
        }
        let font = self.config.font_small;
        let r1 = self.load_bytes(&font, self.config.addr_font as u16);
        proof {
            assert(r1 == Chip8Result::<()>::Ok(()));
        }
        self.pc = self.config.addr_program as u16;
        Ok(())
    }
}

impl Execute for Chip8 {
    open spec fn m(&self) -> MachineModel {
        MachineModel {
            config: self.config,
            ram: self.ram@,
            v: self.v@,
            i: self.i,
            pc: self.pc,
            stack: self.stack@,
            st: self.st,
            dt: self.dt,
            vram: self.vram@,
            keys: self.keys@,
            prev_keys: self.prev_keys@,
            buzzer: self.buzzer,
            audio: self.audio@,
            rand: match self.random {
                Option::Some(rv) => Option::Some(rv@),
                Option::None => Option::None,
            },
        }
    }

    open spec fn inv(&self) -> bool {
        model_wf(self.m())
    }

    proof fn inv_wf(&self) {
    }

    fn config(&self) -> (c: Config) {
        self.config
    }

    fn load(&mut self, src: Src) -> (r: Chip8Result<usize>) {
        match src {
            Src::Const(n) => Ok(n % 0x10000),
            Src::Register(r) => {
                if r < 16 {
                    Ok(self.v[r] as usize)
                } else {
                    Err(Chip8Error::OutOfBoundsAt(r))
                }
            },
            Src::Address12(a) => {
                if a < self.ram.len() {
                    Ok(self.ram[a] as usize)
                } else {
                    Err(Chip8Error::OutOfBoundsAt(a))
                }
            },
            Src::I => Ok(self.i as usize),
            Src::IndirectI => {
                if (self.i as usize) < self.ram.len() {
                    let addr = self.ram[self.i as usize] as usize;
                    if addr < self.ram.len() {
                        Ok(self.ram[addr] as usize)
                    } else {
                        Err(Chip8Error::OutOfBounds)
                    }
                } else {
                    Err(Chip8Error::OutOfBounds)
                }
            },
            Src::Literal12(n) => Ok(n % 0x1000),
            Src::Literal8(n) => Ok(n % 0x100),
            Src::Literal4(n) => Ok(n % 0x10),
            Src::DelayTimer => Ok(self.dt as usize),
            Src::SoundTimer => Ok(self.st as usize),
            Src::Random => Ok(self.next_random() as usize),
            Src::PC => Ok(self.pc as usize),
        }
    }

    fn store(&mut self, dest: Dest, data: usize) -> (r: Chip8Result<()>) {
        match dest {
            Dest::Register(r) => {
                if r < 16 {
                    self.v[r] = (data % 256) as u8;
                    Ok(())
                } else {
                    Err(Chip8Error::OutOfBoundsAt(r))
                }
            },
            Dest::Address12(a) => {
                if a < self.ram.len() {
                    self.ram[a] = (data % 256) as u8;
                    Ok(())
                } else {
                    Err(Chip8Error::OutOfBoundsAt(a))
                }
            },
            Dest::I => {
                self.i = (data % 0x10000) as u16;
                Ok(())
            },
            Dest::IndirectI => {
                let at = self.i as usize;
                if at < self.ram.len() {
                    self.ram[at] = (data % 256) as u8;
                    Ok(())
                } else {
                    Err(Chip8Error::OutOfBoundsAt(at))
                }
            },
            Dest::DelayTimer => {
                self.dt = (data % 256) as u8;
                Ok(())
            },
            Dest::SoundTimer => {
                self.st = (data % 256) as u8;
                Ok(())
            },
            Dest::PC => {
                self.pc = (data % 0x10000) as u16;
                Ok(())
            },
        }
    }

    fn stack_pop(&mut self) -> (r: Option<u16>) {
        self.stack.pop()
    }

    fn stack_push(&mut self, address: u16) -> (r: Chip8Result<()>) {
        if self.stack.len() < self.config.stack_size {
            self.stack.push(address);
            Ok(())
        } else {
            Err(Chip8Error::OutOfBoundsAt(self.stack.len()))
        }
    }

    fn pc(&self) -> (r: u16) {
        self.pc
    }

    fn advance_pc(&mut self) {
        self.pc = ((self.pc as u32 + 2) % 0x10000) as u16;
    }

    fn jump(&mut self, addr: u16) -> (r: Chip8Result<()>) {
        if (addr as usize) < self.config.ram_bytes {
            self.pc = addr;
            Ok(())
        } else {
            Err(Chip8Error::OutOfBoundsAt(addr as usize))
        }
    }

    fn set_flag(&mut self, state: bool) {
        self.v[15] = if state {
            1
        } else {
            0
        };
    }

    fn set_pixel(&mut self, x: usize, y: usize, pixel: u8) -> (r: Chip8Result<()>) {
        let idx = (x % 64) + (y % 32) * 64;
        self.vram[idx] = pixel;
        Ok(())
    }

    fn xor_pixel(&mut self, x: usize, y: usize, pixel: u8) -> (r: Chip8Result<bool>) {
        let idx = (x % 64) + (y % 32) * 64;
        let old_px = self.vram[idx];
        self.vram[idx] = old_px ^ pixel;
        Ok((old_px & pixel) != 0)
    }

    fn set_keyboard(&mut self, keys: &Keyboard) -> (r: Chip8Result<()>) {
        let replaced = self.keys;
        self.prev_keys = replaced;
        self.keys = *keys;
        Ok(())
    }

    fn keyboard(&self) -> (r: Chip8Result<Keyboard>) {
        Ok(self.keys)
    }

    fn keyboard_previous(&self) -> (r: Chip8Result<Keyboard>) {
        Ok(self.prev_keys)
    }

    fn vram(&self) -> (r: Chip8Result<Vram>) {
        let mut copy: Vec<u8> = Vec::new();
        let mut k: usize = 0;
        while k < self.vram.len()
            invariant
                k <= self.vram@.len(),
                copy@ == self.vram@.take(k as int),
            decreases self.vram@.len() - k,
        {
            copy.push(self.vram[k]);
            assert(copy@ =~= self.vram@.take(k as int + 1));
            k = k + 1;
        }
        assert(copy@ =~= self.vram@);
        Ok(copy)
    }

    fn buzzer(&self) -> (r: Chip8Result<Buzzer>) {
        Ok(self.buzzer)
    }

    fn audio(&self) -> (r: Chip8Result<Audio>) {
        Ok(self.audio)
    }
}

} // verus!
