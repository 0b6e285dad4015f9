//! The simulator: a machine state driven by a prebuilt instruction set.
//!
//! A step fetches the big-endian codeword at the program counter, advances
//! the program counter past it, decodes it against the enabled instruction
//! set, and executes the resulting operation. Decoding and execution errors
//! abort the step and are returned to the caller; a decode failure leaves
//! the program counter already advanced.

use vstd::prelude::*;

use crate::codec::Definition;
use crate::config::Config;
use crate::execute::{
    spec_advanced_pc, spec_load_rel, spec_store_rel, spec_with_pc, Execute, MachineModel,
};
use crate::operands::{Dest, Src};
use crate::operations::Operation;
use crate::semantics::spec_op_rel;
use crate::set::{spec_decode, spec_isa, InstructionSet};
use crate::state::{spec_initialized_model, spec_loaded_bytes, Chip8, RandomBytes};
use crate::types::{Address, Audio, Buzzer, Chip8Error, Chip8Result, Codeword, Keyboard, Vram};

verus! {

/// The big-endian codeword stored at an address, or the error reported
/// when the two bytes do not both lie in RAM.
pub open spec fn spec_fetch_codeword(m: MachineModel, addr: u16) -> Result<u16, Chip8Error> {
    if addr as int + 1 < m.ram.len() {
        Result::Ok(((m.ram[addr as int] as int) * 256 + m.ram[addr as int + 1] as int) as u16)
    } else {
        Result::Err(
            Chip8Error::OutOfBoundsAt(
                if (addr as int) < m.ram.len() {
                    (addr + 1) as usize
                } else {
                    addr as usize
                },
            ),
        )
    }
}

/// How one step relates the machine before and after: fetch the codeword
/// at the program counter, advance past it, decode, execute.
pub open spec fn spec_step_rel(
    defs: Seq<Definition>,
    m: MachineModel,
    m2: MachineModel,
    r: Chip8Result<()>,
) -> bool {
    match spec_fetch_codeword(m, m.pc) {
        Result::Err(e) => m2 == m && r == Chip8Result::<()>::Err(e),
        Result::Ok(cw) => {
            let m1 = spec_with_pc(m, spec_advanced_pc(m.pc));
            match spec_decode(defs, cw) {
                Option::None => m2 == m1 && r == Chip8Result::<()>::Err(
                    Chip8Error::InvalidInstruction(cw),
                ),
                Option::Some(op) => spec_op_rel(op, m1, m2, r),
            }
        },
    }
}

/// How `n` steps relate the machine before and after: every step succeeds,
/// or the machine stops at the first failing step and reports its error.
pub open spec fn spec_step_n_rel(
    defs: Seq<Definition>,
    m: MachineModel,
    m2: MachineModel,
    n: int,
    r: Chip8Result<()>,
) -> bool
    decreases n,
{
    if n <= 0 {
        m2 == m && r == Chip8Result::<()>::Ok(())
    } else {
        ||| (exists|mm: MachineModel|
            (#[trigger] spec_step_rel(defs, m, mm, Chip8Result::<()>::Ok(()))) && spec_step_n_rel(
                defs,
                mm,
                m2,
                n - 1,
                r,
            ))
        ||| (exists|e: Chip8Error|
            (#[trigger] spec_step_rel(defs, m, m2, Chip8Result::<()>::Err(e))) && r
                == Chip8Result::<()>::Err(e))
    }
}

/// A chain of successful steps followed by one more is a longer chain.
proof fn lemma_steps_extend(
    defs: Seq<Definition>,
    m: MachineModel,
    mm: MachineModel,
    m2: MachineModel,
    k: int,
)
    requires
        k >= 0,
        spec_step_n_rel(defs, m, mm, k, Chip8Result::<()>::Ok(())),
        spec_step_rel(defs, mm, m2, Chip8Result::<()>::Ok(())),
    ensures
        spec_step_n_rel(defs, m, m2, k + 1, Chip8Result::<()>::Ok(())),
    decreases k,
{
    if k == 0 {
        assert(mm == m);
        assert(spec_step_rel(defs, m, m2, Chip8Result::<()>::Ok(())));
        assert(spec_step_n_rel(defs, m2, m2, 0, Chip8Result::<()>::Ok(())));
    } else {
        let mi = choose|mi: MachineModel|
            (#[trigger] spec_step_rel(defs, m, mi, Chip8Result::<()>::Ok(())))
                && spec_step_n_rel(defs, mi, mm, k - 1, Chip8Result::<()>::Ok(()));
        lemma_steps_extend(defs, mi, mm, m2, k - 1);
        assert(spec_step_rel(defs, m, mi, Chip8Result::<()>::Ok(())));
        assert(spec_step_n_rel(defs, mi, m2, k, Chip8Result::<()>::Ok(())));
    }
}

/// A chain of successful steps followed by a failing one fails any longer
/// run at that point.
proof fn lemma_steps_fail(
    defs: Seq<Definition>,
    m: MachineModel,
    mm: MachineModel,
    m2: MachineModel,
    k: int,
    n: int,
    e: Chip8Error,
)
    requires
        0 <= k < n,
        spec_step_n_rel(defs, m, mm, k, Chip8Result::<()>::Ok(())),
        spec_step_rel(defs, mm, m2, Chip8Result::<()>::Err(e)),
    ensures
        spec_step_n_rel(defs, m, m2, n, Chip8Result::<()>::Err(e)),
    decreases k,
{
    if k == 0 {
        assert(mm == m);
        assert(spec_step_n_rel(defs, m, m2, n, Chip8Result::<()>::Err(e)));
    } else {
        let mi = choose|mi: MachineModel|
            (#[trigger] spec_step_rel(defs, m, mi, Chip8Result::<()>::Ok(())))
                && spec_step_n_rel(defs, mi, mm, k - 1, Chip8Result::<()>::Ok(()));
        lemma_steps_fail(defs, mi, mm, m2, k - 1, n - 1, e);
    }
}

/// Simulates a CHIP-8 machine: a machine state together with the
/// instruction set its configuration enables.
pub struct Simulator {
    core: Chip8,
    instruction_set: InstructionSet,
}

impl Simulator {
    /// The mathematical model of the machine state.
    pub closed spec fn m(&self) -> MachineModel {
        self.core.m()
    }

    /// The definitions of the enabled instruction set, in decoding order.
    pub closed spec fn defs(&self) -> Seq<Definition> {
        self.instruction_set.defs()
    }

    /// The representation invariant: a well-formed machine and a
    /// well-formed instruction set.
    pub closed spec fn inv(&self) -> bool {
        self.core.inv() && self.instruction_set.wf()
    }

    /// A valid simulator models a well-formed machine.
    pub proof fn inv_wf(&self)
        requires
            self.inv(),
        ensures
            crate::execute::model_wf(self.m()),
    {
        self.core.inv_wf();
    }

    /// Builds a simulator: a zeroed machine with the configured small font
    /// copied to its address and the program counter at the program base.
    pub fn new(config: &Config, rand_iterator: Option<RandomBytes>) -> (s: Simulator)
        requires
            config.wf(),
        ensures
            s.inv(),
            s.defs() == spec_isa(*config),
            s.m() == spec_initialized_model(
                *config,
                match rand_iterator {
                    Option::Some(rv) => Option::Some(rv@),
                    Option::None => Option::<Seq<u8>>::None,
                },
            ),
    {
        let mut core = Chip8::new(config, rand_iterator);
        let iset = InstructionSet::new(config);
        let r1 = core.load_bytes(&config.font_small, config.addr_font as u16);
        let r2 = core.store(Dest::PC, config.addr_program);
        proof {
            assert(r1 == Chip8Result::<()>::Ok(()));
            assert(r2 == Chip8Result::<()>::Ok(()));
        }
        Simulator { core, instruction_set: iset }
    }

    /// Resets the machine: every mutable part returns to zero and the
    /// configuration-driven initialization is applied again, so the small
    /// font sits at its configured address and the program counter at the
    /// program base.
    pub fn reset(&mut self) -> (r: Chip8Result<()>)
        requires
            old(self).inv(),
        ensures
            final(self).inv(),
            final(self).defs() == old(self).defs(),
            r == Chip8Result::<()>::Ok(()),
            final(self).m() == spec_initialized_model(old(self).m().config, old(self).m().rand),
    {
        self.core.reset()
    }

    /// Builds a simulator for the default configuration.
    pub fn default() -> (s: Simulator)
        ensures
            s.inv(),
            crate::config::is_cosmac_vip(s.m().config),
            s.defs() == spec_isa(s.m().config),
            s.m() == spec_initialized_model(s.m().config, Option::<Seq<u8>>::None),
    {
        let config = crate::config::cosmac_vip();
        Simulator::new(&config, None)
    }

    /// Decodes a codeword against the enabled instruction set; a codeword
    /// no definition matches is an invalid instruction.
    pub fn decode_instruction(&self, codeword: Codeword) -> (r: Chip8Result<Operation>)
        requires
            self.inv(),
        ensures
            r == (match spec_decode(self.defs(), codeword) {
                Option::Some(op) => Chip8Result::<Operation>::Ok(op),
                Option::None => Chip8Result::<Operation>::Err(
                    Chip8Error::InvalidInstruction(codeword),
                ),
            }),
    {
        match self.instruction_set.decode(codeword) {
            Some(op) => Ok(op),
            None => Err(Chip8Error::InvalidInstruction(codeword)),
        }
    }

    /// Reads the big-endian codeword at an address and decodes it.
    pub fn decode_at_addr(&self, addr: Address) -> (r: Chip8Result<Operation>)
        requires
            self.inv(),
        ensures
            r == (match spec_fetch_codeword(self.m(), addr) {
                Result::Ok(cw) => match spec_decode(self.defs(), cw) {
                    Option::Some(op) => Chip8Result::<Operation>::Ok(op),
                    Option::None => Chip8Result::<Operation>::Err(
                        Chip8Error::InvalidInstruction(cw),
                    ),
                },
                Result::Err(e) => Chip8Result::<Operation>::Err(e),
            }),
    {
        match self.fetch_codeword(addr) {
            Ok(cw) => self.decode_instruction(cw),
            Err(e) => Err(e),
        }
    }

    /// Reads the big-endian codeword at an address: the high byte first.
    fn fetch_codeword(&self, addr: Address) -> (r: Chip8Result<Codeword>)
        requires
            self.inv(),
        ensures
            r == spec_fetch_codeword(self.m(), addr),
    {
        let a = addr as usize;
        if a + 1 < self.core.ram.len() {
            let hi = self.core.ram[a] as u16;
            let lo = self.core.ram[a + 1] as u16;
            Ok(hi * 256 + lo)
        } else if a < self.core.ram.len() {
            Err(Chip8Error::OutOfBoundsAt(a + 1))
        } else {
            Err(Chip8Error::OutOfBoundsAt(a))
        }
    }

    /// The codeword stored at the program counter.
    pub fn current_codeword(&self) -> (r: Chip8Result<Codeword>)
        requires
            self.inv(),
        ensures
            r == spec_fetch_codeword(self.m(), self.m().pc),
    {
        self.fetch_codeword(self.core.pc)
    }

    /// Fetches the codeword at the program counter, advances past it,
    /// decodes it, and executes the operation.
    pub fn step(&mut self) -> (r: Chip8Result<()>)
        requires
            old(self).inv(),
        ensures
            final(self).inv(),
            final(self).defs() == old(self).defs(),
            spec_step_rel(old(self).defs(), old(self).m(), final(self).m(), r),
    {
        let ghost m0 = self.m();
        let ghost defs = self.defs();
        let cw = match self.current_codeword() {
            Ok(cw) => cw,
            Err(e) => {
                proof {
                    assert(spec_step_rel(defs, m0, self.m(), Chip8Result::<()>::Err(e)));
                }
                return Err(e);
            },
        };
        self.core.advance_pc();
        let ghost m1 = self.m();
        proof {
            assert(m1 == spec_with_pc(m0, spec_advanced_pc(m0.pc)));
        }
        let op = match self.decode_instruction(cw) {
            Ok(op) => op,
            Err(e) => {
                proof {
                    assert(spec_step_rel(defs, m0, self.m(), Chip8Result::<()>::Err(e)));
                }
                return Err(e);
            },
        };
        let r = op.execute(&mut self.core);
        proof {
            assert(spec_op_rel(op, m1, self.m(), r));
            assert(spec_step_rel(defs, m0, self.m(), r));
        }
        r
    }

    /// Executes the given number of steps, stopping at the first error.
    #[verifier::loop_isolation(false)]
    pub fn step_n(&mut self, number_of_steps: usize) -> (r: Chip8Result<()>)
        requires
            old(self).inv(),
        ensures
            final(self).inv(),
            final(self).defs() == old(self).defs(),
            spec_step_n_rel(
                old(self).defs(),
                old(self).m(),
                final(self).m(),
                number_of_steps as int,
                r,
            ),
    {
        let ghost defs = self.defs();
        let ghost m0 = self.m();
        let mut k: usize = 0;
        while k < number_of_steps
            invariant
                self.inv(),
                k <= number_of_steps,
                defs == self.defs(),
                spec_step_n_rel(defs, m0, self.m(), k as int, Chip8Result::<()>::Ok(())),
            decreases number_of_steps - k,
        {
            let ghost mm = self.m();
            match self.step() {
                Ok(_) => {
                    proof {
                        lemma_steps_extend(defs, m0, mm, self.m(), k as int);
                    }
                },
                Err(e) => {
                    proof {
                        lemma_steps_fail(
                            defs,
                            m0,
                            mm,
                            self.m(),
                            k as int,
                            number_of_steps as int,
                            e,
                        );
                    }
                    return Err(e);
                },
            }
            k = k + 1;
        }
        Ok(())
    }

    /// Decrements the delay and sound timers, each saturating at zero.
    pub fn timer_tick(&mut self) -> (r: Chip8Result<()>)
        requires
            old(self).inv(),
        ensures
            final(self).inv(),
            final(self).defs() == old(self).defs(),
            r == Chip8Result::<()>::Ok(()),
            final(self).m() == (MachineModel {
                dt: (if old(self).m().dt > 0 {
                    (old(self).m().dt - 1) as u8
                } else {
                    0u8
                }),
                st: (if old(self).m().st > 0 {
                    (old(self).m().st - 1) as u8
                } else {
                    0u8
                }),
                ..old(self).m()
            }),
    {
        if self.core.dt > 0 {
            self.core.dt = self.core.dt - 1;
        }
        if self.core.st > 0 {
            self.core.st = self.core.st - 1;
        }
        Ok(())
    }

    /// Copies bytes into RAM starting at the given address; a string that
    /// would run past the end of RAM is rejected whole.
    pub fn load_bytes(&mut self, bytes: &[u8], addr: Address) -> (r: Chip8Result<()>)
        requires
            old(self).inv(),
        ensures
            final(self).inv(),
            final(self).defs() == old(self).defs(),
            addr as int + bytes@.len() > old(self).m().config.ram_bytes ==> r
                == Chip8Result::<()>::Err(Chip8Error::OutOfBoundsAt(addr as usize))
                && final(self).m() == old(self).m(),
            addr as int + bytes@.len() <= old(self).m().config.ram_bytes ==> r
                == Chip8Result::<()>::Ok(()) && final(self).m() == (MachineModel {
                ram: spec_loaded_bytes(old(self).m().ram, bytes@, addr as int),
                ..old(self).m()
            }),
    {
        self.core.load_bytes(bytes, addr)
    }

    /// Copies a program to the configured program base address.
    pub fn load_program(&mut self, bytes: &[u8]) -> (r: Chip8Result<()>)
        requires
            old(self).inv(),
        ensures
            final(self).inv(),
            final(self).defs() == old(self).defs(),
            ({
                let base = old(self).m().config.addr_program;
                &&& base + bytes@.len() > old(self).m().config.ram_bytes ==> r
                    == Chip8Result::<()>::Err(Chip8Error::OutOfBoundsAt(base)) && final(self).m()
                    == old(self).m()
                &&& base + bytes@.len() <= old(self).m().config.ram_bytes ==> r
                    == Chip8Result::<()>::Ok(()) && final(self).m() == (MachineModel {
                    ram: spec_loaded_bytes(old(self).m().ram, bytes@, base as int),
                    ..old(self).m()
                })
            }),
    {
        proof {
            self.inv_wf();
        }
        let address = self.core.config.addr_program;
        self.core.load_bytes(bytes, address as u16)
    }

    /// Loads a value from a source operand.
    pub fn load(&mut self, src: Src) -> (r: Chip8Result<usize>)
        requires
            old(self).inv(),
        ensures
            final(self).inv(),
            final(self).defs() == old(self).defs(),
            spec_load_rel(old(self).m(), src, final(self).m(), r),
            r is Ok ==> r.unwrap() <= 0xFFFF,
    {
        self.core.load(src)
    }

    /// Stores a value into a destination operand.
    pub fn store(&mut self, dest: Dest, value: usize) -> (r: Chip8Result<()>)
        requires
            old(self).inv(),
        ensures
            final(self).inv(),
            final(self).defs() == old(self).defs(),
            spec_store_rel(old(self).m(), dest, value as int, final(self).m(), r),
    {
        self.core.store(dest, value)
    }

    /// Sets the keyboard state; the state it replaces is kept so that
    /// `WaitKey` can observe a released-to-pressed transition.
    pub fn set_keyboard(&mut self, keys: &Keyboard) -> (r: Chip8Result<()>)
        requires
            old(self).inv(),
        ensures
            final(self).inv(),
            final(self).defs() == old(self).defs(),
            r == Chip8Result::<()>::Ok(()),
            final(self).m() == (MachineModel {
                prev_keys: old(self).m().keys,
                keys: keys@,
                ..old(self).m()
            }),
    {
        self.core.set_keyboard(keys)
    }

    /// Reads the keyboard state.
    pub fn keyboard(&self) -> (r: Chip8Result<Keyboard>)
        requires
            self.inv(),
        ensures
            r is Ok && r.unwrap()@ == self.m().keys,
    {
        self.core.keyboard()
    }

    /// Reads a snapshot of the frame buffer.
    pub fn vram(&self) -> (r: Chip8Result<Vram>)
        requires
            self.inv(),
        ensures
            r is Ok && r.unwrap()@ == self.m().vram,
    {
        self.core.vram()
    }

    /// Reads the buzzer state.
    pub fn buzzer(&self) -> (r: Chip8Result<Buzzer>)
        requires
            self.inv(),
        ensures
            r == Chip8Result::<Buzzer>::Ok(self.m().buzzer),
    {
        self.core.buzzer()
    }

    /// Reads the audio pattern buffer.
    pub fn audio(&self) -> (r: Chip8Result<Audio>)
        requires
            self.inv(),
        ensures
            r is Ok && r.unwrap()@ == self.m().audio,
    {
        self.core.audio()
    }
}

/// An object that can simulate a CHIP-8 machine.
///
/// The trait exposes the machine's mathematical model and the enabled
/// definitions, and every operation is specified against them, so a caller
/// can be verified against any simulator.
pub trait Simulate: Sized {
    /// The mathematical model of the machine state.
    spec fn model(&self) -> MachineModel;

    /// The definitions of the enabled instruction set, in decoding order.
    spec fn isa(&self) -> Seq<Definition>;

    /// The representation invariant.
    spec fn wf(&self) -> bool;

    /// Fetch the current codeword, advance the program counter, decode,
    /// and execute.
    fn step(&mut self) -> (r: Chip8Result<()>)
        requires
            old(self).wf(),
        ensures
            final(self).wf(),
            final(self).isa() == old(self).isa(),
            spec_step_rel(old(self).isa(), old(self).model(), final(self).model(), r),
    ;

    /// Execute multiple steps, stopping at the first error.
    fn step_n(&mut self, number_of_steps: usize) -> (r: Chip8Result<()>)
        requires
            old(self).wf(),
        ensures
            final(self).wf(),
            final(self).isa() == old(self).isa(),
            spec_step_n_rel(
                old(self).isa(),
                old(self).model(),
                final(self).model(),
                number_of_steps as int,
                r,
            ),
    ;

    /// Advance the sound and delay timers, each saturating at zero.
    fn timer_tick(&mut self) -> (r: Chip8Result<()>)
        requires
            old(self).wf(),
        ensures
            final(self).wf(),
            final(self).isa() == old(self).isa(),
            r == Chip8Result::<()>::Ok(()),
            final(self).model() == (MachineModel {
                dt: (if old(self).model().dt > 0 {
                    (old(self).model().dt - 1) as u8
                } else {
                    0u8
                }),
                st: (if old(self).model().st > 0 {
                    (old(self).model().st - 1) as u8
                } else {
                    0u8
                }),
                ..old(self).model()
            }),
    ;

    /// Load bytes into RAM.
    fn load_bytes(&mut self, bytes: &[u8], addr: Address) -> (r: Chip8Result<()>)
        requires
            old(self).wf(),
        ensures
            final(self).wf(),
            final(self).isa() == old(self).isa(),
            addr as int + bytes@.len() > old(self).model().config.ram_bytes ==> r
                == Chip8Result::<()>::Err(Chip8Error::OutOfBoundsAt(addr as usize))
                && final(self).model() == old(self).model(),
            addr as int + bytes@.len() <= old(self).model().config.ram_bytes ==> r
                == Chip8Result::<()>::Ok(()) && final(self).model() == (MachineModel {
                ram: spec_loaded_bytes(old(self).model().ram, bytes@, addr as int),
                ..old(self).model()
            }),
    ;

    /// Load a program at the configured base address.
    fn load_program(&mut self, bytes: &[u8]) -> (r: Chip8Result<()>)
        requires
            old(self).wf(),
        ensures
            final(self).wf(),
            final(self).isa() == old(self).isa(),
            ({
                let base = old(self).model().config.addr_program;
                &&& base + bytes@.len() > old(self).model().config.ram_bytes ==> r
                    == Chip8Result::<()>::Err(Chip8Error::OutOfBoundsAt(base))
                    && final(self).model() == old(self).model()
                &&& base + bytes@.len() <= old(self).model().config.ram_bytes ==> r
                    == Chip8Result::<()>::Ok(()) && final(self).model() == (MachineModel {
                    ram: spec_loaded_bytes(old(self).model().ram, bytes@, base as int),
                    ..old(self).model()
                })
            }),
    ;

    /// Load a value from a source operand.
    fn load(&mut self, src: Src) -> (r: Chip8Result<usize>)
        requires
            old(self).wf(),
        ensures
            final(self).wf(),
            final(self).isa() == old(self).isa(),
            spec_load_rel(old(self).model(), src, final(self).model(), r),
            r is Ok ==> r.unwrap() <= 0xFFFF,
    ;

    /// Store a value into a destination operand.
    fn store(&mut self, dest: Dest, value: usize) -> (r: Chip8Result<()>)
        requires
            old(self).wf(),
        ensures
            final(self).wf(),
            final(self).isa() == old(self).isa(),
            spec_store_rel(old(self).model(), dest, value as int, final(self).model(), r),
    ;

    /// Set the keyboard state; the state it replaces is kept so that
    /// `WaitKey` can observe a released-to-pressed transition.
    fn set_keyboard(&mut self, keys: &Keyboard) -> (r: Chip8Result<()>)
        requires
            old(self).wf(),
        ensures
            final(self).wf(),
            final(self).isa() == old(self).isa(),
            r == Chip8Result::<()>::Ok(()),
            final(self).model() == (MachineModel {
                prev_keys: old(self).model().keys,
                keys: keys@,
                ..old(self).model()
            }),
    ;

    /// Read the keyboard state.
    fn keyboard(&self) -> (r: Chip8Result<Keyboard>)
        requires
            self.wf(),
        ensures
            r is Ok && r.unwrap()@ == self.model().keys,
    ;

    /// Read a snapshot of the frame buffer.
    fn vram(&self) -> (r: Chip8Result<Vram>)
        requires
            self.wf(),
        ensures
            r is Ok && r.unwrap()@ == self.model().vram,
    ;

    /// Read the buzzer state.
    fn buzzer(&self) -> (r: Chip8Result<Buzzer>)
        requires
            self.wf(),
        ensures
            r == Chip8Result::<Buzzer>::Ok(self.model().buzzer),
    ;

    /// Read the audio pattern.
    fn audio(&self) -> (r: Chip8Result<Audio>)
        requires
            self.wf(),
        ensures
            r is Ok && r.unwrap()@ == self.model().audio,
    ;
}

impl Simulate for Simulator {
    open spec fn model(&self) -> MachineModel {
        self.m()
    }

    open spec fn isa(&self) -> Seq<Definition> {
        self.defs()
    }

    open spec fn wf(&self) -> bool {
        self.inv()
    }

    fn step(&mut self) -> (r: Chip8Result<()>) {
        Simulator::step(self)
    }

    fn step_n(&mut self, number_of_steps: usize) -> (r: Chip8Result<()>) {
        Simulator::step_n(self, number_of_steps)
    }

    fn timer_tick(&mut self) -> (r: Chip8Result<()>) {
        Simulator::timer_tick(self)
    }

    fn load_bytes(&mut self, bytes: &[u8], addr: Address) -> (r: Chip8Result<()>) {
        Simulator::load_bytes(self, bytes, addr)
    }

    fn load_program(&mut self, bytes: &[u8]) -> (r: Chip8Result<()>) {
        Simulator::load_program(self, bytes)
    }

    fn load(&mut self, src: Src) -> (r: Chip8Result<usize>) {
        Simulator::load(self, src)
    }

    fn store(&mut self, dest: Dest, value: usize) -> (r: Chip8Result<()>) {
        Simulator::store(self, dest, value)
    }

    fn set_keyboard(&mut self, keys: &Keyboard) -> (r: Chip8Result<()>) {
        Simulator::set_keyboard(self, keys)
    }

    fn keyboard(&self) -> (r: Chip8Result<Keyboard>) {
        Simulator::keyboard(self)
    }

    fn vram(&self) -> (r: Chip8Result<Vram>) {
        Simulator::vram(self)
    }

    fn buzzer(&self) -> (r: Chip8Result<Buzzer>) {
        Simulator::buzzer(self)
    }

    fn audio(&self) -> (r: Chip8Result<Audio>) {
        Simulator::audio(self)
    }
}

} // verus!
