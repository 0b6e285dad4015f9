//! Source and destination operands and their unspecified kinds.
//!
//! A kind names the sort of location or value an instruction definition
//! expects; a specified operand additionally carries the concrete register
//! number, address, or literal extracted from a codeword.

use vstd::prelude::*;

verus! {

/// A kind of source operand, not yet carrying its concrete value.
#[derive(Copy, Clone, Debug, PartialEq, Eq, Structural)]
pub enum SrcKind {
    /// A constant injected by the instruction definition itself.
    Const(usize),
    /// A register, v0-vF.
    Register,
    /// A 12-bit address.
    Address12,
    /// The I register.
    I,
    /// The memory location pointed to by I.
    IndirectI,
    /// A 12-bit literal.
    Literal12,
    /// An 8-bit literal.
    Literal8,
    /// A 4-bit literal.
    Literal4,
    /// The delay timer.
    DelayTimer,
    /// The sound timer.
    SoundTimer,
    /// A freshly drawn random value.
    Random,
    /// The program counter.
    PC,
}

/// What specifying a source kind with the given data yields.
pub open spec fn spec_specify_src(kind: SrcKind, data: usize) -> Src {
    match kind {
        SrcKind::Const(n) => Src::Const(n),
        SrcKind::Register => Src::Register(data),
        SrcKind::Address12 => Src::Address12(data),
        SrcKind::I => Src::I,
        SrcKind::IndirectI => Src::IndirectI,
        SrcKind::Literal12 => Src::Literal12(data),
        SrcKind::Literal8 => Src::Literal8(data),
        SrcKind::Literal4 => Src::Literal4(data),
        SrcKind::DelayTimer => Src::DelayTimer,
        SrcKind::SoundTimer => Src::SoundTimer,
        SrcKind::Random => Src::Random,
        SrcKind::PC => Src::PC,
    }
}

impl SrcKind {
    /// Specify the operand with the supplied data.
    ///
    /// A `Register` kind becomes the concrete register `Register(data)`, and
    /// likewise for addresses and literals; fixed kinds ignore the data, and
    /// `Const(n)` always yields `n`.
    pub fn specify(&self, data: usize) -> (r: Src)
        ensures
            r == spec_specify_src(*self, data),
    {
        match *self {
            SrcKind::Const(n) => Src::Const(n),
            SrcKind::Register => Src::Register(data),
            SrcKind::Address12 => Src::Address12(data),
            SrcKind::I => Src::I,
            SrcKind::IndirectI => Src::IndirectI,
            SrcKind::Literal12 => Src::Literal12(data),
            SrcKind::Literal8 => Src::Literal8(data),
            SrcKind::Literal4 => Src::Literal4(data),
            SrcKind::DelayTimer => Src::DelayTimer,
            SrcKind::SoundTimer => Src::SoundTimer,
            SrcKind::Random => Src::Random,
            SrcKind::PC => Src::PC,
        }
    }

    /// True for the kinds whose specified operand carries the data verbatim.
    pub open spec fn consumes_data(self) -> bool {
        match self {
            SrcKind::Register => true,
            SrcKind::Address12 => true,
            SrcKind::Literal12 => true,
            SrcKind::Literal8 => true,
            SrcKind::Literal4 => true,
            _ => false,
        }
    }
}

/// A fully specified source operand.
#[derive(Copy, Clone, Debug, PartialEq, Eq, Structural)]
pub enum Src {
    /// A constant value from the instruction definition.
    Const(usize),
    /// A register, v0-vF.
    Register(usize),
    /// A 12-bit address.
    Address12(usize),
    /// The I register.
    I,
    /// The memory location pointed to by I.
    IndirectI,
    /// A 12-bit literal.
    Literal12(usize),
    /// An 8-bit literal.
    Literal8(usize),
    /// A 4-bit literal.
    Literal4(usize),
    /// The delay timer.
    DelayTimer,
    /// The sound timer.
    SoundTimer,
    /// A freshly drawn random value.
    Random,
    /// The program counter.
    PC,
}

/// The kind a specified source operand belongs to.
pub open spec fn spec_src_kind(s: Src) -> SrcKind {
    match s {
        Src::Const(n) => SrcKind::Const(n),
        Src::Register(_) => SrcKind::Register,
        Src::Address12(_) => SrcKind::Address12,
        Src::I => SrcKind::I,
        Src::IndirectI => SrcKind::IndirectI,
        Src::Literal12(_) => SrcKind::Literal12,
        Src::Literal8(_) => SrcKind::Literal8,
        Src::Literal4(_) => SrcKind::Literal4,
        Src::DelayTimer => SrcKind::DelayTimer,
        Src::SoundTimer => SrcKind::SoundTimer,
        Src::Random => SrcKind::Random,
        Src::PC => SrcKind::PC,
    }
}

/// The data a specified source operand carries; zero for fixed operands.
pub open spec fn spec_src_data(s: Src) -> usize {
    match s {
        Src::Register(n) => n,
        Src::Address12(n) => n,
        Src::Literal12(n) => n,
        Src::Literal8(n) => n,
        Src::Literal4(n) => n,
        _ => 0,
    }
}

impl Src {
    /// Returns the kind of this operand.
    pub fn kind(&self) -> (r: SrcKind)
        ensures
            r == spec_src_kind(*self),
    {
        match *self {
            Src::Const(n) => SrcKind::Const(n),
            Src::Register(_) => SrcKind::Register,
            Src::Address12(_) => SrcKind::Address12,
            Src::I => SrcKind::I,
            Src::IndirectI => SrcKind::IndirectI,
            Src::Literal12(_) => SrcKind::Literal12,
            Src::Literal8(_) => SrcKind::Literal8,
            Src::Literal4(_) => SrcKind::Literal4,
            Src::DelayTimer => SrcKind::DelayTimer,
            Src::SoundTimer => SrcKind::SoundTimer,
            Src::Random => SrcKind::Random,
            Src::PC => SrcKind::PC,
        }
    }

    /// Returns the concrete data carried by this operand, zero if fixed.
    pub fn data(&self) -> (r: usize)
        ensures
            r == spec_src_data(*self),
    {
        match *self {
            Src::Register(n) => n,
            Src::Address12(n) => n,
            Src::Literal12(n) => n,
            Src::Literal8(n) => n,
            Src::Literal4(n) => n,
            _ => 0,
        }
    }
}

/// A kind of destination location, not yet carrying its concrete value.
#[derive(Copy, Clone, Debug, PartialEq, Eq, Structural)]
pub enum DestKind {
    /// A register, v0-vF.
    Register,
    /// A 12-bit address.
    Address12,
    /// The I register.
    I,
    /// The memory location pointed to by I.
    IndirectI,
    /// The delay timer.
    DelayTimer,
    /// The sound timer.
    SoundTimer,
    /// The program counter.
    PC,
}

/// What specifying a destination kind with the given data yields.
pub open spec fn spec_specify_dest(kind: DestKind, data: usize) -> Dest {
    match kind {
        DestKind::Register => Dest::Register(data),
        DestKind::Address12 => Dest::Address12(data),
        DestKind::I => Dest::I,
        DestKind::IndirectI => Dest::IndirectI,
        DestKind::DelayTimer => Dest::DelayTimer,
        DestKind::SoundTimer => Dest::SoundTimer,
        DestKind::PC => Dest::PC,
    }
}

impl DestKind {
    /// Specify the destination with the supplied data.
    ///
    /// A `Register` kind becomes the concrete register `Register(data)`, and
    /// likewise for addresses; fixed destinations such as I ignore the data.
    pub fn specify(&self, data: usize) -> (r: Dest)
        ensures
            r == spec_specify_dest(*self, data),
    {
        match *self {
            DestKind::Register => Dest::Register(data),
            DestKind::Address12 => Dest::Address12(data),
            DestKind::I => Dest::I,
            DestKind::IndirectI => Dest::IndirectI,
            DestKind::DelayTimer => Dest::DelayTimer,
            DestKind::SoundTimer => Dest::SoundTimer,
            DestKind::PC => Dest::PC,
        }
    }

    /// True for the kinds whose specified operand carries the data verbatim.
    pub open spec fn consumes_data(self) -> bool {
        match self {
            DestKind::Register => true,
            DestKind::Address12 => true,
            _ => false,
        }
    }
}

/// A fully specified destination operand.
#[derive(Copy, Clone, Debug, PartialEq, Eq, Structural)]
pub enum Dest {
    /// A register, v0-vF.
    Register(usize),
    /// A 12-bit address.
    Address12(usize),
    /// The I register.
    I,
    /// The memory location pointed to by I.
    IndirectI,
    /// The delay timer.
    DelayTimer,
    /// The sound timer.
    SoundTimer,
    /// The program counter.
    PC,
}

/// The kind a specified destination operand belongs to.
pub open spec fn spec_dest_kind(d: Dest) -> DestKind {
    match d {
        Dest::Register(_) => DestKind::Register,
        Dest::Address12(_) => DestKind::Address12,
        Dest::I => DestKind::I,
        Dest::IndirectI => DestKind::IndirectI,
        Dest::DelayTimer => DestKind::DelayTimer,
        Dest::SoundTimer => DestKind::SoundTimer,
        Dest::PC => DestKind::PC,
    }
}

/// The data a specified destination operand carries; zero for fixed operands.
pub open spec fn spec_dest_data(d: Dest) -> usize {
    match d {
        Dest::Register(n) => n,
        Dest::Address12(n) => n,
        _ => 0,
    }
}

impl Dest {
    /// Returns the kind of this operand.
    pub fn kind(&self) -> (r: DestKind)
        ensures
            r == spec_dest_kind(*self),
    {
        match *self {
            Dest::Register(_) => DestKind::Register,
            Dest::Address12(_) => DestKind::Address12,
            Dest::I => DestKind::I,
            Dest::IndirectI => DestKind::IndirectI,
            Dest::DelayTimer => DestKind::DelayTimer,
            Dest::SoundTimer => DestKind::SoundTimer,
            Dest::PC => DestKind::PC,
        }
    }

    /// Returns the concrete data carried by this operand, zero if fixed.
    pub fn data(&self) -> (r: usize)
        ensures
            r == spec_dest_data(*self),
    {
        match *self {
            Dest::Register(n) => n,
            Dest::Address12(n) => n,
            _ => 0,
        }
    }
}

} // verus!
