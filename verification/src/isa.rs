//! The instruction tables of the three ISA tiers.
//!
//! The base CHIP-8 table holds the canonical thirty-five instructions. The
//! SUPERCHIP table adds the big-font lookup and placeholders for the scroll,
//! exit and resolution-switch codewords, which decode to `NoOp` until they
//! are implemented. The XO-CHIP table adds the range forms of `Stash` and
//! `Fetch` that leave I alone, and placeholders for the 16-bit immediate
//! I-load, the draw-plane select, the audio pattern store and scroll-up.

use vstd::prelude::*;

use crate::codec::{Coding, Definition};
use crate::fonts::{CODE_BIG, CODE_SMALL};
use crate::operands::{DestKind, SrcKind};
use crate::operations::OperationKind;

verus! {

/// The definitions of the canonical base CHIP-8 instruction set, in decoding order.
pub open spec fn chip8_defs() -> Seq<Definition> {
    seq![
        Definition {
            op: OperationKind::NoOp,
            pattern: [Coding::C(0x0), Coding::C(0x0), Coding::C(0x0), Coding::C(0x0)],
        },
        Definition {
            op: OperationKind::Cls,
            pattern: [Coding::C(0x0), Coding::C(0x0), Coding::C(0xE), Coding::C(0x0)],
        },
        Definition {
            op: OperationKind::Ret,
            pattern: [Coding::C(0x0), Coding::C(0x0), Coding::C(0xE), Coding::C(0xE)],
        },
        Definition {
            op: OperationKind::Jump(SrcKind::Address12),
            pattern: [Coding::C(0x1), Coding::A(1), Coding::A(1), Coding::A(1)],
        },
        Definition {
            op: OperationKind::Call(SrcKind::Address12),
            pattern: [Coding::C(0x2), Coding::A(1), Coding::A(1), Coding::A(1)],
        },
        Definition {
            op: OperationKind::SkipEq(SrcKind::Register, SrcKind::Literal8),
            pattern: [Coding::C(0x3), Coding::A(1), Coding::A(2), Coding::A(2)],
        },
        Definition {
            op: OperationKind::SkipNotEq(SrcKind::Register, SrcKind::Literal8),
            pattern: [Coding::C(0x4), Coding::A(1), Coding::A(2), Coding::A(2)],
        },
        Definition {
            op: OperationKind::SkipEq(SrcKind::Register, SrcKind::Register),
            pattern: [Coding::C(0x5), Coding::A(1), Coding::A(2), Coding::C(0x0)],
        },
        Definition {
            op: OperationKind::Load(DestKind::Register, SrcKind::Literal8),
            pattern: [Coding::C(0x6), Coding::A(1), Coding::A(2), Coding::A(2)],
        },
        Definition {
            op: OperationKind::Add(DestKind::Register, SrcKind::Register, SrcKind::Literal8),
            pattern: [Coding::C(0x7), Coding::A(3), Coding::A(4), Coding::A(4)],
        },
        Definition {
            op: OperationKind::Load(DestKind::Register, SrcKind::Register),
            pattern: [Coding::C(0x8), Coding::A(1), Coding::A(2), Coding::C(0x0)],
        },
        Definition {
            op: OperationKind::Or(DestKind::Register, SrcKind::Register, SrcKind::Register),
            pattern: [Coding::C(0x8), Coding::A(3), Coding::A(4), Coding::C(0x1)],
        },
        Definition {
            op: OperationKind::And(DestKind::Register, SrcKind::Register, SrcKind::Register),
            pattern: [Coding::C(0x8), Coding::A(3), Coding::A(4), Coding::C(0x2)],
        },
        Definition {
            op: OperationKind::Xor(DestKind::Register, SrcKind::Register, SrcKind::Register),
            pattern: [Coding::C(0x8), Coding::A(3), Coding::A(4), Coding::C(0x3)],
        },
        Definition {
            op: OperationKind::Add(DestKind::Register, SrcKind::Register, SrcKind::Register),
            pattern: [Coding::C(0x8), Coding::A(5), Coding::A(2), Coding::C(0x4)],
        },
        Definition {
            op: OperationKind::Sub(DestKind::Register, SrcKind::Register, SrcKind::Register),
            pattern: [Coding::C(0x8), Coding::A(3), Coding::A(4), Coding::C(0x5)],
        },
        Definition {
            op: OperationKind::Shr(DestKind::Register, SrcKind::Register),
            pattern: [Coding::C(0x8), Coding::A(1), Coding::A(2), Coding::C(0x6)],
        },
        Definition {
            op: OperationKind::Sub(DestKind::Register, SrcKind::Register, SrcKind::Register),
            pattern: [Coding::C(0x8), Coding::A(5), Coding::A(2), Coding::C(0x7)],
        },
        Definition {
            op: OperationKind::Shl(DestKind::Register, SrcKind::Register),
            pattern: [Coding::C(0x8), Coding::A(1), Coding::A(2), Coding::C(0xE)],
        },
        Definition {
            op: OperationKind::SkipNotEq(SrcKind::Register, SrcKind::Register),
            pattern: [Coding::C(0x9), Coding::A(1), Coding::A(2), Coding::C(0x0)],
        },
        Definition {
            op: OperationKind::Load(DestKind::I, SrcKind::Literal12),
            pattern: [Coding::C(0xA), Coding::A(2), Coding::A(2), Coding::A(2)],
        },
        Definition {
            op: OperationKind::JumpV0(SrcKind::Address12),
            pattern: [Coding::C(0xB), Coding::A(1), Coding::A(1), Coding::A(1)],
        },
        Definition {
            op: OperationKind::Rand(DestKind::Register, SrcKind::Random, SrcKind::Literal8),
            pattern: [Coding::C(0xC), Coding::A(1), Coding::A(4), Coding::A(4)],
        },
        Definition {
            op: OperationKind::Sprite(SrcKind::Register, SrcKind::Register, SrcKind::Literal4),
            pattern: [Coding::C(0xD), Coding::A(1), Coding::A(2), Coding::A(4)],
        },
        Definition {
            op: OperationKind::SkipKey(SrcKind::Register),
            pattern: [Coding::C(0xE), Coding::A(1), Coding::C(0x9), Coding::C(0xE)],
        },
        Definition {
            op: OperationKind::SkipNotKey(SrcKind::Register),
            pattern: [Coding::C(0xE), Coding::A(1), Coding::C(0xA), Coding::C(0x1)],
        },
        Definition {
            op: OperationKind::Load(DestKind::Register, SrcKind::DelayTimer),
            pattern: [Coding::C(0xF), Coding::A(1), Coding::C(0x0), Coding::C(0x7)],
        },
        Definition {
            op: OperationKind::WaitKey(DestKind::Register, SrcKind::Literal4),
            pattern: [Coding::C(0xF), Coding::A(1), Coding::C(0x0), Coding::C(0xA)],
        },
        Definition {
            op: OperationKind::Load(DestKind::DelayTimer, SrcKind::Register),
            pattern: [Coding::C(0xF), Coding::A(2), Coding::C(0x1), Coding::C(0x5)],
        },
        Definition {
            op: OperationKind::Load(DestKind::SoundTimer, SrcKind::Register),
            pattern: [Coding::C(0xF), Coding::A(2), Coding::C(0x1), Coding::C(0x8)],
        },
        Definition {
            op: OperationKind::Add(DestKind::I, SrcKind::I, SrcKind::Register),
            pattern: [Coding::C(0xF), Coding::A(4), Coding::C(0x1), Coding::C(0xE)],
        },
        Definition {
            op: OperationKind::Font(SrcKind::Register, SrcKind::Const(CODE_SMALL)),
            pattern: [Coding::C(0xF), Coding::A(1), Coding::C(0x2), Coding::C(0x9)],
        },
        Definition {
            op: OperationKind::Bcd(SrcKind::Register),
            pattern: [Coding::C(0xF), Coding::A(1), Coding::C(0x3), Coding::C(0x3)],
        },
        Definition {
            op: OperationKind::Stash(SrcKind::Const(0), SrcKind::Register, SrcKind::Const(1)),
            pattern: [Coding::C(0xF), Coding::A(2), Coding::C(0x5), Coding::C(0x5)],
        },
        Definition {
            op: OperationKind::Fetch(SrcKind::Const(0), SrcKind::Register, SrcKind::Const(1)),
            pattern: [Coding::C(0xF), Coding::A(2), Coding::C(0x6), Coding::C(0x5)],
        },
    ]
}

/// Builds the table of the canonical base CHIP-8 instruction set.
#[verifier::rlimit(100)]
pub fn chip8_table() -> (r: Vec<Definition>)
    ensures
        r@ == chip8_defs(),
{
    let mut r: Vec<Definition> = Vec::new();
    r.push(Definition {
        op: OperationKind::NoOp,
        pattern: [Coding::C(0x0), Coding::C(0x0), Coding::C(0x0), Coding::C(0x0)],
    });
    r.push(Definition {
        op: OperationKind::Cls,
        pattern: [Coding::C(0x0), Coding::C(0x0), Coding::C(0xE), Coding::C(0x0)],
    });
    r.push(Definition {
        op: OperationKind::Ret,
        pattern: [Coding::C(0x0), Coding::C(0x0), Coding::C(0xE), Coding::C(0xE)],
    });
    r.push(Definition {
        op: OperationKind::Jump(SrcKind::Address12),
        pattern: [Coding::C(0x1), Coding::A(1), Coding::A(1), Coding::A(1)],
    });
    r.push(Definition {
        op: OperationKind::Call(SrcKind::Address12),
        pattern: [Coding::C(0x2), Coding::A(1), Coding::A(1), Coding::A(1)],
    });
    r.push(Definition {
        op: OperationKind::SkipEq(SrcKind::Register, SrcKind::Literal8),
        pattern: [Coding::C(0x3), Coding::A(1), Coding::A(2), Coding::A(2)],
    });
    r.push(Definition {
        op: OperationKind::SkipNotEq(SrcKind::Register, SrcKind::Literal8),
        pattern: [Coding::C(0x4), Coding::A(1), Coding::A(2), Coding::A(2)],
    });
    r.push(Definition {
        op: OperationKind::SkipEq(SrcKind::Register, SrcKind::Register),
        pattern: [Coding::C(0x5), Coding::A(1), Coding::A(2), Coding::C(0x0)],
    });
    r.push(Definition {
        op: OperationKind::Load(DestKind::Register, SrcKind::Literal8),
        pattern: [Coding::C(0x6), Coding::A(1), Coding::A(2), Coding::A(2)],
    });
    r.push(Definition {
        op: OperationKind::Add(DestKind::Register, SrcKind::Register, SrcKind::Literal8),
        pattern: [Coding::C(0x7), Coding::A(3), Coding::A(4), Coding::A(4)],
    });
    r.push(Definition {
        op: OperationKind::Load(DestKind::Register, SrcKind::Register),
        pattern: [Coding::C(0x8), Coding::A(1), Coding::A(2), Coding::C(0x0)],
    });
    r.push(Definition {
        op: OperationKind::Or(DestKind::Register, SrcKind::Register, SrcKind::Register),
        pattern: [Coding::C(0x8), Coding::A(3), Coding::A(4), Coding::C(0x1)],
    });
    r.push(Definition {
        op: OperationKind::And(DestKind::Register, SrcKind::Register, SrcKind::Register),
        pattern: [Coding::C(0x8), Coding::A(3), Coding::A(4), Coding::C(0x2)],
    });
    r.push(Definition {
        op: OperationKind::Xor(DestKind::Register, SrcKind::Register, SrcKind::Register),
        pattern: [Coding::C(0x8), Coding::A(3), Coding::A(4), Coding::C(0x3)],
    });
    r.push(Definition {
        op: OperationKind::Add(DestKind::Register, SrcKind::Register, SrcKind::Register),
        pattern: [Coding::C(0x8), Coding::A(5), Coding::A(2), Coding::C(0x4)],
    });
    r.push(Definition {
        op: OperationKind::Sub(DestKind::Register, SrcKind::Register, SrcKind::Register),
        pattern: [Coding::C(0x8), Coding::A(3), Coding::A(4), Coding::C(0x5)],
    });
    r.push(Definition {
        op: OperationKind::Shr(DestKind::Register, SrcKind::Register),
        pattern: [Coding::C(0x8), Coding::A(1), Coding::A(2), Coding::C(0x6)],
    });
    r.push(Definition {
        op: OperationKind::Sub(DestKind::Register, SrcKind::Register, SrcKind::Register),
        pattern: [Coding::C(0x8), Coding::A(5), Coding::A(2), Coding::C(0x7)],
    });
    r.push(Definition {
        op: OperationKind::Shl(DestKind::Register, SrcKind::Register),
        pattern: [Coding::C(0x8), Coding::A(1), Coding::A(2), Coding::C(0xE)],
    });
    r.push(Definition {
        op: OperationKind::SkipNotEq(SrcKind::Register, SrcKind::Register),
        pattern: [Coding::C(0x9), Coding::A(1), Coding::A(2), Coding::C(0x0)],
    });
    r.push(Definition {
        op: OperationKind::Load(DestKind::I, SrcKind::Literal12),
        pattern: [Coding::C(0xA), Coding::A(2), Coding::A(2), Coding::A(2)],
    });
    r.push(Definition {
        op: OperationKind::JumpV0(SrcKind::Address12),
        pattern: [Coding::C(0xB), Coding::A(1), Coding::A(1), Coding::A(1)],
    });
    r.push(Definition {
        op: OperationKind::Rand(DestKind::Register, SrcKind::Random, SrcKind::Literal8),
        pattern: [Coding::C(0xC), Coding::A(1), Coding::A(4), Coding::A(4)],
    });
    r.push(Definition {
        op: OperationKind::Sprite(SrcKind::Register, SrcKind::Register, SrcKind::Literal4),
        pattern: [Coding::C(0xD), Coding::A(1), Coding::A(2), Coding::A(4)],
    });
    r.push(Definition {
        op: OperationKind::SkipKey(SrcKind::Register),
        pattern: [Coding::C(0xE), Coding::A(1), Coding::C(0x9), Coding::C(0xE)],
    });
    r.push(Definition {
        op: OperationKind::SkipNotKey(SrcKind::Register),
        pattern: [Coding::C(0xE), Coding::A(1), Coding::C(0xA), Coding::C(0x1)],
    });
    r.push(Definition {
        op: OperationKind::Load(DestKind::Register, SrcKind::DelayTimer),
        pattern: [Coding::C(0xF), Coding::A(1), Coding::C(0x0), Coding::C(0x7)],
    });
    r.push(Definition {
        op: OperationKind::WaitKey(DestKind::Register, SrcKind::Literal4),
        pattern: [Coding::C(0xF), Coding::A(1), Coding::C(0x0), Coding::C(0xA)],
    });
    r.push(Definition {
        op: OperationKind::Load(DestKind::DelayTimer, SrcKind::Register),
        pattern: [Coding::C(0xF), Coding::A(2), Coding::C(0x1), Coding::C(0x5)],
    });
    r.push(Definition {
        op: OperationKind::Load(DestKind::SoundTimer, SrcKind::Register),
        pattern: [Coding::C(0xF), Coding::A(2), Coding::C(0x1), Coding::C(0x8)],
    });
    r.push(Definition {
        op: OperationKind::Add(DestKind::I, SrcKind::I, SrcKind::Register),
        pattern: [Coding::C(0xF), Coding::A(4), Coding::C(0x1), Coding::C(0xE)],
    });
    r.push(Definition {
        op: OperationKind::Font(SrcKind::Register, SrcKind::Const(CODE_SMALL)),
        pattern: [Coding::C(0xF), Coding::A(1), Coding::C(0x2), Coding::C(0x9)],
    });
    r.push(Definition {
        op: OperationKind::Bcd(SrcKind::Register),
        pattern: [Coding::C(0xF), Coding::A(1), Coding::C(0x3), Coding::C(0x3)],
    });
    r.push(Definition {
        op: OperationKind::Stash(SrcKind::Const(0), SrcKind::Register, SrcKind::Const(1)),
        pattern: [Coding::C(0xF), Coding::A(2), Coding::C(0x5), Coding::C(0x5)],
    });
    r.push(Definition {
        op: OperationKind::Fetch(SrcKind::Const(0), SrcKind::Register, SrcKind::Const(1)),
        pattern: [Coding::C(0xF), Coding::A(2), Coding::C(0x6), Coding::C(0x5)],
    });
    assert(r@ =~= chip8_defs());
    r
}

/// The definitions of the SUPERCHIP extension, in decoding order.
pub open spec fn superchip_defs() -> Seq<Definition> {
    seq![
        Definition {
            op: OperationKind::NoOp,
            pattern: [Coding::C(0x0), Coding::C(0x0), Coding::C(0xC), Coding::A(1)],
        },
        Definition {
            op: OperationKind::NoOp,
            pattern: [Coding::C(0x0), Coding::C(0x0), Coding::C(0xF), Coding::C(0xB)],
        },
        Definition {
            op: OperationKind::NoOp,
            pattern: [Coding::C(0x0), Coding::C(0x0), Coding::C(0xF), Coding::C(0xC)],
        },
        Definition {
            op: OperationKind::NoOp,
            pattern: [Coding::C(0x0), Coding::C(0x0), Coding::C(0xF), Coding::C(0xD)],
        },
        Definition {
            op: OperationKind::NoOp,
            pattern: [Coding::C(0x0), Coding::C(0x0), Coding::C(0xF), Coding::C(0xE)],
        },
        Definition {
            op: OperationKind::NoOp,
            pattern: [Coding::C(0x0), Coding::C(0x0), Coding::C(0xF), Coding::C(0xF)],
        },
        Definition {
            op: OperationKind::Font(SrcKind::Register, SrcKind::Const(CODE_BIG)),
            pattern: [Coding::C(0xF), Coding::A(1), Coding::C(0x3), Coding::C(0x0)],
        },
        Definition {
            op: OperationKind::NoOp,
            pattern: [Coding::C(0xF), Coding::A(1), Coding::C(0x7), Coding::C(0x5)],
        },
        Definition {
            op: OperationKind::NoOp,
            pattern: [Coding::C(0xF), Coding::A(1), Coding::C(0x8), Coding::C(0x5)],
        },
    ]
}

/// Builds the table of the SUPERCHIP extension.
#[verifier::rlimit(100)]
pub fn superchip_table() -> (r: Vec<Definition>)
    ensures
        r@ == superchip_defs(),
{
    let mut r: Vec<Definition> = Vec::new();
    r.push(Definition {
        op: OperationKind::NoOp,
        pattern: [Coding::C(0x0), Coding::C(0x0), Coding::C(0xC), Coding::A(1)],
    });
    r.push(Definition {
        op: OperationKind::NoOp,
        pattern: [Coding::C(0x0), Coding::C(0x0), Coding::C(0xF), Coding::C(0xB)],
    });
    r.push(Definition {
        op: OperationKind::NoOp,
        pattern: [Coding::C(0x0), Coding::C(0x0), Coding::C(0xF), Coding::C(0xC)],
    });
    r.push(Definition {
        op: OperationKind::NoOp,
        pattern: [Coding::C(0x0), Coding::C(0x0), Coding::C(0xF), Coding::C(0xD)],
    });
    r.push(Definition {
        op: OperationKind::NoOp,
        pattern: [Coding::C(0x0), Coding::C(0x0), Coding::C(0xF), Coding::C(0xE)],
    });
    r.push(Definition {
        op: OperationKind::NoOp,
        pattern: [Coding::C(0x0), Coding::C(0x0), Coding::C(0xF), Coding::C(0xF)],
    });
    r.push(Definition {
        op: OperationKind::Font(SrcKind::Register, SrcKind::Const(CODE_BIG)),
        pattern: [Coding::C(0xF), Coding::A(1), Coding::C(0x3), Coding::C(0x0)],
    });
    r.push(Definition {
        op: OperationKind::NoOp,
        pattern: [Coding::C(0xF), Coding::A(1), Coding::C(0x7), Coding::C(0x5)],
    });
    r.push(Definition {
        op: OperationKind::NoOp,
        pattern: [Coding::C(0xF), Coding::A(1), Coding::C(0x8), Coding::C(0x5)],
    });
    assert(r@ =~= superchip_defs());
    r
}

/// The definitions of the XO-CHIP extension, in decoding order.
pub open spec fn xochip_defs() -> Seq<Definition> {
    seq![
        Definition {
            op: OperationKind::Stash(SrcKind::Register, SrcKind::Register, SrcKind::Const(0)),
            pattern: [Coding::C(0x5), Coding::A(1), Coding::A(2), Coding::C(0x2)],
        },
        Definition {
            op: OperationKind::Fetch(SrcKind::Register, SrcKind::Register, SrcKind::Const(0)),
            pattern: [Coding::C(0x5), Coding::A(1), Coding::A(2), Coding::C(0x3)],
        },
        Definition {
            op: OperationKind::NoOp,
            pattern: [Coding::C(0xF), Coding::C(0x0), Coding::C(0x0), Coding::C(0x0)],
        },
        Definition {
            op: OperationKind::NoOp,
            pattern: [Coding::C(0xF), Coding::A(1), Coding::C(0x0), Coding::C(0x1)],
        },
        Definition {
            op: OperationKind::NoOp,
            pattern: [Coding::C(0xF), Coding::A(1), Coding::C(0x0), Coding::C(0x2)],
        },
        Definition {
            op: OperationKind::NoOp,
            pattern: [Coding::C(0x0), Coding::C(0x0), Coding::C(0xD), Coding::A(1)],
        },
    ]
}

/// Builds the table of the XO-CHIP extension.
#[verifier::rlimit(100)]
pub fn xochip_table() -> (r: Vec<Definition>)
    ensures
        r@ == xochip_defs(),
{
    let mut r: Vec<Definition> = Vec::new();
    r.push(Definition {
        op: OperationKind::Stash(SrcKind::Register, SrcKind::Register, SrcKind::Const(0)),
        pattern: [Coding::C(0x5), Coding::A(1), Coding::A(2), Coding::C(0x2)],
    });
    r.push(Definition {
        op: OperationKind::Fetch(SrcKind::Register, SrcKind::Register, SrcKind::Const(0)),
        pattern: [Coding::C(0x5), Coding::A(1), Coding::A(2), Coding::C(0x3)],
    });
    r.push(Definition {
        op: OperationKind::NoOp,
        pattern: [Coding::C(0xF), Coding::C(0x0), Coding::C(0x0), Coding::C(0x0)],
    });
    r.push(Definition {
        op: OperationKind::NoOp,
        pattern: [Coding::C(0xF), Coding::A(1), Coding::C(0x0), Coding::C(0x1)],
    });
    r.push(Definition {
        op: OperationKind::NoOp,
        pattern: [Coding::C(0xF), Coding::A(1), Coding::C(0x0), Coding::C(0x2)],
    });
    r.push(Definition {
        op: OperationKind::NoOp,
        pattern: [Coding::C(0x0), Coding::C(0x0), Coding::C(0xD), Coding::A(1)],
    });
    assert(r@ =~= xochip_defs());
    r
}

} // verus!
