use chip8::config::cosmac_vip;
use chip8::{Dest, DestKind, InstructionSet, Operation, OperationKind, Src, SrcKind};

#[test]
fn test_decode_base_instructions() {
    let set = InstructionSet::new(&cosmac_vip());
    assert_eq!(set.decode(0x00E0), Some(Operation::Cls));
    assert_eq!(set.decode(0x00EE), Some(Operation::Ret));
    assert_eq!(set.decode(0x1234), Some(Operation::Jump(Src::Address12(0x234))));
    assert_eq!(set.decode(0x2345), Some(Operation::Call(Src::Address12(0x345))));
    assert_eq!(set.decode(0x6A42),
               Some(Operation::Load(Dest::Register(0xA), Src::Literal8(0x42))));
    assert_eq!(set.decode(0x7B10),
               Some(Operation::Add(Dest::Register(0xB), Src::Register(0xB), Src::Literal8(0x10))));
    assert_eq!(set.decode(0x8AB4),
               Some(Operation::Add(Dest::Register(0xA), Src::Register(0xB), Src::Register(0xA))));
    assert_eq!(set.decode(0x8AB5),
               Some(Operation::Sub(Dest::Register(0xA), Src::Register(0xA), Src::Register(0xB))));
    assert_eq!(set.decode(0xA123), Some(Operation::Load(Dest::I, Src::Literal12(0x123))));
    assert_eq!(set.decode(0xC2AA),
               Some(Operation::Rand(Dest::Register(2), Src::Random, Src::Literal8(0xAA))));
    assert_eq!(set.decode(0xD125),
               Some(Operation::Sprite(Src::Register(1), Src::Register(2), Src::Literal4(5))));
    assert_eq!(set.decode(0xF133),
               Some(Operation::Bcd(Src::Register(1))));
    assert_eq!(set.decode(0xF255),
               Some(Operation::Stash(Src::Const(0), Src::Register(2), Src::Const(1))));
    assert_eq!(set.decode(0xF365),
               Some(Operation::Fetch(Src::Const(0), Src::Register(3), Src::Const(1))));
    // nothing matches: the base set has no 0xFFFF pattern
    assert_eq!(set.decode(0xFFFF), None);
}

#[test]
fn test_decode_respects_isa_tiers() {
    let base = InstructionSet::new(&cosmac_vip());
    // the XO-CHIP range forms are not part of the base set
    assert_eq!(base.decode(0x5AC2), None);
    assert_eq!(base.decode(0x5AC3), None);

    let mut config = cosmac_vip();
    config.isa_xochip = true;
    let xo = InstructionSet::new(&config);
    assert_eq!(xo.decode(0x5AC2),
               Some(Operation::Stash(Src::Register(0xA), Src::Register(0xC), Src::Const(0))));
    assert_eq!(xo.decode(0x5AC3),
               Some(Operation::Fetch(Src::Register(0xA), Src::Register(0xC), Src::Const(0))));

    let mut config = cosmac_vip();
    config.isa_superchip = true;
    let sc = InstructionSet::new(&config);
    // SUPERCHIP placeholders decode to NoOp
    assert_eq!(sc.decode(0x00FD), Some(Operation::NoOp));
    assert_eq!(base.decode(0x00FD), None);
    // the SUPERCHIP big-font lookup, FX30
    assert_eq!(sc.decode(0xF130),
               Some(Operation::Font(Src::Register(1), Src::Const(chip8::fonts::CODE_BIG))));
    assert_eq!(base.decode(0xF130), None);
    assert_eq!(sc.encode(sc.decode(0xF130).unwrap()), Some(0xF130));
    // a DXY0 codeword stays a sprite in every tier
    assert_eq!(sc.decode(0xD130),
               Some(Operation::Sprite(Src::Register(1), Src::Register(3), Src::Literal4(0))));
}

#[test]
fn test_codeword_exists() {
    let set = InstructionSet::new(&cosmac_vip());
    assert!(set.codeword_exists(0x00E0));
    assert!(set.codeword_exists(0x6A42));
    assert!(!set.codeword_exists(0xFFFF));
    assert!(!set.codeword_exists(0x00FD));
}

#[test]
fn test_encode_round_trips_decoded_operations() {
    let mut config = cosmac_vip();
    config.isa_xochip = true;
    let set = InstructionSet::new(&config);
    let words: [u16; 30] = [0x0000, 0x00E0, 0x00EE, 0x1234, 0x2345, 0x3456, 0x4567, 0x5560,
                            0x6A42, 0x7B10, 0x8AB0, 0x8AB1, 0x8AB2, 0x8AB3, 0x8AB4, 0x8AB5,
                            0x8AB6, 0x8AB7, 0x8ABE, 0x9AB0, 0xA123, 0xB234, 0xD125, 0xE19E,
                            0xE1A1, 0xF107, 0xF115, 0xF118, 0xF11E, 0xF129];
    for &cw in words.iter() {
        let op = set.decode(cw).unwrap();
        let encoded = set.encode(op).unwrap();
        assert_eq!(set.decode(encoded), Some(op));
    }
    // codewords with no ignored nibbles re-encode to themselves
    assert_eq!(set.encode(set.decode(0x1234).unwrap()), Some(0x1234));
    assert_eq!(set.encode(set.decode(0x6A42).unwrap()), Some(0x6A42));
    assert_eq!(set.encode(set.decode(0x00E0).unwrap()), Some(0x00E0));
}

#[test]
fn test_encode_random_masks_the_drawn_value() {
    let set = InstructionSet::new(&cosmac_vip());
    let op = set.decode(0xC0FF).unwrap();
    assert_eq!(op, Operation::Rand(Dest::Register(0), Src::Random, Src::Literal8(0xFF)));
    assert_eq!(set.encode(op), Some(0xC0FF));
}

#[test]
fn test_encode_rejects_inexpressible_operations() {
    let set = InstructionSet::new(&cosmac_vip());
    // a literal too wide for its argument nibbles cannot be represented
    assert_eq!(set.encode(Operation::Load(Dest::Register(0), Src::Literal8(0x123))), None);
    // no definition of this kind is enabled
    assert_eq!(set.encode(Operation::Stash(Src::Register(1), Src::Register(2), Src::Const(0))),
               None);
}

#[test]
fn test_operation_kind_projection() {
    let set = InstructionSet::new(&cosmac_vip());
    let op = set.decode(0x6A42).unwrap();
    assert_eq!(op.kind(), OperationKind::Load(DestKind::Register, SrcKind::Literal8));
    assert_eq!(SrcKind::Register.specify(3), Src::Register(3));
    assert_eq!(SrcKind::Const(7).specify(3), Src::Const(7));
    assert_eq!(SrcKind::Random.specify(3), Src::Random);
    assert_eq!(DestKind::Register.specify(9), Dest::Register(9));
    assert_eq!(DestKind::I.specify(9), Dest::I);
    assert_eq!(Src::Register(3).kind(), SrcKind::Register);
    assert_eq!(Dest::Register(9).kind(), DestKind::Register);
}
