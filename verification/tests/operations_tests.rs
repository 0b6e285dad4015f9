use chip8::config::cosmac_vip;
use chip8::types::Keyboard;
use chip8::{Chip8, Chip8Error, Dest, Execute, Operation, Src};

#[test]
fn test_add_reg() {
    let config = cosmac_vip();
    let mut core = Chip8::new(&config, None);
    let inst = Operation::Add(Dest::Register(0), Src::Register(0), Src::Register(1));

    core.store(Dest::Register(0), 5).unwrap();
    core.store(Dest::Register(1), 10).unwrap();
    inst.execute(&mut core).unwrap();
    assert_eq!(core.load(Src::Register(0)).unwrap(), 15);
    assert_eq!(core.load(Src::Register(1)).unwrap(), 10);
    assert_eq!(core.load(Src::Register(0xF)).unwrap(), 0);

    //with overflow
    core.store(Dest::Register(0), 0xFF).unwrap();
    inst.execute(&mut core).unwrap();
    assert_eq!(core.load(Src::Register(0)).unwrap(), 9);
    assert_eq!(core.load(Src::Register(1)).unwrap(), 10);
    assert_eq!(core.load(Src::Register(0xF)).unwrap(), 1);
}

#[test]
fn test_invalid_operands() {
    let config = cosmac_vip();
    let mut core = Chip8::new(&config, None);
    assert_eq!(Operation::Jump(Src::Register(0)).execute(&mut core),
               Err(Chip8Error::InvalidOperand));
    assert_eq!(Operation::JumpV0(Src::Literal8(3)).execute(&mut core),
               Err(Chip8Error::InvalidOperand));
    assert_eq!(Operation::Call(Src::I).execute(&mut core),
               Err(Chip8Error::InvalidOperand));
    assert_eq!(Operation::Stash(Src::I, Src::Register(3), Src::Const(0)).execute(&mut core),
               Err(Chip8Error::InvalidOperand));
    assert_eq!(Operation::Fetch(Src::DelayTimer, Src::Register(3), Src::Const(0)).execute(
                   &mut core,
               ),
               Err(Chip8Error::InvalidOperand));
}

#[test]
fn test_call_stack_overflow() {
    let config = cosmac_vip();
    let mut core = Chip8::new(&config, None);
    // the COSMAC VIP stack holds twelve frames
    for _ in 0..12 {
        Operation::Call(Src::Address12(0x300)).execute(&mut core).unwrap();
    }
    assert_eq!(Operation::Call(Src::Address12(0x300)).execute(&mut core),
               Err(Chip8Error::OutOfBoundsAt(12)));
}

#[test]
fn test_bcd_digits() {
    let config = cosmac_vip();
    let mut core = Chip8::new(&config, None);
    core.store(Dest::I, 0x300).unwrap();
    core.store(Dest::Register(4), 209).unwrap();
    Operation::Bcd(Src::Register(4)).execute(&mut core).unwrap();
    assert_eq!(core.load(Src::Address12(0x300)).unwrap(), 2);
    assert_eq!(core.load(Src::Address12(0x301)).unwrap(), 0);
    assert_eq!(core.load(Src::Address12(0x302)).unwrap(), 9);
}

#[test]
fn test_jump_v0_wraps_at_ram_size() {
    let config = cosmac_vip();
    let mut core = Chip8::new(&config, None);
    core.store(Dest::Register(0), 0x10).unwrap();
    Operation::JumpV0(Src::Address12(0x7FF)).execute(&mut core).unwrap();
    // (0x7FF + 0x10) mod 2048 == 0x00F
    assert_eq!(core.load(Src::PC).unwrap(), 0x00F);
}

#[test]
fn test_sprite_rejects_rows_outside_ram() {
    let config = cosmac_vip();
    let mut core = Chip8::new(&config, None);
    core.store(Dest::I, 2047).unwrap();
    core.store(Dest::Register(0), 0).unwrap();
    let r = Operation::Sprite(Src::Register(0), Src::Register(0), Src::Literal4(2)).execute(
        &mut core,
    );
    assert_eq!(r, Err(Chip8Error::OutOfBoundsAt(2048)));
    // nothing was drawn
    let vram = core.vram().unwrap();
    assert!(vram.iter().all(|&p| p == 0));
}

#[test]
fn test_reset_restores_power_on_state() {
    let config = cosmac_vip();
    let mut core = Chip8::new(&config, None);
    core.store(Dest::Register(3), 7).unwrap();
    core.store(Dest::I, 0x300).unwrap();
    core.store(Dest::DelayTimer, 9).unwrap();
    core.reset().unwrap();
    assert_eq!(core.load(Src::Register(3)).unwrap(), 0);
    assert_eq!(core.load(Src::I).unwrap(), 0);
    assert_eq!(core.load(Src::DelayTimer).unwrap(), 0);
    // the configuration-driven initialization is applied again: the small
    // font sits at its address and the program counter at the program base
    assert_eq!(core.load(Src::PC).unwrap(), config.addr_program);
    for (j, &b) in config.font_small.iter().enumerate() {
        assert_eq!(core.load(Src::Address12(config.addr_font + j)).unwrap(), b as usize);
    }
}

#[test]
fn test_wait_key_mask_selects_keys() {
    let config = cosmac_vip();
    let mut core = Chip8::new(&config, None);
    core.store(Dest::PC, 0x202).unwrap();
    // key 1 does not contain the mask bits 0b11, so it is ignored
    let mut keys: Keyboard = [false; 16];
    keys[1] = true;
    core.set_keyboard(&keys).unwrap();
    let wait = Operation::WaitKey(Dest::Register(0), Src::Literal4(3));
    wait.execute(&mut core).unwrap();
    assert_eq!(core.load(Src::PC).unwrap(), 0x200);
    // key 7 contains the mask bits and was just pressed
    core.store(Dest::PC, 0x202).unwrap();
    keys[7] = true;
    core.set_keyboard(&keys).unwrap();
    wait.execute(&mut core).unwrap();
    assert_eq!(core.load(Src::PC).unwrap(), 0x202);
    assert_eq!(core.load(Src::Register(0)).unwrap(), 7);
}

#[test]
fn test_config_defaults() {
    let config = chip8::Config::new();
    assert_eq!(config.ram_bytes, 2048);
    assert_eq!(config.stack_size, 12);
    assert_eq!(config.vram_size, 64 * 32);
    assert_eq!(config.addr_program, 0x200);
    assert_eq!(config.addr_font, 0x000);
    assert!(config.isa_chip8);
    assert!(!config.isa_superchip);
    assert!(!config.isa_xochip);
    assert!(!config.quirk_shift);
    assert_eq!(config.font_small, chip8::fonts::font_4x5_chip8());
}
