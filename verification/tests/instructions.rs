use chip8::vm::Chip8;

#[test]
fn jump_to_address() {
    let mut chip = Chip8::new();
    let opcode = 0x1ABC;

    chip.jump_to_address(opcode);

    assert_eq!(chip.pc(), 0xABC);
    println!("Test passed: pc = {:#X}", chip.pc());
}

#[test]
fn call_subroutine() {
    let mut chip = Chip8::new();
    let opcode = 0x2ABC;

    chip.call_subroutine(opcode);
    assert_eq!(chip.pc(), 0xABC);
    assert_eq!(chip.stack_top(), Some(0x200));

    println!("Test passed: pc = {:#X}", chip.pc());
}

#[test]
fn return_from_subroutine() {
    let mut chip = Chip8::new();

    chip.call_subroutine(0x2ABC);
    assert_eq!(chip.pc(), 0xABC);

    chip.return_from_subroutine();
    assert_eq!(chip.pc(), 0x200);

    assert_eq!(chip.stack_depth(), 0);

    println!("Test passed: pc = {:#X}", chip.pc());
}

#[test]
fn skip_next_register() {
    let mut chip = Chip8::new();
    chip.set_register(0x60A0);

    let opcode = 0x30A0;

    let _ = chip.decode_opcode(opcode);

    assert_eq!(chip.pc(), 0x202);
    println!("Test passed: pc = {:#X}", chip.pc());
}

#[test]
fn skip_next_not_same_value() {
    let mut chip = Chip8::new();
    chip.set_register(0x60A0);

    let opcode = 0x40B0;
    let _ = chip.decode_opcode(opcode);

    assert_eq!(chip.pc(), 0x202);
    println!("Test passed: pc = {:#X}", chip.pc());
}

#[test]
fn set_register_random_source() {
    let mut chip = Chip8::new();
    let opcode = 0xC0FF;

    let _ = chip.decode_opcode(opcode);
    let v0_value = chip.register(0);
    assert!(v0_value <= 0xFF);

    println!("Test passed: v0_value = {:#X}", v0_value);
}

#[test]
fn skip_next_if_not_equal() {
    let mut chip = Chip8::new();
    let opcode = 0x9AB0;

    chip.set_register(0x6A01);
    chip.set_register(0x6B02);

    let _ = chip.decode_opcode(opcode);
    assert_eq!(chip.pc(), 0x202);

    chip.set_register(0x6B01);
    let _ = chip.decode_opcode(opcode);
    assert_eq!(chip.pc(), 0x202);

    println!("Test passed: pc = {:#X}", chip.pc());
}

#[test]
fn draw_sprite_no_collision() {
    let mut chip = Chip8::new();

    chip.set_register(0x6105);
    chip.set_register(0x6205);
    chip.index_register(0xA200);

    chip.write_memory(0x200, 0xFF);
    chip.write_memory(0x201, 0x10);

    chip.clear_screen();

    let opcode = 0xD015;

    // Opcode 0xD015 names registers 0 and 1, so the corner is
    // (v[0], v[1]) = (0, 5): the first sprite row lands on display row 5.
    chip.draw_sprite(opcode).unwrap();

    assert_eq!(chip.pixel(5, 0), true);
    assert_eq!(chip.pixel(5, 1), true);
    assert_eq!(chip.pixel(5, 2), true);
    assert_eq!(chip.pixel(5, 3), true);
    assert_eq!(chip.pixel(5, 4), true);
    assert_eq!(chip.pixel(5, 5), true);
    assert_eq!(chip.pixel(5, 6), true);
    assert_eq!(chip.pixel(5, 7), true);
    assert_eq!(chip.pixel(6, 3), true);
    assert_eq!(chip.collision_flag(), 0);
}

#[test]
fn test_draw_sprite_with_collision() {
    let mut chip = Chip8::new();

    chip.set_register(0x6000);
    chip.set_register(0x6101);

    chip.write_memory(0x200, 0xFF);
    chip.write_memory(0x201, 0x00);

    // Light the single pixel at column 0 of row 1 by drawing a one-row
    // sprite whose only set bit is the leftmost.
    chip.write_memory(0x300, 0x80);
    chip.index_register(0xA300);
    chip.draw_sprite(0xD011).unwrap();
    assert_eq!(chip.pixel(1, 0), true);

    chip.index_register(0xA200);
    let opcode = 0xD015;
    chip.draw_sprite(opcode).unwrap();

    assert_eq!(chip.pixel(1, 0), false);
    assert_eq!(chip.collision_flag(), 1);
}
