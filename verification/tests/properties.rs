use chip8::model::{StepEvent, VmError};
use chip8::vm::Chip8;

#[test]
fn initial_state() {
    let chip = Chip8::new();
    assert_eq!(chip.pc(), 0x200);
    assert_eq!(chip.index(), 0);
    assert_eq!(chip.collision_flag(), 0);
    assert_eq!(chip.stack_depth(), 0);
    assert_eq!(chip.stack_top(), None);
    for x in 0..16 {
        assert_eq!(chip.register(x), 0);
    }
    for addr in 0..4096 {
        assert_eq!(chip.read_memory(addr), 0);
    }
    for y in 0..32 {
        for x in 0..64 {
            assert_eq!(chip.pixel(y, x), false);
        }
    }
}

#[test]
fn load_immediate_exact() {
    let mut chip = Chip8::new();
    chip.set_register(0x6342);
    assert_eq!(chip.register(3), 0x42);
    chip.set_register(0x60FF);
    assert_eq!(chip.register(0), 0xFF);
    chip.set_register(0x6300);
    assert_eq!(chip.register(3), 0x00);
}

#[test]
fn add_immediate_wraps_modulo_256() {
    let mut chip = Chip8::new();
    chip.set_register(0x60FF);
    chip.add_to_register(0x7002);
    assert_eq!(chip.register(0), 0x01);

    chip.set_register(0x6110);
    chip.add_to_register(0x7105);
    assert_eq!(chip.register(1), 0x15);
}

#[test]
fn skip_if_equal_advances_four_or_two() {
    let mut chip = Chip8::new();
    chip.set_register(0x60A0);
    chip.write_memory(0x200, 0x30);
    chip.write_memory(0x201, 0xA0);
    assert_eq!(chip.step(), Ok(StepEvent::Executed));
    assert_eq!(chip.pc(), 0x204);

    let mut chip = Chip8::new();
    chip.set_register(0x60A0);
    chip.write_memory(0x200, 0x30);
    chip.write_memory(0x201, 0xB0);
    assert_eq!(chip.step(), Ok(StepEvent::Executed));
    assert_eq!(chip.pc(), 0x202);
}

#[test]
fn skip_if_not_equal_advances_four_or_two() {
    let mut chip = Chip8::new();
    chip.set_register(0x60A0);
    chip.write_memory(0x200, 0x40);
    chip.write_memory(0x201, 0xB0);
    assert_eq!(chip.step(), Ok(StepEvent::Executed));
    assert_eq!(chip.pc(), 0x204);

    let mut chip = Chip8::new();
    chip.set_register(0x60A0);
    chip.write_memory(0x200, 0x40);
    chip.write_memory(0x201, 0xA0);
    assert_eq!(chip.step(), Ok(StepEvent::Executed));
    assert_eq!(chip.pc(), 0x202);
}

#[test]
fn decode_stage_adds_only_the_skip() {
    // The decoder is stated relative to an already-advanced program
    // counter: by itself a taken skip adds 2, an untaken one nothing.
    let mut chip = Chip8::new();
    chip.set_register(0x60A0);
    let _ = chip.decode_opcode(0x30A0);
    assert_eq!(chip.pc(), 0x202);
    let _ = chip.decode_opcode(0x30B0);
    assert_eq!(chip.pc(), 0x202);
}

#[test]
fn empty_stack_return_leaves_pc() {
    let mut chip = Chip8::new();
    chip.return_from_subroutine();
    assert_eq!(chip.pc(), 0x200);
    assert_eq!(chip.stack_depth(), 0);

    let outcome = chip.decode_opcode(0x00EE);
    assert_eq!(outcome, Ok(StepEvent::EmptyStackReturn));
    assert_eq!(chip.pc(), 0x200);

    // Through a full step, only the fetch advance remains visible.
    chip.write_memory(0x200, 0x00);
    chip.write_memory(0x201, 0xEE);
    assert_eq!(chip.step(), Ok(StepEvent::EmptyStackReturn));
    assert_eq!(chip.pc(), 0x202);
}

#[test]
fn call_then_return_round_trip() {
    let mut chip = Chip8::new();
    chip.call_subroutine(0x2ABC);
    assert_eq!(chip.pc(), 0xABC);
    assert_eq!(chip.stack_depth(), 1);
    assert_eq!(chip.stack_top(), Some(0x200));

    chip.return_from_subroutine();
    assert_eq!(chip.pc(), 0x200);
    assert_eq!(chip.stack_depth(), 0);
}

#[test]
fn draw_full_row_at_origin() {
    let mut chip = Chip8::new();
    chip.write_memory(0x250, 0xFF);
    chip.index_register(0xA250);
    chip.draw_sprite(0xD001).unwrap();

    for x in 0..8 {
        assert_eq!(chip.pixel(0, x), true);
    }
    assert_eq!(chip.pixel(0, 8), false);
    assert_eq!(chip.pixel(1, 0), false);
    assert_eq!(chip.collision_flag(), 0);
}

#[test]
fn draw_twice_cancels_and_collides() {
    let mut chip = Chip8::new();
    chip.write_memory(0x250, 0xFF);
    chip.index_register(0xA250);
    chip.draw_sprite(0xD001).unwrap();
    chip.draw_sprite(0xD001).unwrap();

    for x in 0..8 {
        assert_eq!(chip.pixel(0, x), false);
    }
    assert_eq!(chip.collision_flag(), 1);
}

#[test]
fn clear_screen_after_draws() {
    let mut chip = Chip8::new();
    chip.write_memory(0x250, 0xFF);
    chip.write_memory(0x251, 0xA5);
    chip.write_memory(0x252, 0x3C);
    chip.index_register(0xA250);
    chip.draw_sprite(0xD003).unwrap();
    chip.draw_sprite(0xD453).unwrap();
    chip.draw_sprite(0xDFF1).unwrap();

    let outcome = chip.decode_opcode(0x00E0);
    assert_eq!(outcome, Ok(StepEvent::Executed));
    for y in 0..32 {
        for x in 0..64 {
            assert_eq!(chip.pixel(y, x), false);
        }
    }
}

#[test]
fn random_result_stays_inside_mask() {
    let mut chip = Chip8::new();
    for _ in 0..64 {
        let _ = chip.decode_opcode(0xC17F);
        let r = chip.register(1);
        assert_eq!(r & 0x7F, r);
    }
    for _ in 0..64 {
        let _ = chip.decode_opcode(0xC20F);
        let r = chip.register(2);
        assert_eq!(r & 0x0F, r);
    }
    let _ = chip.decode_opcode(0xC300);
    assert_eq!(chip.register(3), 0);
}

#[test]
fn unknown_opcodes_change_nothing() {
    for op in [0x0123u16, 0x00EF, 0x5123, 0x8ABC, 0x9AB1, 0xB123, 0xE09E, 0xF01E] {
        let mut chip = Chip8::new();
        let outcome = chip.decode_opcode(op);
        assert_eq!(outcome, Ok(StepEvent::UnknownOpcode(op)));
        assert_eq!(chip.pc(), 0x200);
        for x in 0..16 {
            assert_eq!(chip.register(x), 0);
        }
        assert_eq!(chip.stack_depth(), 0);
    }

    // Through a full step, only the fetch advance remains visible.
    let mut chip = Chip8::new();
    chip.write_memory(0x200, 0x51);
    chip.write_memory(0x201, 0x23);
    assert_eq!(chip.step(), Ok(StepEvent::UnknownOpcode(0x5123)));
    assert_eq!(chip.pc(), 0x202);
}

#[test]
fn fetch_reads_big_endian() {
    let mut chip = Chip8::new();
    chip.write_memory(0x200, 0x12);
    chip.write_memory(0x201, 0x34);
    let word = chip.fetch_opcode().unwrap();
    assert_eq!(word, 0x1234);
    assert_eq!(chip.pc(), 0x202);
}

#[test]
fn fetch_out_of_range_fails_step() {
    let mut chip = Chip8::new();
    chip.jump_to_address(0x1FFF);
    assert_eq!(chip.fetch_opcode(), Err(VmError::AddressOutOfRange));
    assert_eq!(chip.pc(), 0xFFF);
    assert_eq!(chip.step(), Err(VmError::AddressOutOfRange));
    assert_eq!(chip.pc(), 0xFFF);
}

#[test]
fn step_executes_program_from_memory() {
    let mut chip = Chip8::new();
    chip.write_memory(0x200, 0x61);
    chip.write_memory(0x201, 0xAB);
    chip.write_memory(0x202, 0x13);
    chip.write_memory(0x203, 0x00);

    assert_eq!(chip.step(), Ok(StepEvent::Executed));
    assert_eq!(chip.register(1), 0xAB);
    assert_eq!(chip.pc(), 0x202);

    assert_eq!(chip.step(), Ok(StepEvent::Executed));
    assert_eq!(chip.pc(), 0x300);
}

#[test]
fn draw_past_end_of_memory_fails() {
    let mut chip = Chip8::new();
    chip.index_register(0xAFFF);
    assert_eq!(chip.draw_sprite(0xD002), Err(VmError::AddressOutOfRange));
    assert_eq!(chip.pc(), 0x200);
    assert_eq!(chip.collision_flag(), 0);
    for x in 0..8 {
        assert_eq!(chip.pixel(0, x), false);
    }

    // The last byte of memory is still a legal one-row sprite.
    assert_eq!(chip.draw_sprite(0xD001), Ok(()));
    assert_eq!(chip.pc(), 0x202);
}

#[test]
fn index_register_loads_address() {
    let mut chip = Chip8::new();
    chip.index_register(0xA123);
    assert_eq!(chip.index(), 0x123);
}

#[test]
fn memory_write_then_read() {
    let mut chip = Chip8::new();
    chip.write_memory(0x300, 0xAB);
    assert_eq!(chip.read_memory(0x300), 0xAB);
    assert_eq!(chip.read_memory(0x2FF), 0);
    assert_eq!(chip.read_memory(0x301), 0);
}

#[test]
fn render_row_text() {
    let mut chip = Chip8::new();
    chip.write_memory(0x250, 0xFF);
    chip.index_register(0xA250);
    chip.draw_sprite(0xD001).unwrap();

    let row = chip.render_row(0);
    assert_eq!(row.len(), 64);
    for x in 0..64 {
        if x < 8 {
            assert_eq!(row[x], b'#');
        } else {
            assert_eq!(row[x], b'.');
        }
    }
    let empty_row = chip.render_row(5);
    assert!(empty_row.iter().all(|&c| c == b'.'));
}

#[test]
fn draw_uses_register_coordinates() {
    let mut chip = Chip8::new();
    chip.set_register(0x630A);
    chip.set_register(0x6407);
    chip.write_memory(0x250, 0xFF);
    chip.index_register(0xA250);
    // Opcode 0xD341 names registers 3 and 4: the corner is
    // (v[3], v[4]) = (10, 7), not the operand nibbles (3, 4).
    chip.draw_sprite(0xD341).unwrap();

    for x in 10..18 {
        assert_eq!(chip.pixel(7, x), true);
    }
    assert_eq!(chip.pixel(4, 3), false);
    for x in 0..10 {
        assert_eq!(chip.pixel(7, x), false);
    }
    assert_eq!(chip.collision_flag(), 0);
}

#[test]
fn draw_clips_at_right_edge() {
    let mut chip = Chip8::new();
    chip.set_register(0x603C);
    chip.write_memory(0x250, 0xFF);
    chip.index_register(0xA250);
    // Corner (v[0], v[1]) = (60, 0): four bits fit, four are clipped, and
    // nothing wraps to column 0.
    chip.draw_sprite(0xD011).unwrap();

    for x in 60..64 {
        assert_eq!(chip.pixel(0, x), true);
    }
    for x in 0..8 {
        assert_eq!(chip.pixel(0, x), false);
    }
    assert_eq!(chip.collision_flag(), 0);
}

#[test]
fn draw_clips_below_bottom_row() {
    let mut chip = Chip8::new();
    chip.set_register(0x611E);
    chip.write_memory(0x250, 0xFF);
    chip.write_memory(0x251, 0xFF);
    chip.write_memory(0x252, 0xFF);
    chip.index_register(0xA250);
    // Corner (v[0], v[1]) = (0, 30): rows 30 and 31 land, the third row is
    // clipped, and nothing wraps to row 0.
    chip.draw_sprite(0xD013).unwrap();

    for x in 0..8 {
        assert_eq!(chip.pixel(30, x), true);
        assert_eq!(chip.pixel(31, x), true);
        assert_eq!(chip.pixel(0, x), false);
    }
    assert_eq!(chip.collision_flag(), 0);
}

#[test]
fn stack_reader_walks_every_entry() {
    let mut chip = Chip8::new();
    chip.call_subroutine(0x2ABC);
    chip.call_subroutine(0x2DEF);
    assert_eq!(chip.stack_depth(), 2);
    assert_eq!(chip.stack_at(0), 0x200);
    assert_eq!(chip.stack_at(1), 0xABC);
    assert_eq!(chip.stack_top(), Some(0xABC));
}
