use chip8::emulator::{Quirks, System};
use chip8::memory::Memory;
use chip8::op_code::{decode, OpCode};
use chip8::{Fault, Progress};

#[test]
fn memory_read_write_round_trip() {
    let mut memory = Memory::new();
    assert_eq!(Ok(0x00), memory.read_byte(0x0ABC));
    memory.write_byte(0x0ABC, 0x5A).unwrap();
    assert_eq!(Ok(0x5A), memory.read_byte(0x0ABC));
}

#[test]
fn memory_out_of_bounds_accesses_fault() {
    let mut memory = Memory::new();
    assert_eq!(Err(Fault::MemoryOutOfBounds(0x1000)), memory.read_byte(0x1000));
    assert_eq!(
        Err(Fault::MemoryOutOfBounds(0x1000)),
        memory.write_byte(0x1000, 0xFF)
    );
    // The word at 0xFFF would need a low byte at 0x1000.
    assert_eq!(Err(Fault::MemoryOutOfBounds(0x0FFF)), memory.fetch_word(0x0FFF));
}

#[test]
fn memory_fetch_word_is_big_endian() {
    let mut memory = Memory::new();
    memory.write_byte(0x0300, 0x12).unwrap();
    memory.write_byte(0x0301, 0x34).unwrap();
    assert_eq!(Ok(0x1234), memory.fetch_word(0x0300));
}

#[test]
fn rom_too_large_is_rejected_and_memory_untouched() {
    let mut memory = Memory::new();
    let rom = vec![0xAB; 3585];
    assert_eq!(Err(Fault::RomTooLarge), memory.load_rom(&rom));
    // Nothing was copied: the program region is still zero.
    assert_eq!(Ok(0x00), memory.read_byte(0x0200));
    assert_eq!(Ok(0x00), memory.read_byte(0x0FFF));

    assert!(matches!(System::init(&rom), Err(Fault::RomTooLarge)));
}

#[test]
fn rom_at_exact_capacity_loads() {
    let rom = vec![0xCD; 3584];
    let system = System::init(&rom).unwrap();
    assert_eq!(Ok(0xCD), system.read_byte(0x0200));
    assert_eq!(Ok(0xCD), system.read_byte(0x0FFF));
}

#[test]
fn init_loads_font_and_rom() {
    let rom = vec![0x12, 0x34, 0x56];
    let system = System::init(&rom).unwrap();
    // The glyph for digit 0 starts the font table.
    assert_eq!(Ok(0xF0), system.read_byte(0x0050));
    // The glyph for digit F ends it.
    assert_eq!(Ok(0x80), system.read_byte(0x009F));
    // The ROM sits at the program base, byte for byte.
    assert_eq!(Ok(0x12), system.read_byte(0x0200));
    assert_eq!(Ok(0x34), system.read_byte(0x0201));
    assert_eq!(Ok(0x56), system.read_byte(0x0202));
    // Beyond the ROM the program region is zero.
    assert_eq!(Ok(0x00), system.read_byte(0x0203));
    assert_eq!(0x0200, system.pc());
}

#[test]
fn fetch_past_address_space_faults() {
    let mut system = System::new();
    system.set_pc(0x0FFF);
    assert_eq!(Err(Fault::MemoryOutOfBounds(0x0FFF)), system.fetch());
    assert_eq!(0x0FFF, system.pc(), "a failed fetch must not advance the pc");
}

#[test]
fn stack_overflow_faults_on_seventeenth_call() {
    let mut system = System::new();
    for _ in 0..16 {
        system.execute(&OpCode::Call(0x0300)).unwrap();
    }
    assert_eq!(16, system.sp());
    assert_eq!(
        Err(Fault::StackOverflow),
        system.execute(&OpCode::Call(0x0300))
    );
    assert_eq!(16, system.sp(), "a failed call must not move the stack pointer");
}

#[test]
fn stack_underflow_faults_on_empty_return() {
    let mut system = System::new();
    assert_eq!(Err(Fault::StackUnderflow), system.execute(&OpCode::Ret));
    assert_eq!(0, system.sp());
    assert_eq!(0x0200, system.pc());
}

// A call fetched at 0x0200 pushes the already-advanced pc, so the return
// lands on the instruction after the call.
#[test]
fn call_then_ret_restores_pc_and_sp() {
    let mut system = System::new();
    // CALL 0x0400 at the program base.
    system.write_byte(0x0200, 0x24).unwrap();
    system.write_byte(0x0201, 0x00).unwrap();

    let word = system.fetch().unwrap();
    let op = decode(word);
    assert_eq!(OpCode::Call(0x0400), op);

    system.execute(&op).unwrap();
    assert_eq!(0x0400, system.pc());
    assert_eq!(1, system.sp());

    system.execute(&OpCode::Ret).unwrap();
    assert_eq!(0x0202, system.pc(), "return lands right after the call");
    assert_eq!(0, system.sp(), "stack pointer is back at its pre-call value");
}

#[test]
fn sprite_draw_sets_pixels_without_collision() {
    let mut system = System::new();
    system.write_byte(0x0300, 0b1010_0001).unwrap();
    system.set_i_register(0x0300);
    system.set_register(0, 10); // x anchor
    system.set_register(1, 5); // y anchor

    system
        .execute(&OpCode::Drw { vx: 0, vy: 1, n: 1 })
        .unwrap();

    assert_eq!(0, system.register(0xF), "first draw on an empty buffer");
    assert!(system.pixel(10, 5));
    assert!(!system.pixel(11, 5));
    assert!(system.pixel(12, 5));
    assert!(!system.pixel(13, 5));
    assert!(system.pixel(17, 5));
    assert!(!system.pixel(18, 5));
}

#[test]
fn sprite_drawn_twice_cancels_and_reports_collision() {
    let mut system = System::new();
    system.write_byte(0x0300, 0xFF).unwrap();
    system.write_byte(0x0301, 0x81).unwrap();
    system.set_i_register(0x0300);
    system.set_register(0, 3);
    system.set_register(1, 7);

    system
        .execute(&OpCode::Drw { vx: 0, vy: 1, n: 2 })
        .unwrap();
    assert_eq!(0, system.register(0xF), "no collision on an empty buffer");
    assert!(system.pixel(3, 7));

    system
        .execute(&OpCode::Drw { vx: 0, vy: 1, n: 2 })
        .unwrap();
    assert_eq!(1, system.register(0xF), "second draw collides");
    for y in 0..32 {
        for x in 0..64 {
            assert!(!system.pixel(x, y), "the XOR blit cancels itself");
        }
    }
}

#[test]
fn sprite_anchor_wraps_but_overflow_clips_by_default() {
    let mut system = System::new();
    system.write_byte(0x0300, 0xFF).unwrap();
    system.set_i_register(0x0300);
    // The anchor is taken modulo the grid: 74 % 64 == 10.
    system.set_register(0, 74);
    system.set_register(1, 37); // 37 % 32 == 5
    system
        .execute(&OpCode::Drw { vx: 0, vy: 1, n: 1 })
        .unwrap();
    assert!(system.pixel(10, 5));
    assert!(system.pixel(17, 5));

    // Pixels past the right edge are clipped, not wrapped.
    let mut system = System::new();
    system.write_byte(0x0300, 0xFF).unwrap();
    system.set_i_register(0x0300);
    system.set_register(0, 62);
    system.set_register(1, 0);
    system
        .execute(&OpCode::Drw { vx: 0, vy: 1, n: 1 })
        .unwrap();
    assert!(system.pixel(62, 0));
    assert!(system.pixel(63, 0));
    for x in 0..6 {
        assert!(!system.pixel(x, 0), "clipped pixels are not written");
    }
}

#[test]
fn wrap_dialect_folds_sprites_to_the_opposite_edge() {
    let mut system = System::new();
    system.set_quirks(Quirks {
        shift_source_vy: false,
        wrap_sprites: true,
    });
    system.write_byte(0x0300, 0xFF).unwrap();
    system.set_i_register(0x0300);
    system.set_register(0, 62);
    system.set_register(1, 0);
    system
        .execute(&OpCode::Drw { vx: 0, vy: 1, n: 1 })
        .unwrap();
    assert!(system.pixel(62, 0));
    assert!(system.pixel(63, 0));
    for x in 0..6 {
        assert!(system.pixel(x, 0), "wrapped pixels fold to the left edge");
    }
    assert!(!system.pixel(6, 0));
}

#[test]
fn shift_dialect_reads_vy_when_configured() {
    let mut system = System::new();
    system.set_quirks(Quirks {
        shift_source_vy: true,
        wrap_sprites: false,
    });
    system.set_register(0, 0xFF);
    system.set_register(1, 0x05);
    system.execute(&OpCode::Shr { vx: 0, vy: 1 }).unwrap();
    assert_eq!(0x02, system.register(0), "Vx receives Vy shifted");
    assert_eq!(0x01, system.register(0xF));
}

#[test]
fn sprite_read_past_address_space_faults() {
    let mut system = System::new();
    system.set_i_register(0x0FFF);
    system.set_register(0, 0);
    system.set_register(1, 0);
    assert_eq!(
        Err(Fault::MemoryOutOfBounds(0x1000)),
        system.execute(&OpCode::Drw { vx: 0, vy: 1, n: 2 })
    );
    for y in 0..32 {
        for x in 0..64 {
            assert!(!system.pixel(x, y), "a faulting draw leaves the buffer alone");
        }
    }
    assert_eq!(0, system.register(0xF));
}

#[test]
fn unrecognized_word_faults_without_mutation() {
    assert_eq!(OpCode::Unrecognized(0x0000), decode(0x0000));

    let mut system = System::new();
    system.set_register(0x3, 0x77);
    system.write_byte(0x0400, 0x55).unwrap();
    assert_eq!(
        Err(Fault::DecodeUnrecognized(0x0000)),
        system.execute(&OpCode::Unrecognized(0x0000))
    );
    assert_eq!(0x0200, system.pc());
    assert_eq!(0x77, system.register(0x3));
    assert_eq!(Ok(0x55), system.read_byte(0x0400));
    assert_eq!(0, system.sp());
}

#[test]
fn bcd_digits_are_stored_most_significant_first() {
    let mut system = System::new();
    system.set_register(2, 234);
    system.set_i_register(0x0300);
    system.execute(&OpCode::LdBVx(2)).unwrap();
    assert_eq!(Ok(2), system.read_byte(0x0300));
    assert_eq!(Ok(3), system.read_byte(0x0301));
    assert_eq!(Ok(4), system.read_byte(0x0302));
}

#[test]
fn bulk_store_then_load_round_trips() {
    let mut system = System::new();
    for x in 0..4 {
        system.set_register(x, (x as u8) * 3 + 1);
    }
    system.set_i_register(0x0300);
    system.execute(&OpCode::LdIVx(3)).unwrap();
    assert_eq!(Ok(1), system.read_byte(0x0300));
    assert_eq!(Ok(4), system.read_byte(0x0301));
    assert_eq!(Ok(7), system.read_byte(0x0302));
    assert_eq!(Ok(10), system.read_byte(0x0303));
    assert_eq!(
        Ok(0),
        system.read_byte(0x0304),
        "only V0..=Vx are stored"
    );

    for x in 0..4 {
        system.set_register(x, 0);
    }
    system.execute(&OpCode::LdVxI(3)).unwrap();
    assert_eq!(1, system.register(0));
    assert_eq!(4, system.register(1));
    assert_eq!(7, system.register(2));
    assert_eq!(10, system.register(3));
}

#[test]
fn bulk_store_past_address_space_faults() {
    let mut system = System::new();
    system.set_i_register(0x0FFE);
    assert_eq!(
        Err(Fault::MemoryOutOfBounds(0x1000)),
        system.execute(&OpCode::LdIVx(5))
    );
    assert_eq!(Ok(0x00), system.read_byte(0x0FFE), "nothing was written");
}

#[test]
fn timers_load_read_and_tick() {
    let mut system = System::new();
    system.set_register(4, 3);
    system.execute(&OpCode::LdDtVx(4)).unwrap();
    system.execute(&OpCode::LdStVx(4)).unwrap();
    assert_eq!(3, system.delay_timer());
    assert_eq!(3, system.sound_timer());

    system.tick_timers();
    assert_eq!(2, system.delay_timer());
    assert_eq!(2, system.sound_timer());

    system.execute(&OpCode::LdVxDt(7)).unwrap();
    assert_eq!(2, system.register(7));

    system.tick_timers();
    system.tick_timers();
    system.tick_timers();
    assert_eq!(0, system.delay_timer(), "a zero timer stays at zero");
    assert_eq!(0, system.sound_timer());
}

#[test]
fn key_skips_follow_the_latch() {
    let mut system = System::new();
    system.set_register(2, 0xA);
    system.set_key(Some(0xA));
    system.execute(&OpCode::Skp(2)).unwrap();
    assert_eq!(0x0202, system.pc(), "key Vx is pressed");

    let mut system = System::new();
    system.set_register(2, 0xA);
    system.set_key(Some(0xB));
    system.execute(&OpCode::Skp(2)).unwrap();
    assert_eq!(0x0200, system.pc(), "a different key is pressed");

    let mut system = System::new();
    system.set_register(2, 0xA);
    system.execute(&OpCode::Sknp(2)).unwrap();
    assert_eq!(0x0202, system.pc(), "no key at all is pressed");
}

#[test]
fn key_wait_suspends_until_a_key_arrives() {
    let mut system = System::new();
    let r = system.execute(&OpCode::LdVxK(6)).unwrap();
    assert_eq!(Progress::AwaitingKey, r);
    assert_eq!(0x0200, system.pc(), "the suspended machine does not move on");
    assert_eq!(0, system.register(6));

    system.set_key(Some(0xC));
    let r = system.execute(&OpCode::LdVxK(6)).unwrap();
    assert_eq!(Progress::Complete, r);
    assert_eq!(0xC, system.register(6));
}

#[test]
fn font_glyph_address_follows_the_low_nibble() {
    let rom = vec![];
    let mut system = System::init(&rom).unwrap();
    system.set_register(0, 0x0A);
    system.execute(&OpCode::LdFVx(0)).unwrap();
    assert_eq!(0x0050 + 5 * 0x0A, system.i_register());
    // The glyph for A starts with 0xF0.
    assert_eq!(Ok(0xF0), system.read_byte(system.i_register()));

    // Only the low nibble selects the digit.
    system.set_register(0, 0x1A);
    system.execute(&OpCode::LdFVx(0)).unwrap();
    assert_eq!(0x0050 + 5 * 0x0A, system.i_register());
}

#[test]
fn add_i_vx_wraps() {
    let mut system = System::new();
    system.set_i_register(0x0123);
    system.set_register(5, 0x10);
    system.execute(&OpCode::AddIVx(5)).unwrap();
    assert_eq!(0x0133, system.i_register());

    system.set_i_register(0xFFFF);
    system.set_register(5, 0x02);
    system.execute(&OpCode::AddIVx(5)).unwrap();
    assert_eq!(0x0001, system.i_register());
}

#[test]
fn random_byte_is_masked() {
    let mut system = System::new();
    system.set_register(3, 0x55);
    system
        .execute(&OpCode::Rnd {
            vx: 3,
            value: 0x00,
        })
        .unwrap();
    assert_eq!(0, system.register(3), "a zero mask forces zero");

    system
        .execute(&OpCode::Rnd {
            vx: 3,
            value: 0x0F,
        })
        .unwrap();
    assert!(system.register(3) <= 0x0F, "the mask bounds the draw");
}

#[test]
fn deterministic_source_can_replace_the_random_byte() {
    let mut system = System::new();
    system.store_random(3, 0x0F, 0xAB);
    assert_eq!(0x0B, system.register(3));
    system.store_random(3, 0xFF, 0x5C);
    assert_eq!(0x5C, system.register(3));
}
