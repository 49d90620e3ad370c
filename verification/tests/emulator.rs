use chip8::draw::Draw;
use chip8::emulator::{execute, fetch, fetch_instruction, match_key, KeyPress, KeyState};
use chip8::fault::Fault;
use chip8::memory::Memory;
use chip8::program_counter::ProgramCounter;
use chip8::registers::Registers;
use chip8::stack::Stack;

struct Machine {
    memory: Memory,
    stack: Stack,
    registers: Registers,
    program_counter: ProgramCounter,
    draw: Draw,
}

fn boot(rom: &[u8]) -> Machine {
    let mut memory = Memory::new();
    memory.set_rom(&rom.to_vec()).unwrap();
    memory.set_fonts();
    let mut program_counter = ProgramCounter::new();
    program_counter.set_counter(512);
    Machine {
        memory,
        stack: Stack::new(),
        registers: Registers::new(),
        program_counter,
        draw: Draw::new(64, 32),
    }
}

fn no_key() -> KeyPress {
    KeyPress { current_key: None, state: None }
}

fn run_one(m: &mut Machine, rom_length: usize, key: KeyPress, now: u64) -> Result<bool, Fault> {
    let instruction =
        fetch_instruction(m.memory.get_memory(), &mut m.program_counter, rom_length)?;
    execute(
        instruction,
        &mut m.memory,
        &mut m.stack,
        &mut m.registers,
        &mut m.program_counter,
        &mut m.draw,
        key,
        now,
    )
}

fn exec(m: &mut Machine, instruction: u16, key: KeyPress, now: u64) -> Result<bool, Fault> {
    execute(
        instruction,
        &mut m.memory,
        &mut m.stack,
        &mut m.registers,
        &mut m.program_counter,
        &mut m.draw,
        key,
        now,
    )
}

#[test]
fn load_register_takes_the_low_byte() {
    let mut m = boot(&[0x6A, 0x42]);
    run_one(&mut m, 2, no_key(), 0).unwrap();
    assert_eq!(m.registers.get_register(0xA), Some(0x42));
}

#[test]
fn add_scenario_sums_registers() {
    // V1 = 5; V2 = 3; V1 += V2.
    let rom = [0x61, 0x05, 0x62, 0x03, 0x81, 0x24];
    let mut m = boot(&rom);
    for _ in 0..3 {
        run_one(&mut m, rom.len(), no_key(), 0).unwrap();
    }
    assert_eq!(m.registers.get_register(0x1), Some(8));
    assert_eq!(m.registers.get_register(0xF), Some(0));
}

#[test]
fn add_with_carry_sets_the_flag() {
    let mut m = boot(&[0x00, 0x00]);
    m.registers.set_register(0x1, 250);
    m.registers.set_register(0x2, 10);
    exec(&mut m, 0x8124, no_key(), 0).unwrap();
    // 250 + 10 wraps to 4 and carries.
    assert_eq!(m.registers.get_register(0x1), Some(4));
    assert_eq!(m.registers.get_register(0xF), Some(1));

    m.registers.set_register(0x1, 250);
    m.registers.set_register(0x2, 5);
    exec(&mut m, 0x8124, no_key(), 0).unwrap();
    assert_eq!(m.registers.get_register(0x1), Some(255));
    assert_eq!(m.registers.get_register(0xF), Some(0));
}

#[test]
fn subtract_flags_mean_no_borrow() {
    let mut m = boot(&[0x00, 0x00]);
    m.registers.set_register(0x1, 10);
    m.registers.set_register(0x2, 3);
    exec(&mut m, 0x8125, no_key(), 0).unwrap();
    assert_eq!(m.registers.get_register(0x1), Some(7));
    assert_eq!(m.registers.get_register(0xF), Some(1));

    m.registers.set_register(0x1, 3);
    m.registers.set_register(0x2, 10);
    exec(&mut m, 0x8125, no_key(), 0).unwrap();
    assert_eq!(m.registers.get_register(0x1), Some(249));
    assert_eq!(m.registers.get_register(0xF), Some(0));

    // 8xy7 subtracts the other way around.
    m.registers.set_register(0x1, 3);
    m.registers.set_register(0x2, 10);
    exec(&mut m, 0x8127, no_key(), 0).unwrap();
    assert_eq!(m.registers.get_register(0x1), Some(7));
    assert_eq!(m.registers.get_register(0xF), Some(1));
}

#[test]
fn shifts_report_the_moved_out_bit() {
    let mut m = boot(&[0x00, 0x00]);
    m.registers.set_register(0x3, 0b1000_0101);
    exec(&mut m, 0x8306, no_key(), 0).unwrap();
    assert_eq!(m.registers.get_register(0x3), Some(0b0100_0010));
    assert_eq!(m.registers.get_register(0xF), Some(1));

    m.registers.set_register(0x3, 0b1000_0101);
    exec(&mut m, 0x830E, no_key(), 0).unwrap();
    assert_eq!(m.registers.get_register(0x3), Some(0b0000_1010));
    assert_eq!(m.registers.get_register(0xF), Some(1));
}

#[test]
fn bitwise_family_combines_registers() {
    let mut m = boot(&[0x00, 0x00]);
    m.registers.set_register(0x1, 0b1100);
    m.registers.set_register(0x2, 0b1010);

    exec(&mut m, 0x8120, no_key(), 0).unwrap();
    assert_eq!(m.registers.get_register(0x1), Some(0b1010));

    m.registers.set_register(0x1, 0b1100);
    exec(&mut m, 0x8121, no_key(), 0).unwrap();
    assert_eq!(m.registers.get_register(0x1), Some(0b1110));

    m.registers.set_register(0x1, 0b1100);
    exec(&mut m, 0x8122, no_key(), 0).unwrap();
    assert_eq!(m.registers.get_register(0x1), Some(0b1000));

    m.registers.set_register(0x1, 0b1100);
    exec(&mut m, 0x8123, no_key(), 0).unwrap();
    assert_eq!(m.registers.get_register(0x1), Some(0b0110));
}

#[test]
fn add_without_carry_wraps_silently() {
    let mut m = boot(&[0x00, 0x00]);
    m.registers.set_register(0x5, 250);
    exec(&mut m, 0x750A, no_key(), 0).unwrap();
    // 250 + 10 wraps to 4; the flag register is untouched.
    assert_eq!(m.registers.get_register(0x5), Some(4));
    assert_eq!(m.registers.get_register(0xF), Some(0));
}

#[test]
fn clear_blanks_the_whole_screen() {
    let mut m = boot(&[0x00, 0x00]);
    m.registers.set_i_register(0);
    exec(&mut m, 0xD005, no_key(), 0).unwrap();
    assert!(m.draw.pixel_at(0, 0));

    let render = exec(&mut m, 0x00E0, no_key(), 0).unwrap();
    assert!(render);
    for y in 0..32 {
        for x in 0..64 {
            assert!(!m.draw.pixel_at(x, y));
        }
    }
}

#[test]
fn draw_glyph_scenario() {
    // V0 = 0; I = glyph address of character V0; draw five rows at (V0, V0).
    let rom = [0x60, 0x00, 0xF0, 0x29, 0xD0, 0x05];
    let mut m = boot(&rom);
    for _ in 0..3 {
        run_one(&mut m, rom.len(), no_key(), 0).unwrap();
    }
    // Glyph '0' row 0 is 0xF0: four lit pixels, then four dark.
    assert!(m.draw.pixel_at(0, 0));
    assert!(m.draw.pixel_at(1, 0));
    assert!(m.draw.pixel_at(2, 0));
    assert!(m.draw.pixel_at(3, 0));
    assert!(!m.draw.pixel_at(4, 0));
    // Row 1 is 0x90.
    assert!(m.draw.pixel_at(0, 1));
    assert!(!m.draw.pixel_at(1, 1));
    assert!(m.draw.pixel_at(3, 1));
    // No collision on a blank screen.
    assert_eq!(m.registers.get_register(0xF), Some(0));
}

#[test]
fn draw_collision_flag_follows_turned_off_pixels() {
    let mut m = boot(&[0x00, 0x00]);
    m.registers.set_i_register(0);
    exec(&mut m, 0xD001, no_key(), 0).unwrap();
    assert_eq!(m.registers.get_register(0xF), Some(0));

    // The same row again turns its pixels off: collision.
    exec(&mut m, 0xD001, no_key(), 0).unwrap();
    assert_eq!(m.registers.get_register(0xF), Some(1));
    assert!(!m.draw.pixel_at(0, 0));

    // Drawing on the now-dark pixels: no collision again.
    exec(&mut m, 0xD001, no_key(), 0).unwrap();
    assert_eq!(m.registers.get_register(0xF), Some(0));
}

#[test]
fn draw_past_memory_end_is_a_fault() {
    let mut m = boot(&[0x00, 0x00]);
    m.registers.set_i_register(4094);
    assert_eq!(exec(&mut m, 0xD005, no_key(), 0), Err(Fault::MemoryOutOfBounds));
    // Nothing was drawn.
    assert_eq!(m.registers.get_register(0xF), Some(0));
}

#[test]
fn call_and_return_scenario() {
    // 0x200: CALL 0x206; 0x202: V1 = 0x11; then padding; 0x206: RET.
    let rom = [0x22, 0x06, 0x61, 0x11, 0x00, 0x00, 0x00, 0xEE];
    let mut m = boot(&rom);

    run_one(&mut m, rom.len(), no_key(), 0).unwrap();
    assert_eq!(m.program_counter.get_pc(), 0x206);

    // The RET restores the counter to just after the CALL.
    run_one(&mut m, rom.len(), no_key(), 0).unwrap();
    assert_eq!(m.program_counter.get_pc(), 0x202);

    run_one(&mut m, rom.len(), no_key(), 0).unwrap();
    assert_eq!(m.registers.get_register(0x1), Some(0x11));
}

#[test]
fn return_on_empty_stack_is_a_fault() {
    let mut m = boot(&[0x00, 0xEE]);
    assert_eq!(run_one(&mut m, 2, no_key(), 0), Err(Fault::StackUnderflow));
}

#[test]
fn call_past_capacity_is_a_fault() {
    let mut m = boot(&[0x00, 0x00]);
    for _ in 0..512 {
        assert_eq!(exec(&mut m, 0x2200, no_key(), 0), Ok(false));
    }
    let pc_before = m.program_counter.get_pc();
    assert_eq!(exec(&mut m, 0x2200, no_key(), 0), Err(Fault::StackOverflow));
    // The faulting call left the counter alone.
    assert_eq!(m.program_counter.get_pc(), pc_before);
}

#[test]
fn jumps_move_the_counter() {
    let mut m = boot(&[0x00, 0x00]);
    exec(&mut m, 0x1ABC, no_key(), 0).unwrap();
    assert_eq!(m.program_counter.get_pc(), 0xABC);

    m.registers.set_register(0x0, 0x10);
    exec(&mut m, 0xB300, no_key(), 0).unwrap();
    assert_eq!(m.program_counter.get_pc(), 0x310);
}

#[test]
fn conditional_skips_move_by_two() {
    let mut m = boot(&[0x00, 0x00]);
    m.program_counter.set_counter(0x300);
    m.registers.set_register(0x1, 0x42);
    m.registers.set_register(0x2, 0x42);
    m.registers.set_register(0x3, 0x43);

    exec(&mut m, 0x3142, no_key(), 0).unwrap();
    assert_eq!(m.program_counter.get_pc(), 0x302);
    exec(&mut m, 0x3143, no_key(), 0).unwrap();
    assert_eq!(m.program_counter.get_pc(), 0x302);

    exec(&mut m, 0x4142, no_key(), 0).unwrap();
    assert_eq!(m.program_counter.get_pc(), 0x302);
    exec(&mut m, 0x4143, no_key(), 0).unwrap();
    assert_eq!(m.program_counter.get_pc(), 0x304);

    exec(&mut m, 0x5120, no_key(), 0).unwrap();
    assert_eq!(m.program_counter.get_pc(), 0x306);
    exec(&mut m, 0x5130, no_key(), 0).unwrap();
    assert_eq!(m.program_counter.get_pc(), 0x306);

    exec(&mut m, 0x9120, no_key(), 0).unwrap();
    assert_eq!(m.program_counter.get_pc(), 0x306);
    exec(&mut m, 0x9130, no_key(), 0).unwrap();
    assert_eq!(m.program_counter.get_pc(), 0x308);
}

#[test]
fn index_register_opcodes() {
    let mut m = boot(&[0x00, 0x00]);
    exec(&mut m, 0xA123, no_key(), 0).unwrap();
    assert_eq!(m.registers.get_i_register(), 0x123);

    m.registers.set_register(0x4, 0x10);
    exec(&mut m, 0xF41E, no_key(), 0).unwrap();
    assert_eq!(m.registers.get_i_register(), 0x133);

    // Fx29: the glyph of character V5 sits five bytes per character in.
    m.registers.set_register(0x5, 0xA);
    exec(&mut m, 0xF529, no_key(), 0).unwrap();
    assert_eq!(m.registers.get_i_register(), 50);
}

#[test]
fn random_masked_with_zero_is_zero() {
    let mut m = boot(&[0x00, 0x00]);
    m.registers.set_register(0x3, 0xAA);
    exec(&mut m, 0xC300, no_key(), 0).unwrap();
    assert_eq!(m.registers.get_register(0x3), Some(0));

    // The mask keeps the result inside its bits.
    exec(&mut m, 0xC40F, no_key(), 0).unwrap();
    let masked = m.registers.get_register(0x4).unwrap();
    assert!(masked < 16);
}

#[test]
fn binary_coded_decimal_expansion() {
    let mut m = boot(&[0x00, 0x00]);
    m.registers.set_register(0x0, 173);
    m.registers.set_i_register(0x300);
    exec(&mut m, 0xF033, no_key(), 0).unwrap();
    assert_eq!(m.memory.read(0x300), Ok(1));
    assert_eq!(m.memory.read(0x301), Ok(7));
    assert_eq!(m.memory.read(0x302), Ok(3));

    m.registers.set_i_register(4094);
    assert_eq!(exec(&mut m, 0xF033, no_key(), 0), Err(Fault::MemoryOutOfBounds));
}

#[test]
fn bulk_store_and_load_round_trip() {
    let mut m = boot(&[0x00, 0x00]);
    for index in 0..4u16 {
        m.registers.set_register(index, (0x10 + index) as u8);
    }
    m.registers.set_i_register(0x320);
    exec(&mut m, 0xF355, no_key(), 0).unwrap();
    assert_eq!(m.memory.read(0x320), Ok(0x10));
    assert_eq!(m.memory.read(0x323), Ok(0x13));
    // I itself is left unmodified, and V4 was not stored.
    assert_eq!(m.registers.get_i_register(), 0x320);
    assert_eq!(m.memory.read(0x324), Ok(0));

    for index in 0..4u16 {
        m.registers.set_register(index, 0);
    }
    exec(&mut m, 0xF365, no_key(), 0).unwrap();
    assert_eq!(m.registers.get_register(0x0), Some(0x10));
    assert_eq!(m.registers.get_register(0x3), Some(0x13));
    assert_eq!(m.registers.get_register(0x4), Some(0));

    m.registers.set_i_register(4090);
    assert_eq!(exec(&mut m, 0xF755, no_key(), 0), Err(Fault::MemoryOutOfBounds));
    assert_eq!(exec(&mut m, 0xF765, no_key(), 0), Err(Fault::MemoryOutOfBounds));
}

#[test]
fn delay_timer_opcodes_use_the_clock() {
    let mut m = boot(&[0x00, 0x00]);
    m.registers.set_register(0x2, 60);
    exec(&mut m, 0xF215, no_key(), 1_000_000).unwrap();

    // Half a second later the timer reads thirty.
    exec(&mut m, 0xF307, no_key(), 1_500_000).unwrap();
    assert_eq!(m.registers.get_register(0x3), Some(30));
}

#[test]
fn key_skip_opcodes_read_the_input() {
    let mut m = boot(&[0x00, 0x00]);
    m.program_counter.set_counter(0x300);
    m.registers.set_register(0x1, 0x7);
    let seven_down = KeyPress { current_key: Some(0x7), state: Some(KeyState::Pressed) };

    // Ex9E skips when the key is pressed.
    exec(&mut m, 0xE19E, seven_down, 0).unwrap();
    assert_eq!(m.program_counter.get_pc(), 0x302);
    exec(&mut m, 0xE19E, no_key(), 0).unwrap();
    assert_eq!(m.program_counter.get_pc(), 0x302);

    // ExA1 skips when it is not.
    exec(&mut m, 0xE1A1, seven_down, 0).unwrap();
    assert_eq!(m.program_counter.get_pc(), 0x302);
    exec(&mut m, 0xE1A1, no_key(), 0).unwrap();
    assert_eq!(m.program_counter.get_pc(), 0x304);
}

#[test]
fn key_wait_suspends_until_a_release() {
    let mut m = boot(&[0xF5, 0x0A]);

    // No release event: the counter rewinds so the same instruction
    // re-executes next tick.
    run_one(&mut m, 2, no_key(), 0).unwrap();
    assert_eq!(m.program_counter.get_pc(), 0x200);

    let held = KeyPress { current_key: Some(0x9), state: Some(KeyState::Pressed) };
    run_one(&mut m, 2, held, 0).unwrap();
    assert_eq!(m.program_counter.get_pc(), 0x200);

    // A release stores the released key and lets execution continue.
    let released = KeyPress { current_key: Some(0x9), state: Some(KeyState::Released) };
    run_one(&mut m, 2, released, 0).unwrap();
    assert_eq!(m.program_counter.get_pc(), 0x202);
    assert_eq!(m.registers.get_register(0x5), Some(0x9));
}

#[test]
fn unknown_opcodes_are_no_ops() {
    let mut m = boot(&[0x00, 0x00]);
    m.program_counter.set_counter(0x300);
    for &instruction in &[0x0123u16, 0x5121, 0x8009, 0x9121, 0xE100, 0xF0FF] {
        assert_eq!(exec(&mut m, instruction, no_key(), 0), Ok(false));
        assert_eq!(m.program_counter.get_pc(), 0x300);
        assert_eq!(m.registers.get_register(0x0), Some(0));
    }
}

#[test]
fn fetch_combines_big_endian_and_advances() {
    let mut m = boot(&[0x6A, 0x42, 0x12, 0x34]);
    let instruction = fetch_instruction(m.memory.get_memory(), &mut m.program_counter, 4);
    assert_eq!(instruction, Ok(0x6A42));
    assert_eq!(m.program_counter.get_pc(), 0x202);

    let instruction = fetch(m.memory.get_memory(), &mut m.program_counter, 4);
    assert_eq!(instruction, Some(0x1234));
    assert_eq!(m.program_counter.get_pc(), 0x204);

    // Past the loaded data: nothing to fetch, the counter stays.
    let instruction = fetch(m.memory.get_memory(), &mut m.program_counter, 4);
    assert_eq!(instruction, None);
    assert_eq!(m.program_counter.get_pc(), 0x204);

    // fetch_instruction surfaces the same condition as a fault.
    let instruction = fetch_instruction(m.memory.get_memory(), &mut m.program_counter, 4);
    assert_eq!(instruction, Err(Fault::FetchOutOfBounds));
    assert_eq!(m.program_counter.get_pc(), 0x204);
}

#[test]
fn odd_length_image_never_fetches_its_tail() {
    let mut m = boot(&[0x6A, 0x42, 0x77]);
    let instruction = fetch(m.memory.get_memory(), &mut m.program_counter, 3);
    assert_eq!(instruction, Some(0x6A42));
    // Only one byte remains: fetch fails rather than reading half an
    // instruction.
    let instruction = fetch(m.memory.get_memory(), &mut m.program_counter, 3);
    assert_eq!(instruction, None);
}

#[test]
fn scancodes_map_to_the_keypad() {
    assert_eq!(match_key(18), Some(0x1));
    assert_eq!(match_key(21), Some(0xC));
    assert_eq!(match_key(7), Some(0x0));
    assert_eq!(match_key(9), Some(0xF));
    assert_eq!(match_key(99), None);
}

#[test]
fn tick_fetches_and_executes() {
    // V1 = 5; V2 = 3; V1 += V2, driven through whole interpreter ticks.
    let rom = [0x61, 0x05, 0x62, 0x03, 0x81, 0x24];
    let mut m = boot(&rom);
    for _ in 0..3 {
        chip8::emulator::tick(
            &mut m.memory,
            &mut m.stack,
            &mut m.registers,
            &mut m.program_counter,
            &mut m.draw,
            rom.len(),
            no_key(),
            0,
        )
        .unwrap();
    }
    assert_eq!(m.registers.get_register(0x1), Some(8));
    assert_eq!(m.program_counter.get_pc(), 0x206);
}

#[test]
fn tick_past_program_end_is_a_fault() {
    let rom = [0x61, 0x05];
    let mut m = boot(&rom);
    assert_eq!(
        chip8::emulator::tick(
            &mut m.memory,
            &mut m.stack,
            &mut m.registers,
            &mut m.program_counter,
            &mut m.draw,
            rom.len(),
            no_key(),
            0,
        ),
        Ok(false)
    );
    assert_eq!(
        chip8::emulator::tick(
            &mut m.memory,
            &mut m.stack,
            &mut m.registers,
            &mut m.program_counter,
            &mut m.draw,
            rom.len(),
            no_key(),
            0,
        ),
        Err(Fault::FetchOutOfBounds)
    );
    // The counter stays where the fetch failed.
    assert_eq!(m.program_counter.get_pc(), 0x202);
}
