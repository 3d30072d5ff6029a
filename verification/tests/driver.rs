use chip8::{Action, Emulator, Error};

fn machine(words: &[u16]) -> Emulator {
    let mut emu = Emulator::new().unwrap();
    let mut bytes = Vec::new();
    for &word in words {
        bytes.push((word >> 8) as u8);
        bytes.push(word as u8);
    }
    emu.load(&bytes).unwrap();
    emu
}

#[test]
fn burst_of_no_steps_changes_nothing() {
    let mut emu = machine(&[0x6105]);
    let before = emu.clone();
    assert_eq!(emu.run_burst(&[]), Ok(Action::Continue));
    assert_eq!(emu, before);
}

#[test]
fn burst_steps_once_for_each_byte() {
    let mut emu = machine(&[0x6101, 0x7101, 0x7101, 0x7101, 0x7101]);
    assert_eq!(emu.run_burst(&[0, 0, 0]), Ok(Action::Continue));
    assert_eq!(emu.registers()[1], 3);
    assert_eq!(emu.program_counter(), 0x206);
    assert_eq!(emu.run_burst(&[0, 0]), Ok(Action::Continue));
    assert_eq!(emu.registers()[1], 5);
    assert_eq!(emu.program_counter(), 0x20A);
}

#[test]
fn burst_is_the_same_as_stepping() {
    let program = [0x6105, 0xC1F0, 0x2208, 0x1200, 0x7001, 0xC2FF, 0x00EE];
    let entropy = [0x11, 0x22, 0x33, 0x44, 0x55, 0x66, 0x77, 0x88, 0x99];
    let mut burst = machine(&program);
    let mut single = machine(&program);
    assert_eq!(burst.run_burst(&entropy), Ok(Action::Continue));
    for &byte in &entropy {
        assert_eq!(single.step(byte), Ok(Action::Continue));
    }
    assert_eq!(burst, single);
}

#[test]
fn burst_gives_each_step_its_own_random_byte() {
    let mut emu = machine(&[0xC1FF, 0xC2FF, 0xC3FF]);
    assert_eq!(emu.run_burst(&[0x11, 0x22, 0x33]), Ok(Action::Continue));
    assert_eq!(emu.registers()[1], 0x11);
    assert_eq!(emu.registers()[2], 0x22);
    assert_eq!(emu.registers()[3], 0x33);
}

#[test]
fn burst_stops_at_the_first_failure() {
    let mut emu = machine(&[0x6105, 0x6206, 0xFFFF, 0x6307]);
    assert_eq!(emu.run_burst(&[0; 10]), Err(Error::InvalidOpcode));
    assert_eq!(emu.program_counter(), 0x204);
    assert_eq!(emu.registers()[1], 5);
    assert_eq!(emu.registers()[2], 6);
    assert_eq!(emu.registers()[3], 0);
    assert_eq!(emu.run_burst(&[0; 10]), Err(Error::InvalidOpcode));
    assert_eq!(emu.program_counter(), 0x204);
}

#[test]
fn burst_stops_when_the_display_is_needed() {
    let mut emu = machine(&[0x6105, 0x00E0, 0x6206, 0xA200, 0xD121, 0x6307]);
    assert_eq!(emu.run_burst(&[0; 10]), Ok(Action::ClearDisplay));
    assert_eq!(emu.program_counter(), 0x204);
    assert_eq!(emu.run_burst(&[0; 10]), Ok(Action::Draw { x: 5, y: 6, rows: vec![0x61] }));
    assert_eq!(emu.program_counter(), 0x20A);
    emu.report_collision(true);
    assert_eq!(emu.run_burst(&[0; 1]), Ok(Action::Continue));
    assert_eq!(emu.registers()[3], 7);
    assert_eq!(emu.registers()[0xF], 1);
}

#[test]
fn burst_stops_while_blocked_on_a_key() {
    let mut emu = machine(&[0x6105, 0xF20A, 0x7201]);
    assert_eq!(emu.run_burst(&[0; 10]), Ok(Action::WaitKey));
    assert_eq!(emu.program_counter(), 0x202);
    let blocked = emu.clone();
    assert_eq!(emu.run_burst(&[0; 10]), Ok(Action::WaitKey));
    assert_eq!(emu, blocked);
    let mut keys = [false; 16];
    keys[9] = true;
    emu.set_keys(keys);
    assert_eq!(emu.run_burst(&[0; 2]), Ok(Action::Continue));
    assert_eq!(emu.registers()[2], 10);
    assert_eq!(emu.program_counter(), 0x206);
}

#[test]
fn burst_ends_a_loop_when_the_entropy_is_used_up() {
    let mut emu = machine(&[0x7001, 0x1200]);
    assert_eq!(emu.run_burst(&[0; 1001]), Ok(Action::Continue));
    // 501 additions and 500 jumps.
    assert_eq!(emu.registers()[0], (501 % 256) as u8);
    assert_eq!(emu.program_counter(), 0x202);
}

#[test]
fn a_program_that_counts_down() {
    // V0 := 5; V1 := 0; loop: V1 += V0; V0 -= 1 (by adding 255); if V0 != 0 goto loop; halt.
    let mut emu = machine(&[0x6005, 0x6100, 0x8104, 0x70FF, 0x3000, 0x1204, 0x120C]);
    assert_eq!(emu.run_burst(&[0; 64]), Ok(Action::Continue));
    assert_eq!(emu.registers()[0], 0);
    assert_eq!(emu.registers()[1], 15);
    assert_eq!(emu.program_counter(), 0x20C);
}

#[test]
fn action_clone_and_equality() {
    let draw = Action::Draw { x: 1, y: 2, rows: vec![3, 4] };
    assert_eq!(draw.clone(), draw);
    assert_ne!(draw, Action::Draw { x: 1, y: 2, rows: vec![3] });
    assert_ne!(draw, Action::ClearDisplay);
    assert_eq!(Action::WaitKey.clone(), Action::WaitKey);
    assert_eq!(Action::Continue.clone(), Action::Continue);
    assert_eq!(Action::ClearDisplay.clone(), Action::ClearDisplay);
}

#[test]
fn a_burst_can_be_run_in_two_parts() {
    let program = [0x6105, 0xC1F0, 0x2208, 0x1200, 0x7001, 0xC2FF, 0x00EE];
    let entropy = [0x11, 0x22, 0x33, 0x44, 0x55, 0x66, 0x77, 0x88, 0x99];
    for cut in 0..=entropy.len() {
        let mut whole = machine(&program);
        let mut parts = machine(&program);
        assert_eq!(whole.run_burst(&entropy), Ok(Action::Continue));
        assert_eq!(parts.run_burst(&entropy[..cut]), Ok(Action::Continue));
        assert_eq!(parts.run_burst(&entropy[cut..]), Ok(Action::Continue));
        assert_eq!(whole, parts);
    }
}

#[test]
fn a_burst_that_ends_early_leaves_the_rest_unrun() {
    let program = [0x6105, 0x00E0, 0x6206];
    let mut whole = machine(&program);
    let mut first = machine(&program);
    assert_eq!(whole.run_burst(&[0; 6]), Ok(Action::ClearDisplay));
    assert_eq!(first.run_burst(&[0; 3]), Ok(Action::ClearDisplay));
    assert_eq!(whole, first);
    assert_eq!(whole.registers()[2], 0);
}

#[test]
fn driver_draws_and_reports_the_collision() {
    // Draw the same one-row sprite twice: the second drawing erases it.
    let mut emu = machine(&[0xA20A, 0x6003, 0x6104, 0xD011, 0xD011, 0xF000]);
    let mut display = chip8::Display::new();
    let mut flags = Vec::new();
    for _ in 0..2 {
        match emu.run_burst(&[0; 8]) {
            Ok(Action::Draw { x, y, rows }) => {
                assert_eq!((x, y), (3, 4));
                assert_eq!(rows, vec![0xF0]);
                let erased = display.draw(x, y, &rows);
                emu.report_collision(erased);
                flags.push(emu.registers()[0xF]);
            }
            other => panic!("{:?}", other),
        }
    }
    assert_eq!(flags, vec![0, 1]);
    assert_eq!(display, chip8::Display::new());
    assert_eq!(emu.program_counter(), 0x20A);
}

#[test]
fn run_succeeds_and_changes_nothing_on_a_new_machine() {
    let mut emu = Emulator::new().unwrap();
    let before = emu.clone();
    assert_eq!(emu.run(), Ok(()));
    assert_eq!(emu, before);
    assert_eq!(emu.program_counter(), 0x200);
}

#[test]
fn run_does_not_step() {
    // A jump stands at the program counter: a step would move it.
    let mut emu = machine(&[0x1240]);
    let before = emu.clone();
    assert_eq!(emu.run(), Ok(()));
    assert_eq!(emu, before);
    assert_eq!(emu.program_counter(), 0x200);
    assert_eq!(emu.run(), Ok(()));
    assert_eq!(emu, before);
}

#[test]
fn run_succeeds_where_a_step_would_fail() {
    // Zeroed memory holds no instruction, and a machine past the end of
    // memory cannot fetch: run looks at neither.
    let mut emu = Emulator::new().unwrap();
    assert_eq!(emu.run(), Ok(()));
    assert_eq!(emu.step(0), Err(Error::InvalidOpcode));
    let mut emu = machine(&[0x1FFF]);
    emu.step(0).unwrap();
    let before = emu.clone();
    assert_eq!(emu.run(), Ok(()));
    assert_eq!(emu, before);
    assert_eq!(emu.step(0), Err(Error::AddressOutOfBounds));
}

#[test]
fn run_leaves_a_machine_in_the_middle_of_a_program_as_it_is() {
    let mut emu = machine(&[0x6105, 0xA123, 0x2208, 0x0000, 0x6207]);
    let mut keys = [false; 16];
    keys[4] = true;
    emu.set_keys(keys);
    emu.set_delay_timer(9);
    emu.set_sound_timer(3);
    assert_eq!(emu.run_burst(&[0; 4]), Ok(Action::Continue));
    let before = emu.clone();
    assert_eq!(emu.run(), Ok(()));
    assert_eq!(emu, before);
    assert_eq!(emu.registers(), before.registers());
    assert_eq!(emu.stack_pointer(), 2);
    assert_eq!(emu.read16(2), Ok(0x206));
    assert_eq!(emu.program_counter(), 0x20A);
}
