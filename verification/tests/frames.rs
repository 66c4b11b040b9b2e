use chip8_emu::machine::{
    count_down, keypress_code, load_program, screen_rgba, sound_duration, ControlKey, Emulator,
    NO_KEY,
};

fn emulator_with(program: &[u8]) -> Emulator {
    Emulator::new(program)
}

#[test]
fn program_is_loaded_at_512_with_the_font_below() {
    let e = emulator_with(&[0x60, 0x05, 0x12, 0x00]);
    assert_eq!(e.pc, 512);
    assert_eq!(e.delay, 1);
    assert_eq!(e.current_instruction, 0);
    assert_eq!(&e.rf.memory[512..516], &[0x60, 0x05, 0x12, 0x00]);
    assert_eq!(&e.rf.memory[0..5], &[0xF0, 0x90, 0x90, 0x90, 0xF0]);
    assert_eq!(e.rf.memory[516], 0);
    assert_eq!(e.rf.stack_pointer, 0);
}

#[test]
fn odd_last_byte_of_a_program_is_not_loaded() {
    let m = load_program(&[1, 2, 3]);
    assert_eq!(&m[512..515], &[1, 2, 0]);
    let m = load_program(&[9]);
    assert_eq!(m[512], 0);
    let rom = vec![0xAAu8; 3585];
    let m = load_program(&rom);
    assert_eq!(m[4095], 0xAA);
    assert_eq!(m[511], 0);
}

#[test]
fn timers_count_down_sixty_ticks_a_second() {
    assert_eq!(count_down(5000, 10), 4400);
    assert_eq!(count_down(100, 10), 0);
    assert_eq!(count_down(600, 10), 0);
    assert_eq!(count_down(601, 10), 1);
    assert_eq!(count_down(7000, 0), 7000);
    assert_eq!(count_down(u32::MAX, u64::MAX), 0);
    assert_eq!(count_down(count_down(9000, 30), 40), count_down(9000, 70));
}

#[test]
fn beep_length_is_rounded_to_the_millisecond() {
    assert_eq!(sound_duration(1000), 17);
    assert_eq!(sound_duration(30), 1);
    assert_eq!(sound_duration(29), 0);
    assert_eq!(sound_duration(6000), 100);
}

#[test]
fn keypad_gives_the_first_pressed_key() {
    let mut pressed = [false; 16];
    assert_eq!(keypress_code(&pressed), NO_KEY);
    pressed[4] = true;
    assert_eq!(keypress_code(&pressed), 0x4);
    pressed[3] = true;
    assert_eq!(keypress_code(&pressed), 0xC);
    let mut pressed = [false; 16];
    pressed[13] = true;
    assert_eq!(keypress_code(&pressed), 0x0);
    pressed[15] = true;
    assert_eq!(keypress_code(&pressed), 0x0);
    let mut pressed = [false; 16];
    pressed[15] = true;
    assert_eq!(keypress_code(&pressed), 0xF);
}

#[test]
fn every_hex_value_has_exactly_one_key() {
    let mut seen = [0u8; 16];
    for i in 0..16 {
        let mut pressed = [false; 16];
        pressed[i] = true;
        let code = keypress_code(&pressed);
        assert!(code < 16);
        seen[code as usize] += 1;
    }
    assert!(seen.iter().all(|&n| n == 1));
}

#[test]
fn frame_fetches_and_executes() {
    let mut e = emulator_with(&[0x60, 0x05, 0x70, 0x01]);
    assert!(e.update_is_safe(16));
    assert_eq!(e.update_with(16, NO_KEY, 0), None);
    assert_eq!(e.current_instruction, 0x6005);
    assert_eq!(e.rf.data_regs[0], 5);
    assert_eq!(e.pc, 514);
    e.update_with(16, NO_KEY, 0);
    assert_eq!(e.rf.data_regs[0], 6);
    assert_eq!(e.pc, 516);
}

#[test]
fn frame_counts_the_delay_timer_down() {
    let mut e = emulator_with(&[0x60, 0x05, 0xF0, 0x15, 0x12, 0x04]);
    e.update_with(0, NO_KEY, 0);
    e.update_with(0, NO_KEY, 0);
    assert_eq!(e.rf.delay_timer, 5000);
    e.update_with(50, NO_KEY, 0);
    assert_eq!(e.rf.delay_timer, 2000);
    e.update_with(50, NO_KEY, 0);
    assert_eq!(e.rf.delay_timer, 0);
}

#[test]
fn wait_for_key_completes_in_the_same_frame() {
    let mut e = emulator_with(&[0xF3, 0x0A]);
    assert_eq!(e.update_with(16, 7, 0), None);
    assert_eq!(e.rf.data_regs[3], 7);
    assert!(!e.rf.keyboard_flag);
    assert_eq!(e.pc, 514);
}

#[test]
fn wait_for_key_keeps_waiting_without_a_key() {
    let mut e = emulator_with(&[0x63, 0x2A, 0xF3, 0x0A]);
    e.update_with(16, NO_KEY, 0);
    e.update_with(16, NO_KEY, 0);
    assert!(e.rf.keyboard_flag);
    assert_eq!(e.rf.data_regs[3], 0x2A);
    assert_eq!(e.pc, 514);
    e.update_with(16, NO_KEY, 0);
    assert!(e.rf.keyboard_flag);
    assert_eq!(e.rf.data_regs[3], 0x2A);
    assert_eq!(e.pc, 514);
    assert_eq!(e.current_instruction, 0xF30A);
}

#[test]
fn waiting_machine_takes_the_next_key() {
    let mut e = emulator_with(&[0xF3, 0x0A]);
    e.update_with(16, NO_KEY, 0);
    assert!(e.rf.keyboard_flag);
    assert_eq!(e.pc, 512);
    assert!(e.update_is_safe(16));
    e.update_with(16, 9, 0);
    assert_eq!(e.rf.data_regs[3], 9);
    assert!(!e.rf.keyboard_flag);
    assert_eq!(e.pc, 514);
}

#[test]
fn key_skip_instructions_use_the_pressed_key() {
    let mut e = emulator_with(&[0x61, 0x05, 0xE1, 0x9E]);
    e.update_with(16, NO_KEY, 0);
    e.update_with(16, 5, 0);
    assert_eq!(e.pc, 518);
    let mut e = emulator_with(&[0x61, 0x05, 0xE1, 0x9E]);
    e.update_with(16, NO_KEY, 0);
    e.update_with(16, 4, 0);
    assert_eq!(e.pc, 516);
    let mut e = emulator_with(&[0x61, 0x05, 0xE1, 0xA1]);
    e.update_with(16, NO_KEY, 0);
    e.update_with(16, 4, 0);
    assert_eq!(e.pc, 518);
    let mut e = emulator_with(&[0x61, 0x05, 0xE1, 0xA1]);
    e.update_with(16, NO_KEY, 0);
    e.update_with(16, NO_KEY, 0);
    assert_eq!(e.pc, 518);
    let mut e = emulator_with(&[0x61, 0x05, 0xE1, 0x9E]);
    e.update_with(16, NO_KEY, 0);
    e.update_with(16, NO_KEY, 0);
    assert_eq!(e.pc, 516);
}

#[test]
fn sound_timer_asks_for_a_beep_and_stops() {
    let mut e = emulator_with(&[0x60, 0x02, 0xF0, 0x18]);
    assert_eq!(e.update_with(16, NO_KEY, 0), None);
    assert_eq!(e.update_with(16, NO_KEY, 0), Some(33));
    assert_eq!(e.rf.sound_timer, 0);
}

#[test]
fn update_with_random_generator_runs_the_frame() {
    let mut e = emulator_with(&[0xC2, 0x0F, 0x12, 0x02]);
    assert_eq!(e.update(16, NO_KEY), None);
    assert!(e.rf.data_regs[2] <= 0x0F);
    assert_eq!(e.pc, 514);
}

#[test]
fn unsafe_frames_are_detected() {
    let mut e = emulator_with(&[0x12, 0x00]);
    e.pc = 4095;
    assert!(!e.update_is_safe(16));
    let mut e = emulator_with(&[0xD0, 0x12]);
    e.rf.address_reg = 4095;
    assert!(!e.update_is_safe(16));
    e.rf.data_regs[1] = 31;
    assert!(e.update_is_safe(16));
    let mut e = emulator_with(&[0xF0, 0x29]);
    e.rf.data_regs[0] = 52;
    assert!(!e.update_is_safe(16));
    e.rf.data_regs[0] = 51;
    assert!(e.update_is_safe(16));
    let mut e = emulator_with(&[0xF5, 0x55]);
    e.rf.address_reg = 4091;
    assert!(!e.update_is_safe(16));
    e.rf.address_reg = 4090;
    assert!(e.update_is_safe(16));
    let mut e = emulator_with(&[0x00, 0xEE]);
    e.rf.stack_pointer = 17;
    assert!(!e.update_is_safe(16));
    let mut e = emulator_with(&[0x60, 0x01]);
    e.rf.stack_pointer = 17;
    assert!(e.update_is_safe(16));
}

#[test]
fn speed_keys_adjust_the_pause() {
    let mut e = emulator_with(&[0x12, 0x00]);
    assert!(!e.key_down_event(ControlKey::Tab));
    assert_eq!(e.delay, 6);
    e.delay = 250;
    e.key_down_event(ControlKey::Tab);
    assert_eq!(e.delay, 255);
    e.key_down_event(ControlKey::Tab);
    assert_eq!(e.delay, 255);
    e.delay = 5;
    e.key_down_event(ControlKey::LShift);
    assert_eq!(e.delay, 0);
    e.delay = 4;
    e.key_down_event(ControlKey::LShift);
    assert_eq!(e.delay, 4);
    assert!(!e.key_down_event(ControlKey::Other));
    assert_eq!(e.delay, 4);
    assert!(e.key_down_event(ControlKey::Escape));
}

#[test]
fn screen_image_is_green_on_black() {
    let mut bitmap = [0u8; 2048];
    bitmap[1] = 255;
    bitmap[2047] = 1;
    let image = screen_rgba(&bitmap);
    assert_eq!(image.len(), 8192);
    assert_eq!(&image[0..4], &[0, 0, 0, 255]);
    assert_eq!(&image[4..8], &[0, 255, 0, 255]);
    assert_eq!(&image[8188..8192], &[0, 255, 0, 255]);
}

#[test]
fn frame_image_follows_the_flags() {
    let mut e = emulator_with(&[0x00, 0xE0, 0xD0, 0x05]);
    e.update_with(16, NO_KEY, 0);
    let f = e.draw();
    assert!(f.clear);
    assert!(f.pixels.is_none());
    e.update_with(16, NO_KEY, 0);
    let f = e.draw();
    assert!(!f.clear);
    let pixels = f.pixels.unwrap();
    assert_eq!(&pixels[0..4], &[0, 255, 0, 255]);
    assert_eq!(&pixels[16..20], &[0, 0, 0, 255]);
}
