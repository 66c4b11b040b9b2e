use chip8_emu::chip::{memset_sprite_data, Chip};
use chip8_emu::decode::{clear_screen, decode, decode_with, jump};

fn blank_chip() -> Chip {
    Chip {
        data_regs: [0; 16],
        address_reg: 0,
        screen_bitmap: [0; 2048],
        memory: [0; 4096],
        stack: [0; 16],
        cls_flag: false,
        draw_flag: false,
        keyboard_flag: false,
        delay_timer: 0,
        sound_timer: 0,
        stack_pointer: 0,
    }
}

fn font_chip() -> Chip {
    let mut c = blank_chip();
    memset_sprite_data(&mut c.memory);
    c
}

fn run(c: &mut Chip, pc: usize, ins: u16) -> usize {
    let mut p = pc;
    decode_with(c, &mut p, ins, 0);
    p
}

#[test]
fn font_is_written_and_rest_kept() {
    let mut mem = [7u8; 4096];
    memset_sprite_data(&mut mem);
    assert_eq!(&mem[0..5], &[0xF0, 0x90, 0x90, 0x90, 0xF0]);
    assert_eq!(&mem[5..10], &[0x20, 0x60, 0x20, 0x20, 0x70]);
    assert_eq!(&mem[55..60], &[0xE0, 0x90, 0xE0, 0x90, 0xE0]);
    assert_eq!(&mem[75..80], &[0xF0, 0x80, 0xF0, 0x80, 0x80]);
    assert_eq!(mem[80], 7);
    assert_eq!(mem[4095], 7);
}

#[test]
fn jump_sets_program_counter() {
    let mut pc: usize = 512;
    jump(&mut pc, 0x1ABC);
    assert_eq!(pc, 0xABC);
    let mut c = blank_chip();
    assert_eq!(run(&mut c, 512, 0x1234), 0x234);
}

#[test]
fn clear_screen_darkens_every_pixel() {
    let mut c = blank_chip();
    c.screen_bitmap = [255; 2048];
    clear_screen(&mut c);
    assert!(c.screen_bitmap.iter().all(|&p| p == 0));
    assert!(c.cls_flag);
    let mut c = blank_chip();
    c.screen_bitmap[100] = 255;
    assert_eq!(run(&mut c, 512, 0x00E0), 514);
    assert_eq!(c.screen_bitmap[100], 0);
    assert!(c.cls_flag);
}

#[test]
fn every_instruction_clears_the_flags_first() {
    let mut c = blank_chip();
    c.cls_flag = true;
    c.draw_flag = true;
    c.keyboard_flag = true;
    assert_eq!(run(&mut c, 600, 0x6000), 602);
    assert!(!c.cls_flag && !c.draw_flag && !c.keyboard_flag);
}

#[test]
fn call_then_return_comes_back_after_the_call() {
    let mut c = blank_chip();
    let pc = run(&mut c, 0x200, 0x2345);
    assert_eq!(pc, 0x345);
    assert_eq!(c.stack_pointer, 1);
    assert_eq!(c.stack[0], 0x200);
    let pc = run(&mut c, pc, 0x00EE);
    assert_eq!(pc, 0x202);
    assert_eq!(c.stack_pointer, 0);
    assert_eq!(c.stack[0], 0);
}

#[test]
fn call_with_full_stack_moves_on() {
    let mut c = blank_chip();
    c.stack_pointer = 16;
    assert_eq!(run(&mut c, 0x200, 0x2345), 0x202);
    assert_eq!(c.stack_pointer, 16);
}

#[test]
fn return_with_empty_stack_moves_on() {
    let mut c = blank_chip();
    assert_eq!(run(&mut c, 0x200, 0x00EE), 0x202);
    assert_eq!(c.stack_pointer, 0);
}

#[test]
fn skips_compare_registers_and_immediates() {
    let mut c = blank_chip();
    c.data_regs[1] = 0x42;
    c.data_regs[2] = 0x42;
    c.data_regs[3] = 0x07;
    assert_eq!(run(&mut c, 512, 0x3142), 516);
    assert_eq!(run(&mut c, 512, 0x3143), 514);
    assert_eq!(run(&mut c, 512, 0x4142), 514);
    assert_eq!(run(&mut c, 512, 0x4143), 516);
    assert_eq!(run(&mut c, 512, 0x5120), 516);
    assert_eq!(run(&mut c, 512, 0x5130), 514);
    assert_eq!(run(&mut c, 512, 0x5121), 514);
    assert_eq!(run(&mut c, 512, 0x9130), 516);
    assert_eq!(run(&mut c, 512, 0x9120), 514);
    assert_eq!(run(&mut c, 512, 0x9131), 514);
}

#[test]
fn load_and_add_immediates() {
    let mut c = blank_chip();
    run(&mut c, 512, 0x61FF);
    assert_eq!(c.data_regs[1], 0xFF);
    run(&mut c, 512, 0x7102);
    assert_eq!(c.data_regs[1], 0x01);
    assert_eq!(c.data_regs[15], 0);
}

#[test]
fn logic_instructions() {
    let mut c = blank_chip();
    c.data_regs[1] = 0b1100;
    c.data_regs[2] = 0b1010;
    run(&mut c, 512, 0x8121);
    assert_eq!(c.data_regs[1], 0b1110);
    c.data_regs[1] = 0b1100;
    run(&mut c, 512, 0x8122);
    assert_eq!(c.data_regs[1], 0b1000);
    c.data_regs[1] = 0b1100;
    run(&mut c, 512, 0x8123);
    assert_eq!(c.data_regs[1], 0b0110);
    run(&mut c, 512, 0x8120);
    assert_eq!(c.data_regs[1], 0b1010);
}

#[test]
fn add_with_carry() {
    let mut c = blank_chip();
    c.data_regs[1] = 200;
    c.data_regs[2] = 100;
    run(&mut c, 512, 0x8124);
    assert_eq!(c.data_regs[1], 44);
    assert_eq!(c.data_regs[15], 1);
    assert_eq!(c.data_regs[15] as u32 * 256 + c.data_regs[1] as u32, 300);
    c.data_regs[1] = 20;
    run(&mut c, 512, 0x8124);
    assert_eq!(c.data_regs[1], 120);
    assert_eq!(c.data_regs[15], 0);
}

#[test]
fn add_into_vf_reads_the_new_flag() {
    let mut c = blank_chip();
    c.data_regs[15] = 200;
    c.data_regs[2] = 100;
    run(&mut c, 512, 0x8F24);
    assert_eq!(c.data_regs[15], 101);
}

#[test]
fn subtract_with_borrow() {
    let mut c = blank_chip();
    c.data_regs[1] = 5;
    c.data_regs[2] = 10;
    run(&mut c, 512, 0x8125);
    assert_eq!(c.data_regs[1], 251);
    assert_eq!(c.data_regs[15], 0);
    c.data_regs[1] = 10;
    c.data_regs[2] = 10;
    run(&mut c, 512, 0x8125);
    assert_eq!(c.data_regs[1], 0);
    assert_eq!(c.data_regs[15], 1);
    c.data_regs[1] = 3;
    c.data_regs[2] = 10;
    run(&mut c, 512, 0x8127);
    assert_eq!(c.data_regs[1], 7);
    assert_eq!(c.data_regs[15], 1);
    c.data_regs[1] = 10;
    c.data_regs[2] = 3;
    run(&mut c, 512, 0x8127);
    assert_eq!(c.data_regs[1], 249);
    assert_eq!(c.data_regs[15], 0);
}

#[test]
fn shifts() {
    let mut c = blank_chip();
    c.data_regs[1] = 5;
    run(&mut c, 512, 0x8126);
    assert_eq!(c.data_regs[1], 2);
    assert_eq!(c.data_regs[15], 1);
    c.data_regs[1] = 0x81;
    run(&mut c, 512, 0x812E);
    assert_eq!(c.data_regs[1], 0x02);
    assert_eq!(c.data_regs[15], 1);
    c.data_regs[1] = 0x40;
    run(&mut c, 512, 0x812E);
    assert_eq!(c.data_regs[1], 0x80);
    assert_eq!(c.data_regs[15], 0);
    let before = c.data_regs;
    run(&mut c, 512, 0x8128);
    assert_eq!(c.data_regs, before);
}

#[test]
fn address_instructions() {
    let mut c = blank_chip();
    run(&mut c, 512, 0xA123);
    assert_eq!(c.address_reg, 0x123);
    c.data_regs[0] = 0x10;
    assert_eq!(run(&mut c, 512, 0xB300), 0x310);
    c.data_regs[0] = 0xFF;
    assert_eq!(run(&mut c, 512, 0xBFFF), 0x10FE);
    c.data_regs[4] = 0x20;
    run(&mut c, 512, 0xF41E);
    assert_eq!(c.address_reg, 0x143);
    c.data_regs[4] = 0xA;
    run(&mut c, 512, 0xF429);
    assert_eq!(c.address_reg, 50);
}

#[test]
fn random_byte_is_masked() {
    let mut c = blank_chip();
    let mut pc: usize = 512;
    decode_with(&mut c, &mut pc, 0xC3F0, 0xAB);
    assert_eq!(c.data_regs[3], 0xA0);
    assert_eq!(pc, 514);
    for _ in 0..200 {
        let mut pc: usize = 512;
        decode(&mut c, &mut pc, 0xC30F);
        assert!(c.data_regs[3] <= 0x0F);
        assert_eq!(pc, 514);
    }
    let mut pc: usize = 512;
    decode(&mut c, &mut pc, 0xC300);
    assert_eq!(c.data_regs[3], 0);
}

#[test]
fn random_byte_varies() {
    let mut c = blank_chip();
    let mut seen = std::collections::HashSet::new();
    for _ in 0..200 {
        let mut pc: usize = 512;
        decode(&mut c, &mut pc, 0xC3FF);
        seen.insert(c.data_regs[3]);
    }
    assert!(seen.len() > 1);
}

#[test]
fn random_byte_covers_the_top_of_the_range() {
    let mut c = blank_chip();
    let mut top = false;
    for _ in 0..4000 {
        let mut pc: usize = 512;
        decode(&mut c, &mut pc, 0xC3FF);
        if c.data_regs[3] >= 252 {
            top = true;
        }
    }
    assert!(top);
}

fn lit(c: &Chip, x: usize, y: usize) -> bool {
    c.screen_bitmap[y * 64 + x] != 0
}

#[test]
fn draw_font_glyph() {
    let mut c = font_chip();
    c.data_regs[0] = 0;
    c.data_regs[1] = 0;
    c.address_reg = 0;
    assert_eq!(run(&mut c, 512, 0xD015), 514);
    assert!(c.draw_flag);
    assert_eq!(c.data_regs[15], 0);
    // "0" is F0 90 90 90 F0
    for x in 0..4 {
        assert!(lit(&c, x, 0));
        assert!(lit(&c, x, 4));
    }
    assert!(lit(&c, 0, 1) && !lit(&c, 1, 1) && !lit(&c, 2, 1) && lit(&c, 3, 1));
    assert!(!lit(&c, 4, 0));
    assert!(!lit(&c, 0, 5));
    assert_eq!(c.screen_bitmap[0], 255);
    let count = c.screen_bitmap.iter().filter(|&&p| p != 0).count();
    assert_eq!(count, 14);
}

#[test]
fn drawing_twice_restores_the_screen_and_reports_collision() {
    let mut c = font_chip();
    c.data_regs[2] = 10;
    c.data_regs[3] = 7;
    c.address_reg = 40;
    c.screen_bitmap[7 * 64 + 30] = 255;
    let before = c.screen_bitmap;
    run(&mut c, 512, 0xD235);
    assert_eq!(c.data_regs[15], 0);
    assert_ne!(c.screen_bitmap, before);
    run(&mut c, 512, 0xD235);
    assert_eq!(c.data_regs[15], 1);
    assert_eq!(c.screen_bitmap, before);
}

#[test]
fn drawing_clips_at_the_edges_and_wraps_the_origin() {
    let mut c = blank_chip();
    c.memory[0x300] = 0xFF;
    c.memory[0x301] = 0xFF;
    c.address_reg = 0x300;
    c.data_regs[0] = 62;
    c.data_regs[1] = 31;
    run(&mut c, 512, 0xD012);
    assert!(lit(&c, 62, 31) && lit(&c, 63, 31));
    assert_eq!(c.screen_bitmap.iter().filter(|&&p| p != 0).count(), 2);
    let mut c = blank_chip();
    c.memory[0x300] = 0x80;
    c.address_reg = 0x300;
    c.data_regs[0] = 64 + 3;
    c.data_regs[1] = 32 + 2;
    run(&mut c, 512, 0xD011);
    assert!(lit(&c, 3, 2));
    assert_eq!(c.screen_bitmap.iter().filter(|&&p| p != 0).count(), 1);
}

#[test]
fn delay_and_sound_timers() {
    let mut c = blank_chip();
    c.data_regs[5] = 7;
    run(&mut c, 512, 0xF515);
    assert_eq!(c.delay_timer, 7000);
    run(&mut c, 512, 0xF518);
    assert_eq!(c.sound_timer, 7000);
    c.delay_timer = 2600;
    run(&mut c, 512, 0xF607);
    assert_eq!(c.data_regs[6], 3);
    c.delay_timer = 2400;
    run(&mut c, 512, 0xF607);
    assert_eq!(c.data_regs[6], 2);
    c.delay_timer = 2500;
    run(&mut c, 512, 0xF607);
    assert_eq!(c.data_regs[6], 3);
    c.delay_timer = 400_000;
    run(&mut c, 512, 0xF607);
    assert_eq!(c.data_regs[6], 255);
}

#[test]
fn binary_coded_decimal() {
    let mut c = blank_chip();
    c.data_regs[7] = 234;
    c.address_reg = 0x400;
    run(&mut c, 512, 0xF733);
    assert_eq!(&c.memory[0x400..0x403], &[2, 3, 4]);
    c.data_regs[7] = 9;
    run(&mut c, 512, 0xF733);
    assert_eq!(&c.memory[0x400..0x403], &[0, 0, 9]);
    let d = &c.memory[0x400..0x403];
    assert_eq!(d[0] as u32 * 100 + d[1] as u32 * 10 + d[2] as u32, 9);
}

#[test]
fn store_then_load_registers() {
    let mut c = blank_chip();
    for i in 0..16 {
        c.data_regs[i] = (i as u8) * 3 + 1;
    }
    c.address_reg = 0x500;
    run(&mut c, 512, 0xF455);
    assert_eq!(&c.memory[0x500..0x505], &[1, 4, 7, 10, 13]);
    assert_eq!(c.memory[0x505], 0);
    let saved = c.data_regs;
    for i in 0..16 {
        c.data_regs[i] = 0;
    }
    run(&mut c, 512, 0xF465);
    assert_eq!(&c.data_regs[0..5], &saved[0..5]);
    assert_eq!(c.data_regs[5], 0);
    let before = c.data_regs;
    run(&mut c, 512, 0xF455);
    run(&mut c, 514, 0xF465);
    assert_eq!(c.data_regs, before);
}

#[test]
fn wait_for_key_stops_the_program_counter() {
    let mut c = blank_chip();
    assert_eq!(run(&mut c, 600, 0xF30A), 600);
    assert!(c.keyboard_flag);
}

#[test]
fn key_skips_and_unknown_instructions_only_advance() {
    let mut c = blank_chip();
    let before = c.data_regs;
    assert_eq!(run(&mut c, 600, 0xE19E), 602);
    assert_eq!(run(&mut c, 600, 0xE1A1), 602);
    assert_eq!(run(&mut c, 600, 0xE155), 602);
    assert_eq!(run(&mut c, 600, 0xF1FF), 602);
    assert_eq!(run(&mut c, 600, 0x0123), 602);
    assert_eq!(c.data_regs, before);
}
