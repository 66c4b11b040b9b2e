//! Properties of the machine that span instructions and frames.
use vstd::prelude::*;
use crate::chip::ChipModel;
use crate::chip::{font_sprites, TIMER_SCALE};
use crate::machine::{
    beep_millis, adjusted_delay, is_key, ControlKey, counted_down, fetch_spec, initial_state, keypad_values, timed, update_safe, update_spec,
    EmulatorModel,
};
use crate::isa::{address, alu_regs, collision, drawn_screen, sprite_hits, decode_safe, decode_spec, flags_cleared, low_byte, nibble, opcode, reg_x, reg_y};

verus! {

/// Every instruction keeps the machine well formed: the arrays keep their
/// sizes and the stack pointer stays within the stack.
pub proof fn lemma_decode_keeps_wf(m: ChipModel, pc: int, ins: u16, rnd: u8)
    requires
        decode_safe(m, pc, ins),
        m.wf(),
    ensures
        decode_spec(m, pc, ins, rnd).0.wf(),
{
    let m2 = decode_spec(m, pc, ins, rnd).0;
    let op = opcode(ins);
    if op == 0 {
    } else if op == 8 {
        assert(m2.data_regs.len() == 16);
    } else if op == 13 {
        assert(m2.screen_bitmap.len() == 2048);
    } else if op == 15 {
        assert(m2.memory.len() == 4096);
    }
}

/// Drawing keeps the screen binary: if every pixel is dark (0) or lit
/// (255), it stays so after any instruction.
pub proof fn lemma_screen_stays_binary(m: ChipModel, pc: int, ins: u16, rnd: u8)
    requires
        decode_safe(m, pc, ins),
        m.screen_is_binary(),
    ensures
        decode_spec(m, pc, ins, rnd).0.screen_is_binary(),
{
    let m2 = decode_spec(m, pc, ins, rnd).0;
    if opcode(ins) == 13 {
        assert forall|i: int| 0 <= i < m2.screen_bitmap.len() implies (#[trigger] m2.screen_bitmap[i]
            == 0 || m2.screen_bitmap[i] == 255) by {
            let v = m.screen_bitmap[i];
            assert(v == 0 || v == 255);
            assert((v == 0u8 || v == 255u8) ==> (v ^ 255u8 == 0u8 || v ^ 255u8 == 255u8))
                by (bit_vector);
        }
    }
}

/// A call followed by a return comes back to the instruction after the
/// call, with the stack pointer restored and the slot that the call used
/// cleared; registers, memory and screen are as before.
pub proof fn lemma_call_then_return(m: ChipModel, pc: int, ins: u16, rnd: u8)
    requires
        m.wf(),
        opcode(ins) == 2,
        m.stack_pointer < 16,
        0 <= pc < 65536,
    ensures
        decode_spec(decode_spec(m, pc, ins, rnd).0, decode_spec(m, pc, ins, rnd).1, 0x00EEu16, rnd).1
            == pc + 2,
        decode_spec(
            decode_spec(m, pc, ins, rnd).0,
            decode_spec(m, pc, ins, rnd).1,
            0x00EEu16,
            rnd,
        ).0 == (ChipModel {
            stack: m.stack.update(m.stack_pointer as int, 0u16),
            ..flags_cleared(m)
        }),
{
    let called = decode_spec(m, pc, ins, rnd);
    assert(opcode(0x00EEu16) == 0);
    let returned = decode_spec(called.0, called.1, 0x00EEu16, rnd);
    assert(returned.0.stack =~= m.stack.update(m.stack_pointer as int, 0u16));
}

/// Drawing the same sprite twice leaves the screen as it was (XOR drawing
/// undoes itself), provided neither coordinate register is VF, which the
/// first drawing overwrites.
pub proof fn lemma_draw_twice_restores_screen(m: ChipModel, pc: int, ins: u16, r1: u8, r2: u8)
    requires
        m.wf(),
        opcode(ins) == 13,
        reg_x(ins) != 15,
        reg_y(ins) != 15,
    ensures
        decode_spec(decode_spec(m, pc, ins, r1).0, pc + 2, ins, r2).0.screen_bitmap
            == m.screen_bitmap,
{
    let m1 = decode_spec(m, pc, ins, r1).0;
    let m2 = decode_spec(m1, pc + 2, ins, r2).0;
    assert(m1.data_regs[reg_x(ins)] == m.data_regs[reg_x(ins)]);
    assert(m1.data_regs[reg_y(ins)] == m.data_regs[reg_y(ins)]);
    assert forall|i: int| 0 <= i < 2048 implies #[trigger] m2.screen_bitmap[i]
        == m.screen_bitmap[i] by {
        let v = m.screen_bitmap[i];
        assert((v ^ 255u8) ^ 255u8 == v) by (bit_vector);
    }
    assert(m2.screen_bitmap =~= m.screen_bitmap);
}

/// `Fx33` writes the three decimal digits of Vx, most significant first:
/// each is below ten and together they give Vx back.
pub proof fn lemma_bcd_digits(m: ChipModel, pc: int, ins: u16, rnd: u8)
    requires
        decode_safe(m, pc, ins),
        opcode(ins) == 15,
        low_byte(ins) == 0x33,
    ensures
        ({
            let m2 = decode_spec(m, pc, ins, rnd).0;
            let i = m.address_reg as int;
            &&& m2.memory[i] < 10
            &&& m2.memory[i + 1] < 10
            &&& m2.memory[i + 2] < 10
            &&& m2.memory[i] * 100 + m2.memory[i + 1] * 10 + m2.memory[i + 2] == m.data_regs[reg_x(ins)]
        }),
{
}

/// Storing V0..Vx with `Fx55` and loading them back with `Fx65` from the
/// same address gives every register back; after the store, memory at
/// I + i holds Vi.
pub proof fn lemma_store_then_load(m: ChipModel, pc: int, store: u16, load: u16, rnd: u8)
    requires
        decode_safe(m, pc, store),
        opcode(store) == 15,
        low_byte(store) == 0x55,
        opcode(load) == 15,
        low_byte(load) == 0x65,
        reg_x(load) == reg_x(store),
    ensures
        forall|i: int|
            0 <= i <= reg_x(store) ==> #[trigger] decode_spec(m, pc, store, rnd).0.memory[m.address_reg
                + i] == m.data_regs[i],
        decode_spec(decode_spec(m, pc, store, rnd).0, pc + 2, load, rnd).0.data_regs
            == m.data_regs,
{
    let m1 = decode_spec(m, pc, store, rnd).0;
    let m2 = decode_spec(m1, pc + 2, load, rnd).0;
    assert(m2.data_regs =~= m.data_regs);
}

/// `8xy4` adds with carry: VF * 256 + Vx afterwards is the sum of Vx and Vy
/// before, when neither operand is VF.
pub proof fn lemma_add_with_carry(m: ChipModel, pc: int, ins: u16, rnd: u8)
    requires
        m.wf(),
        opcode(ins) == 8,
        nibble(ins) == 4,
        reg_x(ins) != 15,
        reg_y(ins) != 15,
    ensures
        ({
            let r = decode_spec(m, pc, ins, rnd).0.data_regs;
            r[15] * 256 + r[reg_x(ins)] == m.data_regs[reg_x(ins)] + m.data_regs[reg_y(ins)]
        }),
{
    let x = reg_x(ins);
    let y = reg_y(ins);
    assert(decode_spec(m, pc, ins, rnd).0.data_regs == alu_regs(m.data_regs, x, y, 4));
    let f = m.data_regs.update(15, alu_regs(m.data_regs, x, y, 4)[15]);
    assert(f[x] == m.data_regs[x] && f[y] == m.data_regs[y]);
}

/// `8xy5` subtracts with borrow: VF is 1 exactly when Vx >= Vy, and Vx
/// afterwards is Vx - Vy, plus 256 when there was a borrow; when neither
/// operand is VF.
pub proof fn lemma_subtract_with_borrow(m: ChipModel, pc: int, ins: u16, rnd: u8)
    requires
        m.wf(),
        opcode(ins) == 8,
        nibble(ins) == 5,
        reg_x(ins) != 15,
        reg_y(ins) != 15,
    ensures
        ({
            let r = decode_spec(m, pc, ins, rnd).0.data_regs;
            let vx = m.data_regs[reg_x(ins)];
            let vy = m.data_regs[reg_y(ins)];
            &&& (r[15] == 1) == (vx >= vy)
            &&& r[reg_x(ins)] == vx - vy + 256 * (1 - r[15])
        }),
{
    let x = reg_x(ins);
    let y = reg_y(ins);
    assert(decode_spec(m, pc, ins, rnd).0.data_regs == alu_regs(m.data_regs, x, y, 5));
    let f = m.data_regs.update(15, alu_regs(m.data_regs, x, y, 5)[15]);
    assert(f[x] == m.data_regs[x] && f[y] == m.data_regs[y]);
}

/// `Fx29` points I at the font glyph of digit Vx, when the font is in
/// memory and Vx is a hexadecimal digit.
pub proof fn lemma_font_glyph(m: ChipModel, pc: int, ins: u16, rnd: u8)
    requires
        decode_safe(m, pc, ins),
        opcode(ins) == 15,
        low_byte(ins) == 0x29,
        m.data_regs[reg_x(ins)] < 16,
        m.memory.subrange(0, 80) == font_sprites(),
    ensures
        ({
            let m2 = decode_spec(m, pc, ins, rnd).0;
            let d = m.data_regs[reg_x(ins)] as int;
            m2.memory.subrange(m2.address_reg as int, m2.address_reg + 5) == font_sprites().subrange(
                5 * d,
                5 * d + 5,
            )
        }),
{
    let m2 = decode_spec(m, pc, ins, rnd).0;
    let d = m.data_regs[reg_x(ins)] as int;
    assert forall|k: int| 0 <= k < 5 implies #[trigger] m.memory[5 * d + k] == font_sprites()[5 * d + k] by {
        assert(m.memory.subrange(0, 80)[5 * d + k] == m.memory[5 * d + k]);
    }
    assert(m2.memory.subrange(m2.address_reg as int, m2.address_reg + 5) =~= font_sprites().subrange(
        5 * d,
        5 * d + 5,
    ));
}

/// Each of the sixteen hexadecimal values is given by exactly one key.
pub proof fn lemma_keypad_is_one_to_one(v: u8)
    requires
        v < 16,
    ensures
        exists|i: int| 0 <= i < 16 && #[trigger] keypad_values()[i] == v,
        forall|i: int, j: int|
            0 <= i < 16 && 0 <= j < 16 && #[trigger] keypad_values()[i] == #[trigger] keypad_values()[j]
                ==> i == j,
{
    let k = keypad_values();
    assert(k[0] == 1 && k[1] == 2 && k[2] == 3 && k[3] == 0xC && k[4] == 4 && k[5] == 5 && k[6] == 6
        && k[7] == 0xD && k[8] == 7 && k[9] == 8 && k[10] == 9 && k[11] == 0xE && k[12] == 0xA
        && k[13] == 0 && k[14] == 0xB && k[15] == 0xF);
    if v == 1 { assert(k[0] == v); } else if v == 2 { assert(k[1] == v); }
    else if v == 3 { assert(k[2] == v); } else if v == 0xC { assert(k[3] == v); }
    else if v == 4 { assert(k[4] == v); } else if v == 5 { assert(k[5] == v); }
    else if v == 6 { assert(k[6] == v); } else if v == 0xD { assert(k[7] == v); }
    else if v == 7 { assert(k[8] == v); } else if v == 8 { assert(k[9] == v); }
    else if v == 9 { assert(k[10] == v); } else if v == 0xE { assert(k[11] == v); }
    else if v == 0xA { assert(k[12] == v); } else if v == 0 { assert(k[13] == v); }
    else if v == 0xB { assert(k[14] == v); } else { assert(k[15] == v); }
}

/// Counting a timer down by `a` and then by `b` milliseconds is counting it
/// down by `a + b` milliseconds.
pub proof fn lemma_count_down_adds(t: u32, a: u64, b: u64)
    requires
        a + b <= u64::MAX,
    ensures
        counted_down(counted_down(t, a), b) == counted_down(t, (a + b) as u64),
{
}

/// A program starts on a well-formed machine with a dark screen.
pub proof fn lemma_initial_state_wf(rom: Seq<u8>)
    ensures
        initial_state(rom).rf.wf(),
        initial_state(rom).rf.screen_is_binary(),
{
}

/// A frame keeps the machine well formed.
pub proof fn lemma_update_keeps_wf(e: EmulatorModel, elapsed_ms: u64, key: u8, rnd: u8)
    requires
        update_safe(e, elapsed_ms),
        e.rf.wf(),
    ensures
        update_spec(e, elapsed_ms, key, rnd).0.rf.wf(),
{
    let c1 = timed(e.rf, elapsed_ms);
    if !c1.keyboard_flag {
        lemma_decode_keeps_wf(c1, e.pc as int, fetch_spec(c1, e.pc as int), rnd);
    }
}

/// A frame that executes `Fx0A` while a key is down stores the key in Vx,
/// stops waiting and moves to the next instruction.
pub proof fn lemma_wait_for_key(e: EmulatorModel, elapsed_ms: u64, key: u8, rnd: u8)
    requires
        update_safe(e, elapsed_ms),
        !e.rf.keyboard_flag,
        opcode(fetch_spec(e.rf, e.pc as int)) == 15,
        low_byte(fetch_spec(e.rf, e.pc as int)) == 0x0A,
        is_key(key),
    ensures
        ({
            let e2 = update_spec(e, elapsed_ms, key, rnd).0;
            &&& e2.pc == e.pc + 2
            &&& e2.rf.data_regs[reg_x(fetch_spec(e.rf, e.pc as int))] == key
            &&& !e2.rf.keyboard_flag
        }),
{
}

/// The speed keys keep the pause between frames within 0..=255 ms once it
/// is there.
pub proof fn lemma_pause_stays_bounded(delay: u64, key: ControlKey)
    requires
        delay <= 255,
    ensures
        adjusted_delay(delay, key) <= 255,
{
}

/// A frame that executes `Fx0A` while no key is down leaves the machine
/// waiting: the program counter stays on the instruction and Vx is kept.
pub proof fn lemma_wait_starts_without_key(e: EmulatorModel, elapsed_ms: u64, key: u8, rnd: u8)
    requires
        update_safe(e, elapsed_ms),
        !e.rf.keyboard_flag,
        opcode(fetch_spec(e.rf, e.pc as int)) == 15,
        low_byte(fetch_spec(e.rf, e.pc as int)) == 0x0A,
        !is_key(key),
    ensures
        ({
            let e2 = update_spec(e, elapsed_ms, key, rnd).0;
            &&& e2.pc == e.pc
            &&& e2.rf.data_regs == e.rf.data_regs
            &&& e2.rf.keyboard_flag
        }),
{
}

/// While no key is down, a waiting machine keeps waiting: the program
/// counter, the registers, the memory and the instruction stay as they are.
pub proof fn lemma_keeps_waiting(e: EmulatorModel, elapsed_ms: u64, key: u8, rnd: u8)
    requires
        update_safe(e, elapsed_ms),
        e.rf.keyboard_flag,
        opcode(e.current_instruction) == 15,
        low_byte(e.current_instruction) == 0x0A,
        !is_key(key),
    ensures
        ({
            let e2 = update_spec(e, elapsed_ms, key, rnd).0;
            &&& e2.pc == e.pc
            &&& e2.rf.data_regs == e.rf.data_regs
            &&& e2.rf.memory == e.rf.memory
            &&& e2.current_instruction == e.current_instruction
            &&& e2.rf.keyboard_flag
        }),
{
}

/// After `Dxyn`, VF is 1 if some pixel of the screen went down (a lit pixel
/// was turned off by the sprite) and 0 otherwise, whatever VF held before.
pub proof fn lemma_draw_flag_reports_turned_off_pixels(m: ChipModel, pc: int, ins: u16, rnd: u8)
    requires
        m.sized(),
        opcode(ins) == 13,
    ensures
        ({
            let m2 = decode_spec(m, pc, ins, rnd).0;
            &&& m2.data_regs[15] == 0 || m2.data_regs[15] == 1
            &&& (m2.data_regs[15] == 1) == (exists|i: int|
                0 <= i < 2048 && #[trigger] m2.screen_bitmap[i] < m.screen_bitmap[i])
        }),
{
    let m2 = decode_spec(m, pc, ins, rnd).0;
    let m0 = flags_cleared(m);
    let px = m.data_regs[reg_x(ins)] % 64;
    let py = m.data_regs[reg_y(ins)] % 32;
    let n = nibble(ins);
    assert(m2.screen_bitmap == drawn_screen(m0, px as int, py as int, n));
    if collision(m0, px as int, py as int, n) {
        let w = choose|idx: int|
            0 <= idx < 2048 && #[trigger] sprite_hits(m0, px as int, py as int, n, idx) && (
            m0.screen_bitmap[idx] ^ 255u8) < m0.screen_bitmap[idx];
        assert(m2.screen_bitmap[w] < m.screen_bitmap[w]);
    }
    if exists|i: int| 0 <= i < 2048 && #[trigger] m2.screen_bitmap[i] < m.screen_bitmap[i] {
        let w = choose|i: int| 0 <= i < 2048 && #[trigger] m2.screen_bitmap[i] < m.screen_bitmap[i];
        assert(sprite_hits(m0, px as int, py as int, n, w));
        assert(collision(m0, px as int, py as int, n));
    }
}

/// In a frame that executes `Ex9E` or `ExA1`, the program counter moves past
/// the instruction (2) and also past the next one (4 in all) exactly when the
/// key code equals (`Ex9E`) or differs from (`ExA1`) the value held in Vx.
pub proof fn lemma_key_skips(e: EmulatorModel, elapsed_ms: u64, key: u8, rnd: u8)
    requires
        update_safe(e, elapsed_ms),
        !e.rf.keyboard_flag,
        opcode(fetch_spec(e.rf, e.pc as int)) == 14,
    ensures
        ({
            let ins = fetch_spec(e.rf, e.pc as int);
            let vx = e.rf.data_regs[reg_x(ins)];
            let e2 = update_spec(e, elapsed_ms, key, rnd).0;
            &&& low_byte(ins) == 0x9E ==> e2.pc == e.pc + (if key == vx { 4int } else { 2int })
            &&& low_byte(ins) == 0xA1 ==> e2.pc == e.pc + (if key != vx { 4int } else { 2int })
            &&& (low_byte(ins) != 0x9E && low_byte(ins) != 0xA1) ==> e2.pc == e.pc + 2
        }),
{
}

/// The instruction with top nibble `op`, register nibbles `x` and `y` and low
/// nibble `n`.
pub open spec fn make_instruction(op: int, x: int, y: int, n: int) -> u16 {
    (op * 4096 + x * 256 + y * 16 + n) as u16
}

proof fn lemma_make_instruction(op: int, x: int, y: int, n: int)
    requires
        0 <= op < 16,
        0 <= x < 16,
        0 <= y < 16,
        0 <= n < 16,
    ensures
        opcode(make_instruction(op, x, y, n)) == op,
        reg_x(make_instruction(op, x, y, n)) == x,
        reg_y(make_instruction(op, x, y, n)) == y,
        nibble(make_instruction(op, x, y, n)) == n,
        low_byte(make_instruction(op, x, y, n)) == y * 16 + n,
{
    let v = op * 4096 + x * 256 + y * 16 + n;
    assert(v / 4096 == op && (v / 256) % 16 == x && (v / 16) % 16 == y && v % 16 == n && v % 256
        == y * 16 + n) by (nonlinear_arith)
        requires
            v == op * 4096 + x * 256 + y * 16 + n,
            0 <= op < 16,
            0 <= x < 16,
            0 <= y < 16,
            0 <= n < 16,
    ;
}

/// `3xkk` skips the next instruction exactly when Vx equals kk and `4xkk`
/// exactly when they differ: one advances by 4 and the other by 2.
pub proof fn lemma_immediate_skips(m: ChipModel, pc: int, x: int, kk: int, rnd: u8)
    requires
        m.sized(),
        0 <= x < 16,
        0 <= kk < 256,
    ensures
        decode_spec(m, pc, make_instruction(3, x, kk / 16, kk % 16), rnd).1 == if m.data_regs[x]
            == kk {
            pc + 4
        } else {
            pc + 2
        },
        decode_spec(m, pc, make_instruction(4, x, kk / 16, kk % 16), rnd).1 == if m.data_regs[x]
            != kk {
            pc + 4
        } else {
            pc + 2
        },
        decode_spec(m, pc, make_instruction(3, x, kk / 16, kk % 16), rnd).1 + decode_spec(
            m,
            pc,
            make_instruction(4, x, kk / 16, kk % 16),
            rnd,
        ).1 == 2 * pc + 6,
{
    lemma_make_instruction(3, x, kk / 16, kk % 16);
    lemma_make_instruction(4, x, kk / 16, kk % 16);
}

/// `5xy0` skips the next instruction exactly when Vx equals Vy and `9xy0`
/// exactly when they differ.
pub proof fn lemma_register_skips(m: ChipModel, pc: int, x: int, y: int, rnd: u8)
    requires
        m.sized(),
        0 <= x < 16,
        0 <= y < 16,
    ensures
        decode_spec(m, pc, make_instruction(5, x, y, 0), rnd).1 == if m.data_regs[x]
            == m.data_regs[y] {
            pc + 4
        } else {
            pc + 2
        },
        decode_spec(m, pc, make_instruction(9, x, y, 0), rnd).1 == if m.data_regs[x]
            != m.data_regs[y] {
            pc + 4
        } else {
            pc + 2
        },
{
    lemma_make_instruction(5, x, y, 0);
    lemma_make_instruction(9, x, y, 0);
}

/// Setting the delay timer from Vx (`Fx15`) stores Vx whole ticks, and
/// reading it back at once (`Fx07`) gives Vx again, for every Vx.
pub proof fn lemma_delay_timer_reads_back(m: ChipModel, pc: int, x: int, rnd: u8)
    requires
        m.sized(),
        0 <= x < 16,
    ensures
        ({
            let set = decode_spec(m, pc, make_instruction(15, x, 1, 5), rnd).0;
            let read = decode_spec(set, pc + 2, make_instruction(15, x, 0, 7), rnd).0;
            &&& set.delay_timer == m.data_regs[x] * TIMER_SCALE
            &&& read.data_regs[x] == m.data_regs[x]
        }),
{
    lemma_make_instruction(15, x, 1, 5);
    lemma_make_instruction(15, x, 0, 7);
}

/// The delay timer runs at 60 ticks a second: set from Vx = v and read back
/// after `s` whole seconds, it gives v - 60 s, or 0 once that is negative.
pub proof fn lemma_delay_timer_runs_at_60hz(m: ChipModel, pc: int, x: int, s: u64, rnd: u8)
    requires
        m.sized(),
        0 <= x < 16,
        s * 1000 <= u64::MAX,
    ensures
        ({
            let v = m.data_regs[x] as int;
            let set = decode_spec(m, pc, make_instruction(15, x, 1, 5), rnd).0;
            let later = timed(set, (s * 1000) as u64);
            let read = decode_spec(later, pc + 2, make_instruction(15, x, 0, 7), rnd).0;
            read.data_regs[x] == if v >= 60 * s { v - 60 * s } else { 0 }
        }),
{
    lemma_make_instruction(15, x, 1, 5);
    lemma_make_instruction(15, x, 0, 7);
    let v = m.data_regs[x] as int;
    let set = decode_spec(m, pc, make_instruction(15, x, 1, 5), rnd).0;
    assert(set.delay_timer == v * 1000);
    let later = timed(set, (s * 1000) as u64);
    if v >= 60 * s {
        assert(later.delay_timer == (v - 60 * s) * 1000);
        assert(((v - 60 * s) * 1000 + 500) / 1000 == v - 60 * s);
    } else {
        assert(later.delay_timer == 0);
    }
}

/// Setting the sound timer from Vx (`Fx18`) asks for a beep of Vx ticks of
/// 1/60 s, rounded to the nearest millisecond.
pub proof fn lemma_sound_timer_beep_length(m: ChipModel, pc: int, x: int, rnd: u8)
    requires
        m.sized(),
        0 <= x < 16,
    ensures
        ({
            let set = decode_spec(m, pc, make_instruction(15, x, 1, 8), rnd).0;
            let ms = beep_millis(set.sound_timer) as int;
            let v = m.data_regs[x] as int;
            &&& 60 * ms <= 1000 * v + 30
            &&& 1000 * v + 30 < 60 * ms + 60
        }),
{
    lemma_make_instruction(15, x, 1, 8);
}

/// The keypad keys 1234/QWER/ASDF/ZXCV, scanned row by row, give the values
/// of the same positions of the hexadecimal keypad 123C/456D/789E/A0BF: the
/// last column holds C to F, the first three rows count 1 to 9, and the last
/// row holds A, 0, B.
pub proof fn lemma_keypad_layout(p: int)
    requires
        0 <= p < 16,
    ensures
        ({
            let row = p / 4;
            let col = p % 4;
            keypad_values()[p] == if col == 3 {
                0xC + row
            } else if row < 3 {
                3 * row + col + 1
            } else if col == 0 {
                0xA
            } else if col == 1 {
                0
            } else {
                0xB
            }
        }),
{
    let k = keypad_values();
    assert(k[0] == 1 && k[1] == 2 && k[2] == 3 && k[3] == 0xC && k[4] == 4 && k[5] == 5 && k[6] == 6
        && k[7] == 0xD && k[8] == 7 && k[9] == 8 && k[10] == 9 && k[11] == 0xE && k[12] == 0xA
        && k[13] == 0 && k[14] == 0xB && k[15] == 0xF);
    assert(p == 0 || p == 1 || p == 2 || p == 3 || p == 4 || p == 5 || p == 6 || p == 7 || p == 8
        || p == 9 || p == 10 || p == 11 || p == 12 || p == 13 || p == 14 || p == 15);
}

/// The jumps go where their address says: `1nnn` to nnn, `2nnn` to nnn
/// (with room on the stack), and `Bnnn` to nnn + V0, with no step past the
/// target.
pub proof fn lemma_jump_targets(m: ChipModel, pc: int, nnn: int, rnd: u8)
    requires
        m.sized(),
        0 <= nnn < 4096,
        m.stack_pointer < 16,
    ensures
        decode_spec(m, pc, make_instruction(1, nnn / 256, (nnn / 16) % 16, nnn % 16), rnd).1 == nnn,
        decode_spec(m, pc, make_instruction(2, nnn / 256, (nnn / 16) % 16, nnn % 16), rnd).1 == nnn,
        decode_spec(m, pc, make_instruction(11, nnn / 256, (nnn / 16) % 16, nnn % 16), rnd).1 == nnn
            + m.data_regs[0],
{
    let x = nnn / 256;
    let y = (nnn / 16) % 16;
    let n = nnn % 16;
    assert(x * 256 + y * 16 + n == nnn);
    lemma_make_instruction(1, x, y, n);
    lemma_make_instruction(2, x, y, n);
    lemma_make_instruction(11, x, y, n);
    assert(address(make_instruction(1, x, y, n)) == nnn);
    assert(address(make_instruction(2, x, y, n)) == nnn);
    assert(address(make_instruction(11, x, y, n)) == nnn);
}

/// A one-pixel sprite (row byte 0x80) drawn on a dark screen lights exactly
/// the pixel in column Vx mod 64 of row Vy mod 32, the screen being stored
/// row by row, 64 pixels a row.
pub proof fn lemma_draw_single_pixel(m: ChipModel, pc: int, x: int, y: int, rnd: u8)
    requires
        m.sized(),
        0 <= x < 16,
        0 <= y < 16,
        m.address_reg < 4096,
        m.memory[m.address_reg as int] == 0x80,
        forall|i: int| 0 <= i < 2048 ==> #[trigger] m.screen_bitmap[i] == 0,
    ensures
        ({
            let m2 = decode_spec(m, pc, make_instruction(13, x, y, 1), rnd).0;
            let target = (m.data_regs[y] % 32) * 64 + m.data_regs[x] % 64;
            forall|i: int|
                0 <= i < 2048 ==> #[trigger] m2.screen_bitmap[i] == if i == target {
                    255u8
                } else {
                    0u8
                }
        }),
{
    lemma_make_instruction(13, x, y, 1);
    let m2 = decode_spec(m, pc, make_instruction(13, x, y, 1), rnd).0;
    let px = (m.data_regs[x] % 64) as int;
    let py = (m.data_regs[y] % 32) as int;
    let target = py * 64 + px;
    assert forall|i: int| 0 <= i < 2048 implies #[trigger] m2.screen_bitmap[i] == if i == target {
        255u8
    } else {
        0u8
    } by {
        assert(i == 64 * (i / 64) + i % 64) by (nonlinear_arith);
        let c = i % 64 - px;
        let b: u8 = 0x80;
        if 0 <= c < 8 && i / 64 == py {
            let s: u8 = (7 - c) as u8;
            assert((b >> s) & 1u8 == (if s == 7 { 1u8 } else { 0u8 })) by (bit_vector)
                requires
                    b == 0x80,
                    s < 8,
            ;
        }
        assert((0u8 ^ 255u8) == 255u8) by (bit_vector);
    }
}

} // verus!
