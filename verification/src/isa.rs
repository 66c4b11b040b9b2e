//! The instruction set: how a 16-bit instruction is split into fields, and
//! what executing it does to the machine, stated over [`ChipModel`].
use vstd::prelude::*;
use crate::chip::ChipModel;

verus! {

/// The top nibble: the instruction's group.
pub open spec fn opcode(ins: u16) -> int {
    ins as int / 4096
}

/// The second nibble: the first register operand.
pub open spec fn reg_x(ins: u16) -> int {
    (ins as int / 256) % 16
}

/// The third nibble: the second register operand.
pub open spec fn reg_y(ins: u16) -> int {
    (ins as int / 16) % 16
}

/// The low nibble.
pub open spec fn nibble(ins: u16) -> int {
    ins as int % 16
}

/// The low byte: an immediate value or a sub-operation.
pub open spec fn low_byte(ins: u16) -> u8 {
    (ins as int % 256) as u8
}

/// The low twelve bits: an address.
pub open spec fn address(ins: u16) -> u16 {
    (ins as int % 4096) as u16
}

/// The fields of an instruction.
pub struct Fields {
    pub op: u8,
    pub x: usize,
    pub y: usize,
    pub n: u8,
    pub kk: u8,
    pub nnn: u16,
}

/// Splits an instruction into its nibbles, its low byte and its address.
pub fn split_instruction(ins: u16) -> (f: Fields)
    ensures
        f.op == opcode(ins),
        f.x == reg_x(ins),
        f.y == reg_y(ins),
        f.n == nibble(ins),
        f.kk == low_byte(ins),
        f.nnn == address(ins),
{
    assert(((ins & 0xF000) >> 12) == ins / 4096) by (bit_vector);
    assert(((ins & 0x0F00) >> 8) == (ins / 256) % 16) by (bit_vector);
    assert(((ins & 0x00F0) >> 4) == (ins / 16) % 16) by (bit_vector);
    assert((ins & 0x000F) == ins % 16) by (bit_vector);
    assert((ins & 0x00FF) == ins % 256) by (bit_vector);
    assert((ins & 0x0FFF) == ins % 4096) by (bit_vector);
    Fields {
        op: ((ins & 0xF000) >> 12) as u8,
        x: ((ins & 0x0F00) >> 8) as usize,
        y: ((ins & 0x00F0) >> 4) as usize,
        n: (ins & 0x000F) as u8,
        kk: (ins & 0x00FF) as u8,
        nnn: ins & 0x0FFF,
    }
}

/// The machine with register `x` set to `v`.
pub open spec fn with_reg(m: ChipModel, x: int, v: u8) -> ChipModel {
    ChipModel { data_regs: m.data_regs.update(x, v), ..m }
}

/// The machine as every instruction starts it: no flag set.
pub open spec fn flags_cleared(m: ChipModel) -> ChipModel {
    ChipModel { cls_flag: false, draw_flag: false, keyboard_flag: false, ..m }
}

/// `00E0`: every pixel dark, and the clear flag set.
pub open spec fn cleared_screen(m: ChipModel) -> ChipModel {
    ChipModel { screen_bitmap: Seq::new(2048, |i: int| 0u8), cls_flag: true, ..m }
}

/// The registers after the arithmetic and logic instruction `8xyn`; VF is
/// written before Vx, so an operand that is VF reads the new flag.
pub open spec fn alu_regs(r: Seq<u8>, x: int, y: int, n: int) -> Seq<u8> {
    if n == 0 {
        r.update(x, r[y])
    } else if n == 1 {
        r.update(x, r[x] | r[y])
    } else if n == 2 {
        r.update(x, r[x] & r[y])
    } else if n == 3 {
        r.update(x, r[x] ^ r[y])
    } else if n == 4 {
        let f = r.update(15, if r[x] + r[y] > 255 { 1u8 } else { 0u8 });
        f.update(x, ((f[x] + f[y]) % 256) as u8)
    } else if n == 5 {
        let f = r.update(15, if r[y] > r[x] { 0u8 } else { 1u8 });
        f.update(x, ((f[x] - f[y]) % 256) as u8)
    } else if n == 6 {
        let f = r.update(15, r[x] % 2);
        f.update(x, f[x] / 2)
    } else if n == 7 {
        let f = r.update(15, if r[y] < r[x] { 0u8 } else { 1u8 });
        f.update(x, ((f[y] - f[x]) % 256) as u8)
    } else if n == 14 {
        let f = r.update(15, r[x] / 128);
        f.update(x, ((f[x] * 2) % 256) as u8)
    } else {
        r
    }
}

/// Bit `7 - col` of a sprite row: whether the sprite covers column `col`.
pub open spec fn sprite_pixel(row_byte: u8, col: int) -> bool {
    (row_byte >> ((7 - col) as u8)) & 1u8 == 1u8
}

/// Whether pixel `idx` of the screen lies in the `n`-row, 8-column box
/// whose top-left corner is (`px`, `py`); the box is clipped at the edges.
pub open spec fn in_sprite_box(px: int, py: int, n: int, idx: int) -> bool {
    &&& 0 <= idx / 64 - py < n
    &&& 0 <= idx % 64 - px < 8
}

/// Whether drawing the sprite at `I` flips pixel `idx`.
pub open spec fn sprite_hits(m: ChipModel, px: int, py: int, n: int, idx: int) -> bool {
    &&& in_sprite_box(px, py, n, idx)
    &&& sprite_pixel(m.memory[m.address_reg + (idx / 64 - py)], idx % 64 - px)
}

/// The screen after XOR-drawing the sprite.
pub open spec fn drawn_screen(m: ChipModel, px: int, py: int, n: int) -> Seq<u8> {
    Seq::new(
        2048,
        |idx: int|
            if sprite_hits(m, px, py, n, idx) {
                m.screen_bitmap[idx] ^ 255u8
            } else {
                m.screen_bitmap[idx]
            },
    )
}

/// Whether drawing the sprite lowers some pixel (turns a lit pixel off).
pub open spec fn collision(m: ChipModel, px: int, py: int, n: int) -> bool {
    exists|idx: int|
        0 <= idx < 2048 && #[trigger] sprite_hits(m, px, py, n, idx) && (m.screen_bitmap[idx]
            ^ 255u8) < m.screen_bitmap[idx]
}

/// `Dxyn`: draws the `n`-byte sprite at `I` at (Vx mod 64, Vy mod 32), sets
/// VF to 1 if a pixel was turned off and to 0 otherwise, and sets the draw
/// flag.
pub open spec fn draw_spec(m: ChipModel, x: int, y: int, n: int) -> ChipModel {
    let px = m.data_regs[x] % 64;
    let py = m.data_regs[y] % 32;
    ChipModel {
        screen_bitmap: drawn_screen(m, px as int, py as int, n),
        data_regs: m.data_regs.update(15, if collision(m, px as int, py as int, n) { 1u8 } else { 0u8 }),
        draw_flag: true,
        ..m
    }
}

/// The memory that `Dxyn` reads lies within memory: every row of the
/// sprite that lands on the screen.
pub open spec fn draw_in_bounds(m: ChipModel, x: int, y: int, n: int) -> bool {
    forall|r: int|
        0 <= r < n && m.data_regs[y] % 32 + r <= 31 ==> #[trigger] (m.address_reg + r) < 4096
}

/// The delay timer read as whole ticks, rounded to nearest and capped at 255.
pub open spec fn timer_ticks(t: u32) -> u8 {
    if (t + 500) / 1000 > 255 {
        255u8
    } else {
        ((t + 500) / 1000) as u8
    }
}

/// The `Fxkk` instructions other than `Fx0A`.
pub open spec fn misc_spec(m: ChipModel, x: int, kk: u8) -> ChipModel {
    let vx = m.data_regs[x];
    let i = m.address_reg as int;
    if kk == 0x07 {
        with_reg(m, x, timer_ticks(m.delay_timer))
    } else if kk == 0x15 {
        ChipModel { delay_timer: (vx * 1000) as u32, ..m }
    } else if kk == 0x18 {
        ChipModel { sound_timer: (vx * 1000) as u32, ..m }
    } else if kk == 0x1E {
        ChipModel { address_reg: (i + vx) as u16, ..m }
    } else if kk == 0x29 {
        ChipModel { address_reg: (5 * vx) as u16, ..m }
    } else if kk == 0x33 {
        ChipModel {
            memory: m.memory.update(i, vx / 100).update(i + 1, (vx / 10) % 10).update(i + 2, vx % 10),
            ..m
        }
    } else if kk == 0x55 {
        ChipModel {
            memory: Seq::new(
                4096,
                |a: int|
                    if i <= a <= i + x {
                        m.data_regs[a - i]
                    } else {
                        m.memory[a]
                    },
            ),
            ..m
        }
    } else if kk == 0x65 {
        ChipModel {
            data_regs: Seq::new(
                16,
                |r: int|
                    if r <= x {
                        m.memory[i + r]
                    } else {
                        m.data_regs[r]
                    },
            ),
            ..m
        }
    } else {
        m
    }
}

/// The `Fxkk` instructions stay within their ranges: the address register
/// does not overflow and every byte they touch lies within memory.
pub open spec fn misc_in_bounds(m: ChipModel, x: int, kk: u8) -> bool {
    let vx = m.data_regs[x];
    let i = m.address_reg as int;
    &&& kk == 0x1E ==> i + vx <= 65535
    &&& kk == 0x29 ==> 5 * vx <= 255
    &&& kk == 0x33 ==> i + 2 < 4096
    &&& (kk == 0x55 || kk == 0x65) ==> i + x < 4096
}

/// Executing `ins` on machine `m` with program counter `pc`: the new machine
/// and the new program counter. `rnd` is the random byte that `Cxkk` uses.
pub open spec fn decode_spec(m: ChipModel, pc: int, ins: u16, rnd: u8) -> (ChipModel, int) {
    let m0 = flags_cleared(m);
    let x = reg_x(ins);
    let y = reg_y(ins);
    let kk = low_byte(ins);
    let vx = m.data_regs[x];
    let vy = m.data_regs[y];
    let sp = m.stack_pointer as int;
    let op = opcode(ins);
    if op == 0 {
        if ins == 0x00E0 {
            (cleared_screen(m0), pc + 2)
        } else if ins == 0x00EE && sp > 0 {
            (
                ChipModel {
                    stack_pointer: (sp - 1) as usize,
                    stack: m.stack.update(sp - 1, 0u16),
                    ..m0
                },
                m.stack[sp - 1] + 2,
            )
        } else {
            (m0, pc + 2)
        }
    } else if op == 1 {
        (m0, address(ins) as int)
    } else if op == 2 {
        if sp < 16 {
            (
                ChipModel {
                    stack: m.stack.update(sp, (pc % 65536) as u16),
                    stack_pointer: (sp + 1) as usize,
                    ..m0
                },
                address(ins) as int,
            )
        } else {
            (m0, pc + 2)
        }
    } else if op == 3 {
        (m0, if vx == kk { pc + 4 } else { pc + 2 })
    } else if op == 4 {
        (m0, if vx != kk { pc + 4 } else { pc + 2 })
    } else if op == 5 {
        (m0, if nibble(ins) == 0 && vx == vy { pc + 4 } else { pc + 2 })
    } else if op == 6 {
        (with_reg(m0, x, kk), pc + 2)
    } else if op == 7 {
        (with_reg(m0, x, ((vx + kk) % 256) as u8), pc + 2)
    } else if op == 8 {
        (ChipModel { data_regs: alu_regs(m.data_regs, x, y, nibble(ins)), ..m0 }, pc + 2)
    } else if op == 9 {
        (m0, if nibble(ins) == 0 && vx != vy { pc + 4 } else { pc + 2 })
    } else if op == 10 {
        (ChipModel { address_reg: address(ins), ..m0 }, pc + 2)
    } else if op == 11 {
        (m0, address(ins) + m.data_regs[0])
    } else if op == 12 {
        (with_reg(m0, x, kk & rnd), pc + 2)
    } else if op == 13 {
        (draw_spec(m0, x, y, nibble(ins)), pc + 2)
    } else if op == 14 {
        (m0, pc + 2)
    } else if kk == 0x0A {
        (ChipModel { keyboard_flag: true, ..m0 }, pc)
    } else {
        (misc_spec(m0, x, kk), pc + 2)
    }
}

/// The inputs on which executing `ins` stays within the machine: a return
/// finds its stack pointer within the stack, the memory that `Dxyn` and
/// `Fxkk` touch exists, the address register does not overflow and the new
/// program counter fits in a `usize`.
pub open spec fn decode_safe(m: ChipModel, pc: int, ins: u16) -> bool {
    &&& m.sized()
    &&& ins == 0x00EE ==> m.stack_pointer <= 16
    &&& 0 <= pc
    &&& opcode(ins) == 13 ==> draw_in_bounds(m, reg_x(ins), reg_y(ins), nibble(ins))
    &&& opcode(ins) == 15 ==> misc_in_bounds(m, reg_x(ins), low_byte(ins))
    &&& decode_spec(m, pc, ins, 0u8).1 <= usize::MAX
}

} // verus!
