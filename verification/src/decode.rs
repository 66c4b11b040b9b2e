//! Executing one instruction: the decode/execute/writeback stage.
use vstd::prelude::*;
use crate::chip::{Chip, ChipModel, TIMER_SCALE};
use crate::isa::{
    address, alu_regs, cleared_screen, collision, decode_safe, decode_spec, draw_in_bounds,
    draw_spec, drawn_screen, in_sprite_box, misc_in_bounds, misc_spec, opcode, sprite_hits,
    sprite_pixel, split_instruction, timer_ticks,
};

verus! {

/// Calls `rand::thread_rng().gen_range(0..=255u8)` (rand 0.8): a byte drawn
/// from the whole range 0-255. Every byte can come out, so the contract states
/// nothing of it; which byte comes out is left to chance.
#[verifier::external_body]
pub(crate) fn random_byte() -> (r: u8) {
    rand::Rng::gen_range(&mut rand::thread_rng(), 0..=255u8)
}

/// `00E0`: darkens every pixel and sets the clear flag.
pub fn clear_screen(rf: &mut Chip)
    ensures
        final(rf)@ == cleared_screen(old(rf)@),
{
    rf.cls_flag = true;
    for i in 0..2048
        invariant
            rf@ == (ChipModel { screen_bitmap: rf@.screen_bitmap, cls_flag: true, ..old(rf)@ }),
            rf@.screen_bitmap.len() == 2048,
            forall|j: int| 0 <= j < i ==> rf@.screen_bitmap[j] == 0,
    {
        rf.screen_bitmap[i] = 0;
    }
    assert(rf@.screen_bitmap =~= Seq::new(2048, |i: int| 0u8));
}

/// `1nnn`: sets the program counter to `nnn`.
pub fn jump(pc: &mut usize, ins: u16)
    ensures
        *final(pc) == address(ins),
{
    assert((ins & 0x0FFF) == ins % 4096) by (bit_vector);
    *pc = (ins & 0x0FFF) as usize;
}

/// `8xyn`: the arithmetic and logic instructions.
fn execute_alu(rf: &mut Chip, x: usize, y: usize, n: u8)
    requires
        x < 16,
        y < 16,
    ensures
        final(rf)@ == (ChipModel {
            data_regs: alu_regs(old(rf)@.data_regs, x as int, y as int, n as int),
            ..old(rf)@
        }),
{
    match n {
        0x0 => {
            rf.data_regs[x] = rf.data_regs[y];
        },
        0x1 => {
            rf.data_regs[x] = rf.data_regs[x] | rf.data_regs[y];
        },
        0x2 => {
            rf.data_regs[x] = rf.data_regs[x] & rf.data_regs[y];
        },
        0x3 => {
            rf.data_regs[x] = rf.data_regs[x] ^ rf.data_regs[y];
        },
        0x4 => {
            if (rf.data_regs[y] as u16) + (rf.data_regs[x] as u16) > 255 {
                rf.data_regs[15] = 1;
            } else {
                rf.data_regs[15] = 0;
            }
            rf.data_regs[x] = rf.data_regs[x].wrapping_add(rf.data_regs[y]);
        },
        0x5 => {
            if rf.data_regs[y] > rf.data_regs[x] {
                rf.data_regs[15] = 0;
            } else {
                rf.data_regs[15] = 1;
            }
            rf.data_regs[x] = rf.data_regs[x].wrapping_sub(rf.data_regs[y]);
        },
        0x6 => {
            let v = rf.data_regs[x];
            assert((1u8 & v) == v % 2) by (bit_vector);
            rf.data_regs[15] = 1u8 & v;
            let w = rf.data_regs[x];
            assert((w >> 1u8) == w / 2) by (bit_vector);
            rf.data_regs[x] = w >> 1u8;
        },
        0x7 => {
            if rf.data_regs[y] < rf.data_regs[x] {
                rf.data_regs[15] = 0;
            } else {
                rf.data_regs[15] = 1;
            }
            rf.data_regs[x] = rf.data_regs[y].wrapping_sub(rf.data_regs[x]);
        },
        0xE => {
            let v = rf.data_regs[x];
            assert(((0x80u8 & v) >> 7u8) == v / 128) by (bit_vector);
            rf.data_regs[15] = (0x80u8 & v) >> 7u8;
            let w = rf.data_regs[x];
            assert((w << 1u8) == (w * 2) % 256) by (bit_vector);
            rf.data_regs[x] = w << 1u8;
        },
        _ => {},
    }
    assert(rf@.data_regs =~= alu_regs(old(rf)@.data_regs, x as int, y as int, n as int));
}

/// Pixel `idx` lies in the part of the sprite box drawn before row `row`,
/// column `col`.
spec fn drawn_before(px: int, py: int, n: int, row: int, col: int, idx: int) -> bool {
    &&& in_sprite_box(px, py, n, idx)
    &&& (idx / 64 - py < row || (idx / 64 - py == row && idx % 64 - px < col))
}

/// The screen after the pixels drawn before (`row`, `col`) have been flipped.
spec fn partial_screen(m: ChipModel, px: int, py: int, n: int, row: int, col: int) -> Seq<u8> {
    Seq::new(
        2048,
        |idx: int|
            if drawn_before(px, py, n, row, col, idx) && sprite_hits(m, px, py, n, idx) {
                m.screen_bitmap[idx] ^ 255u8
            } else {
                m.screen_bitmap[idx]
            },
    )
}

/// Some pixel drawn before (`row`, `col`) was turned off.
spec fn partial_collision(m: ChipModel, px: int, py: int, n: int, row: int, col: int) -> bool {
    exists|idx: int|
        0 <= idx < 2048 && #[trigger] drawn_before(px, py, n, row, col, idx) && sprite_hits(
            m,
            px,
            py,
            n,
            idx,
        ) && (m.screen_bitmap[idx] ^ 255u8) < m.screen_bitmap[idx]
}

proof fn lemma_sprite_mask(b: u8, col: u8)
    requires
        col < 8,
    ensures
        (((0x80u8 >> col) & b) > 0) == sprite_pixel(b, col as int),
{
    let s: u8 = (7 - col) as u8;
    assert((((0x80u8 >> col) & b) > 0) == ((b >> s) & 1u8 == 1u8)) by (bit_vector)
        requires
            col < 8,
            s == 7 - col,
    ;
}

proof fn lemma_xor(v: u8)
    ensures
        v ^ 0u8 == v,
        (v ^ 255u8) ^ 255u8 == v,
{
    assert(v ^ 0u8 == v) by (bit_vector);
    assert((v ^ 255u8) ^ 255u8 == v) by (bit_vector);
}

/// Once column `col` of row `row` lies off the screen (or past the sprite),
/// the rest of the row draws nothing.
proof fn lemma_row_complete(m: ChipModel, px: int, py: int, n: int, row: int, col: int)
    requires
        0 <= px < 64,
        0 <= py < 32,
        0 <= col <= 8,
        col == 8 || px + col > 63 || py + row > 31,
    ensures
        partial_screen(m, px, py, n, row + 1, 0) == partial_screen(m, px, py, n, row, col),
        partial_collision(m, px, py, n, row + 1, 0) == partial_collision(m, px, py, n, row, col),
{
    assert forall|idx: int|
        0 <= idx < 2048 implies drawn_before(px, py, n, row + 1, 0, idx) == drawn_before(
            px,
            py,
            n,
            row,
            col,
            idx,
        ) by {
        assert(idx / 64 <= 31);
        assert(idx % 64 <= 63);
    }
    assert(partial_screen(m, px, py, n, row + 1, 0) =~= partial_screen(m, px, py, n, row, col));
    if partial_collision(m, px, py, n, row + 1, 0) {
        let w = choose|idx: int|
            0 <= idx < 2048 && #[trigger] drawn_before(px, py, n, row + 1, 0, idx) && sprite_hits(
                m,
                px,
                py,
                n,
                idx,
            ) && (m.screen_bitmap[idx] ^ 255u8) < m.screen_bitmap[idx];
        assert(drawn_before(px, py, n, row, col, w));
    }
    if partial_collision(m, px, py, n, row, col) {
        let w = choose|idx: int|
            0 <= idx < 2048 && #[trigger] drawn_before(px, py, n, row, col, idx) && sprite_hits(
                m,
                px,
                py,
                n,
                idx,
            ) && (m.screen_bitmap[idx] ^ 255u8) < m.screen_bitmap[idx];
        assert(drawn_before(px, py, n, row + 1, 0, w));
    }
}

/// Drawing pixel (`row`, `col`) of the sprite flips screen index `idx` and
/// nothing else.
proof fn lemma_pixel_step(m: ChipModel, px: int, py: int, n: int, row: int, col: int, idx: int)
    requires
        m.sized(),
        0 <= px,
        0 <= py,
        0 <= row < n,
        0 <= col < 8,
        px + col <= 63,
        py + row <= 31,
        idx == (py + row) * 64 + px + col,
    ensures
        0 <= idx < 2048,
        idx / 64 == py + row,
        idx % 64 == px + col,
        !drawn_before(px, py, n, row, col, idx),
        sprite_hits(m, px, py, n, idx) == sprite_pixel(m.memory[m.address_reg + row], col),
        partial_screen(m, px, py, n, row, col + 1) == partial_screen(m, px, py, n, row, col).update(
            idx,
            if sprite_hits(m, px, py, n, idx) {
                m.screen_bitmap[idx] ^ 255u8
            } else {
                m.screen_bitmap[idx]
            },
        ),
        partial_collision(m, px, py, n, row, col + 1) == (partial_collision(
            m,
            px,
            py,
            n,
            row,
            col,
        ) || (sprite_hits(m, px, py, n, idx) && (m.screen_bitmap[idx] ^ 255u8)
            < m.screen_bitmap[idx])),
{
    assert(idx / 64 == py + row && idx % 64 == px + col) by (nonlinear_arith)
        requires
            idx == (py + row) * 64 + px + col,
            0 <= px + col < 64,
            0 <= py + row,
    ;
    assert forall|j: int|
        drawn_before(px, py, n, row, col + 1, j) == (drawn_before(px, py, n, row, col, j) || j
            == idx) by {
        if j / 64 - py == row && j % 64 - px == col {
            assert(j == 64 * (j / 64) + j % 64) by (nonlinear_arith);
        }
    }
    assert(partial_screen(m, px, py, n, row, col + 1) =~= partial_screen(
        m,
        px,
        py,
        n,
        row,
        col,
    ).update(
        idx,
        if sprite_hits(m, px, py, n, idx) {
            m.screen_bitmap[idx] ^ 255u8
        } else {
            m.screen_bitmap[idx]
        },
    ));
    if partial_collision(m, px, py, n, row, col + 1) {
        let w = choose|j: int|
            0 <= j < 2048 && #[trigger] drawn_before(px, py, n, row, col + 1, j) && sprite_hits(
                m,
                px,
                py,
                n,
                j,
            ) && (m.screen_bitmap[j] ^ 255u8) < m.screen_bitmap[j];
        if w != idx {
            assert(drawn_before(px, py, n, row, col, w));
        }
    }
    if partial_collision(m, px, py, n, row, col) {
        let w = choose|j: int|
            0 <= j < 2048 && #[trigger] drawn_before(px, py, n, row, col, j) && sprite_hits(
                m,
                px,
                py,
                n,
                j,
            ) && (m.screen_bitmap[j] ^ 255u8) < m.screen_bitmap[j];
        assert(drawn_before(px, py, n, row, col + 1, w));
    }
    if sprite_hits(m, px, py, n, idx) && (m.screen_bitmap[idx] ^ 255u8) < m.screen_bitmap[idx] {
        assert(drawn_before(px, py, n, row, col + 1, idx));
    }
}

/// Once every row has been drawn, the partial screen is the drawn screen.
proof fn lemma_all_rows(m: ChipModel, px: int, py: int, n: int)
    requires
        0 <= n,
    ensures
        partial_screen(m, px, py, n, n, 0) == drawn_screen(m, px, py, n),
        partial_collision(m, px, py, n, n, 0) == collision(m, px, py, n),
{
    assert forall|idx: int| #[trigger]
        drawn_before(px, py, n, n, 0, idx) == in_sprite_box(px, py, n, idx) by {}
    assert(partial_screen(m, px, py, n, n, 0) =~= drawn_screen(m, px, py, n));
    if collision(m, px, py, n) {
        let w = choose|idx: int|
            0 <= idx < 2048 && #[trigger] sprite_hits(m, px, py, n, idx) && (m.screen_bitmap[idx]
                ^ 255u8) < m.screen_bitmap[idx];
        assert(drawn_before(px, py, n, n, 0, w));
    }
}

/// `Dxyn`: XOR-draws the `n`-byte sprite at `I` at (Vx mod 64, Vy mod 32).
fn draw_sprite(rf: &mut Chip, x: usize, y: usize, n: u8)
    requires
        old(rf)@.sized(),
        x < 16,
        y < 16,
        n < 16,
        draw_in_bounds(old(rf)@, x as int, y as int, n as int),
    ensures
        final(rf)@ == draw_spec(old(rf)@, x as int, y as int, n as int),
{
    let ghost m = rf@;
    rf.draw_flag = true;
    let px: u8 = rf.data_regs[x] % 64;
    let py: u8 = rf.data_regs[y] % 32;
    rf.data_regs[15] = 0;
    let mut pixels_turned_off: bool = false;
    let start_address: usize = rf.address_reg as usize;
    let ghost base = ChipModel {
        data_regs: m.data_regs.update(15, 0u8),
        draw_flag: true,
        ..m
    };
    let mut row: u8 = 0;
    while row < n
        invariant
            m.sized(),
            m == old(rf)@,
            x < 16,
            y < 16,
            n < 16,
            row <= n,
            px == m.data_regs[x as int] % 64,
            py == m.data_regs[y as int] % 32,
            start_address == m.address_reg,
            draw_in_bounds(m, x as int, y as int, n as int),
            base == (ChipModel { data_regs: m.data_regs.update(15, 0u8), draw_flag: true, ..m }),
            rf@ == (ChipModel { screen_bitmap: rf@.screen_bitmap, ..base }),
            rf@.screen_bitmap == partial_screen(m, px as int, py as int, n as int, row as int, 0),
            pixels_turned_off == partial_collision(m, px as int, py as int, n as int, row as int, 0),
        decreases n - row,
    {
        let mut col: u8 = 0;
        while col < 8
            invariant_except_break
                col <= 8,
            invariant
                m.sized(),
                x < 16,
                y < 16,
                row < n,
                n < 16,
                px == m.data_regs[x as int] % 64,
                py == m.data_regs[y as int] % 32,
                start_address == m.address_reg,
                draw_in_bounds(m, x as int, y as int, n as int),
                base == (ChipModel { data_regs: m.data_regs.update(15, 0u8), draw_flag: true, ..m }),
                rf@ == (ChipModel { screen_bitmap: rf@.screen_bitmap, ..base }),
                rf@.screen_bitmap == partial_screen(
                    m,
                    px as int,
                    py as int,
                    n as int,
                    row as int,
                    col as int,
                ),
                pixels_turned_off == partial_collision(
                    m,
                    px as int,
                    py as int,
                    n as int,
                    row as int,
                    col as int,
                ),
                col == 8 ==> rf@.screen_bitmap == partial_screen(
                    m,
                    px as int,
                    py as int,
                    n as int,
                    row + 1,
                    0,
                ),
                col == 8 ==> pixels_turned_off == partial_collision(
                    m,
                    px as int,
                    py as int,
                    n as int,
                    row + 1,
                    0,
                ),
            ensures
                rf@ == (ChipModel { screen_bitmap: rf@.screen_bitmap, ..base }),
                rf@.screen_bitmap == partial_screen(
                    m,
                    px as int,
                    py as int,
                    n as int,
                    row + 1,
                    0,
                ),
                pixels_turned_off == partial_collision(
                    m,
                    px as int,
                    py as int,
                    n as int,
                    row + 1,
                    0,
                ),
            decreases 8 - col,
        {
            if (px + col) > 63 || (py + row) > 31 {
                proof {
                    lemma_row_complete(m, px as int, py as int, n as int, row as int, col as int);
                }
                break;
            }
            let screen_idx: usize = ((py + row) as usize) * 64 + (px + col) as usize;
            let offset_address: usize = start_address + (row as usize);
            let bit: u8 = 0x80u8 >> col;
            let old_val = rf.screen_bitmap[screen_idx];
            let mut sprite_val: u8 = 0;
            proof {
                lemma_sprite_mask(rf.memory[offset_address as int], col);
                assert(rf.memory[offset_address as int] == m.memory[offset_address as int]);
            }
            if (bit & rf.memory[offset_address]) > 0 {
                sprite_val = 255;
            }
            rf.screen_bitmap[screen_idx] = rf.screen_bitmap[screen_idx] ^ sprite_val;
            let new_val = rf.screen_bitmap[screen_idx];
            if new_val < old_val {
                pixels_turned_off = true;
            }
            proof {
                lemma_pixel_step(
                    m,
                    px as int,
                    py as int,
                    n as int,
                    row as int,
                    col as int,
                    screen_idx as int,
                );
                lemma_sprite_mask(m.memory[offset_address as int], col);
                lemma_xor(old_val);
                assert(old_val == m.screen_bitmap[screen_idx as int]);
                assert(offset_address == m.address_reg + row);
                assert((sprite_val == 255u8) == sprite_hits(m, px as int, py as int, n as int, screen_idx as int));
                assert(sprite_val == 255u8 || sprite_val == 0u8);
                assert(new_val == if sprite_hits(m, px as int, py as int, n as int, screen_idx as int) {
                    m.screen_bitmap[screen_idx as int] ^ 255u8 } else { m.screen_bitmap[screen_idx as int] });
                assert(rf@.screen_bitmap =~= partial_screen(
                    m,
                    px as int,
                    py as int,
                    n as int,
                    row as int,
                    col + 1,
                ));
                if col + 1 == 8 {
                    lemma_row_complete(m, px as int, py as int, n as int, row as int, 8);
                }
            }
            col = col + 1;
        }
        row = row + 1;
    }
    proof {
        lemma_all_rows(m, px as int, py as int, n as int);
    }
    if pixels_turned_off {
        rf.data_regs[15] = 1;
    }
    assert(rf@.data_regs =~= m.data_regs.update(
        15,
        if collision(m, px as int, py as int, n as int) { 1u8 } else { 0u8 },
    ));
}

} // verus!

verus! {

/// The delay timer read as whole ticks: rounded to nearest, capped at 255.
fn ticks_of(t: u32) -> (r: u8)
    ensures
        r == timer_ticks(t),
{
    let rounded: u64 = ((t as u64) + 500) / 1000;
    if rounded > 255 {
        255
    } else {
        rounded as u8
    }
}

/// Digit `j` (0 for hundreds, 2 for ones) of the decimal form of `v`.
spec fn bcd_digit(v: u8, j: int) -> u8 {
    if j == 0 {
        v / 100
    } else if j == 1 {
        (v / 10) % 10
    } else {
        v % 10
    }
}

/// `Fx33`: the decimal digits of Vx at I, I + 1 and I + 2.
fn store_bcd(rf: &mut Chip, x: usize)
    requires
        old(rf)@.sized(),
        x < 16,
        old(rf).address_reg + 2 < 4096,
    ensures
        final(rf)@ == misc_spec(old(rf)@, x as int, 0x33u8),
{
    let ghost m = rf@;
    let ghost a = rf.address_reg as int;
    let vx: u8 = rf.data_regs[x];
    let mut v: u8 = vx;
    let mut i: u16 = 3;
    while i > 0
        invariant
            m.sized(),
            a == m.address_reg,
            a + 2 < 4096,
            i <= 3,
            vx == m.data_regs[x as int],
            x < 16,
            v == (if i == 3 {
                vx
            } else if i == 2 {
                vx / 10
            } else if i == 1 {
                vx / 100
            } else {
                0u8
            }),
            rf@ == (ChipModel { memory: rf@.memory, ..m }),
            rf@.memory == Seq::new(
                4096,
                |b: int|
                    if a + i <= b < a + 3 {
                        bcd_digit(vx, b - a)
                    } else {
                        m.memory[b]
                    },
            ),
        decreases i,
    {
        i = i - 1;
        let ghost before = rf@.memory;
        rf.memory[(rf.address_reg + i) as usize] = v % 10;
        v = v / 10;
        assert(rf@.memory =~= Seq::new(
            4096,
            |b: int|
                if a + i <= b < a + 3 {
                    bcd_digit(vx, b - a)
                } else {
                    m.memory[b]
                },
        ));
    }
    assert(rf@.memory =~= m.memory.update(a, vx / 100).update(a + 1, (vx / 10) % 10).update(
        a + 2,
        vx % 10,
    ));
}

/// `Fx55`: stores V0 to Vx at I onwards.
fn store_regs(rf: &mut Chip, x: usize)
    requires
        old(rf)@.sized(),
        x < 16,
        old(rf).address_reg + x < 4096,
    ensures
        final(rf)@ == misc_spec(old(rf)@, x as int, 0x55u8),
{
    let ghost m = rf@;
    let start: usize = rf.address_reg as usize;
    for i in 0..(x + 1)
        invariant
            m.sized(),
            x < 16,
            start == m.address_reg,
            start + x < 4096,
            rf@ == (ChipModel { memory: rf@.memory, ..m }),
            rf@.memory == Seq::new(
                4096,
                |b: int|
                    if start <= b < start + i {
                        m.data_regs[b - start]
                    } else {
                        m.memory[b]
                    },
            ),
    {
        let offset_idx = start + i;
        rf.memory[offset_idx] = rf.data_regs[i];
        assert(rf@.memory =~= Seq::new(
            4096,
            |b: int|
                if start <= b < start + i + 1 {
                    m.data_regs[b - start]
                } else {
                    m.memory[b]
                },
        ));
    }
    assert(rf@.memory =~= misc_spec(m, x as int, 0x55u8).memory);
}

/// `Fx65`: loads V0 to Vx from I onwards.
fn load_regs(rf: &mut Chip, x: usize)
    requires
        old(rf)@.sized(),
        x < 16,
        old(rf).address_reg + x < 4096,
    ensures
        final(rf)@ == misc_spec(old(rf)@, x as int, 0x65u8),
{
    let ghost m = rf@;
    let start: usize = rf.address_reg as usize;
    for i in 0..(x + 1)
        invariant
            m.sized(),
            x < 16,
            start == m.address_reg,
            start + x < 4096,
            rf@ == (ChipModel { data_regs: rf@.data_regs, ..m }),
            rf@.data_regs == Seq::new(
                16,
                |r: int|
                    if r < i {
                        m.memory[start + r]
                    } else {
                        m.data_regs[r]
                    },
            ),
    {
        let offset_idx = start + i;
        rf.data_regs[i] = rf.memory[offset_idx];
        assert(rf@.data_regs =~= Seq::new(
            16,
            |r: int|
                if r < i + 1 {
                    m.memory[start + r]
                } else {
                    m.data_regs[r]
                },
        ));
    }
    assert(rf@.data_regs =~= misc_spec(m, x as int, 0x65u8).data_regs);
}

/// The `Fxkk` instructions other than `Fx0A`.
fn execute_misc(rf: &mut Chip, x: usize, kk: u8)
    requires
        old(rf)@.sized(),
        x < 16,
        misc_in_bounds(old(rf)@, x as int, kk),
    ensures
        final(rf)@ == misc_spec(old(rf)@, x as int, kk),
{
    match kk {
        0x07 => {
            rf.data_regs[x] = ticks_of(rf.delay_timer);
        },
        0x15 => {
            rf.delay_timer = (rf.data_regs[x] as u32) * TIMER_SCALE;
        },
        0x18 => {
            rf.sound_timer = (rf.data_regs[x] as u32) * TIMER_SCALE;
        },
        0x1E => {
            rf.address_reg = rf.address_reg + (rf.data_regs[x] as u16);
        },
        0x29 => {
            rf.address_reg = (5 * rf.data_regs[x]) as u16;
        },
        0x33 => {
            store_bcd(rf, x);
        },
        0x55 => {
            store_regs(rf, x);
        },
        0x65 => {
            load_regs(rf, x);
        },
        _ => {},
    }
}

} // verus!

verus! {

/// Executes instruction `ins` with program counter `pc`, where `random` is
/// the byte that `Cxkk` masks. The machine and the program counter become
/// exactly what [`decode_spec`] gives.
pub fn decode_with(rf: &mut Chip, pc: &mut usize, ins: u16, random: u8)
    requires
        decode_safe(old(rf)@, *old(pc) as int, ins),
    ensures
        final(rf)@ == decode_spec(old(rf)@, *old(pc) as int, ins, random).0,
        *final(pc) as int == decode_spec(old(rf)@, *old(pc) as int, ins, random).1,
{
    rf.cls_flag = false;
    rf.draw_flag = false;
    rf.keyboard_flag = false;
    let f = split_instruction(ins);
    match f.op {
        0x0 => {
            if ins == 0x00E0 {
                clear_screen(rf);
            }
            if ins == 0x00EE && rf.stack_pointer > 0 {
                rf.stack_pointer -= 1;
                *pc = rf.stack[rf.stack_pointer] as usize;
                rf.stack[rf.stack_pointer] = 0;
            }
        },
        0x1 => jump(pc, ins),
        0x2 => {
            if rf.stack_pointer < 16 {
                let p: usize = *pc;
                assert((p as u16) == (p % 65536) as u16) by (bit_vector);
                rf.stack[rf.stack_pointer] = p as u16;
                *pc = f.nnn as usize;
                rf.stack_pointer += 1;
                return ;
            }
        },
        0x3 => {
            // skip the next instruction if Vx equals kk
            if rf.data_regs[f.x] == f.kk {
                *pc += 2;
            }
        },
        0x4 => {
            // skip the next instruction if Vx differs from kk
            if rf.data_regs[f.x] != f.kk {
                *pc += 2;
            }
        },
        0x5 => {
            // skip the next instruction if Vx equals Vy
            let equal: bool = rf.data_regs[f.x] == rf.data_regs[f.y];
            if f.n == 0 && equal {
                *pc += 2;
            }
        },
        0x6 => {
            rf.data_regs[f.x] = f.kk;
        },
        0x7 => {
            rf.data_regs[f.x] = rf.data_regs[f.x].wrapping_add(f.kk);
        },
        0x8 => {
            execute_alu(rf, f.x, f.y, f.n);
        },
        0x9 => {
            if f.n == 0 {
                // skip the next instruction if Vx differs from Vy
                if rf.data_regs[f.x] != rf.data_regs[f.y] {
                    *pc += 2;
                }
            }
        },
        0xA => {
            rf.address_reg = f.nnn;
        },
        0xB => {
            *pc = (f.nnn + (rf.data_regs[0] as u16)) as usize;
        },
        0xC => {
            rf.data_regs[f.x] = f.kk & random;
        },
        0xD => {
            draw_sprite(rf, f.x, f.y, f.n);
        },
        0xE => {
            // Ex9E and ExA1 are completed by the frame loop, which knows the
            // pressed key
        },
        _ => {
            if f.kk == 0x0A {
                // wait for a key: the frame loop completes the instruction
                rf.keyboard_flag = true;
                return ;
            }
            execute_misc(rf, f.x, f.kk);
        },
    }
    // a jump does not move on to the next instruction
    if f.op != 0x1 && f.op != 0xB {
        *pc += 2;
    }
}

/// Executes instruction `ins` with program counter `pc`. `Cxkk` draws its
/// random byte from the thread's generator; the result is what
/// [`decode_spec`] gives for some random byte.
pub fn decode(rf: &mut Chip, pc: &mut usize, ins: u16)
    requires
        decode_safe(old(rf)@, *old(pc) as int, ins),
    ensures
        exists|r: u8|
            final(rf)@ == #[trigger] decode_spec(old(rf)@, *old(pc) as int, ins, r).0
                && *final(pc) as int == decode_spec(old(rf)@, *old(pc) as int, ins, r).1,
        opcode(ins) != 12 ==> final(rf)@ == decode_spec(old(rf)@, *old(pc) as int, ins, 0u8).0,
        opcode(ins) != 12 ==> *final(pc) as int == decode_spec(old(rf)@, *old(pc) as int, ins, 0u8).1,
{
    let random: u8 = if (ins >> 12u16) == 0xC {
        random_byte()
    } else {
        0
    };
    decode_with(rf, pc, ins, random);
}

} // verus!
