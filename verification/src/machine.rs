//! The host side of the emulator: loading a program, the per-frame step
//! (timers, fetch, decode, keypad, sound), the speed keys and the frame image.
use vstd::prelude::*;
use crate::chip::{Chip, ChipModel, font_sprites, memset_sprite_data};
use crate::decode::{decode_with, random_byte};
use crate::isa::{
    decode_safe, decode_spec, low_byte, opcode, reg_x, split_instruction, with_reg,
};

verus! {

// ---------------------------------------------------------------- loading

/// How many bytes of a program of `len` bytes are copied: the program is
/// copied two bytes at a time, so an odd last byte is left out.
pub open spec fn copied_len(len: int) -> int {
    len - len % 2
}

/// Memory holding the program at address 512, zero elsewhere.
pub open spec fn program_memory(rom: Seq<u8>) -> Seq<u8> {
    Seq::new(
        4096,
        |a: int|
            if 512 <= a < 512 + copied_len(rom.len() as int) {
                rom[a - 512]
            } else {
                0u8
            },
    )
}

/// Copies the program into a zeroed memory at address 512, two bytes at a
/// time. The program must hold at least one byte and fit in memory.
pub fn load_program(rom: &[u8]) -> (memory: [u8; 4096])
    requires
        1 <= rom@.len() <= 3585,
    ensures
        memory@ == program_memory(rom@),
{
    let mut memory: [u8; 4096] = [0u8; 4096];
    let len: usize = rom.len();
    let mut i: usize = 0;
    while i < len - 1
        invariant
            1 <= len <= 3585,
            len == rom@.len(),
            i % 2 == 0,
            i <= len,
            i < len - 1 || i == copied_len(len as int),
            memory@ == Seq::new(
                4096,
                |a: int|
                    if 512 <= a < 512 + i {
                        rom@[a - 512]
                    } else {
                        0u8
                    },
            ),
        decreases len - i,
    {
        memory[512 + i] = rom[i];
        memory[512 + i + 1] = rom[i + 1];
        i = i + 2;
        assert(memory@ =~= Seq::new(
            4096,
            |a: int|
                if 512 <= a < 512 + i {
                    rom@[a - 512]
                } else {
                    0u8
                },
        ));
    }
    assert(memory@ =~= program_memory(rom@));
    memory
}

// ------------------------------------------------------------------ timers

/// A timer after `elapsed_ms` milliseconds: it loses 60 ticks a second,
/// that is 60 thousandths of a tick a millisecond, and stops at zero.
pub open spec fn counted_down(timer: u32, elapsed_ms: u64) -> u32 {
    if timer - 60 * elapsed_ms <= 0 {
        0
    } else {
        (timer - 60 * elapsed_ms) as u32
    }
}

/// Counts a timer down by the milliseconds that have elapsed.
pub fn count_down(timer: u32, elapsed_ms: u64) -> (r: u32)
    ensures
        r == counted_down(timer, elapsed_ms),
{
    if elapsed_ms >= (timer as u64) / 60 + 1 {
        0
    } else {
        ((timer as u64) - 60 * elapsed_ms) as u32
    }
}

/// How long the beep for a sound timer lasts, in milliseconds, rounded to
/// nearest: a tick is 1/60 s.
pub open spec fn beep_millis(timer: u32) -> u64 {
    ((timer + 30) / 60) as u64
}

/// The length of the beep that a sound timer asks for.
pub fn sound_duration(timer: u32) -> (ms: u64)
    ensures
        ms == beep_millis(timer),
{
    ((timer as u64) + 30) / 60
}

// ------------------------------------------------------------------ keypad

/// The hexadecimal value of each keypad key, in the order in which the keys
/// are scanned: 1 2 3 4 / Q W E R / A S D F / Z X C V.
pub open spec fn keypad_values() -> Seq<u8> {
    seq![0x1u8, 0x2, 0x3, 0xC, 0x4, 0x5, 0x6, 0xD, 0x7, 0x8, 0x9, 0xE, 0xA, 0x0, 0xB, 0xF]
}

/// The code that no key gives.
pub const NO_KEY: u8 = 255;

/// The code of the first pressed key, scanning the keys in the order of
/// [`keypad_values`]; `pressed[i]` tells whether key `i` is down.
pub fn keypress_code(pressed: &[bool; 16]) -> (code: u8)
    ensures
        (forall|i: int| 0 <= i < 16 ==> !pressed@[i]) ==> code == NO_KEY,
        forall|i: int|
            0 <= i < 16 && pressed@[i] && (forall|j: int| 0 <= j < i ==> !pressed@[j]) ==> code
                == keypad_values()[i],
{
    let values: [u8; 16] = [0x1, 0x2, 0x3, 0xC, 0x4, 0x5, 0x6, 0xD, 0x7, 0x8, 0x9, 0xE, 0xA, 0x0, 0xB, 0xF];
    assert(values@ =~= keypad_values());
    let mut i: usize = 0;
    while i < 16
        invariant
            i <= 16,
            values@ == keypad_values(),
            forall|j: int| 0 <= j < i ==> !pressed@[j],
        decreases 16 - i,
    {
        if pressed[i] {
            return values[i];
        }
        i = i + 1;
    }
    NO_KEY
}

} // verus!

verus! {

// ---------------------------------------------------------------- emulator

/// The emulator: the machine, its program counter, the instruction being
/// executed and the pause between frames in milliseconds.
pub struct Emulator {
    pub pc: usize,
    pub rf: Chip,
    pub current_instruction: u16,
    pub delay: u64,
}

/// The mathematical value of an [`Emulator`].
#[verifier::ext_equal]
pub struct EmulatorModel {
    pub pc: usize,
    pub rf: ChipModel,
    pub current_instruction: u16,
    pub delay: u64,
}

impl View for Emulator {
    type V = EmulatorModel;

    open spec fn view(&self) -> EmulatorModel {
        EmulatorModel {
            pc: self.pc,
            rf: self.rf@,
            current_instruction: self.current_instruction,
            delay: self.delay,
        }
    }
}

/// The emulator as it starts a program: the font and the program in
/// memory, everything else zero, the program counter at 512 and a pause of
/// one millisecond between frames.
pub open spec fn initial_state(rom: Seq<u8>) -> EmulatorModel {
    EmulatorModel {
        pc: 512,
        rf: ChipModel {
            data_regs: Seq::new(16, |i: int| 0u8),
            address_reg: 0,
            screen_bitmap: Seq::new(2048, |i: int| 0u8),
            memory: font_sprites() + program_memory(rom).subrange(80, 4096),
            stack: Seq::new(16, |i: int| 0u16),
            cls_flag: false,
            draw_flag: false,
            keyboard_flag: false,
            delay_timer: 0,
            sound_timer: 0,
            stack_pointer: 0,
        },
        current_instruction: 0,
        delay: 1,
    }
}

/// The instruction at `pc`, stored big-endian.
pub open spec fn fetch_spec(c: ChipModel, pc: int) -> u16 {
    (c.memory[pc] * 256 + c.memory[pc + 1]) as u16
}

/// The machine after the delay timer has counted down `elapsed_ms`.
pub open spec fn timed(c: ChipModel, elapsed_ms: u64) -> ChipModel {
    ChipModel { delay_timer: counted_down(c.delay_timer, elapsed_ms), ..c }
}

/// Whether a key code names a keypad key (0 to F); `NO_KEY` names none.
pub open spec fn is_key(key: u8) -> bool {
    key < 16
}

/// The keypad's part of a frame, for the instruction `cur` and key code
/// `key`: `Ex9E` and `ExA1` skip on the key (`ExA1` also skips when no key is
/// down); when a key is down, `Fx0A` stores it, and a machine that waits for
/// a key stops waiting and moves past the instruction. With no key down, a
/// waiting machine keeps waiting.
pub open spec fn keypad_spec(c: ChipModel, pc: int, cur: u16, key: u8) -> (ChipModel, int) {
    let x = reg_x(cur);
    let op = opcode(cur);
    let kk = low_byte(cur);
    let after = if op == 14 && kk == 0x9E {
        (c, if key == c.data_regs[x] { pc + 2 } else { pc })
    } else if op == 14 && kk == 0xA1 {
        (c, if key != c.data_regs[x] { pc + 2 } else { pc })
    } else if op == 15 && kk == 0x0A && is_key(key) {
        (with_reg(c, x, key), pc)
    } else {
        (c, pc)
    };
    if after.0.keyboard_flag && is_key(key) {
        (ChipModel { keyboard_flag: false, ..after.0 }, after.1 + 2)
    } else {
        after
    }
}

/// One frame: the delay timer counts down; unless the machine waits for a
/// key, the instruction at the program counter is fetched and executed; the
/// keypad is applied; a running sound timer is
/// stopped and the length of its beep returned.
pub open spec fn update_spec(e: EmulatorModel, elapsed_ms: u64, key: u8, rnd: u8) -> (
    EmulatorModel,
    Option<u64>,
) {
    let c1 = timed(e.rf, elapsed_ms);
    let ins = if c1.keyboard_flag {
        e.current_instruction
    } else {
        fetch_spec(c1, e.pc as int)
    };
    let stepped = if c1.keyboard_flag {
        (c1, e.pc as int)
    } else {
        decode_spec(c1, e.pc as int, ins, rnd)
    };
    let keyed = keypad_spec(stepped.0, stepped.1, ins, key);
    let c = keyed.0;
    if c.sound_timer > 0 {
        (
            EmulatorModel {
                pc: keyed.1 as usize,
                rf: ChipModel { sound_timer: 0, ..c },
                current_instruction: ins,
                delay: e.delay,
            },
            Some(beep_millis(c.sound_timer)),
        )
    } else {
        (
            EmulatorModel { pc: keyed.1 as usize, rf: c, current_instruction: ins, delay: e.delay },
            None,
        )
    }
}

/// The frames that stay within the machine: the instruction to fetch lies
/// in memory and executing it is safe, or the machine waits for a key and
/// its program counter can still move on.
pub open spec fn update_safe(e: EmulatorModel, elapsed_ms: u64) -> bool {
    let c1 = timed(e.rf, elapsed_ms);
    &&& e.rf.sized()
    &&& if c1.keyboard_flag {
        e.pc + 4 <= usize::MAX
    } else {
        &&& e.pc + 1 < 4096
        &&& decode_safe(c1, e.pc as int, fetch_spec(c1, e.pc as int))
    }
}

impl Emulator {
    /// Starts a program: it is copied to address 512, the font to address 0.
    pub fn new(rom: &[u8]) -> (e: Emulator)
        requires
            1 <= rom@.len() <= 3585,
        ensures
            e@ == initial_state(rom@),
    {
        let mut memory = load_program(rom);
        memset_sprite_data(&mut memory);
        let rf = Chip {
            data_regs: [0u8; 16],
            address_reg: 0,
            screen_bitmap: [0u8; 2048],
            cls_flag: false,
            draw_flag: false,
            keyboard_flag: false,
            delay_timer: 0,
            sound_timer: 0,
            memory: memory,
            stack: [0u16; 16],
            stack_pointer: 0,
        };
        let e = Emulator { pc: 512, rf: rf, current_instruction: 0, delay: 1 };
        assert(e@.rf.data_regs =~= initial_state(rom@).rf.data_regs);
        assert(e@.rf.screen_bitmap =~= initial_state(rom@).rf.screen_bitmap);
        assert(e@.rf.stack =~= initial_state(rom@).rf.stack);
        e
    }

    /// Runs one frame with `random` as the byte that `Cxkk` masks; returns
    /// the length in milliseconds of the beep to play, if any.
    pub fn update_with(&mut self, elapsed_ms: u64, keycode: u8, random: u8) -> (sound: Option<u64>)
        requires
            update_safe(old(self)@, elapsed_ms),
        ensures
            final(self)@ == update_spec(old(self)@, elapsed_ms, keycode, random).0,
            sound == update_spec(old(self)@, elapsed_ms, keycode, random).1,
    {
        self.rf.delay_timer = count_down(self.rf.delay_timer, elapsed_ms);
        if !self.rf.keyboard_flag {
            let hi: u8 = self.rf.memory[self.pc];
            let lo: u8 = self.rf.memory[self.pc + 1];
            let b1: u16 = (hi as u16) << 8u16;
            let b2: u16 = lo as u16;
            assert(((hi as u16) << 8u16) | (lo as u16) == hi * 256 + lo) by (bit_vector);
            self.current_instruction = b1 | b2;
            let next_instruction = b1 | b2;
            decode_with(&mut self.rf, &mut self.pc, next_instruction, random);
        }
        let key_down: bool = keycode < 16;
        let f = split_instruction(self.current_instruction);
        let vx = f.x;
        if f.op == 0xE && f.kk == 0x9E {
            if keycode == self.rf.data_regs[vx] {
                self.pc += 2;
            }
        } else if f.op == 0xE && f.kk == 0xA1 {
            if keycode != self.rf.data_regs[vx] {
                self.pc += 2;
            }
        } else if f.op == 0xF && f.kk == 0x0A && key_down {
            self.rf.data_regs[vx] = keycode;
        }
        // without a key the machine keeps waiting
        if self.rf.keyboard_flag && key_down {
            self.rf.keyboard_flag = false;
            self.pc += 2;
        }
        if self.rf.sound_timer > 0 {
            let ms = sound_duration(self.rf.sound_timer);
            self.rf.sound_timer = 0;
            Some(ms)
        } else {
            None
        }
    }

    /// Runs one frame; `Cxkk` draws its random byte from the thread's
    /// generator. The result is what [`update_spec`] gives for some random
    /// byte.
    pub fn update(&mut self, elapsed_ms: u64, keycode: u8) -> (sound: Option<u64>)
        requires
            update_safe(old(self)@, elapsed_ms),
        ensures
            exists|r: u8|
                final(self)@ == #[trigger] update_spec(
                    old(self)@,
                    elapsed_ms,
                    keycode,
                    r,
                ).0 && sound == update_spec(old(self)@, elapsed_ms, keycode, r).1,
    {
        let random: u8 = if !self.rf.keyboard_flag && (self.rf.memory[self.pc] >> 4u8) == 0xC {
            random_byte()
        } else {
            0
        };
        self.update_with(elapsed_ms, keycode, random)
    }

    /// Whether the next frame stays within the machine: the test that a
    /// caller makes before [`Emulator::update`].
    pub fn update_is_safe(&self, elapsed_ms: u64) -> (ok: bool)
        ensures
            ok == update_safe(self@, elapsed_ms),
    {
        if self.rf.keyboard_flag {
            return self.pc <= usize::MAX - 4;
        }
        if self.pc >= 4095 {
            return false;
        }
        let hi: u8 = self.rf.memory[self.pc];
        let lo: u8 = self.rf.memory[self.pc + 1];
        assert(((hi as u16) << 8u16) | (lo as u16) == hi * 256 + lo) by (bit_vector);
        let ins: u16 = ((hi as u16) << 8u16) | (lo as u16);
        if ins == 0x00EE && self.rf.stack_pointer > 16 {
            return false;
        }
        let f = split_instruction(ins);
        let i: usize = self.rf.address_reg as usize;
        let vx: u8 = self.rf.data_regs[f.x];
        if f.op == 0xD {
            let py: u8 = self.rf.data_regs[f.y] % 32;
            let rows: u8 = if f.n < 32 - py {
                f.n
            } else {
                32 - py
            };
            let ok = rows == 0 || i + (rows as usize) <= 4096;
            proof {
                let m = timed(self@.rf, elapsed_ms);
                if ok {
                    assert forall|r: int|
                        0 <= r < f.n && m.data_regs[f.y as int] % 32 + r <= 31 implies #[trigger] (
                        m.address_reg + r) < 4096 by {}
                } else {
                    assert(!(m.address_reg + (rows - 1) < 4096));
                }
            }
            ok
        } else if f.op == 0xF {
            if f.kk == 0x1E {
                i + (vx as usize) <= 65535
            } else if f.kk == 0x29 {
                vx <= 51
            } else if f.kk == 0x33 {
                i + 2 < 4096
            } else if f.kk == 0x55 || f.kk == 0x65 {
                i + f.x < 4096
            } else {
                true
            }
        } else {
            true
        }
    }
}

/// The keys that change how the emulator runs.
#[derive(Clone, Copy, Debug, PartialEq, Eq)]
pub enum ControlKey {
    /// Quits.
    Escape,
    /// Slows the emulator down: five more milliseconds between frames.
    Tab,
    /// Speeds the emulator up: five fewer milliseconds between frames.
    LShift,
    /// Any other key.
    Other,
}

/// The pause between frames after `key` went down: it grows by 5 up to 255
/// and shrinks by 5 down to 0.
pub open spec fn adjusted_delay(delay: u64, key: ControlKey) -> u64 {
    if key == ControlKey::Tab && delay < 251 {
        (delay + 5) as u64
    } else if key == ControlKey::LShift && delay > 4 {
        (delay - 5) as u64
    } else {
        delay
    }
}

impl Emulator {
    /// Handles a key going down: returns whether the emulator should quit,
    /// and adjusts the pause between frames.
    pub fn key_down_event(&mut self, key: ControlKey) -> (quit: bool)
        ensures
            quit == (key == ControlKey::Escape),
            final(self)@ == (EmulatorModel { delay: adjusted_delay(old(self).delay, key), ..old(self)@ }),
    {
        let quit = match key {
            ControlKey::Escape => true,
            _ => false,
        };
        let is_tab = match key {
            ControlKey::Tab => true,
            _ => false,
        };
        let is_lshift = match key {
            ControlKey::LShift => true,
            _ => false,
        };
        if is_tab && (self.delay < 251) {
            self.delay += 5;
        }
        if is_lshift && (self.delay > 4) {
            self.delay -= 5;
        }
        quit
    }
}

// ----------------------------------------------------------------- drawing

/// Byte `j` of the RGBA image of the screen: a lit pixel is opaque green,
/// a dark one opaque black.
pub open spec fn rgba_byte(bitmap: Seq<u8>, j: int) -> u8 {
    let channel = j % 4;
    if channel == 1 {
        if bitmap[j / 4] != 0 {
            255u8
        } else {
            0u8
        }
    } else if channel == 3 {
        255u8
    } else {
        0u8
    }
}

/// The 64x32 RGBA image of a screen.
pub open spec fn rgba_image(bitmap: Seq<u8>) -> Seq<u8> {
    Seq::new(4 * bitmap.len(), |j: int| rgba_byte(bitmap, j))
}

/// Builds the RGBA image of the screen, four bytes a pixel.
pub fn screen_rgba(bitmap: &[u8; 2048]) -> (image: Vec<u8>)
    ensures
        image@ == rgba_image(bitmap@),
{
    let mut image: Vec<u8> = Vec::new();
    for i in 0..2048
        invariant
            image@.len() == 4 * i,
            forall|j: int| 0 <= j < 4 * i ==> image@[j] == rgba_byte(bitmap@, j),
    {
        let mut set_val: u8 = 0;
        if bitmap[i] != 0 {
            set_val = 255;
        }
        image.push(0);
        image.push(set_val);
        image.push(0);
        image.push(255);
        assert forall|j: int| 4 * i <= j < 4 * i + 4 implies image@[j] == rgba_byte(bitmap@, j) by {
            assert(j / 4 == i);
        }
    }
    assert(image@ =~= rgba_image(bitmap@));
    image
}

/// What the window shows after a frame.
pub struct Frame {
    /// Clear the window to black first.
    pub clear: bool,
    /// The new screen image, if the frame drew.
    pub pixels: Option<Vec<u8>>,
}

impl Emulator {
    /// The window's part of a frame: clear it if the screen was cleared,
    /// and show the screen's image if something was drawn.
    pub fn draw(&self) -> (frame: Frame)
        ensures
            frame.clear == self.rf.cls_flag,
            frame.pixels is Some == self.rf.draw_flag,
            frame.pixels matches Some(p) ==> p@ == rgba_image(self.rf.screen_bitmap@),
    {
        let pixels = if self.rf.draw_flag {
            Some(screen_rgba(&self.rf.screen_bitmap))
        } else {
            None
        };
        Frame { clear: self.rf.cls_flag, pixels }
    }
}

} // verus!
