//! The machine state: registers, memory, call stack, display and timers.
use vstd::prelude::*;

verus! {

/// The timers count in thousandths of a tick: a timer set to `v` holds
/// `v * TIMER_SCALE`, and it loses `TIMER_SCALE` every 1/60 s.
pub const TIMER_SCALE: u32 = 1000;

/// All registers, memory, stack and display of the machine.
pub struct Chip {
    /// The sixteen 8-bit data registers V0-VF.
    pub data_regs: [u8; 16],
    /// The address register I.
    pub address_reg: u16,
    /// The display, row by row; a pixel is lit when it is nonzero.
    pub screen_bitmap: [u8; 2048],
    /// Program memory.
    pub memory: [u8; 4096],
    /// Return addresses of the calls in progress.
    pub stack: [u16; 16],
    /// Set by the instruction that cleared the screen.
    pub cls_flag: bool,
    /// Set by the instruction that drew on the screen.
    pub draw_flag: bool,
    /// Set while the machine waits for a key.
    pub keyboard_flag: bool,
    /// The delay timer, in thousandths of a tick.
    pub delay_timer: u32,
    /// The sound timer, in thousandths of a tick.
    pub sound_timer: u32,
    /// Number of entries of `stack` in use.
    pub stack_pointer: usize,
}

/// The mathematical value of a [`Chip`]: each array as a sequence.
#[verifier::ext_equal]
pub struct ChipModel {
    pub data_regs: Seq<u8>,
    pub address_reg: u16,
    pub screen_bitmap: Seq<u8>,
    pub memory: Seq<u8>,
    pub stack: Seq<u16>,
    pub cls_flag: bool,
    pub draw_flag: bool,
    pub keyboard_flag: bool,
    pub delay_timer: u32,
    pub sound_timer: u32,
    pub stack_pointer: usize,
}

impl View for Chip {
    type V = ChipModel;

    open spec fn view(&self) -> ChipModel {
        ChipModel {
            data_regs: self.data_regs@,
            address_reg: self.address_reg,
            screen_bitmap: self.screen_bitmap@,
            memory: self.memory@,
            stack: self.stack@,
            cls_flag: self.cls_flag,
            draw_flag: self.draw_flag,
            keyboard_flag: self.keyboard_flag,
            delay_timer: self.delay_timer,
            sound_timer: self.sound_timer,
            stack_pointer: self.stack_pointer,
        }
    }
}

impl ChipModel {
    /// The sequences have the sizes of the machine's arrays.
    pub open spec fn sized(self) -> bool {
        &&& self.data_regs.len() == 16
        &&& self.screen_bitmap.len() == 2048
        &&& self.memory.len() == 4096
        &&& self.stack.len() == 16
    }

    /// The sequences have the sizes of the machine's arrays and the stack
    /// pointer stays within the stack.
    pub open spec fn wf(self) -> bool {
        &&& self.sized()
        &&& self.stack_pointer <= 16
    }

    /// Every pixel is either dark (0) or lit (255).
    pub open spec fn screen_is_binary(self) -> bool {
        forall|i: int|
            0 <= i < self.screen_bitmap.len() ==> (#[trigger] self.screen_bitmap[i] == 0
                || self.screen_bitmap[i] == 255)
    }
}

impl Chip {
    /// The machine is well formed: the stack pointer stays within the stack.
    pub open spec fn wf(&self) -> bool {
        self@.wf()
    }
}

/// The built-in hexadecimal font: five bytes per digit, digits 0 to F.
pub open spec fn font_sprites() -> Seq<u8> {
    seq![
        0xF0u8, 0x90, 0x90, 0x90, 0xF0,  // 0
        0x20, 0x60, 0x20, 0x20, 0x70,  // 1
        0xF0, 0x10, 0xF0, 0x80, 0xF0,  // 2
        0xF0, 0x10, 0xF0, 0x10, 0xF0,  // 3
        0x90, 0x90, 0xF0, 0x10, 0x10,  // 4
        0xF0, 0x80, 0xF0, 0x10, 0xF0,  // 5
        0xF0, 0x80, 0xF0, 0x90, 0xF0,  // 6
        0xF0, 0x10, 0x20, 0x40, 0x40,  // 7
        0xF0, 0x90, 0xF0, 0x90, 0xF0,  // 8
        0xF0, 0x90, 0xF0, 0x10, 0xF0,  // 9
        0xF0, 0x90, 0xF0, 0x90, 0x90,  // A
        0xE0, 0x90, 0xE0, 0x90, 0xE0,  // B
        0xF0, 0x80, 0x80, 0x80, 0xF0,  // C
        0xE0, 0x90, 0x90, 0x90, 0xE0,  // D
        0xF0, 0x80, 0xF0, 0x80, 0xF0,  // E
        0xF0, 0x80, 0xF0, 0x80, 0x80,  // F
    ]
}

/// Writes the font into the first 80 bytes of memory and leaves the rest
/// as it was.
pub fn memset_sprite_data(mem: &mut [u8; 4096])
    ensures
        final(mem)@ == font_sprites() + old(mem)@.subrange(80, 4096),
{
    // "0"
    mem[0] = 0xF0;
    mem[1] = 0x90;
    mem[2] = 0x90;
    mem[3] = 0x90;
    mem[4] = 0xF0;
    // "1"
    mem[5] = 0x20;
    mem[6] = 0x60;
    mem[7] = 0x20;
    mem[8] = 0x20;
    mem[9] = 0x70;
    // "2"
    mem[10] = 0xF0;
    mem[11] = 0x10;
    mem[12] = 0xF0;
    mem[13] = 0x80;
    mem[14] = 0xF0;
    // "3"
    mem[15] = 0xF0;
    mem[16] = 0x10;
    mem[17] = 0xF0;
    mem[18] = 0x10;
    mem[19] = 0xF0;
    // "4"
    mem[20] = 0x90;
    mem[21] = 0x90;
    mem[22] = 0xF0;
    mem[23] = 0x10;
    mem[24] = 0x10;
    // "5"
    mem[25] = 0xF0;
    mem[26] = 0x80;
    mem[27] = 0xF0;
    mem[28] = 0x10;
    mem[29] = 0xF0;
    // "6"
    mem[30] = 0xF0;
    mem[31] = 0x80;
    mem[32] = 0xF0;
    mem[33] = 0x90;
    mem[34] = 0xF0;
    // "7"
    mem[35] = 0xF0;
    mem[36] = 0x10;
    mem[37] = 0x20;
    mem[38] = 0x40;
    mem[39] = 0x40;
    // "8"
    mem[40] = 0xF0;
    mem[41] = 0x90;
    mem[42] = 0xF0;
    mem[43] = 0x90;
    mem[44] = 0xF0;
    // "9"
    mem[45] = 0xF0;
    mem[46] = 0x90;
    mem[47] = 0xF0;
    mem[48] = 0x10;
    mem[49] = 0xF0;
    // "A"
    mem[50] = 0xF0;
    mem[51] = 0x90;
    mem[52] = 0xF0;
    mem[53] = 0x90;
    mem[54] = 0x90;
    // "B"
    mem[55] = 0xE0;
    mem[56] = 0x90;
    mem[57] = 0xE0;
    mem[58] = 0x90;
    mem[59] = 0xE0;
    // "C"
    mem[60] = 0xF0;
    mem[61] = 0x80;
    mem[62] = 0x80;
    mem[63] = 0x80;
    mem[64] = 0xF0;
    // "D"
    mem[65] = 0xE0;
    mem[66] = 0x90;
    mem[67] = 0x90;
    mem[68] = 0x90;
    mem[69] = 0xE0;
    // "E"
    mem[70] = 0xF0;
    mem[71] = 0x80;
    mem[72] = 0xF0;
    mem[73] = 0x80;
    mem[74] = 0xF0;
    // "F"
    mem[75] = 0xF0;
    mem[76] = 0x80;
    mem[77] = 0xF0;
    mem[78] = 0x80;
    mem[79] = 0x80;
    assert(mem@ =~= font_sprites() + old(mem)@.subrange(80, 4096));
}

} // verus!
