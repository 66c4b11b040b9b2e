//! A CHIP-8 interpreter core: the register file, memory, call stack and
//! monochrome display of the virtual machine, the instruction decoder that
//! steps it, and the frame logic (timers, keypad, rendering) of the host loop.
pub mod chip;
pub mod isa;
pub mod decode;
pub mod machine;
pub mod laws;
