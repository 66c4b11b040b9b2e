# chip8_emu

A CHIP-8 emulator whose core is verified with Verus.

The virtual machine has 4096 bytes of memory (the font in the first 80,
programs from address 512), sixteen 8-bit registers V0-VF, an address
register I, a sixteen-entry call stack, a delay and a sound timer, a
hexadecimal keypad and a 64x32 monochrome display.

Layout:

- `src/chip.rs`: the machine state `Chip`, its model `ChipModel`, the font.
- `src/isa.rs`: instruction fields and `decode_spec`, the meaning of every
  instruction over the model.
- `src/decode.rs`: `decode`, which executes one instruction, proved to do
  what `decode_spec` says.
- `src/machine.rs`: the host loop's logic: loading a program, one frame
  (timers, fetch, decode, keypad, sound), the speed keys and the screen image.
- `src/laws.rs`: properties across instructions and frames (call/return,
  drawing twice, store/load, carries, timers, keypad).
- `app/main.rs`: the window, keyboard, sound and file reading (ggez).

Timers are kept in thousandths of a tick (a tick is 1/60 s), so that they
count down by whole numbers: 60 per elapsed millisecond.

Keys: 1234/QWER/ASDF/ZXCV form the keypad; Tab slows the emulator down,
Left Shift speeds it up, Escape quits.
