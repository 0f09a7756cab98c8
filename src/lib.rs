//! A CHIP-8 interpreter core: machine state, opcode semantics and the
//! fetch-execute-tick cycle, with the 16-key keypad state it reads.
pub mod chip8;
pub mod input;
pub mod laws;
pub mod semantics;
