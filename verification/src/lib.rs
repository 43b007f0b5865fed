//! A CHIP-8 virtual machine core: instruction decoding, the opcode rule
//! table, the machine state and its executor, the display buffer and the
//! debounced key state.

pub mod alu;
pub mod executor;
pub mod guest_graphics;
pub mod host_graphics;
pub mod instruction;
pub mod machine;
pub mod opcode;
pub mod render;
