//! A verified CHIP-8 virtual machine core: the fetch/decode/execute engine
//! and the state it mutates, proved against a specification-level transition
//! function.  Window handling, rendering, key mapping and file reading are
//! left to the caller, which feeds program bytes in, writes the key states,
//! drives the cycle engine, and reads the framebuffer back out.

pub mod laws;
pub mod model;
pub mod vm;

pub use model::Chip8Error;
pub use model::VmView;
pub use vm::Chip8;
