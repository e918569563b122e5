//! A verified CHIP-8 core: an instruction decoder that turns raw 16-bit
//! opcodes into micro-programs of intermediate-language (IL) operations, and
//! an execution engine that runs those micro-programs over a typed operand
//! stack against an abstract machine-state interface.
//!
//! The machine-state interface (`state::Chip8State`) is the only boundary to
//! the outside world; `machine::Machine` is a verified, headless
//! implementation of it. `decode` produces micro-programs, `exec` runs them
//! one operation at a time, `driver` runs one whole fetch-execute cycle,
//! `typing` proves every decoded micro-program well-typed, and `laws` states
//! and proves the core's guarantees.

pub mod state;
pub mod il;
pub mod semantics;
pub mod decode;
pub mod exec;
pub mod machine;
pub mod driver;
pub mod typing;
pub mod laws;
