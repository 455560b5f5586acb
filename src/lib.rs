//! A class-file decoder and a small stack-machine interpreter.
//!
//! `bytes` reads big-endian fields, `pool`, `flags` and `attributes` decode
//! the parts of a class file, `header` assembles them, and `loader` resolves
//! the result into a `Class`. `interpret`, `vm` and `env` run instruction
//! bytes against an operand stack.
pub mod error;
pub mod bytes;
pub mod pool;
pub mod flags;
pub mod attributes;
pub mod annotations;
pub mod header;
pub mod loader;
pub mod interpret;
pub mod vm;
pub mod env;
