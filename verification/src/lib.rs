//! The container format of compiled programs for a stack-based virtual machine:
//! the in-memory tables a compiler fills, and their canonical byte stream.
//!
//! Every multi-byte number in the stream is big-endian.

pub mod error;
pub mod wire;
pub mod opcode;
pub mod literal;
pub mod clock;
pub mod chunk;
pub mod matching;
pub mod container;
pub mod laws;

pub use chunk::Chunk;
pub use container::Bytecode;
pub use error::EncodeError;
pub use literal::Literal;
pub use matching::{Match, Pattern};
pub use opcode::OpCode;
