//! The bytecode that the compiler emits and the virtual machine runs.

pub mod builder;
pub mod chunk;
pub mod instruction;
pub mod op;
pub mod reader;

pub use builder::ChunkBuilder;
pub use chunk::{Chunk, SpanEntry};
pub use instruction::{Instruction, ReadError};
pub use op::Op;
pub use reader::{bytecode_to_string, Bytecode, InstructionReader};
