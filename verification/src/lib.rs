//! The runtime core of the Koto scripting language: the constant pool shared
//! by compiler and virtual machine, the bytecode format, the value model, and
//! the core library that scripts call into.
//!
//! The library holds no floating point number. A number of the language is
//! held by the bit pattern of its 64-bit float, and what the library does
//! with numbers it does on their bits (see `number`).

pub mod bytecode;
pub mod cli;
pub mod constant_pool;
pub mod core_lib;
pub mod error;
pub mod json;
pub mod number;
pub mod runtime;
pub mod sort;
pub mod text;
pub mod value;
pub mod value_iterator;
pub mod value_map;

pub use bytecode::{bytecode_to_string, Bytecode, Chunk, Instruction, InstructionReader, Op};
pub use constant_pool::{Constant, ConstantIndex, ConstantPool, ConstantPoolBuilder};
pub use core_lib::CoreLib;
pub use error::{ParserError, Position, Span};
pub use runtime::{Error, LoaderError, RuntimeResult};
pub use value::{
    type_as_string, value_is_immutable, ExternalFunction, IntRange, RuntimeFunction, Value,
    ValueIterator, ValueMap,
};
pub use value_iterator::ValueIteratorOutput;
