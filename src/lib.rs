//! Core of a small stack-based bytecode virtual machine: the value type, the
//! instruction set, the chunk format, a disassembler, the execution engine and
//! the lexer that feeds the front end.
pub mod chunk;
pub mod compiler;
pub mod disassembler;
pub mod opcode;
pub mod scanner;
pub mod token;
pub mod value;
pub mod value_array;
pub mod vm;

pub use chunk::Chunk;
pub use compiler::{compile, Parser};
pub use disassembler::{dissamble_chunk, Instruction, InstructionKind};
pub use opcode::OpCode;
pub use scanner::{Error, Scanner};
pub use token::{Token, TokenType};
pub use value::Value;
pub use value_array::ValueArray;
pub use vm::{Arithmetic, InterpretError, InterpretResult, Outcome, VM};
