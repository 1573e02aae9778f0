pub mod bytes;
pub mod stack;
pub mod text;
pub mod memory_lane;
pub mod opcode;
pub mod program;
pub mod semantics;
pub mod vm;
pub mod host;
pub mod lex;
pub mod syntax;
pub mod frontend;
pub mod cli;
pub mod perf_profile;
