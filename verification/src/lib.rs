//! A single-pass translator from a stack-machine instruction language to
//! 16-bit register/memory assembly text.
//!
//! The crate has two verified components: an instruction classifier that
//! turns source lines into typed commands, and a template-based emitter
//! that renders each command as an assembly block while keeping the
//! run-wide counters that make generated labels globally unique.
pub mod code_writer;
pub mod instr;
pub mod laws;
pub mod parser;
pub mod prelude;
pub mod templates;
pub mod text;

pub use code_writer::{translate, CodeWriterClass};
pub use parser::{classify_line, ParserClass};
pub use prelude::{Command, Segment, State, TranslateError};
pub use text::u64_to_string;
