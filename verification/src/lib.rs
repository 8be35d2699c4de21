//! A bridge between a dynamically typed host and a strictly typed expression
//! engine: value marshalling, context assembly, numeric-compatibility
//! rewriting of expressions, and the wording of engine failures for the host.
//!
//! The engine itself is not part of this library. The caller parses,
//! compiles and executes; the library decides what is parsed, compiled and
//! installed, and what the host is given in the end.

pub mod ast;
pub mod bridge;
pub mod context;
pub mod diagnostics;
pub mod error;
pub mod evaluation;
pub mod float;
pub mod host;
pub mod local_time;
pub mod mode;
pub mod optional;
pub mod promotion;
pub mod rewrite;
pub mod text;
pub mod trampoline;
pub mod value;

pub use context::Context;
pub use error::CelError;
pub use mode::EvaluationMode;
