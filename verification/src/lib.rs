//! BanditRS: the decision logic of a security-oriented static analyser for
//! Python code, verified with Verus.

pub mod constants;
pub mod ast;
pub mod engine;
pub mod formatters;
pub mod cli;
pub mod log;
pub mod pycompat;
pub mod source;
pub mod text;
pub mod fx;
