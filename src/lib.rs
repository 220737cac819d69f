//! Compiles blocks of Python embedded in Rust macro invocations: rebuilds the
//! Python source from the host tokens with its indentation and line numbers
//! kept, replaces captured Rust variables by placeholder names, and maps
//! errors of the Python service back onto the host tokens they came from.

pub mod block;
pub mod capture;
pub mod diagnostic;
pub mod laws;
pub mod report;
pub mod source;
pub mod spans;
mod text;
pub mod token;
