//! A verified core for a language-server shim around the Bluespec compiler.
//!
//! The compiler reports errors and warnings as free text on its error stream.
//! This library turns that stream into structured diagnostics — severity,
//! zero-based source position, accumulated message body — and decides, per
//! document lifecycle event, when the compiler is re-run and what is published
//! back to the editor. Running the compiler and speaking the editor protocol
//! are left to the unverified program around this library; everything here is
//! plain text processing with proved contracts.

pub mod extract;
pub mod position;
pub mod session;
pub mod text;

pub use extract::collect_diagnostics;
pub use extract::Diagnostic;
pub use extract::Severity;
pub use position::get_column_nr;
pub use position::get_line_nr;
