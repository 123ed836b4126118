//! Instruments function definitions with tracing spans: validates the
//! options of the `trace` attribute, finds the functions to instrument and
//! their shape, and rewrites each into a function that enters its span.
pub mod analyze;
pub mod lower;
pub mod parse;
pub mod syntax;
pub mod text;
