//! Reader for a line-oriented, integer-indexed interchange format of
//! dependently-typed terms, with a checked term arena and a printer.
pub mod text;
pub mod environment;
pub mod parser;
pub mod theorems;
