//! Fixed-width integers held as explicit bit sequences, with two's-complement
//! negation and rendering in binary, octal, decimal and hexadecimal.

pub mod bits;
pub mod integer;
pub mod format;
pub mod parse;
pub mod cli;
pub mod laws;
