//! A two-pass assembler for a small 4-register, 8-bit accumulator machine.
//!
//! Source text goes in, an ordered list of 8-character binary words comes out.
//! Every stage is specified by spec functions over sequences of characters and
//! proved against them; `driver::assemble` is the whole pipeline.

pub mod driver;
pub mod error;
pub mod instruction;
pub mod labels;
pub mod laws;
pub mod parser;
pub mod register;
pub mod text;
