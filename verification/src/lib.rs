//! An interpreter for a tiny tape-machine language written with keywords.
//!
//! A program is a whitespace/semicolon-delimited stream of the keywords
//! `i`, `use`, `arch`, `linux`, `btw`, `by`, `the`, `way` and `gentoo`.
//! The machine owns a fixed tape of 65536 byte cells and a data pointer
//! into it; tokens move the pointer (saturating at the tape edges),
//! change the current cell (wrapping modulo 256), write or read one byte,
//! or form loops through counter-based bracket matching.
//!
//! The `tokenizer` module turns source text into tokens; the `machine`
//! module executes them; the `laws` module states and proves the
//! properties the machine keeps over whole runs.

pub mod laws;
pub mod machine;
pub mod tokenizer;
