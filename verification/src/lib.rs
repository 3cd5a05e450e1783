//! Verified parsing of ELF object files from in-memory bytes.
//!
//! The crate is organised leaf to root: a byte-order codec
//! ([`endian`]), a byte-castable contract ([`pod`]), endian-tagged
//! integer wrappers ([`primitive`]), a bounds-checked byte source
//! ([`reader`]), and the ELF header structures with the parser that
//! dispatches over word width and byte order ([`elf`]).  Around them
//! stand the helpers the renderings use: named constants
//! ([`constant`]), plain-text tables ([`table`]), ASCII text
//! building ([`text`]), a hex-literal text parser for writing byte
//! buffers by hand ([`hex`]), and literal classification
//! ([`literal`]).

pub mod constant;
pub mod either;
pub mod elf;
pub mod endian;
pub mod error;
pub mod hex;
pub mod literal;
pub mod pod;
pub mod primitive;
pub mod reader;
pub mod table;
pub mod text;
