//! Roman numerals in vinculum notation.
//!
//! Converts unsigned 64-bit integers to Roman numerals extended with
//! vinculum markings (overlines, underlines and vertical strokes that
//! multiply a glyph's value by powers of one thousand) and back.

pub mod decode;
pub mod encode;
pub mod errors;
pub mod glyphs;
pub mod laws;
pub mod seq_util;

pub use decode::vinculum2arabic;
pub use encode::{arabic2vinculum, make_vinculum, make_vinculum_number};
pub use errors::{DecodeError, EncodeError};
pub use glyphs::value;
