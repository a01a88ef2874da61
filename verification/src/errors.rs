//! Error values returned by the codec.

use vstd::prelude::*;

verus! {

/// Failures of the integer-to-numeral direction.
#[derive(Clone, Copy, Debug, PartialEq, Eq, Structural)]
pub enum EncodeError {
    /// Zero has no Roman representation; the numeral domain is strictly
    /// positive.
    ZeroValue,
    /// A tier index beyond the defined symbol table was requested.
    UnsupportedTier,
    /// A digit outside 1..=9 was handed to the per-tier glyph builder.
    UnsupportedDigit,
}

/// Failures of the numeral-to-integer direction.
#[derive(Clone, Copy, Debug, PartialEq, Eq, Structural)]
pub enum DecodeError {
    /// A token of the input is not a glyph of the value table.
    UnknownGlyph,
    /// The running total would go negative while resolving a subtractive
    /// pair.
    MalformedNumeral,
    /// The resolved value does not fit in an unsigned 64-bit integer.
    Overflow,
    /// The input resolves to zero (in particular, the empty string); zero
    /// is outside the numeral domain.
    ZeroResult,
}

impl EncodeError {
    /// A human-readable description of the error.
    pub fn message(&self) -> (r: &'static str)
        ensures
            r@ == self.spec_message(),
    {
        match self {
            EncodeError::ZeroValue => "zero has no numeral",
            EncodeError::UnsupportedTier => "tier outside the symbol table",
            EncodeError::UnsupportedDigit => "digit outside 1..=9",
        }
    }

    /// What `message` returns.
    pub open spec fn spec_message(&self) -> Seq<char> {
        match self {
            EncodeError::ZeroValue => "zero has no numeral"@,
            EncodeError::UnsupportedTier => "tier outside the symbol table"@,
            EncodeError::UnsupportedDigit => "digit outside 1..=9"@,
        }
    }
}

impl DecodeError {
    /// A human-readable description of the error.
    pub fn message(&self) -> (r: &'static str)
        ensures
            r@ == self.spec_message(),
    {
        match self {
            DecodeError::UnknownGlyph => "unknown glyph",
            DecodeError::MalformedNumeral => "malformed numeral",
            DecodeError::Overflow => "value exceeds the supported range",
            DecodeError::ZeroResult => "numeral resolves to zero",
        }
    }

    /// What `message` returns.
    pub open spec fn spec_message(&self) -> Seq<char> {
        match self {
            DecodeError::UnknownGlyph => "unknown glyph"@,
            DecodeError::MalformedNumeral => "malformed numeral"@,
            DecodeError::Overflow => "value exceeds the supported range"@,
            DecodeError::ZeroResult => "numeral resolves to zero"@,
        }
    }
}

} // verus!
