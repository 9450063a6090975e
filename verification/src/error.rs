//! The failures the engine reports, and the text each one carries.

use vstd::prelude::*;
use vstd::string::*;

verus! {

/// Why a text could not be read as a field element.
#[derive(Clone, Copy, Debug, PartialEq, Eq, Structural)]
pub enum FromStrError {
    InvalidCharacter,
    OutOfRange,
}

/// Why a short string could not be packed into a field element.
#[derive(Clone, Copy, Debug, PartialEq, Eq, Structural)]
pub enum CairoShortStringToFeltError {
    NonAsciiCharacter,
    StringTooLong,
}

/// Why a byte slice could not be read as a field element.
#[derive(Clone, Copy, Debug, PartialEq, Eq, Structural)]
pub enum FromByteSliceError {
    InvalidLength,
    OutOfRange,
}

/// Why a text could not be decoded as hex.
#[derive(Clone, Copy, Debug, PartialEq, Eq, Structural)]
pub enum FromHexError {
    InvalidHexCharacter { c: char, index: usize },
    OddLength,
    InvalidStringLength,
}

/// A value that does not convert to the encoding it is stored or sent in.
#[derive(Clone, Copy, Debug, PartialEq, Eq, Structural)]
pub enum ParseError {
    FromStr(FromStrError),
    CairoShortStringToFelt(CairoShortStringToFeltError),
    FromByteSliceError(FromByteSliceError),
    FromHex(FromHexError),
}

/// The text that the hex decoder writes for a character that is no hex
/// digit, found at the given place.
pub uninterp spec fn invalid_hex_character_text(c: char, index: usize) -> Seq<char>;

/// A failure of the relational store: whether it was the absence of a
/// row that a query expected, and the store's own description of it.
#[derive(Clone, Debug, PartialEq, Eq)]
pub struct SqlError {
    pub row_not_found: bool,
    pub message: String,
}

/// Everything that can go wrong inside one RPC call.
#[derive(Clone, Debug, PartialEq, Eq)]
pub enum Error {
    Parse(ParseError),
    Sql(SqlError),
    UnsupportedQuery,
}

impl FromStrError {
    /// The text of this error.
    pub open spec fn text(self) -> Seq<char> {
        match self {
            FromStrError::InvalidCharacter => "invalid character"@,
            FromStrError::OutOfRange => "number out of range"@,
        }
    }

    /// `to_string` on `starknet::core::types::FromStrError`: the text that its
    /// `Display` impl writes for the variant of the same name.
    #[verifier::external_body]
    fn render(&self) -> (r: String)
        ensures
            r@ == self.text(),
    {
        match self {
            FromStrError::InvalidCharacter => {
                starknet::core::types::FromStrError::InvalidCharacter.to_string()
            },
            FromStrError::OutOfRange => starknet::core::types::FromStrError::OutOfRange.to_string(),
        }
    }

    /// The text of this error.
    pub fn message(&self) -> (r: String)
        ensures
            r@ == self.text(),
    {
        self.render()
    }
}

impl CairoShortStringToFeltError {
    /// The text of this error.
    pub open spec fn text(self) -> Seq<char> {
        match self {
            CairoShortStringToFeltError::NonAsciiCharacter => {
                "Cairo string can only contain ASCII characters"@
            },
            CairoShortStringToFeltError::StringTooLong => {
                "short string exceeds maximum length of 31 characters"@
            },
        }
    }

    /// `to_string` on `starknet::core::utils::CairoShortStringToFeltError`: the
    /// text that its `Display` impl writes for the variant of the same name.
    #[verifier::external_body]
    fn render(&self) -> (r: String)
        ensures
            r@ == self.text(),
    {
        match self {
            CairoShortStringToFeltError::NonAsciiCharacter => {
                starknet::core::utils::CairoShortStringToFeltError::NonAsciiCharacter.to_string()
            },
            CairoShortStringToFeltError::StringTooLong => {
                starknet::core::utils::CairoShortStringToFeltError::StringTooLong.to_string()
            },
        }
    }

    /// The text of this error.
    pub fn message(&self) -> (r: String)
        ensures
            r@ == self.text(),
    {
        self.render()
    }
}

impl FromByteSliceError {
    /// The text of this error.
    pub open spec fn text(self) -> Seq<char> {
        match self {
            FromByteSliceError::InvalidLength => "invalid length"@,
            FromByteSliceError::OutOfRange => "number out of range"@,
        }
    }

    /// `to_string` on `starknet::core::types::FromByteSliceError`: the text
    /// that its `Display` impl writes for the variant of the same name.
    #[verifier::external_body]
    fn render(&self) -> (r: String)
        ensures
            r@ == self.text(),
    {
        match self {
            FromByteSliceError::InvalidLength => {
                starknet::core::types::FromByteSliceError::InvalidLength.to_string()
            },
            FromByteSliceError::OutOfRange => {
                starknet::core::types::FromByteSliceError::OutOfRange.to_string()
            },
        }
    }

    /// The text of this error.
    pub fn message(&self) -> (r: String)
        ensures
            r@ == self.text(),
    {
        self.render()
    }
}

impl FromHexError {
    /// The text of this error.
    pub open spec fn text(self) -> Seq<char> {
        match self {
            FromHexError::InvalidHexCharacter { c, index } => invalid_hex_character_text(c, index),
            FromHexError::OddLength => "Odd number of digits"@,
            FromHexError::InvalidStringLength => "Invalid string length"@,
        }
    }

    /// `to_string` on `hex::FromHexError`: the text that its `Display` impl
    /// writes for the variant of the same name. For a character that is no
    /// hex digit the text holds the character as `Debug` writes it, and its
    /// place; that text is named, not spelled out.
    #[verifier::external_body]
    fn render(&self) -> (r: String)
        ensures
            r@ == self.text(),
            *self matches FromHexError::InvalidHexCharacter { c, index } ==> r@
                == invalid_hex_character_text(c, index),
    {
        match *self {
            FromHexError::InvalidHexCharacter { c, index } => {
                hex::FromHexError::InvalidHexCharacter { c, index }.to_string()
            },
            FromHexError::OddLength => hex::FromHexError::OddLength.to_string(),
            FromHexError::InvalidStringLength => hex::FromHexError::InvalidStringLength.to_string(),
        }
    }

    /// The text of this error.
    pub fn message(&self) -> (r: String)
        ensures
            r@ == self.text(),
    {
        self.render()
    }
}

impl ParseError {
    /// The text of this error: that of the conversion that failed.
    pub open spec fn text(self) -> Seq<char> {
        match self {
            ParseError::FromStr(e) => e.text(),
            ParseError::CairoShortStringToFelt(e) => e.text(),
            ParseError::FromByteSliceError(e) => e.text(),
            ParseError::FromHex(e) => e.text(),
        }
    }

    /// The text of this error.
    pub fn message(&self) -> (r: String)
        ensures
            r@ == self.text(),
    {
        match self {
            ParseError::FromStr(e) => e.message(),
            ParseError::CairoShortStringToFelt(e) => e.message(),
            ParseError::FromByteSliceError(e) => e.message(),
            ParseError::FromHex(e) => e.message(),
        }
    }
}

impl Error {
    /// The text of this error, as a client reads it.
    pub open spec fn text(self) -> Seq<char> {
        match self {
            Error::Parse(e) => "parsing error: "@ + e.text(),
            Error::Sql(e) => e.message@,
            Error::UnsupportedQuery => "unsupported query clause"@,
        }
    }

    /// Whether this is the store saying that an expected row is absent.
    pub open spec fn is_row_not_found(self) -> bool {
        self matches Error::Sql(e) && e.row_not_found
    }

    /// A second value of this error.
    pub fn duplicate(&self) -> (r: Error)
        ensures
            r == *self,
    {
        match self {
            Error::Parse(e) => Error::Parse(*e),
            Error::Sql(e) => Error::Sql(
                SqlError { row_not_found: e.row_not_found, message: e.message.clone() },
            ),
            Error::UnsupportedQuery => Error::UnsupportedQuery,
        }
    }

    /// The text of this error, as a client reads it.
    pub fn message(&self) -> (r: String)
        ensures
            r@ == self.text(),
    {
        match self {
            Error::Parse(e) => {
                let detail = e.message();
                String::from_str("parsing error: ").concat(detail.as_str())
            },
            Error::Sql(e) => e.message.clone(),
            Error::UnsupportedQuery => String::from_str("unsupported query clause"),
        }
    }
}

} // verus!
