//! Field elements as the engine sees them: 32 big-endian bytes.

use crate::error::{CairoShortStringToFeltError, FromByteSliceError};
use vstd::prelude::*;
use vstd::utf8::is_ascii_chars;

verus! {

/// A field element, held as 32 bytes, most significant first.
#[derive(Clone, Copy, Debug, PartialEq, Eq)]
pub struct Felt {
    pub bytes: [u8; 32],
}

/// The modulus of the field: 2^251 + 17 * 2^192 + 1.
pub open spec fn field_modulus() -> nat {
    0x800000000000011000000000000000000000000000000000000000000000001nat
}

/// The number that a run of bytes spells, most significant byte first.
pub open spec fn be_value(bytes: Seq<u8>) -> nat
    decreases bytes.len(),
{
    if bytes.len() == 0 {
        0
    } else {
        be_value(bytes.drop_last()) * 256 + bytes.last() as nat
    }
}

/// `bytes` behind as many zero bytes as fill 32 places.
pub open spec fn left_padded(bytes: Seq<u8>) -> Seq<u8>
    recommends
        bytes.len() <= 32,
{
    Seq::new((32 - bytes.len()) as nat, |i: int| 0u8) + bytes
}

/// The bytes of a text whose characters are all ASCII.
pub open spec fn ascii_bytes(text: Seq<char>) -> Seq<u8> {
    Seq::new(text.len(), |i: int| text[i] as u8)
}

/// What a short string packs to: an error, or the 32 bytes of the element.
pub open spec fn short_string_felt(text: Seq<char>) -> Result<
    Seq<u8>,
    CairoShortStringToFeltError,
> {
    if !is_ascii_chars(text) {
        Err(CairoShortStringToFeltError::NonAsciiCharacter)
    } else if text.len() > 31 {
        Err(CairoShortStringToFeltError::StringTooLong)
    } else {
        Ok(left_padded(ascii_bytes(text)))
    }
}

/// What a big-endian byte slice reads as: an error, or the 32 bytes of the
/// element.
pub open spec fn byte_slice_felt(bytes: Seq<u8>) -> Result<Seq<u8>, FromByteSliceError> {
    if bytes.len() > 32 {
        Err(FromByteSliceError::InvalidLength)
    } else if be_value(bytes) >= field_modulus() {
        Err(FromByteSliceError::OutOfRange)
    } else {
        Ok(left_padded(bytes))
    }
}

/// The lower-case hex digit of a value below 16.
pub open spec fn hex_char(digit: nat) -> char {
    if digit < 10 {
        (0x30 + digit) as u8 as char
    } else {
        (0x61 + digit - 10) as u8 as char
    }
}

/// A number in lower-case hex without leading zeros; zero is one digit.
pub open spec fn hex_text(n: nat) -> Seq<char>
    decreases n,
{
    if n < 16 {
        seq![hex_char(n)]
    } else {
        hex_text(n / 16).push(hex_char(n % 16))
    }
}

/// An element as text: its number in hex behind `0x`.
pub open spec fn felt_hex(bytes: Seq<u8>) -> Seq<char> {
    "0x"@ + hex_text(be_value(bytes))
}

/// How many zero bytes a run of bytes begins with.
pub open spec fn leading_zeros(bytes: Seq<u8>) -> int {
    choose|n: int|
        0 <= n <= bytes.len() && (forall|j: int| 0 <= j < n ==> #[trigger] bytes[j] == 0) && (n
            == bytes.len() || bytes[n] != 0)
}

/// The short string that the 32 bytes of an element spell, if they spell
/// one: the first byte is zero, no zero byte follows one that is not, and
/// the text is the bytes behind the leading zeros, each as a character.
pub open spec fn short_string_of(bytes: Seq<u8>) -> Option<Seq<char>> {
    let start = leading_zeros(bytes);
    if bytes.len() == 32 && bytes[0] == 0 && (forall|j: int|
        start <= j < bytes.len() ==> #[trigger] bytes[j] != 0) {
        Some(Seq::new((bytes.len() - start) as nat, |i: int| bytes[start + i] as char))
    } else {
        None
    }
}

/// A text, if there is one, as a value.
pub open spec fn text_view(r: Option<String>) -> Option<Seq<char>> {
    match r {
        Some(text) => Some(text@),
        None => None,
    }
}

/// A conversion's result with the element, if there is one, as its bytes.
pub open spec fn bytes_of<E>(r: Result<Felt, E>) -> Result<Seq<u8>, E> {
    match r {
        Ok(felt) => Ok(felt@),
        Err(e) => Err(e),
    }
}

impl View for Felt {
    type V = Seq<u8>;

    /// The bytes of the element, most significant first.
    open spec fn view(&self) -> Seq<u8> {
        self.bytes@
    }
}

/// A run of elements, each as its bytes.
pub open spec fn felts_view(felts: Seq<Felt>) -> Seq<Seq<u8>> {
    felts.map_values(|f: Felt| f@)
}

impl Felt {
    /// Whether two elements are the same value.
    pub fn same(&self, other: &Felt) -> (r: bool)
        ensures
            r == (self@ == other@),
    {
        let mut i: usize = 0;
        while i < 32
            invariant
                i <= 32,
                forall|j: int| 0 <= j < i ==> self.bytes[j] == other.bytes[j],
            decreases 32 - i,
        {
            if self.bytes[i] != other.bytes[i] {
                return false;
            }
            i += 1;
        }
        assert(self@ =~= other@);
        true
    }

    /// `FieldElement::from_bytes_be` of `starknet_crypto`, then the element's
    /// `LowerHex` with the `#` flag: bytes that spell a number below the
    /// field's modulus are written as `0x` and that number in lower-case
    /// hex without leading zeros; any other bytes are no element.
    #[verifier::external_body]
    pub(crate) fn to_hex(&self) -> (r: Option<String>)
        ensures
            r is Some <==> be_value(self@) < field_modulus(),
            r matches Some(text) ==> text@ == felt_hex(self@),
    {
        match starknet_crypto::FieldElement::from_bytes_be(&self.bytes) {
            Ok(value) => Some(format!("{:#x}", value)),
            Err(_) => None,
        }
    }

    /// `FieldElement::from_bytes_be` of `starknet_crypto`, then
    /// `starknet::core::utils::parse_cairo_short_string`: bytes whose first
    /// is zero and in which no zero follows a byte that is not spell the
    /// text of their bytes behind the leading zeros; any other bytes spell
    /// none.
    #[verifier::external_body]
    pub(crate) fn to_short_string(&self) -> (r: Option<String>)
        ensures
            text_view(r) == short_string_of(self@),
    {
        match starknet_crypto::FieldElement::from_bytes_be(&self.bytes) {
            Ok(value) => starknet::core::utils::parse_cairo_short_string(&value).ok(),
            Err(_) => None,
        }
    }

    /// `starknet::core::utils::cairo_short_string_to_felt`, then
    /// `FieldElement::to_bytes_be`: a text that is not all ASCII is refused,
    /// then one of more than 31 bytes; any other packs to its own bytes
    /// behind leading zeros.
    #[verifier::external_body]
    pub(crate) fn from_short_string(text: &str) -> (r: Result<Felt, CairoShortStringToFeltError>)
        ensures
            bytes_of(r) == short_string_felt(text@),
    {
        match starknet::core::utils::cairo_short_string_to_felt(text) {
            Ok(value) => Ok(Felt { bytes: value.to_bytes_be() }),
            Err(starknet::core::utils::CairoShortStringToFeltError::NonAsciiCharacter) => {
                Err(CairoShortStringToFeltError::NonAsciiCharacter)
            },
            Err(starknet::core::utils::CairoShortStringToFeltError::StringTooLong) => {
                Err(CairoShortStringToFeltError::StringTooLong)
            },
        }
    }

    /// `FieldElement::from_byte_slice_be` of `starknet_crypto`, then
    /// `FieldElement::to_bytes_be`: more than 32 bytes are refused, then a
    /// number not below the field's modulus; any other reads as itself
    /// behind leading zeros.
    #[verifier::external_body]
    pub(crate) fn from_byte_slice_be(bytes: &[u8]) -> (r: Result<Felt, FromByteSliceError>)
        ensures
            bytes_of(r) == byte_slice_felt(bytes@),
    {
        match starknet_crypto::FieldElement::from_byte_slice_be(bytes) {
            Ok(value) => Ok(Felt { bytes: value.to_bytes_be() }),
            Err(starknet::core::types::FromByteSliceError::InvalidLength) => {
                Err(FromByteSliceError::InvalidLength)
            },
            Err(starknet::core::types::FromByteSliceError::OutOfRange) => {
                Err(FromByteSliceError::OutOfRange)
            },
        }
    }
}

} // verus!
