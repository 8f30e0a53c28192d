//! Base58 text encoding and decoding, through the `bs58` crate.
//!
//! The rendering itself is not this crate's logic: it is named by the
//! uninterpreted functions below, and the wrappers' contracts tie the
//! executable results to those names.

use vstd::prelude::*;

verus! {

/// The base58 text that the default (Bitcoin) alphabet gives to a byte
/// string; a function of the bytes alone.
pub uninterp spec fn base58_of(bytes: Seq<u8>) -> Seq<char>;

/// The byte string that a base58 text denotes under the default (Bitcoin)
/// alphabet, or `None` when the text is not valid base58.
pub uninterp spec fn base58_decoded(text: Seq<char>) -> Option<Seq<u8>>;

/// Why a base58 text failed to decode; mirrors the failures `bs58`'s decoder
/// reports with this crate's feature set.
#[derive(Debug, Clone, Copy, PartialEq, Eq)]
pub enum DecodeError {
    /// The output buffer could not hold the decoded bytes.
    BufferTooSmall,
    /// A character outside the base58 alphabet, and its byte index.
    InvalidCharacter { character: char, index: usize },
    /// A multi-byte character, and the byte index where it starts.
    NonAsciiCharacter { index: usize },
    /// A failure this crate does not distinguish (reported only by decoder
    /// features that are not enabled here).
    Unrecognized,
}

/// Relies on `bs58::encode(..).into_string()` with the default alphabet: the
/// text returned is a function of the input bytes alone, and decoding that
/// text gives back exactly the input bytes.
#[verifier::external_body]
pub fn encode(data: &Vec<u8>) -> (r: String)
    ensures
        r@ == base58_of(data@),
        base58_decoded(r@) == Some(data@),
{
    bs58::encode(data.as_slice()).into_string()
}

/// Relies on `bs58::decode(..).into_vec()` with the default alphabet: the
/// outcome is a function of the input text alone, and it fails exactly on
/// text that is not valid base58.
#[verifier::external_body]
pub fn decode(data: &str) -> (r: Result<Vec<u8>, DecodeError>)
    ensures
        r matches Ok(v) ==> base58_decoded(data@) == Some(v@),
        r is Err ==> base58_decoded(data@) is None,
{
    match bs58::decode(data).into_vec() {
        Ok(v) => Ok(v),
        Err(bs58::decode::Error::BufferTooSmall) => Err(DecodeError::BufferTooSmall),
        Err(bs58::decode::Error::InvalidCharacter { character, index }) => Err(
            DecodeError::InvalidCharacter { character, index },
        ),
        Err(bs58::decode::Error::NonAsciiCharacter { index }) => Err(
            DecodeError::NonAsciiCharacter { index },
        ),
        Err(_) => Err(DecodeError::Unrecognized),
    }
}

} // verus!
