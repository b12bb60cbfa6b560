//! The ciphertext envelope: encrypted bytes as base64 text of the standard
//! alphabet, with or without trailing padding characters.

use base64::Engine;
use vstd::prelude::*;

verus! {

/// The base64 text of `bytes` in the standard alphabet, without padding
/// characters where `no_padding` is set.
pub uninterp spec fn base64_text(bytes: Seq<u8>, no_padding: bool) -> Seq<char>;

/// The bytes that `text` decodes to in the given padding mode, or `None`
/// where `text` is not a well-formed envelope of that mode.
pub uninterp spec fn base64_bytes(text: Seq<char>, no_padding: bool) -> Option<Seq<u8>>;

/// The number of characters that `count` bytes encode to: four for every
/// full group of three bytes, and for a last group of one or two bytes
/// either four, with padding, or one more than its bytes, without.
pub open spec fn encoded_len(count: nat, no_padding: bool) -> nat {
    let full = 4 * (count / 3);
    if count % 3 == 0 {
        full
    } else if no_padding {
        full + count % 3 + 1
    } else {
        full + 4
    }
}

/// That `text` is the envelope of `bytes` in the given mode: it is their
/// base64 text, has the length that the mode gives, and decodes back to them
/// in the same mode.
pub open spec fn is_envelope(bytes: Seq<u8>, no_padding: bool, text: Seq<char>) -> bool {
    &&& text == base64_text(bytes, no_padding)
    &&& text.len() == encoded_len(bytes.len(), no_padding)
    &&& base64_bytes(text, no_padding) == Some(bytes)
}

/// Why a text is no well-formed envelope.
#[derive(Clone, Copy, Debug, PartialEq, Eq)]
pub enum DecodeFailure {
    /// A byte outside the alphabet, or padding in the wrong place, at the
    /// given offset.
    InvalidByte(usize, u8),
    /// A number of symbols that no envelope has.
    InvalidLength(usize),
    /// A last symbol, at the given offset, whose spare bits are not zero.
    InvalidLastSymbol(usize, u8),
    /// Padding that the mode does not allow, or lacks.
    InvalidPadding,
}

#[verifier::external_type_specification]
#[verifier::external_body]
pub struct ExDecodeError(base64::DecodeError);

/// `Engine::encode` of the `base64` crate's `STANDARD` engine: the standard
/// alphabet with canonical padding. The text is named, its length is the one
/// that the crate's `encoded_len` computes for padded output, and the same
/// engine decodes it back to the bytes it came from.
#[verifier::external_body]
fn encode_padded(bytes: &[u8]) -> (text: String)
    ensures
        text@ == base64_text(bytes@, false),
        text@.len() == encoded_len(bytes@.len(), false),
        base64_bytes(text@, false) == Some(bytes@),
{
    base64::engine::general_purpose::STANDARD.encode(bytes)
}

/// `Engine::encode` of the `base64` crate's `STANDARD_NO_PAD` engine: the
/// standard alphabet, no padding characters. The text is named, its length is
/// the one that the crate's `encoded_len` computes for unpadded output, and
/// the same engine decodes it back to the bytes it came from.
#[verifier::external_body]
fn encode_bare(bytes: &[u8]) -> (text: String)
    ensures
        text@ == base64_text(bytes@, true),
        text@.len() == encoded_len(bytes@.len(), true),
        base64_bytes(text@, true) == Some(bytes@),
{
    base64::engine::general_purpose::STANDARD_NO_PAD.encode(bytes)
}

/// `Engine::decode` of the `base64` crate's `STANDARD` engine, which asks for
/// canonical padding. The outcome depends on the text alone and is named.
#[verifier::external_body]
fn decode_padded(text: &str) -> (outcome: Result<Vec<u8>, base64::DecodeError>)
    ensures
        match outcome {
            Ok(bytes) => base64_bytes(text@, false) == Some(bytes@),
            Err(_) => base64_bytes(text@, false).is_none(),
        },
{
    base64::engine::general_purpose::STANDARD.decode(text)
}

/// `Engine::decode` of the `base64` crate's `STANDARD_NO_PAD` engine, which
/// refuses padding. The outcome depends on the text alone and is named.
#[verifier::external_body]
fn decode_bare(text: &str) -> (outcome: Result<Vec<u8>, base64::DecodeError>)
    ensures
        match outcome {
            Ok(bytes) => base64_bytes(text@, true) == Some(bytes@),
            Err(_) => base64_bytes(text@, true).is_none(),
        },
{
    base64::engine::general_purpose::STANDARD_NO_PAD.decode(text)
}

/// Tells the variants of `base64::DecodeError` apart and carries their
/// fields over. Nothing is claimed of which variant a text gives.
#[verifier::external_body]
fn decode_failure(error: base64::DecodeError) -> DecodeFailure {
    match error {
        base64::DecodeError::InvalidByte(offset, byte) => DecodeFailure::InvalidByte(offset, byte),
        base64::DecodeError::InvalidLength(len) => DecodeFailure::InvalidLength(len),
        base64::DecodeError::InvalidLastSymbol(offset, byte) => DecodeFailure::InvalidLastSymbol(offset, byte),
        base64::DecodeError::InvalidPadding => DecodeFailure::InvalidPadding,
    }
}

/// Encodes `bytes` as an envelope of the chosen padding mode.
pub fn encode(bytes: &[u8], no_padding: bool) -> (text: String)
    ensures
        is_envelope(bytes@, no_padding, text@),
{
    if no_padding {
        encode_bare(bytes)
    } else {
        encode_padded(bytes)
    }
}

/// Decodes an envelope of the chosen padding mode. The text carries no mark
/// of its mode: an envelope read in the other mode is one more malformed
/// text. Succeeds exactly on the well-formed envelopes of the mode.
pub fn decode(text: &str, no_padding: bool) -> (outcome: Result<Vec<u8>, DecodeFailure>)
    ensures
        match outcome {
            Ok(bytes) => base64_bytes(text@, no_padding) == Some(bytes@),
            Err(_) => base64_bytes(text@, no_padding).is_none(),
        },
{
    let decoded = if no_padding {
        decode_bare(text)
    } else {
        decode_padded(text)
    };
    match decoded {
        Ok(bytes) => Ok(bytes),
        Err(error) => Err(decode_failure(error)),
    }
}

/// An envelope decodes, in the mode it was made in, to the bytes it was made
/// of.
pub proof fn lemma_decode_inverts_encode(bytes: Seq<u8>, no_padding: bool, text: Seq<char>)
    requires
        is_envelope(bytes, no_padding, text),
    ensures
        base64_bytes(text, no_padding) == Some(bytes),
{
}

/// Where the number of bytes is no multiple of three, the padded and the
/// unpadded envelope of the same bytes differ: the padded one is longer.
pub proof fn lemma_padding_shows(bytes: Seq<u8>, padded: Seq<char>, bare: Seq<char>)
    requires
        is_envelope(bytes, false, padded),
        is_envelope(bytes, true, bare),
        bytes.len() % 3 != 0,
    ensures
        padded != bare,
        padded.len() > bare.len(),
{
}

/// Where the number of bytes is a multiple of three, no padding is called
/// for and both modes give envelopes of one length.
pub proof fn lemma_full_groups_need_no_padding(count: nat)
    requires
        count % 3 == 0,
    ensures
        encoded_len(count, false) == encoded_len(count, true),
{
}

} // verus!
