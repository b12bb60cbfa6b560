//! The contract of the key-management service as the library sees it: what
//! is handed to each call, and what is made of each reply. The calls
//! themselves are made by the program around the library.

use vstd::prelude::*;
use vstd::string::StringSliceAdditionalSpecFns;
use crate::codec::{base64_bytes, decode, encode, is_envelope, DecodeFailure};
use crate::key::Key;

verus! {

/// The text that a sequence of bytes reads as when every ill-formed part of
/// it is replaced by the replacement character.
pub uninterp spec fn lossy_text(bytes: Seq<u8>) -> Seq<char>;

/// A text without its leading and trailing white space.
pub uninterp spec fn trimmed(text: Seq<char>) -> Seq<char>;

/// `String::from_utf8_lossy`, made an owned string. The text depends on the
/// bytes alone and is named.
#[verifier::external_body]
fn utf8_lossy(bytes: &[u8]) -> (text: String)
    ensures
        text@ == lossy_text(bytes@),
{
    String::from_utf8_lossy(bytes).into_owned()
}

/// `str::trim`. The text depends on the argument alone and is named.
#[verifier::external_body]
fn trim(text: &str) -> (rest: &str)
    ensures
        rest@ == trimmed(text@),
{
    text.trim()
}

/// Why an operation of the gateway gave no result.
#[derive(Clone, Debug, PartialEq, Eq)]
pub enum Failure {
    /// The ciphertext is no well-formed envelope of the chosen padding mode.
    Decode(DecodeFailure),
    /// The call to the service failed; the text is the service's account.
    Remote(String),
    /// The service answered an encrypt call without a ciphertext.
    NoCiphertext,
    /// The service answered a decrypt call without a plaintext.
    NoPlaintext,
}

/// What an encrypt call hands to the service.
#[derive(Clone, Debug, PartialEq, Eq)]
pub struct EncryptRequest {
    pub key_id: String,
    pub plaintext: Vec<u8>,
}

/// What the service answers to a decrypt call.
#[derive(Clone, Debug, PartialEq, Eq)]
pub struct DecryptReply {
    /// The key that the service used, where it says so.
    pub key_id: Option<String>,
    /// The decrypted bytes, where it sent any.
    pub plaintext: Option<Vec<u8>>,
}

/// The result of a decrypt operation.
#[derive(Clone, Debug, PartialEq, Eq)]
pub struct DecryptOutput {
    /// The key that the service reports to have used; empty where it
    /// reported none.
    pub key_id: String,
    pub plain_text: String,
}

/// The plaintext that a reply to a decrypt call carries, as text; `None`
/// where the call failed or the reply holds no plaintext.
pub open spec fn plain_text_of(reply: Result<DecryptReply, String>) -> Option<Seq<char>> {
    match reply {
        Ok(answer) => match answer.plaintext {
            Some(bytes) => Some(lossy_text(bytes@)),
            None => None,
        },
        Err(_) => None,
    }
}

/// The key identifier that a reply to a decrypt call carries; empty where it
/// names none.
pub open spec fn key_id_of(answer: DecryptReply) -> Seq<char> {
    match answer.key_id {
        Some(id) => id@,
        None => Seq::empty(),
    }
}

/// The plaintext to encrypt: the text given, without its leading and
/// trailing white space where `trim_text` is set.
pub fn plaintext_argument(text: &str, trim_text: bool) -> (plaintext: String)
    ensures
        plaintext@ == (if trim_text {
            trimmed(text@)
        } else {
            text@
        }),
{
    if trim_text {
        trim(text).to_owned()
    } else {
        text.to_owned()
    }
}

/// What to hand to the service to encrypt `plaintext` under `key`: the key
/// by its text and the plaintext as its bytes.
pub fn encrypt_request(key: Key, plaintext: &str) -> (request: EncryptRequest)
    ensures
        request.key_id@ == key@.text(),
        request.plaintext@ == plaintext.spec_bytes(),
{
    EncryptRequest { key_id: key.into_text(), plaintext: plaintext.as_bytes_vec() }
}

/// What an encrypt operation gives for the service's reply: the envelope of
/// the ciphertext in the chosen padding mode. A failed call fails with the
/// service's account, and an answer without ciphertext is a failure of its
/// own.
pub fn encrypt_outcome(reply: Result<Option<Vec<u8>>, String>, no_padding: bool) -> (outcome: Result<
    String,
    Failure,
>)
    ensures
        match reply {
            Ok(Some(ciphertext)) => outcome matches Ok(text) && is_envelope(
                ciphertext@,
                no_padding,
                text@,
            ),
            Ok(None) => outcome == Err::<String, Failure>(Failure::NoCiphertext),
            Err(account) => outcome == Err::<String, Failure>(Failure::Remote(account)),
        },
{
    match reply {
        Ok(Some(ciphertext)) => Ok(encode(ciphertext.as_slice(), no_padding)),
        Ok(None) => Err(Failure::NoCiphertext),
        Err(account) => Err(Failure::Remote(account)),
    }
}

/// What to hand to the service to decrypt an envelope: the bytes it holds.
/// Fails, before any call is made, exactly where the text is no well-formed
/// envelope of the chosen padding mode.
pub fn decrypt_request(cipher_text: &str, no_padding: bool) -> (request: Result<Vec<u8>, Failure>)
    ensures
        match base64_bytes(cipher_text@, no_padding) {
            Some(bytes) => request matches Ok(ciphertext) && ciphertext@ == bytes,
            None => request matches Err(Failure::Decode(_)),
        },
{
    match decode(cipher_text, no_padding) {
        Ok(ciphertext) => Ok(ciphertext),
        Err(failure) => Err(Failure::Decode(failure)),
    }
}

/// What a decrypt operation gives for the service's reply. A failed call
/// fails with the service's account and an answer without plaintext is a
/// failure of its own; an answer that names no key is none.
pub fn decrypt_outcome(reply: Result<DecryptReply, String>) -> (outcome: Result<
    DecryptOutput,
    Failure,
>)
    ensures
        match reply {
            Ok(answer) => match answer.plaintext {
                Some(bytes) => outcome matches Ok(output) && output.key_id@ == key_id_of(answer)
                    && output.plain_text@ == lossy_text(bytes@),
                None => outcome == Err::<DecryptOutput, Failure>(Failure::NoPlaintext),
            },
            Err(account) => outcome == Err::<DecryptOutput, Failure>(Failure::Remote(account)),
        },
        outcome matches Ok(output) ==> plain_text_of(reply) == Some(output.plain_text@),
        outcome.is_err() <==> plain_text_of(reply).is_none(),
{
    match reply {
        Ok(answer) => {
            let DecryptReply { key_id, plaintext } = answer;
            match plaintext {
                Some(bytes) => {
                    let id = match key_id {
                        Some(id) => id,
                        None => String::new(),
                    };
                    Ok(DecryptOutput { key_id: id, plain_text: utf8_lossy(bytes.as_slice()) })
                },
                None => Err(Failure::NoPlaintext),
            }
        },
        Err(account) => Err(Failure::Remote(account)),
    }
}

impl DecryptOutput {
    /// What a decrypt command prints: the key that was used where
    /// `print_key` is set, else the plaintext.
    pub fn printed(self, print_key: bool) -> (text: String)
        ensures
            text == (if print_key {
                self.key_id
            } else {
                self.plain_text
            }),
    {
        if print_key {
            self.key_id
        } else {
            self.plain_text
        }
    }
}

} // verus!
