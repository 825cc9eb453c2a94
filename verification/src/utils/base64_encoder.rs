//! Base64 for the four kinds of value that a signed session token holds.

use base64::engine::general_purpose::STANDARD;
use base64::Engine;
use vstd::prelude::*;

verus! {

/// The text that the standard engine, with the standard alphabet and with
/// padding, encodes `input` to.
pub uninterp spec fn standard_encoding(input: Seq<u8>) -> Seq<char>;

/// The bytes that the standard engine decodes `input` to, or why it refuses
/// it.
pub uninterp spec fn standard_decoding(input: Seq<u8>) -> Result<Seq<u8>, DecodeError>;

/// Why an input is no encoding.
#[derive(Clone, Copy, Debug, PartialEq, Eq, Structural)]
pub enum DecodeError {
    /// A byte that is no symbol, or padding in the wrong place, at the offset.
    InvalidByte(usize, u8),
    /// The number of symbols fits no encoding.
    InvalidLength(usize),
    /// The last symbol, at the offset, holds bits that would be dropped.
    InvalidLastSymbol(usize, u8),
    /// The padding is not as the engine wants it.
    InvalidPadding,
}

/// Whether the encoding of `len` bytes has a length that the machine can
/// hold: four symbols for every three bytes, and four for what is left.
pub open spec fn encodable(len: nat) -> bool {
    len / 3 * 4 + 4 <= usize::MAX
}

/// Whether `r` is what the standard engine decodes `input` to.
pub open spec fn is_decoding(input: Seq<u8>, r: Result<Vec<u8>, DecodeError>) -> bool {
    match r {
        Ok(bytes) => standard_decoding(input) == Ok::<Seq<u8>, DecodeError>(bytes@),
        Err(e) => standard_decoding(input) == Err::<Seq<u8>, DecodeError>(e),
    }
}

/// Calls `Engine::encode` on `base64::engine::general_purpose::STANDARD`.
/// The call reads its input and nothing else, so its result is the one that
/// `standard_encoding` names. The engine panics where the length of the
/// encoding overflows, which `encodable` rules out.
#[verifier::external_body]
fn encode_standard(input: &[u8]) -> (text: String)
    requires
        encodable(input@.len()),
    ensures
        text@ == standard_encoding(input@),
{
    STANDARD.encode(input)
}

/// Calls `Engine::decode` on `base64::engine::general_purpose::STANDARD`.
/// The call reads its input and nothing else, so its result is the one that
/// `standard_decoding` names, with the engine's error told apart variant by
/// variant.
#[verifier::external_body]
fn decode_standard(input: &[u8]) -> (r: Result<Vec<u8>, DecodeError>)
    ensures
        match r {
            Ok(bytes) => standard_decoding(input@) == Ok::<Seq<u8>, DecodeError>(bytes@),
            Err(e) => standard_decoding(input@) == Err::<Seq<u8>, DecodeError>(e),
        },
{
    match STANDARD.decode(input) {
        Ok(bytes) => Ok(bytes),
        Err(base64::DecodeError::InvalidByte(at, byte)) => Err(DecodeError::InvalidByte(at, byte)),
        Err(base64::DecodeError::InvalidLength(len)) => Err(DecodeError::InvalidLength(len)),
        Err(base64::DecodeError::InvalidLastSymbol(at, byte)) => Err(
            DecodeError::InvalidLastSymbol(at, byte),
        ),
        Err(base64::DecodeError::InvalidPadding) => Err(DecodeError::InvalidPadding),
    }
}

/// Encodes and decodes payloads, signatures, public keys and secret keys.
/// Every kind goes through the standard engine.
#[derive(Clone, Copy, Debug, PartialEq, Eq, Structural)]
pub struct Base64Encoder {}

impl Base64Encoder {
    /// Encodes a payload.
    pub fn b64_encode(&self, p0: &[u8]) -> (text: String)
        requires
            encodable(p0@.len()),
        ensures
            text@ == standard_encoding(p0@),
    {
        encode_standard(p0)
    }

    /// Decodes a payload that is held as a string.
    pub fn b64_decode(&self, p0: String) -> (r: Result<Vec<u8>, DecodeError>)
        ensures
            is_decoding(vstd::utf8::encode_utf8(p0@), r),
    {
        decode_standard(p0.as_str().as_bytes())
    }

    /// An encoder.
    pub fn new() -> (encoder: Self) {
        Base64Encoder {  }
    }

    /// Encodes a payload.
    pub fn b64_encode_payload(&self, input: &[u8]) -> (text: String)
        requires
            encodable(input@.len()),
        ensures
            text@ == standard_encoding(input@),
    {
        encode_standard(input)
    }

    /// Decodes a payload.
    pub fn b64_decode_payload(&self, input: &[u8]) -> (r: Result<Vec<u8>, DecodeError>)
        ensures
            is_decoding(input@, r),
    {
        decode_standard(input)
    }

    /// Decodes a signature.
    pub fn b64_decode_signature(&self, input: &[u8]) -> (r: Result<Vec<u8>, DecodeError>)
        ensures
            is_decoding(input@, r),
    {
        decode_standard(input)
    }

    /// Encodes a signature.
    pub fn b64_encode_signature(&self, input: &[u8]) -> (text: String)
        requires
            encodable(input@.len()),
        ensures
            text@ == standard_encoding(input@),
    {
        encode_standard(input)
    }

    /// Encodes a public key.
    pub fn b64_encode_public_key(&self, input: &[u8]) -> (text: String)
        requires
            encodable(input@.len()),
        ensures
            text@ == standard_encoding(input@),
    {
        encode_standard(input)
    }

    /// Decodes a public key.
    pub fn b64_decode_public_key(&self, input: &[u8]) -> (r: Result<Vec<u8>, DecodeError>)
        ensures
            is_decoding(input@, r),
    {
        decode_standard(input)
    }

    /// Encodes a secret key.
    pub fn b64_encode_secret_key(&self, input: &[u8]) -> (text: String)
        requires
            encodable(input@.len()),
        ensures
            text@ == standard_encoding(input@),
    {
        encode_standard(input)
    }

    /// Decodes a secret key.
    pub fn b64_decode_secret_key(&self, input: &[u8]) -> (r: Result<Vec<u8>, DecodeError>)
        ensures
            is_decoding(input@, r),
    {
        decode_standard(input)
    }
}

} // verus!
