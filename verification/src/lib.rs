//! A base64-family codec: binary data to printable text over a fixed
//! alphabet of 64 symbols and one padding symbol, and back.
//!
//! [`encoder`] and [`decoder`] hold the codec over any [`alphabet::Alphabet`];
//! [`encode`] and [`decode`] apply it, over the classic alphabet, to text.

use vstd::prelude::*;
use vstd::utf8::{decode_utf8, encode_utf8, encode_utf8_decode_utf8, encode_utf8_valid_utf8, valid_utf8};
use crate::alphabet::Classic;
use crate::decoder::{decode_using_alphabet, decoded, rejection, DecodeError};
use crate::encoder::{encode_using_alphabet, encoded};
use crate::roundtrip::lemma_decode_encode;

pub mod alphabet;
pub mod decoder;
pub mod encoder;
pub mod group;
pub mod roundtrip;
pub mod std_specs;

verus! {

/// Why an encoded text does not decode to text.
#[derive(Debug, Clone, Copy, PartialEq, Eq)]
pub enum TextError {
    /// The input is not an encoding.
    Encoding(DecodeError),
    /// The input is an encoding, of bytes that are not UTF-8.
    NotUtf8,
}

/// The classic encoding of the UTF-8 bytes of `text`.
pub open spec fn encoded_text(text: Seq<char>) -> Seq<char> {
    encoded(&Classic, encode_utf8(text))
}

/// The text whose UTF-8 bytes `input` is the classic encoding of, or the
/// reason for which there is none.
pub open spec fn decoded_text(input: Seq<char>) -> Result<Seq<char>, TextError> {
    match rejection(&Classic, input) {
        Some(e) => Err(TextError::Encoding(e)),
        None => if valid_utf8(decoded(&Classic, input)) {
            Ok(decode_utf8(decoded(&Classic, input)))
        } else {
            Err(TextError::NotUtf8)
        },
    }
}

/// Decoding a text that was encoded gives the text back.
pub proof fn lemma_decoded_text_of_encoded_text(text: Seq<char>)
    ensures
        decoded_text(encoded_text(text)) == Ok::<Seq<char>, TextError>(text),
{
    lemma_decode_encode(&Classic, encode_utf8(text));
    encode_utf8_valid_utf8(text);
    encode_utf8_decode_utf8(text);
}

/// Encodes the UTF-8 bytes of `input` over the classic alphabet.
pub fn encode(input: &String) -> (output: String)
    ensures
        output@ == encoded_text(input@),
{
    encode_using_alphabet(&Classic, input.as_str().as_bytes())
}

/// Decodes `input` over the classic alphabet and reads the bytes as UTF-8.
pub fn decode(input: &String) -> (r: Result<String, TextError>)
    ensures
        match r {
            Ok(text) => decoded_text(input@) == Ok::<Seq<char>, TextError>(text@),
            Err(e) => decoded_text(input@) == Err::<Seq<char>, TextError>(e),
        },
{
    let bytes = match decode_using_alphabet(Classic, input.as_str()) {
        Ok(bytes) => bytes,
        Err(e) => { return Err(TextError::Encoding(e)); },
    };
    match std::str::from_utf8(bytes.as_slice()) {
        Ok(text) => {
            proof {
                encode_utf8_decode_utf8(text@);
            }
            Ok(text.to_owned())
        },
        Err(_) => Err(TextError::NotUtf8),
    }
}

} // verus!
