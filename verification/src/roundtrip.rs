//! What holds of encoding and decoding together.

use vstd::prelude::*;
use crate::alphabet::Alphabet;
use crate::decoder::{decoded, decoded_len, digit, octet, rejection};
use crate::encoder::{byte_at, carries_data, encoded, lemma_encoded_shape, sextet};
use crate::group::lemma_stitch_split;

verus! {

/// Where the encoding of `bytes` holds a symbol, the value of that symbol is
/// the six-bit value that was encoded.
proof fn lemma_digit_of_encoded<A: Alphabet>(alphabet: &A, bytes: Seq<u8>, i: int)
    requires
        0 <= i < encoded(alphabet, bytes).len(),
        carries_data(bytes.len(), i),
    ensures
        alphabet.value(encoded(alphabet, bytes)[i]) == Some(sextet(bytes, i)),
        digit(alphabet, encoded(alphabet, bytes), i) == sextet(bytes, i),
{
    alphabet.table_is_bijective();
    let v = sextet(bytes, i);
    assert(v < 64);
    assert(alphabet.value(alphabet.symbol(v)) == Some(v));
}

/// An encoding is accepted, and its padding tells how many bytes were encoded.
proof fn lemma_encoded_is_accepted<A: Alphabet>(alphabet: &A, bytes: Seq<u8>)
    ensures
        rejection(alphabet, encoded(alphabet, bytes)) is None,
        decoded_len(alphabet, encoded(alphabet, bytes)) == bytes.len(),
{
    let text = encoded(alphabet, bytes);
    lemma_encoded_shape(alphabet, bytes);
    assert forall|i: int| 0 <= i < text.len() implies text[i] == alphabet.padding()
        || alphabet.value(text[i]) is Some by {
        if carries_data(bytes.len(), i) {
            lemma_digit_of_encoded(alphabet, bytes, i);
        }
    }
}

/// Byte `j` of what the encoding of `bytes` decodes to is byte `j` of `bytes`.
proof fn lemma_octet_of_encoded<A: Alphabet>(alphabet: &A, bytes: Seq<u8>, j: int)
    requires
        0 <= j < bytes.len(),
    ensures
        octet(alphabet, encoded(alphabet, bytes), j) == bytes[j],
{
    let g = j / 3;
    let k = j % 3;
    lemma_stitch_split(byte_at(bytes, 3 * g), byte_at(bytes, 3 * g + 1), byte_at(bytes, 3 * g + 2));
    lemma_digit_of_encoded(alphabet, bytes, 4 * g);
    lemma_digit_of_encoded(alphabet, bytes, 4 * g + 1);
    if k >= 1 {
        lemma_digit_of_encoded(alphabet, bytes, 4 * g + 2);
    }
    if k == 2 {
        lemma_digit_of_encoded(alphabet, bytes, 4 * g + 3);
    }
}

/// Decoding inverts encoding: the encoding of any bytes is accepted, and it
/// decodes to those bytes.
pub proof fn lemma_decode_encode<A: Alphabet>(alphabet: &A, bytes: Seq<u8>)
    ensures
        rejection(alphabet, encoded(alphabet, bytes)) is None,
        decoded(alphabet, encoded(alphabet, bytes)) == bytes,
{
    let text = encoded(alphabet, bytes);
    lemma_encoded_is_accepted(alphabet, bytes);
    assert forall|j: int| 0 <= j < bytes.len() implies decoded(alphabet, text)[j] == bytes[j] by {
        lemma_octet_of_encoded(alphabet, bytes, j);
    }
}

/// Encoding inverts decoding on every text that is an encoding.
pub proof fn lemma_encode_decode<A: Alphabet>(alphabet: &A, text: Seq<char>)
    requires
        exists|bytes: Seq<u8>| text == encoded(alphabet, bytes),
    ensures
        rejection(alphabet, text) is None,
        encoded(alphabet, decoded(alphabet, text)) == text,
{
    let bytes = choose|bytes: Seq<u8>| text == encoded(alphabet, bytes);
    lemma_decode_encode(alphabet, bytes);
}

} // verus!
