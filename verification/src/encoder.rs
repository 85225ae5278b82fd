//! Encoding: bytes to symbols.

use vstd::prelude::*;
use crate::alphabet::Alphabet;
use crate::group::{sextet_of, split};

verus! {

/// Byte `i` of `bytes`, and zero past its end: the bits that fill up the last group.
pub open spec fn byte_at(bytes: Seq<u8>, i: int) -> u8 {
    if 0 <= i < bytes.len() {
        bytes[i]
    } else {
        0
    }
}

/// The six-bit value at position `i` of the encoding of `bytes`.
pub open spec fn sextet(bytes: Seq<u8>, i: int) -> u8 {
    let g = i / 4;
    sextet_of(byte_at(bytes, 3 * g), byte_at(bytes, 3 * g + 1), byte_at(bytes, 3 * g + 2), i % 4)
}

/// The length of the encoding of `n` bytes: four symbols for every group of
/// up to three bytes.
pub open spec fn encoded_len(n: nat) -> nat {
    4 * ((n + 2) / 3)
}

/// Whether position `i` of the encoding of `n` bytes holds a symbol with a
/// value. It does where at least one of its six bits is a bit of the input,
/// that is where `6 * i < 8 * n`; the positions after that are padding.
pub open spec fn carries_data(n: nat, i: int) -> bool {
    3 * i < 4 * n
}

/// The encoding of `bytes` over `alphabet`.
pub open spec fn encoded<A: Alphabet>(alphabet: &A, bytes: Seq<u8>) -> Seq<char> {
    Seq::new(
        encoded_len(bytes.len()),
        |i: int|
            if carries_data(bytes.len(), i) {
                alphabet.symbol(sextet(bytes, i))
            } else {
                alphabet.padding()
            },
    )
}

/// The number of padding symbols at the end of the encoding of `n` bytes:
/// none after a whole number of groups, two after one byte over, one after two.
pub open spec fn padding_len(n: nat) -> nat {
    ((3 - n % 3) % 3) as nat
}

/// The shape of an encoding: four symbols for every group of up to three
/// bytes, and padding in the last `padding_len` positions, at most two, and
/// nowhere else.
pub proof fn lemma_encoded_shape<A: Alphabet>(alphabet: &A, bytes: Seq<u8>)
    ensures
        encoded(alphabet, bytes).len() == 4 * ((bytes.len() + 2) / 3),
        padding_len(bytes.len()) <= 2,
        padding_len(bytes.len()) <= encoded(alphabet, bytes).len(),
        forall|i: int|
            0 <= i < encoded(alphabet, bytes).len() ==> (#[trigger] encoded(alphabet, bytes)[i]
                == alphabet.padding() <==> i >= encoded(alphabet, bytes).len() - padding_len(
                bytes.len(),
            )),
{
    alphabet.table_is_bijective();
    let text = encoded(alphabet, bytes);
    assert forall|i: int| 0 <= i < text.len() implies (#[trigger] text[i] == alphabet.padding()
        <==> i >= text.len() - padding_len(bytes.len())) by {
        if carries_data(bytes.len(), i) {
            let v = sextet(bytes, i);
            assert(v < 64);
            assert(alphabet.value(alphabet.symbol(v)) == Some(v));
        }
    }
}

/// Encodes `data` over `alphabet`.
///
/// The result has four symbols for every group of up to three bytes of
/// `data`; it ends in at most two padding symbols and holds none elsewhere.
pub fn encode_using_alphabet<A: Alphabet>(alphabet: &A, data: &[u8]) -> (text: String)
    ensures
        text@ == encoded(alphabet, data@),
        text@.len() == 4 * ((data@.len() + 2) / 3),
        forall|i: int|
            0 <= i < text@.len() ==> (#[trigger] text@[i] == alphabet.padding() <==> i
                >= text@.len() - padding_len(data@.len())),
{
    let n = data.len();
    let mut text = String::new();
    let mut i: usize = 0;
    while n - i >= 3
        invariant
            n == data@.len(),
            i <= n,
            i % 3 == 0,
            text@ == encoded(alphabet, data@).take(4 * (i as int / 3)),
        decreases n - i,
    {
        let v = split(data[i], data[i + 1], data[i + 2]);
        text.push(alphabet.symbol_for_value(v.0));
        text.push(alphabet.symbol_for_value(v.1));
        text.push(alphabet.symbol_for_value(v.2));
        text.push(alphabet.symbol_for_value(v.3));
        i += 3;
    }
    if n - i == 1 {
        let v = split(data[i], 0, 0);
        text.push(alphabet.symbol_for_value(v.0));
        text.push(alphabet.symbol_for_value(v.1));
        text.push(alphabet.padding_symbol());
        text.push(alphabet.padding_symbol());
    } else if n - i == 2 {
        let v = split(data[i], data[i + 1], 0);
        text.push(alphabet.symbol_for_value(v.0));
        text.push(alphabet.symbol_for_value(v.1));
        text.push(alphabet.symbol_for_value(v.2));
        text.push(alphabet.padding_symbol());
    }
    proof {
        lemma_encoded_shape(alphabet, data@);
    }
    text
}

} // verus!
