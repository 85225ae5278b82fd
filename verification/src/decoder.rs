//! Decoding: symbols back to bytes, and the reasons for which a text is refused.

use vstd::prelude::*;
use crate::alphabet::Alphabet;
use crate::group::{octet_of, stitch};

verus! {

/// Why a text is not an encoding.
#[derive(Debug, Clone, Copy, PartialEq, Eq)]
pub enum DecodeError {
    /// The number of characters is not a multiple of four.
    MalformedLength,
    /// A padding symbol stands before the last two characters, or is followed
    /// by a character that is not padding.
    MisplacedPadding,
    /// A character is neither a symbol of the alphabet nor the padding symbol.
    UnknownSymbol,
}

/// Padding is in its place: every padding symbol is one of the last two
/// characters, and the last character is padding wherever the one before it is.
pub open spec fn padding_is_trailing<A: Alphabet>(alphabet: &A, text: Seq<char>) -> bool {
    &&& forall|i: int| 0 <= i < text.len() - 2 ==> text[i] != alphabet.padding()
    &&& text.len() >= 2 && text[text.len() - 2] == alphabet.padding() ==> text[text.len() - 1]
        == alphabet.padding()
}

/// Every character is a symbol of the alphabet or the padding symbol.
pub open spec fn symbols_are_known<A: Alphabet>(alphabet: &A, text: Seq<char>) -> bool {
    forall|i: int|
        0 <= i < text.len() ==> text[i] == alphabet.padding() || alphabet.value(text[i]) is Some
}

/// The reason for which `text` is refused, `None` where it is accepted. The
/// length is judged first, then the padding, then the symbols.
pub open spec fn rejection<A: Alphabet>(alphabet: &A, text: Seq<char>) -> Option<DecodeError> {
    if text.len() % 4 != 0 {
        Some(DecodeError::MalformedLength)
    } else if !padding_is_trailing(alphabet, text) {
        Some(DecodeError::MisplacedPadding)
    } else if !symbols_are_known(alphabet, text) {
        Some(DecodeError::UnknownSymbol)
    } else {
        None
    }
}

/// A text whose length is no multiple of four is refused for its length,
/// whatever it holds.
pub proof fn lemma_length_is_judged_first<A: Alphabet>(alphabet: &A, text: Seq<char>)
    requires
        text.len() % 4 != 0,
    ensures
        rejection(alphabet, text) == Some(DecodeError::MalformedLength),
{
}

/// A padding symbol at the start of a group of four is out of place.
pub proof fn lemma_padding_at_group_start_is_misplaced<A: Alphabet>(
    alphabet: &A,
    text: Seq<char>,
    i: int,
)
    requires
        text.len() % 4 == 0,
        0 <= i < text.len(),
        i % 4 == 0,
        text[i] == alphabet.padding(),
    ensures
        rejection(alphabet, text) == Some(DecodeError::MisplacedPadding),
{
}

/// A character that is neither a symbol nor padding has a text refused for an
/// unknown symbol, where neither its length nor its padding has it refused.
pub proof fn lemma_unknown_symbol_is_refused<A: Alphabet>(alphabet: &A, text: Seq<char>, i: int)
    requires
        text.len() % 4 == 0,
        padding_is_trailing(alphabet, text),
        0 <= i < text.len(),
        text[i] != alphabet.padding(),
        alphabet.value(text[i]) is None,
    ensures
        rejection(alphabet, text) == Some(DecodeError::UnknownSymbol),
{
}

/// The number of padding symbols among the last two characters of `text`.
pub open spec fn trailing_padding<A: Alphabet>(alphabet: &A, text: Seq<char>) -> nat {
    if text.len() >= 1 && text[text.len() - 1] == alphabet.padding() {
        if text.len() >= 2 && text[text.len() - 2] == alphabet.padding() {
            2
        } else {
            1
        }
    } else {
        0
    }
}

/// The six-bit value at position `i` of `text`; zero where the character
/// there has none.
pub open spec fn digit<A: Alphabet>(alphabet: &A, text: Seq<char>, i: int) -> u8 {
    match alphabet.value(text[i]) {
        Some(v) => v,
        None => 0,
    }
}

/// Byte `j` of what `text` decodes to.
pub open spec fn octet<A: Alphabet>(alphabet: &A, text: Seq<char>, j: int) -> u8 {
    let g = j / 3;
    octet_of(
        digit(alphabet, text, 4 * g),
        digit(alphabet, text, 4 * g + 1),
        digit(alphabet, text, 4 * g + 2),
        digit(alphabet, text, 4 * g + 3),
        j % 3,
    )
}

/// The number of bytes that an accepted `text` decodes to: three for every
/// four characters, less one for each padding symbol.
pub open spec fn decoded_len<A: Alphabet>(alphabet: &A, text: Seq<char>) -> nat {
    (text.len() / 4 * 3 - trailing_padding(alphabet, text)) as nat
}

/// The bytes that an accepted `text` decodes to.
pub open spec fn decoded<A: Alphabet>(alphabet: &A, text: Seq<char>) -> Seq<u8> {
    Seq::new(decoded_len(alphabet, text), |j: int| octet(alphabet, text, j))
}

/// The characters of `text`, one by one.
fn chars_of(text: &str) -> (symbols: Vec<char>)
    ensures
        symbols@ == text@,
{
    let mut symbols: Vec<char> = Vec::new();
    for c in it: text.chars()
        invariant
            symbols@ == it.seq().take(it.index()),
    {
        symbols.push(c);
    }
    symbols
}

/// Whether padding is in its place in `symbols`.
fn padding_in_place<A: Alphabet>(alphabet: &A, symbols: &Vec<char>) -> (ok: bool)
    ensures
        ok == padding_is_trailing(alphabet, symbols@),
{
    let pad = alphabet.padding_symbol();
    let n = symbols.len();
    let mut i: usize = 0;
    while n - i > 2
        invariant
            n == symbols@.len(),
            i <= n,
            pad == alphabet.padding(),
            forall|j: int| 0 <= j < i ==> symbols@[j] != pad,
        decreases n - i,
    {
        if symbols[i] == pad {
            return false;
        }
        i += 1;
    }
    !(n >= 2 && symbols[n - 2] == pad && symbols[n - 1] != pad)
}

/// The six-bit value of the character at `i`, with zero for the padding
/// symbol; `None` where the character is neither a symbol nor padding.
fn digit_at<A: Alphabet>(alphabet: &A, symbols: &Vec<char>, i: usize) -> (r: Option<u8>)
    requires
        i < symbols@.len(),
    ensures
        r is Some <==> symbols@[i as int] == alphabet.padding() || alphabet.value(
            symbols@[i as int],
        ) is Some,
        r matches Some(v) ==> v == digit(alphabet, symbols@, i as int) && v < 64,
{
    proof {
        alphabet.table_is_bijective();
    }
    let c = symbols[i];
    if c == alphabet.padding_symbol() {
        Some(0)
    } else {
        alphabet.value_for_symbol(c)
    }
}

/// Decodes `data` over `alphabet`.
///
/// A text is refused, in this order, for a length that is no multiple of
/// four, for padding out of place, for a character that is neither symbol nor
/// padding. Any other text decodes to three bytes for every four characters,
/// less one byte for each padding symbol.
pub fn decode_using_alphabet<A: Alphabet>(alphabet: A, data: &str) -> (r: Result<
    Vec<u8>,
    DecodeError,
>)
    ensures
        match r {
            Ok(bytes) => rejection(&alphabet, data@) is None && bytes@ == decoded(
                &alphabet,
                data@,
            ),
            Err(e) => rejection(&alphabet, data@) == Some(e),
        },
{
    let symbols = chars_of(data);
    let n = symbols.len();
    if n % 4 != 0 {
        return Err(DecodeError::MalformedLength);
    }
    if !padding_in_place(&alphabet, &symbols) {
        return Err(DecodeError::MisplacedPadding);
    }
    let pad = alphabet.padding_symbol();
    let mut bytes: Vec<u8> = Vec::new();
    let mut i: usize = 0;
    while i < n
        invariant
            symbols@ == data@,
            n == symbols@.len(),
            n % 4 == 0,
            i % 4 == 0,
            i <= n,
            pad == alphabet.padding(),
            padding_is_trailing(&alphabet, symbols@),
            forall|j: int|
                0 <= j < i ==> symbols@[j] == alphabet.padding() || alphabet.value(symbols@[j])
                    is Some,
            bytes@.len() == if i < n {
                i / 4 * 3
            } else {
                decoded_len(&alphabet, symbols@) as int
            },
            forall|j: int| 0 <= j < bytes@.len() ==> bytes@[j] == octet(&alphabet, symbols@, j),
        decreases n - i,
    {
        let v0 = match digit_at(&alphabet, &symbols, i) {
            Some(v) => v,
            None => { return Err(DecodeError::UnknownSymbol); },
        };
        let v1 = match digit_at(&alphabet, &symbols, i + 1) {
            Some(v) => v,
            None => { return Err(DecodeError::UnknownSymbol); },
        };
        let v2 = match digit_at(&alphabet, &symbols, i + 2) {
            Some(v) => v,
            None => { return Err(DecodeError::UnknownSymbol); },
        };
        let v3 = match digit_at(&alphabet, &symbols, i + 3) {
            Some(v) => v,
            None => { return Err(DecodeError::UnknownSymbol); },
        };
        let b = stitch(v0, v1, v2, v3);
        bytes.push(b.0);
        if symbols[i + 2] != pad {
            bytes.push(b.1);
        }
        if symbols[i + 3] != pad {
            bytes.push(b.2);
        }
        i += 4;
    }
    Ok(bytes)
}

} // verus!
