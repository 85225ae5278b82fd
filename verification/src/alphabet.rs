//! The symbols of the encoding: sixty-four that stand for the six-bit values
//! `0..64`, and one more that pads the last group.

use vstd::prelude::*;

verus! {

/// An alphabet gives each six-bit value its symbol and names the padding symbol.
///
/// `symbol`, `value` and `padding` are the mathematical table; `table_is_bijective`
/// is the invariant that every implementation has to prove of its table, and the
/// three executable methods read the table.
pub trait Alphabet {
    /// The symbol that stands for `v`; meaningful for `v < 64`.
    spec fn symbol(&self, v: u8) -> char;

    /// The six-bit value that `c` stands for, or `None` where `c` stands for none.
    spec fn value(&self, c: char) -> Option<u8>;

    /// The padding symbol.
    spec fn padding(&self) -> char;

    /// Symbols and values correspond one to one, and the padding symbol
    /// carries no value.
    proof fn table_is_bijective(&self)
        ensures
            forall|v: u8| v < 64 ==> #[trigger] self.value(self.symbol(v)) == Some(v),
            forall|c: char| #[trigger]
                self.value(c) matches Some(v) ==> v < 64 && self.symbol(v) == c,
            self.value(self.padding()) is None,
    ;

    /// The symbol for a six-bit value: the one symbol whose value is `v`,
    /// and never the padding symbol.
    fn symbol_for_value(&self, v: u8) -> (c: char)
        requires
            v < 64,
        ensures
            c == self.symbol(v),
            self.value(c) == Some(v),
            c != self.padding(),
    ;

    /// The six-bit value of a symbol, `None` for every other character.
    fn value_for_symbol(&self, c: char) -> (r: Option<u8>)
        ensures
            r == self.value(c),
    ;

    /// The padding symbol.
    fn padding_symbol(&self) -> (c: char)
        ensures
            c == self.padding(),
    ;
}

/// The classic alphabet: `A`-`Z`, `a`-`z`, `0`-`9`, `+`, `/`, padded with `=`.
pub struct Classic;

impl Alphabet for Classic {
    open spec fn symbol(&self, v: u8) -> char {
        "ABCDEFGHIJKLMNOPQRSTUVWXYZabcdefghijklmnopqrstuvwxyz0123456789+/"@[v as int]
    }

    open spec fn value(&self, c: char) -> Option<u8> {
        if 'A' <= c <= 'Z' {
            Some((c as u8 - 'A' as u8) as u8)
        } else if 'a' <= c <= 'z' {
            Some((c as u8 - 'a' as u8 + 26) as u8)
        } else if '0' <= c <= '9' {
            Some((c as u8 - '0' as u8 + 52) as u8)
        } else if c == '+' {
            Some(62u8)
        } else if c == '/' {
            Some(63u8)
        } else {
            None
        }
    }

    open spec fn padding(&self) -> char {
        '='
    }

    proof fn table_is_bijective(&self) {
        reveal_strlit("ABCDEFGHIJKLMNOPQRSTUVWXYZabcdefghijklmnopqrstuvwxyz0123456789+/");
    }

    fn symbol_for_value(&self, v: u8) -> (c: char) {
        proof {
            reveal_strlit("ABCDEFGHIJKLMNOPQRSTUVWXYZabcdefghijklmnopqrstuvwxyz0123456789+/");
            self.table_is_bijective();
        }
        if v < 26 {
            ('A' as u8 + v) as char
        } else if v < 52 {
            ('a' as u8 + (v - 26)) as char
        } else if v < 62 {
            ('0' as u8 + (v - 52)) as char
        } else if v == 62 {
            '+'
        } else {
            '/'
        }
    }

    fn value_for_symbol(&self, c: char) -> (r: Option<u8>) {
        if 'A' <= c && c <= 'Z' {
            Some(c as u8 - 'A' as u8)
        } else if 'a' <= c && c <= 'z' {
            Some(c as u8 - 'a' as u8 + 26)
        } else if '0' <= c && c <= '9' {
            Some(c as u8 - '0' as u8 + 52)
        } else if c == '+' {
            Some(62)
        } else if c == '/' {
            Some(63)
        } else {
            None
        }
    }

    fn padding_symbol(&self) -> (c: char) {
        '='
    }
}

} // verus!
