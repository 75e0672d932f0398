//! The shared alphabet table: a bijection between the 27 symbols
//! {`A`..`Z`, space} and the indices 0..26 (`A`→0 … `Z`→25, space→26).
//! Lookup is case-insensitive; the canonical form of a symbol is uppercase.

use vstd::prelude::*;
use crate::cipher::CipherError;

verus! {

/// Number of symbols in the alphabet: the letters `A`–`Z` plus the space.
pub const ALPHABET_SIZE: u8 = 27;

/// Whether `c` is one of the recognized symbols: an ASCII letter of either
/// case, or a space.
pub open spec fn in_alphabet(c: char) -> bool {
    (65 <= c as int && c as int <= 90)  // 'A'..='Z'
    || (97 <= c as int && c as int <= 122)  // 'a'..='z'
    || c as int == 32  // ' '
}

/// Whether every character of `s` is a recognized symbol.
pub open spec fn all_in_alphabet(s: Seq<char>) -> bool {
    forall|i: int| 0 <= i < s.len() ==> in_alphabet(s[i])
}

/// The index of a symbol: `A`→0 … `Z`→25 in either case, space→26.
/// Meaningful only when `in_alphabet(c)` holds.
pub open spec fn char_index(c: char) -> int {
    if 65 <= c as int && c as int <= 90 {
        c as int - 65
    } else if 97 <= c as int && c as int <= 122 {
        c as int - 97
    } else {
        26
    }
}

/// The canonical (uppercase) symbol with index `i`: 0→`A` … 25→`Z`, 26→space.
/// Meaningful only for `0 <= i < 27`.
pub open spec fn index_char(i: int) -> char {
    if i == 26 {
        (32 as u8) as char
    } else {
        ((65 + i) as u8) as char
    }
}

/// The canonical form of a symbol: the uppercase symbol with the same index.
pub open spec fn canon(c: char) -> char {
    index_char(char_index(c))
}

/// The canonical form of a sequence of symbols.
pub open spec fn canon_seq(s: Seq<char>) -> Seq<char> {
    s.map(|i: int, c: char| canon(c))
}

/// The table is a bijection: every index in range names one canonical symbol,
/// and looking that symbol up returns the index.
pub proof fn lemma_index_char_inverse(i: int)
    requires
        0 <= i < 27,
    ensures
        in_alphabet(index_char(i)),
        char_index(index_char(i)) == i,
        65 <= index_char(i) as int <= 90 || index_char(i) as int == 32,
{
}

/// The other direction of the bijection: a canonical symbol — an uppercase
/// letter or the space — comes back unchanged from a round trip through its
/// index.
pub proof fn lemma_canon_identity(c: char)
    requires
        in_alphabet(c),
        !(97 <= c as int && c as int <= 122),
    ensures
        canon(c) == c,
{
}

/// A symbol's index is always in range.
pub proof fn lemma_char_index_range(c: char)
    ensures
        0 <= char_index(c) < 27,
{
}

/// Looks a symbol up in the table, case-insensitively.
/// Fails with `UnknownSymbol` when `symbol` is outside the alphabet.
pub fn symbol_to_index(symbol: char) -> (r: Result<u8, CipherError>)
    ensures
        match r {
            Ok(i) => in_alphabet(symbol) && i == char_index(symbol) && i < 27,
            Err(e) => !in_alphabet(symbol) && e == CipherError::UnknownSymbol,
        },
{
    let u = symbol as u32;
    if 65 <= u && u <= 90 {
        Ok((u - 65) as u8)
    } else if 97 <= u && u <= 122 {
        Ok((u - 97) as u8)
    } else if u == 32 {
        Ok(26)
    } else {
        Err(CipherError::UnknownSymbol)
    }
}

/// Looks an index up in the table.
/// Fails with `IndexOutOfRange` when `index` is not in 0..26.
pub fn index_to_symbol(index: u8) -> (r: Result<char, CipherError>)
    ensures
        match r {
            Ok(c) => index < 27 && c == index_char(index as int),
            Err(e) => index >= 27 && e == CipherError::IndexOutOfRange,
        },
{
    if index < 27 {
        Ok(index_char_exec(index))
    } else {
        Err(CipherError::IndexOutOfRange)
    }
}

/// The table lookup for an index already known to be in range.
pub(crate) fn index_char_exec(i: u8) -> (c: char)
    requires
        i < 27,
    ensures
        c == index_char(i as int),
{
    let b: u8 = if i == 26 {
        32
    } else {
        65 + i
    };
    b as char
}

} // verus!
