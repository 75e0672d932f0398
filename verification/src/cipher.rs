//! The cipher transforms: Caesar (one fixed offset), Vigenère (the key's
//! offsets repeated), and one-time pad (one key offset per data symbol,
//! no cycling).
//!
//! Each transform maps every data symbol through
//! `(index ± offset) mod 27`, with the Euclidean modulus, and returns a
//! sequence of canonical symbols of the same length as the data — or an
//! error, never partial output.

use vstd::prelude::*;
use vstd::string::StrSliceExecFns;
use crate::alphabet::{
    in_alphabet, all_in_alphabet, char_index, index_char, symbol_to_index, index_char_exec,
};

verus! {

/// The cipher variants.
#[derive(Clone, Copy, PartialEq, Eq, Structural, Debug)]
pub enum CipherKind {
    Caesar,
    Vigenere,
    Otp,
}

/// The ways an operation can fail. No partial output accompanies an error.
#[derive(Clone, Copy, PartialEq, Eq, Structural, Debug)]
pub enum CipherError {
    /// The key or the data holds a character outside {`A`-`Z`, `a`-`z`, space}.
    UnknownSymbol,
    /// An empty key was supplied to Caesar or Vigenère.
    InvalidKey,
    /// A one-time-pad key shorter than the data.
    KeyTooShort,
    /// An index outside 0..26 was given to the alphabet table.
    IndexOutOfRange,
}

/// One encrypted symbol index: shift forward by `o`, circularly.
pub open spec fn enc_sym(d: int, o: int) -> int {
    (d + o) % 27
}

/// One decrypted symbol index: shift backward by `o`, circularly.
/// The modulus is Euclidean, so the result is in 0..26 even when `d < o`.
pub open spec fn dec_sym(d: int, o: int) -> int {
    (d - o) % 27
}

/// The offsets a key denotes: each key symbol mapped to its index, in order.
pub open spec fn offsets_of(key: Seq<char>) -> Seq<int> {
    key.map(|i: int, c: char| char_index(c))
}

/// The offsets a cipher derives from its key: Caesar reads only the first
/// key symbol; Vigenère and the one-time pad use every symbol in order.
pub open spec fn cipher_offsets(kind: CipherKind, key: Seq<char>) -> Seq<int> {
    match kind {
        CipherKind::Caesar => seq![char_index(key[0])],
        CipherKind::Vigenere => offsets_of(key),
        CipherKind::Otp => offsets_of(key),
    }
}

/// Encryption of `data` under the offset sequence `offs`, cycled: the i-th
/// output symbol is the canonical symbol whose index is the i-th data
/// symbol's index shifted forward by `offs[i mod len(offs)]`.
pub open spec fn encrypt_seq(data: Seq<char>, offs: Seq<int>) -> Seq<char>
    recommends
        offs.len() > 0,
{
    Seq::new(data.len(), |i: int| index_char(enc_sym(char_index(data[i]), offs[i % offs.len() as int])))
}

/// Decryption of `data` under the offset sequence `offs`, cycled: as
/// `encrypt_seq`, shifting backward instead of forward.
pub open spec fn decrypt_seq(data: Seq<char>, offs: Seq<int>) -> Seq<char>
    recommends
        offs.len() > 0,
{
    Seq::new(data.len(), |i: int| index_char(dec_sym(char_index(data[i]), offs[i % offs.len() as int])))
}

/// The length condition a key must meet: non-empty for Caesar and Vigenère,
/// at least as long as the data for the one-time pad.
pub open spec fn key_len_ok(kind: CipherKind, key: Seq<char>, data: Seq<char>) -> bool {
    match kind {
        CipherKind::Caesar => key.len() > 0,
        CipherKind::Vigenere => key.len() > 0,
        CipherKind::Otp => key.len() >= data.len(),
    }
}

/// The error reported when the key's length condition fails.
pub open spec fn key_len_error(kind: CipherKind) -> CipherError {
    match kind {
        CipherKind::Caesar => CipherError::InvalidKey,
        CipherKind::Vigenere => CipherError::InvalidKey,
        CipherKind::Otp => CipherError::KeyTooShort,
    }
}

/// What `encrypt` returns, in full: the key's length condition is checked
/// first, then every key and data character must be in the alphabet, and
/// only then is the transformed sequence produced.
pub open spec fn encrypt_result(kind: CipherKind, key: Seq<char>, data: Seq<char>) -> Result<
    Seq<char>,
    CipherError,
> {
    if !key_len_ok(kind, key, data) {
        Err(key_len_error(kind))
    } else if !all_in_alphabet(key) || !all_in_alphabet(data) {
        Err(CipherError::UnknownSymbol)
    } else {
        Ok(encrypt_seq(data, cipher_offsets(kind, key)))
    }
}

/// What `decrypt` returns, in full: the same validation as `encrypt_result`,
/// shifting backward instead of forward.
pub open spec fn decrypt_result(kind: CipherKind, key: Seq<char>, data: Seq<char>) -> Result<
    Seq<char>,
    CipherError,
> {
    if !key_len_ok(kind, key, data) {
        Err(key_len_error(kind))
    } else if !all_in_alphabet(key) || !all_in_alphabet(data) {
        Err(CipherError::UnknownSymbol)
    } else {
        Ok(decrypt_seq(data, cipher_offsets(kind, key)))
    }
}

/// A returned string, seen as a sequence of symbols.
pub open spec fn res_view(r: Result<String, CipherError>) -> Result<Seq<char>, CipherError> {
    match r {
        Ok(s) => Ok(s@),
        Err(e) => Err(e),
    }
}

/// Maps every character of `s` to its alphabet index, or reports the first
/// character outside the alphabet as `UnknownSymbol`.
fn symbols_to_indices(s: &str) -> (r: Result<Vec<u8>, CipherError>)
    ensures
        match r {
            Ok(v) => all_in_alphabet(s@) && v@.len() == s@.len() && (forall|i: int|
                0 <= i < v@.len() ==> v@[i] < 27 && v@[i] == char_index(s@[i])),
            Err(e) => !all_in_alphabet(s@) && e == CipherError::UnknownSymbol,
        },
{
    let n = s.unicode_len();
    let mut v: Vec<u8> = Vec::new();
    let mut j: usize = 0;
    while j < n
        invariant
            n == s@.len(),
            j <= n,
            v@.len() == j,
            forall|i: int| 0 <= i < j ==> in_alphabet(s@[i]),
            forall|i: int| 0 <= i < j ==> v@[i] < 27 && v@[i] == char_index(s@[i]),
        decreases n - j,
    {
        let c = s.get_char(j);
        match symbol_to_index(c) {
            Ok(idx) => v.push(idx),
            Err(e) => {
                return Err(e);
            },
        }
        j = j + 1;
    }
    Ok(v)
}

/// Applies the offset sequence to every data index, cycling through the
/// offsets, shifting forward when `encrypting` and backward otherwise.
/// All arithmetic is circular modulo 27.
fn apply_offsets(data: &Vec<u8>, offs: &Vec<u8>, encrypting: bool) -> (r: Vec<u8>)
    requires
        data.len() > 0 ==> offs.len() > 0,
        forall|i: int| 0 <= i < data.len() ==> data[i] < 27,
        forall|i: int| 0 <= i < offs.len() ==> offs[i] < 27,
    ensures
        r@.len() == data@.len(),
        forall|i: int|
            0 <= i < r@.len() ==> r@[i] < 27 && r@[i] as int == (if encrypting {
                enc_sym(data@[i] as int, offs@[i % offs@.len() as int] as int)
            } else {
                dec_sym(data@[i] as int, offs@[i % offs@.len() as int] as int)
            }),
{
    let mut out: Vec<u8> = Vec::new();
    let mut j: usize = 0;
    while j < data.len()
        invariant
            j <= data.len(),
            out@.len() == j,
            data.len() > 0 ==> offs.len() > 0,
            forall|i: int| 0 <= i < data.len() ==> data[i] < 27,
            forall|i: int| 0 <= i < offs.len() ==> offs[i] < 27,
            forall|i: int|
                0 <= i < j ==> out@[i] < 27 && out@[i] as int == (if encrypting {
                    enc_sym(data@[i] as int, offs@[i % offs@.len() as int] as int)
                } else {
                    dec_sym(data@[i] as int, offs@[i % offs@.len() as int] as int)
                }),
        decreases data.len() - j,
    {
        let d = data[j];
        let o = offs[j % offs.len()];
        let shifted: u8 = if encrypting {
            (d + o) % 27
        } else {
            (d + 27 - o) % 27
        };
        proof {
            if !encrypting {
                vstd::arithmetic::div_mod::lemma_mod_add_multiples_vanish(
                    d as int - o as int,
                    27,
                );
            }
        }
        out.push(shifted);
        j = j + 1;
    }
    out
}

/// Relies on `String::push`: appends the given character at the end.
#[verifier::external_body]
fn push_char(s: &mut String, c: char)
    ensures
        final(s)@ == old(s)@.push(c),
{
    s.push(c);
}

/// Renders a sequence of alphabet indices as the string of their canonical
/// symbols.
fn indices_to_string(v: &Vec<u8>) -> (r: String)
    requires
        forall|i: int| 0 <= i < v.len() ==> v[i] < 27,
    ensures
        r@.len() == v@.len(),
        forall|i: int| 0 <= i < v@.len() ==> r@[i] == index_char(v@[i] as int),
{
    let mut out = String::new();
    let mut j: usize = 0;
    while j < v.len()
        invariant
            j <= v.len(),
            out@.len() == j,
            forall|i: int| 0 <= i < v.len() ==> v[i] < 27,
            forall|i: int| 0 <= i < j ==> out@[i] == index_char(v@[i] as int),
        decreases v.len() - j,
    {
        let c = index_char_exec(v[j]);
        push_char(&mut out, c);
        j = j + 1;
    }
    out
}

/// Validates the key and the data for `kind`, derives the offsets, and runs
/// the circular shift over every data symbol.
fn run_cipher(kind: CipherKind, key: &str, data: &str, encrypting: bool) -> (r: Result<
    String,
    CipherError,
>)
    ensures
        res_view(r) == (if encrypting {
            encrypt_result(kind, key@, data@)
        } else {
            decrypt_result(kind, key@, data@)
        }),
{
    let key_len = key.unicode_len();
    let data_len = data.unicode_len();
    match kind {
        CipherKind::Caesar | CipherKind::Vigenere => {
            if key_len == 0 {
                return Err(CipherError::InvalidKey);
            }
        },
        CipherKind::Otp => {
            if key_len < data_len {
                return Err(CipherError::KeyTooShort);
            }
        },
    }
    let key_indices = match symbols_to_indices(key) {
        Ok(v) => v,
        Err(e) => {
            return Err(e);
        },
    };
    let data_indices = match symbols_to_indices(data) {
        Ok(v) => v,
        Err(e) => {
            return Err(e);
        },
    };
    let offsets: Vec<u8> = match kind {
        CipherKind::Caesar => {
            let mut first: Vec<u8> = Vec::new();
            first.push(key_indices[0]);
            first
        },
        CipherKind::Vigenere => key_indices,
        CipherKind::Otp => key_indices,
    };
    let out_indices = apply_offsets(&data_indices, &offsets, encrypting);
    let out = indices_to_string(&out_indices);
    proof {
        let offs = cipher_offsets(kind, key@);
        assert(offsets@.len() == offs.len());
        assert(forall|i: int| 0 <= i < offs.len() ==> offsets@[i] as int == offs[i]);
        if encrypting {
            assert(out@ =~= encrypt_seq(data@, offs));
        } else {
            assert(out@ =~= decrypt_seq(data@, offs));
        }
    }
    Ok(out)
}

/// Encrypts `data` with `key` under the chosen cipher. Returns the
/// ciphertext — canonical symbols, one per data symbol — or the documented
/// error; `encrypt_result` states the outcome for every input.
pub fn encrypt(kind: CipherKind, key: &str, data: &str) -> (r: Result<String, CipherError>)
    ensures
        res_view(r) == encrypt_result(kind, key@, data@),
{
    run_cipher(kind, key, data, true)
}

/// Decrypts `data` with `key` under the chosen cipher. Returns the
/// plaintext in canonical form or the documented error; `decrypt_result`
/// states the outcome for every input.
pub fn decrypt(kind: CipherKind, key: &str, data: &str) -> (r: Result<String, CipherError>)
    ensures
        res_view(r) == decrypt_result(kind, key@, data@),
{
    run_cipher(kind, key, data, false)
}

/// Caesar encryption: every data symbol shifts forward by the index of the
/// first key symbol. A longer key is accepted; only its first symbol matters.
pub fn caesar_encrypt(key: &str, data: &str) -> (r: Result<String, CipherError>)
    ensures
        res_view(r) == encrypt_result(CipherKind::Caesar, key@, data@),
        r matches Ok(s) ==> forall|i: int|
            0 <= i < data@.len() ==> s@[i] == index_char(
                enc_sym(char_index(data@[i]), char_index(key@[0])),
            ),
{
    encrypt(CipherKind::Caesar, key, data)
}

/// Caesar decryption: every data symbol shifts backward by the index of the
/// first key symbol.
pub fn caesar_decrypt(key: &str, data: &str) -> (r: Result<String, CipherError>)
    ensures
        res_view(r) == decrypt_result(CipherKind::Caesar, key@, data@),
        r matches Ok(s) ==> forall|i: int|
            0 <= i < data@.len() ==> s@[i] == index_char(
                dec_sym(char_index(data@[i]), char_index(key@[0])),
            ),
{
    decrypt(CipherKind::Caesar, key, data)
}

/// Vigenère encryption: the i-th data symbol shifts forward by the offset of
/// the key symbol at position `i mod len(key)` — the key cycles indefinitely.
pub fn vigenere_encrypt(key: &str, data: &str) -> (r: Result<String, CipherError>)
    ensures
        res_view(r) == encrypt_result(CipherKind::Vigenere, key@, data@),
        r matches Ok(s) ==> forall|i: int|
            0 <= i < data@.len() ==> s@[i] == index_char(
                enc_sym(char_index(data@[i]), char_index(key@[i % key@.len() as int])),
            ),
{
    encrypt(CipherKind::Vigenere, key, data)
}

/// Vigenère decryption: as `vigenere_encrypt`, shifting backward.
pub fn vigenere_decrypt(key: &str, data: &str) -> (r: Result<String, CipherError>)
    ensures
        res_view(r) == decrypt_result(CipherKind::Vigenere, key@, data@),
        r matches Ok(s) ==> forall|i: int|
            0 <= i < data@.len() ==> s@[i] == index_char(
                dec_sym(char_index(data@[i]), char_index(key@[i % key@.len() as int])),
            ),
{
    decrypt(CipherKind::Vigenere, key, data)
}

/// One-time-pad encryption: the i-th data symbol shifts forward by the offset
/// of the i-th key symbol — no cycling, so the key must be at least as long
/// as the data (`KeyTooShort` otherwise).
pub fn otp_encrypt(key: &str, data: &str) -> (r: Result<String, CipherError>)
    ensures
        res_view(r) == encrypt_result(CipherKind::Otp, key@, data@),
        r matches Ok(s) ==> forall|i: int|
            0 <= i < data@.len() ==> s@[i] == index_char(
                enc_sym(char_index(data@[i]), char_index(key@[i])),
            ),
{
    let r = encrypt(CipherKind::Otp, key, data);
    proof {
        if r is Ok {
            assert forall|i: int| 0 <= i < data@.len() implies r->Ok_0@[i] == index_char(
                enc_sym(char_index(data@[i]), char_index(key@[i])),
            ) by {
                vstd::arithmetic::div_mod::lemma_small_mod(i as nat, key@.len());
            }
        }
    }
    r
}

/// One-time-pad decryption: as `otp_encrypt`, shifting backward, with the
/// same key-length requirement.
pub fn otp_decrypt(key: &str, data: &str) -> (r: Result<String, CipherError>)
    ensures
        res_view(r) == decrypt_result(CipherKind::Otp, key@, data@),
        r matches Ok(s) ==> forall|i: int|
            0 <= i < data@.len() ==> s@[i] == index_char(
                dec_sym(char_index(data@[i]), char_index(key@[i])),
            ),
{
    let r = decrypt(CipherKind::Otp, key, data);
    proof {
        if r is Ok {
            assert forall|i: int| 0 <= i < data@.len() implies r->Ok_0@[i] == index_char(
                dec_sym(char_index(data@[i]), char_index(key@[i])),
            ) by {
                vstd::arithmetic::div_mod::lemma_small_mod(i as nat, key@.len());
            }
        }
    }
    r
}

} // verus!
