//! The laws the ciphers obey, proved once for every cipher, key and data:
//! encryption and decryption are exact inverses, the outcome is a function
//! of the inputs alone, empty data yields empty output, and a symbol outside
//! the alphabet always yields `UnknownSymbol`.

use vstd::prelude::*;
use vstd::arithmetic::div_mod::{
    lemma_mod_add_multiples_vanish, lemma_mod_bound, lemma_mod_sub_multiples_vanish,
    lemma_small_mod,
};
use crate::alphabet::{
    all_in_alphabet, canon_seq, char_index, in_alphabet, lemma_char_index_range,
    lemma_index_char_inverse,
};
use crate::cipher::{
    cipher_offsets, dec_sym, decrypt_result, decrypt_seq, enc_sym, encrypt_result, encrypt_seq,
    key_len_ok, CipherError, CipherKind,
};

verus! {

/// Shifting a symbol index forward by an offset and then backward by the
/// same offset, circularly modulo 27, returns the original index.
pub proof fn lemma_sym_round_trip(d: int, o: int)
    requires
        0 <= d < 27,
        0 <= o < 27,
    ensures
        0 <= enc_sym(d, o) < 27,
        dec_sym(enc_sym(d, o), o) == d,
{
    if d + o < 27 {
        lemma_small_mod((d + o) as nat, 27);
        lemma_small_mod(d as nat, 27);
    } else {
        lemma_mod_add_multiples_vanish(d + o - 27, 27);
        lemma_small_mod((d + o - 27) as nat, 27);
        lemma_mod_sub_multiples_vanish(d, 27);
        lemma_small_mod(d as nat, 27);
    }
}

/// Every offset a cipher derives from its key is a symbol index in 0..26.
proof fn lemma_cipher_offsets_range(kind: CipherKind, key: Seq<char>)
    ensures
        forall|i: int|
            0 <= i < cipher_offsets(kind, key).len() ==> 0 <= #[trigger] cipher_offsets(
                kind,
                key,
            )[i] < 27,
{
    assert forall|i: int| 0 <= i < cipher_offsets(kind, key).len() implies 0
        <= #[trigger] cipher_offsets(kind, key)[i] < 27 by {
        match kind {
            CipherKind::Caesar => lemma_char_index_range(key[0]),
            CipherKind::Vigenere => lemma_char_index_range(key[i]),
            CipherKind::Otp => lemma_char_index_range(key[i]),
        }
    }
}

/// Round trip: for every cipher, every key meeting its length condition, and
/// every key and data over the alphabet, encryption succeeds and decrypting
/// the ciphertext with the same key returns the data in canonical
/// (uppercase) form.
pub proof fn lemma_round_trip(kind: CipherKind, key: Seq<char>, data: Seq<char>)
    requires
        key_len_ok(kind, key, data),
        all_in_alphabet(key),
        all_in_alphabet(data),
    ensures
        encrypt_result(kind, key, data) matches Ok(c) && decrypt_result(kind, key, c) == Ok::<
            Seq<char>,
            CipherError,
        >(canon_seq(data)),
{
    let offs = cipher_offsets(kind, key);
    let c = encrypt_seq(data, offs);
    lemma_cipher_offsets_range(kind, key);
    assert(encrypt_result(kind, key, data) == Ok::<Seq<char>, CipherError>(c));
    assert forall|i: int| 0 <= i < c.len() implies in_alphabet(#[trigger] c[i]) by {
        lemma_char_index_range(data[i]);
        lemma_mod_bound(char_index(data[i]) + offs[i % offs.len() as int], 27);
        lemma_index_char_inverse(enc_sym(char_index(data[i]), offs[i % offs.len() as int]));
    }
    assert(key_len_ok(kind, key, c));
    assert forall|i: int| 0 <= i < c.len() implies decrypt_seq(c, offs)[i] == canon_seq(data)[i] by {
        let d = char_index(data[i]);
        let o = offs[i % offs.len() as int];
        lemma_char_index_range(data[i]);
        lemma_sym_round_trip(d, o);
        lemma_index_char_inverse(enc_sym(d, o));
    }
    assert(decrypt_seq(c, offs) =~= canon_seq(data));
}

/// Determinism of encryption: the outcome is the value of `encrypt_result`,
/// a function of the cipher, the key and the data alone, so any two results
/// that `encrypt`'s contract allows for the same inputs are equal.
pub proof fn lemma_encrypt_deterministic(
    kind: CipherKind,
    key: Seq<char>,
    data: Seq<char>,
    r1: Result<Seq<char>, CipherError>,
    r2: Result<Seq<char>, CipherError>,
)
    requires
        r1 == encrypt_result(kind, key, data),
        r2 == encrypt_result(kind, key, data),
    ensures
        r1 == r2,
{
}

/// Determinism of decryption: as `lemma_encrypt_deterministic`, for
/// `decrypt_result`.
pub proof fn lemma_decrypt_deterministic(
    kind: CipherKind,
    key: Seq<char>,
    data: Seq<char>,
    r1: Result<Seq<char>, CipherError>,
    r2: Result<Seq<char>, CipherError>,
)
    requires
        r1 == decrypt_result(kind, key, data),
        r2 == decrypt_result(kind, key, data),
    ensures
        r1 == r2,
{
}

/// Empty data encrypts — and decrypts — to the empty output for every cipher
/// given a valid key.
pub proof fn lemma_empty_data(kind: CipherKind, key: Seq<char>)
    requires
        key_len_ok(kind, key, Seq::<char>::empty()),
        all_in_alphabet(key),
    ensures
        encrypt_result(kind, key, Seq::<char>::empty()) == Ok::<Seq<char>, CipherError>(
            Seq::<char>::empty(),
        ),
        decrypt_result(kind, key, Seq::<char>::empty()) == Ok::<Seq<char>, CipherError>(
            Seq::<char>::empty(),
        ),
{
    let offs = cipher_offsets(kind, key);
    assert(encrypt_seq(Seq::<char>::empty(), offs) =~= Seq::<char>::empty());
    assert(decrypt_seq(Seq::<char>::empty(), offs) =~= Seq::<char>::empty());
}

/// A character outside the alphabet anywhere in the key or the data yields
/// `UnknownSymbol` — for every cipher whose key length condition holds, on
/// encryption and on decryption alike, and no output is produced.
pub proof fn lemma_unknown_symbol(kind: CipherKind, key: Seq<char>, data: Seq<char>)
    requires
        key_len_ok(kind, key, data),
        !(all_in_alphabet(key) && all_in_alphabet(data)),
    ensures
        encrypt_result(kind, key, data) == Err::<Seq<char>, CipherError>(
            CipherError::UnknownSymbol,
        ),
        decrypt_result(kind, key, data) == Err::<Seq<char>, CipherError>(
            CipherError::UnknownSymbol,
        ),
{
}

} // verus!
