use ciphers::cipher::{
    caesar_decrypt, caesar_encrypt, decrypt, encrypt, otp_decrypt, otp_encrypt, vigenere_decrypt,
    vigenere_encrypt, CipherError, CipherKind,
};

#[test]
fn caesar_shifts_each_symbol_three_forward() {
    // Key "D" has index 3; the space (index 26) moves to (26+3) mod 27 = 2 = 'C'.
    let c = caesar_encrypt("D", "BIKINI BOTTOM").unwrap();
    assert_eq!(c, "ELNLQLCERWWRP");
}

#[test]
fn caesar_round_trip() {
    let c = caesar_encrypt("D", "Bikini Bottom").unwrap();
    let p = caesar_decrypt("D", &c).unwrap();
    assert_eq!(p, "BIKINI BOTTOM");
}

#[test]
fn caesar_is_case_insensitive() {
    assert_eq!(
        caesar_encrypt("d", "bikini bottom").unwrap(),
        caesar_encrypt("D", "BIKINI BOTTOM").unwrap()
    );
}

#[test]
fn caesar_uses_only_the_first_key_symbol() {
    assert_eq!(
        caesar_encrypt("DOG", "BIKINI BOTTOM").unwrap(),
        caesar_encrypt("D", "BIKINI BOTTOM").unwrap()
    );
}

#[test]
fn vigenere_cycles_the_key_offsets() {
    // Offsets of "DINGUS": 3 8 13 6 20 18, repeating every 6 symbols.
    let c = vigenere_encrypt("DINGUS", "BIKINI BOTTOM").unwrap();
    assert_eq!(c, "EQXOG CJAZMFP");
}

#[test]
fn vigenere_round_trip() {
    let c = vigenere_encrypt("DINGUS", "Bikini Bottom").unwrap();
    let p = vigenere_decrypt("DINGUS", &c).unwrap();
    assert_eq!(p, "BIKINI BOTTOM");
}

#[test]
fn otp_uses_one_offset_per_symbol() {
    let c = otp_encrypt("YOU FEEL AN EVIL PRESENCE WATCHING YOU", "BIKINI BOTTOM").unwrap();
    assert_eq!(c, "ZWDHSMDMNTFNQ");
}

#[test]
fn otp_round_trip() {
    let key = "YOU FEEL AN EVIL PRESENCE WATCHING YOU";
    let c = otp_encrypt(key, "Bikini Bottom").unwrap();
    let p = otp_decrypt(key, &c).unwrap();
    assert_eq!(p, "BIKINI BOTTOM");
}

#[test]
fn otp_rejects_a_key_shorter_than_the_data() {
    assert_eq!(
        otp_encrypt("SHORT", "BIKINI BOTTOM"),
        Err(CipherError::KeyTooShort)
    );
    assert_eq!(
        otp_decrypt("SHORT", "BIKINI BOTTOM"),
        Err(CipherError::KeyTooShort)
    );
}

#[test]
fn empty_data_encrypts_to_empty_output() {
    assert_eq!(caesar_encrypt("D", "").unwrap(), "");
    assert_eq!(vigenere_encrypt("DINGUS", "").unwrap(), "");
    assert_eq!(otp_encrypt("YOU", "").unwrap(), "");
    assert_eq!(caesar_decrypt("D", "").unwrap(), "");
    assert_eq!(vigenere_decrypt("DINGUS", "").unwrap(), "");
    assert_eq!(otp_decrypt("YOU", "").unwrap(), "");
}

#[test]
fn non_alphabet_character_in_data_is_rejected() {
    assert_eq!(
        caesar_encrypt("D", "BIKINI 2"),
        Err(CipherError::UnknownSymbol)
    );
    assert_eq!(
        vigenere_encrypt("DINGUS", "B!KINI"),
        Err(CipherError::UnknownSymbol)
    );
    assert_eq!(
        otp_encrypt("YOU FEEL", "B.KINI"),
        Err(CipherError::UnknownSymbol)
    );
}

#[test]
fn non_alphabet_character_in_key_is_rejected() {
    assert_eq!(
        caesar_encrypt("4", "BIKINI"),
        Err(CipherError::UnknownSymbol)
    );
    assert_eq!(
        vigenere_encrypt("DIN,US", "BIKINI"),
        Err(CipherError::UnknownSymbol)
    );
    assert_eq!(
        otp_decrypt("YOU-FEEL", "BIKINI"),
        Err(CipherError::UnknownSymbol)
    );
}

#[test]
fn empty_key_is_invalid_for_caesar_and_vigenere() {
    assert_eq!(caesar_encrypt("", "BIKINI"), Err(CipherError::InvalidKey));
    assert_eq!(caesar_decrypt("", "BIKINI"), Err(CipherError::InvalidKey));
    assert_eq!(vigenere_encrypt("", "BIKINI"), Err(CipherError::InvalidKey));
    assert_eq!(vigenere_decrypt("", "BIKINI"), Err(CipherError::InvalidKey));
}

#[test]
fn same_inputs_always_yield_the_same_output() {
    for kind in [CipherKind::Caesar, CipherKind::Vigenere, CipherKind::Otp] {
        let first = encrypt(kind, "YOU FEEL AN EVIL", "BIKINI BOTTOM");
        let second = encrypt(kind, "YOU FEEL AN EVIL", "BIKINI BOTTOM");
        assert_eq!(first, second);
        let first = decrypt(kind, "YOU FEEL AN EVIL", "BIKINI BOTTOM");
        let second = decrypt(kind, "YOU FEEL AN EVIL", "BIKINI BOTTOM");
        assert_eq!(first, second);
    }
}

#[test]
fn dispatch_matches_the_per_cipher_functions() {
    let key = "YOU FEEL AN EVIL";
    let data = "Bikini Bottom";
    assert_eq!(encrypt(CipherKind::Caesar, key, data), caesar_encrypt(key, data));
    assert_eq!(encrypt(CipherKind::Vigenere, key, data), vigenere_encrypt(key, data));
    assert_eq!(encrypt(CipherKind::Otp, key, data), otp_encrypt(key, data));
    assert_eq!(decrypt(CipherKind::Caesar, key, data), caesar_decrypt(key, data));
    assert_eq!(decrypt(CipherKind::Vigenere, key, data), vigenere_decrypt(key, data));
    assert_eq!(decrypt(CipherKind::Otp, key, data), otp_decrypt(key, data));
}

#[test]
fn round_trip_holds_for_every_cipher_over_the_full_alphabet() {
    let data = "THE QUICK BROWN FOX JUMPS OVER THE LAZY DOG";
    let key = "A QUITE LONG KEY THAT COVERS ALL THE DATA HERE";
    for kind in [CipherKind::Caesar, CipherKind::Vigenere, CipherKind::Otp] {
        let c = encrypt(kind, key, data).unwrap();
        assert_eq!(c.len(), data.len());
        assert_eq!(decrypt(kind, key, &c).unwrap(), data);
    }
}
