//! The shift cipher: a modular additive shift applied to every byte
//! independently, with the key bounded to `0..=22`.

use vstd::prelude::*;

use crate::error::CipherError;

verus! {

/// The largest accepted key.
pub const MAX_KEY: u8 = 22;

/// A key is valid exactly when it lies in `0..=MAX_KEY`.
pub open spec fn valid_key(key: u8) -> bool {
    key <= MAX_KEY
}

/// One byte of ciphertext: the plaintext byte shifted up by the key, mod 256.
pub open spec fn encrypt_byte(b: u8, key: u8) -> u8 {
    ((b + key) % 256) as u8
}

/// One byte of plaintext: the ciphertext byte shifted down by the key, mod 256.
/// The `+ 256` bias keeps the intermediate value non-negative.
pub open spec fn decrypt_byte(b: u8, key: u8) -> u8 {
    ((b + 256 - key) % 256) as u8
}

/// The whole ciphertext: every byte shifted up, in order.
pub open spec fn encrypt_seq(s: Seq<u8>, key: u8) -> Seq<u8> {
    Seq::new(s.len(), |i: int| encrypt_byte(s[i], key))
}

/// The whole plaintext: every byte shifted down, in order.
pub open spec fn decrypt_seq(s: Seq<u8>, key: u8) -> Seq<u8> {
    Seq::new(s.len(), |i: int| decrypt_byte(s[i], key))
}

/// Rejects keys outside `0..=MAX_KEY`; accepts everything else.
pub fn validate_key(key: u8) -> (r: Result<(), CipherError>)
    ensures
        r == if valid_key(key) {
            Ok::<(), CipherError>(())
        } else {
            Err::<(), CipherError>(CipherError::InvalidKey)
        },
{
    if key > MAX_KEY {
        Err(CipherError::InvalidKey)
    } else {
        Ok(())
    }
}

/// Shifts every byte of `plaintext` up by `key`, mod 256; fails with
/// `InvalidKey` exactly when the key lies outside `0..=MAX_KEY`.
pub fn encrypt(plaintext: &[u8], key: u8) -> (r: Result<Vec<u8>, CipherError>)
    ensures
        valid_key(key) ==> (r matches Ok(c) && c@ == encrypt_seq(plaintext@, key)),
        !valid_key(key) ==> r == Err::<Vec<u8>, CipherError>(CipherError::InvalidKey),
{
    validate_key(key)?;
    let mut out: Vec<u8> = Vec::new();
    let mut i: usize = 0;
    while i < plaintext.len()
        invariant
            valid_key(key),
            i <= plaintext@.len(),
            out@ == encrypt_seq(plaintext@, key).take(i as int),
        decreases plaintext@.len() - i,
    {
        let b = plaintext[i];
        // The u16 intermediate keeps the sum below the modulus' domain limit.
        let shifted = (b as u16 + key as u16) % 256;
        out.push(shifted as u8);
        i += 1;
        proof {
            assert(out@ =~= encrypt_seq(plaintext@, key).take(i as int));
        }
    }
    proof {
        assert(out@ =~= encrypt_seq(plaintext@, key));
    }
    Ok(out)
}

/// Shifts every byte of `ciphertext` down by `key`, mod 256; fails with
/// `InvalidKey` exactly when the key lies outside `0..=MAX_KEY`.
pub fn decrypt(ciphertext: &[u8], key: u8) -> (r: Result<Vec<u8>, CipherError>)
    ensures
        valid_key(key) ==> (r matches Ok(p) && p@ == decrypt_seq(ciphertext@, key)),
        !valid_key(key) ==> r == Err::<Vec<u8>, CipherError>(CipherError::InvalidKey),
{
    validate_key(key)?;
    let mut out: Vec<u8> = Vec::new();
    let mut i: usize = 0;
    while i < ciphertext.len()
        invariant
            valid_key(key),
            i <= ciphertext@.len(),
            out@ == decrypt_seq(ciphertext@, key).take(i as int),
        decreases ciphertext@.len() - i,
    {
        let b = ciphertext[i];
        // Adding 256 before subtracting keeps the intermediate non-negative.
        let shifted = (b as u16 + 256 - key as u16) % 256;
        out.push(shifted as u8);
        i += 1;
        proof {
            assert(out@ =~= decrypt_seq(ciphertext@, key).take(i as int));
        }
    }
    proof {
        assert(out@ =~= decrypt_seq(ciphertext@, key));
    }
    Ok(out)
}

/// Round-trip law: for every byte sequence and every valid key, decrypting
/// the encryption yields the original sequence, including bytes that wrap
/// across the 0/255 boundary.
pub proof fn lemma_cipher_round_trip(s: Seq<u8>, key: u8)
    requires
        valid_key(key),
    ensures
        decrypt_seq(encrypt_seq(s, key), key) == s,
{
    assert forall|i: int| 0 <= i < s.len() implies decrypt_seq(encrypt_seq(s, key), key)[i]
        == s[i] by {
        lemma_byte_round_trip(s[i], key);
    }
    assert(decrypt_seq(encrypt_seq(s, key), key) =~= s);
}

/// Per-byte round trip: shifting down undoes shifting up, for any byte.
proof fn lemma_byte_round_trip(b: u8, key: u8)
    requires
        valid_key(key),
    ensures
        decrypt_byte(encrypt_byte(b, key), key) == b,
{
    if b + key < 256 {
        assert((b + key) % 256 == b + key);
    } else {
        assert((b + key) % 256 == b + key - 256);
    }
}

} // verus!
