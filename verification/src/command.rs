//! The two end-to-end operations: encrypt a text to a hex string, and
//! decrypt a hex string back to a text. Each composes the hex codec and the
//! shift cipher and propagates their errors unchanged.

use vstd::prelude::*;
use vstd::utf8::decode_utf8;
use vstd::utf8::encode_utf8;
use vstd::utf8::encode_utf8_decode_utf8;
use vstd::utf8::encode_utf8_valid_utf8;
use vstd::utf8::valid_utf8;

use crate::caesar::decrypt;
use crate::caesar::decrypt_seq;
use crate::caesar::encrypt;
use crate::caesar::encrypt_seq;
use crate::caesar::lemma_cipher_round_trip;
use crate::caesar::valid_key;
use crate::error::CipherError;
use crate::hex::all_hex;
use crate::hex::hex_decode;
use crate::hex::hex_decode_seq;
use crate::hex::hex_encode;
use crate::hex::hex_encode_seq;
use crate::hex::lemma_hex_round_trip;

verus! {

/// Relies on String::from_utf8: returns the string holding exactly the given
/// bytes when they are valid UTF-8, and nothing otherwise.
#[verifier::external_body]
fn bytes_to_string(bytes: Vec<u8>) -> (r: Option<String>)
    ensures
        r is Some <==> valid_utf8(bytes@),
        r is Some ==> encode_utf8(r->0@) == bytes@,
{
    String::from_utf8(bytes).ok()
}

/// Encrypts the UTF-8 bytes of `plaintext` with `key` and renders the
/// ciphertext as a lowercase hex string; fails with `InvalidKey` exactly when
/// the key lies outside `0..=MAX_KEY`.
pub fn encrypt_command(plaintext: &str, key: u8) -> (r: Result<String, CipherError>)
    ensures
        valid_key(key) ==> (r matches Ok(out) && out@ == hex_encode_seq(
            encrypt_seq(encode_utf8(plaintext@), key),
        )),
        !valid_key(key) ==> r == Err::<String, CipherError>(CipherError::InvalidKey),
{
    let ciphertext_bytes = encrypt(plaintext.as_bytes(), key)?;
    Ok(hex_encode(ciphertext_bytes.as_slice()))
}

/// Decodes `hex_ciphertext`, decrypts the bytes with `key`, and returns the
/// resulting text. Propagates `OddLength` and `InvalidHexChar` from the
/// codec and `InvalidKey` from the cipher, in that order, and fails with
/// `InvalidText` exactly when the decrypted bytes are not valid UTF-8.
pub fn decrypt_command(hex_ciphertext: &str, key: u8) -> (r: Result<String, CipherError>)
    ensures
        hex_ciphertext@.len() % 2 != 0 ==> r == Err::<String, CipherError>(CipherError::OddLength),
        hex_ciphertext@.len() % 2 == 0 && !all_hex(hex_ciphertext@) ==> r == Err::<
            String,
            CipherError,
        >(CipherError::InvalidHexChar),
        hex_ciphertext@.len() % 2 == 0 && all_hex(hex_ciphertext@) && !valid_key(key) ==> r
            == Err::<String, CipherError>(CipherError::InvalidKey),
        hex_ciphertext@.len() % 2 == 0 && all_hex(hex_ciphertext@) && valid_key(key) ==> ({
            let plain = decrypt_seq(hex_decode_seq(hex_ciphertext@), key);
            &&& valid_utf8(plain) ==> (r matches Ok(out) && out@ == decode_utf8(plain))
            &&& !valid_utf8(plain) ==> r == Err::<String, CipherError>(CipherError::InvalidText)
        }),
{
    let ciphertext_bytes = hex_decode(hex_ciphertext)?;
    let plaintext_bytes = decrypt(ciphertext_bytes.as_slice(), key)?;
    match bytes_to_string(plaintext_bytes) {
        Some(text) => {
            proof {
                encode_utf8_decode_utf8(text@);
            }
            Ok(text)
        },
        None => Err(CipherError::InvalidText),
    }
}

/// End-to-end round-trip law: for every text and every valid key, the hex
/// string that encryption produces decodes to hex digits of even length, the
/// decrypted bytes are valid UTF-8, and they read back as the original text.
/// Together with the contracts of `encrypt_command` and `decrypt_command`
/// this says that decrypting an encryption with the same key returns the
/// original text.
pub proof fn lemma_command_round_trip(s: Seq<char>, key: u8)
    requires
        valid_key(key),
    ensures
        ({
            let encoded = hex_encode_seq(encrypt_seq(encode_utf8(s), key));
            &&& encoded.len() % 2 == 0
            &&& all_hex(encoded)
            &&& valid_utf8(decrypt_seq(hex_decode_seq(encoded), key))
            &&& decode_utf8(decrypt_seq(hex_decode_seq(encoded), key)) == s
        }),
{
    let cipher = encrypt_seq(encode_utf8(s), key);
    lemma_hex_round_trip(cipher);
    lemma_cipher_round_trip(encode_utf8(s), key);
    encode_utf8_valid_utf8(s);
    encode_utf8_decode_utf8(s);
}

} // verus!
