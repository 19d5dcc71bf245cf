use caesar_cipher::command::decrypt_command;
use caesar_cipher::command::encrypt_command;
use caesar_cipher::hex::hex_decode;
use caesar_cipher::hex::hex_encode;

#[test]
fn test_hex_encode() {
    // Ciphertext is raw bytes, some non-printable. Hex encoding makes every
    // byte visible as two characters (0-9, a-f); byte 109 (0x6d) becomes "6d".
    let bytes = vec![109, 106, 113];
    let result = hex_encode(&bytes);
    assert_eq!(result, "6d6a71");
}

#[test]
fn test_hex_decode_valid() {
    // The inverse of hex_encode: hex strings from the command line are turned
    // back into bytes before decrypting.
    let result = hex_decode("6d6a71").unwrap();
    assert_eq!(result, vec![109, 106, 113]);
}

#[test]
fn test_hex_decode_odd_length() {
    // Each byte is exactly 2 hex characters; an odd-length string cannot
    // represent whole bytes and is rejected rather than silently truncated.
    let result = hex_decode("6d6a7");
    assert!(result.is_err());
    assert_eq!(result.unwrap_err().message(), "hex string must have even length");
}

#[test]
fn test_hex_decode_invalid_char() {
    // Only 0-9 and a-f (or A-F) are valid hex; 'g' is rejected with a clear
    // error instead of producing garbage.
    let result = hex_decode("6d6g71");
    assert!(result.is_err());
    assert!(result.unwrap_err().message().contains("invalid hex character"));
}

#[test]
fn test_encrypt_command() {
    // The end-to-end encrypt path: string to bytes, encrypt bytes, bytes to hex.
    let result = encrypt_command("hello", 5).unwrap();
    assert_eq!(result, "6d6a717174");
}

#[test]
fn test_decrypt_command() {
    // The inverse of encrypt_command: hex to bytes, decrypt bytes, bytes to string.
    let result = decrypt_command("6d6a717174", 5).unwrap();
    assert_eq!(result, "hello");
}

#[test]
fn test_round_trip_via_cli() {
    // The core contract of symmetric encryption through the commands:
    // encrypt then decrypt gets you back where you started.
    let plaintext = "the quick brown fox";
    let key = 13;
    let encrypted = encrypt_command(plaintext, key).unwrap();
    let decrypted = decrypt_command(&encrypted, key).unwrap();
    assert_eq!(decrypted, plaintext);
}
