//! The hex codec: a lossless, deterministic conversion between a byte
//! sequence and its lowercase-hex string form, two digits per byte with the
//! high nibble first. Decoding also accepts uppercase digits.

use vstd::prelude::*;

use crate::error::CipherError;

verus! {

/// The numeric value of a hex digit, or `None` for any other character.
/// Accepts `0-9`, `a-f` and `A-F`.
pub open spec fn hex_digit_value(c: char) -> Option<u8> {
    let u = c as u32;
    if '0' as u32 <= u && u <= '9' as u32 {
        Some((u - '0' as u32) as u8)
    } else if 'a' as u32 <= u && u <= 'f' as u32 {
        Some((u - 'a' as u32 + 10) as u8)
    } else if 'A' as u32 <= u && u <= 'F' as u32 {
        Some((u - 'A' as u32 + 10) as u8)
    } else {
        None
    }
}

/// Whether `c` is a hex digit in either case.
pub open spec fn is_hex_digit(c: char) -> bool {
    hex_digit_value(c) is Some
}

/// Whether every character of `s` is a hex digit.
pub open spec fn all_hex(s: Seq<char>) -> bool {
    forall|i: int| 0 <= i < s.len() ==> is_hex_digit(#[trigger] s[i])
}

/// The lowercase hex digit for a nibble.
pub open spec fn hex_char(n: u8) -> char
    recommends
        n < 16,
{
    if n == 0 {
        '0'
    } else if n == 1 {
        '1'
    } else if n == 2 {
        '2'
    } else if n == 3 {
        '3'
    } else if n == 4 {
        '4'
    } else if n == 5 {
        '5'
    } else if n == 6 {
        '6'
    } else if n == 7 {
        '7'
    } else if n == 8 {
        '8'
    } else if n == 9 {
        '9'
    } else if n == 10 {
        'a'
    } else if n == 11 {
        'b'
    } else if n == 12 {
        'c'
    } else if n == 13 {
        'd'
    } else if n == 14 {
        'e'
    } else {
        'f'
    }
}

/// The hex rendering of a byte sequence: for each byte, the digit of its high
/// nibble followed by the digit of its low nibble, in input order.
pub open spec fn hex_encode_seq(bytes: Seq<u8>) -> Seq<char> {
    Seq::new(
        2 * bytes.len(),
        |i: int|
            if i % 2 == 0 {
                hex_char((bytes[i / 2] / 16) as u8)
            } else {
                hex_char((bytes[i / 2] % 16) as u8)
            },
    )
}

/// The bytes read from a hex string: each consecutive digit pair becomes one
/// byte, high nibble first.
pub open spec fn hex_decode_seq(s: Seq<char>) -> Seq<u8>
    recommends
        s.len() % 2 == 0,
        all_hex(s),
{
    Seq::new(
        s.len() / 2,
        |i: int| (hex_digit_value(s[2 * i])->0 * 16 + hex_digit_value(s[2 * i + 1])->0) as u8,
    )
}

/// The numeric value of a hex digit character, or `None` for anything else.
fn hex_digit_val(c: char) -> (r: Option<u8>)
    ensures
        r == hex_digit_value(c),
{
    let u = c as u32;
    if '0' as u32 <= u && u <= '9' as u32 {
        Some((u - '0' as u32) as u8)
    } else if 'a' as u32 <= u && u <= 'f' as u32 {
        Some((u - 'a' as u32 + 10) as u8)
    } else if 'A' as u32 <= u && u <= 'F' as u32 {
        Some((u - 'A' as u32 + 10) as u8)
    } else {
        None
    }
}

/// The lowercase hex digit character for a nibble.
fn nibble_char(n: u8) -> (c: char)
    requires
        n < 16,
    ensures
        c == hex_char(n),
{
    match n {
        0 => '0',
        1 => '1',
        2 => '2',
        3 => '3',
        4 => '4',
        5 => '5',
        6 => '6',
        7 => '7',
        8 => '8',
        9 => '9',
        10 => 'a',
        11 => 'b',
        12 => 'c',
        13 => 'd',
        14 => 'e',
        _ => 'f',
    }
}

/// Relies on String::push: appends exactly the given character to the string.
#[verifier::external_body]
fn push_char(s: &mut String, c: char)
    ensures
        final(s)@ == old(s)@.push(c),
{
    s.push(c);
}

/// Renders `bytes` as a lowercase hex string, two digits per byte, high
/// nibble first, in input order. Total: the empty input yields the empty
/// string.
pub fn hex_encode(bytes: &[u8]) -> (r: String)
    ensures
        r@ == hex_encode_seq(bytes@),
{
    let mut out = String::new();
    let mut i: usize = 0;
    while i < bytes.len()
        invariant
            i <= bytes@.len(),
            out@ == hex_encode_seq(bytes@).take(2 * i as int),
        decreases bytes@.len() - i,
    {
        let b = bytes[i];
        push_char(&mut out, nibble_char(b / 16));
        push_char(&mut out, nibble_char(b % 16));
        i += 1;
        proof {
            assert(out@ =~= hex_encode_seq(bytes@).take(2 * i as int));
        }
    }
    proof {
        assert(out@ =~= hex_encode_seq(bytes@));
    }
    out
}

/// Decodes a hex string into bytes. Fails with `OddLength` when the string
/// has an odd number of characters; otherwise fails with `InvalidHexChar`
/// when some character is not a hex digit; otherwise returns the decoded
/// bytes.
pub fn hex_decode(s: &str) -> (r: Result<Vec<u8>, CipherError>)
    ensures
        s@.len() % 2 != 0 ==> r == Err::<Vec<u8>, CipherError>(CipherError::OddLength),
        s@.len() % 2 == 0 && !all_hex(s@) ==> r == Err::<Vec<u8>, CipherError>(
            CipherError::InvalidHexChar,
        ),
        s@.len() % 2 == 0 && all_hex(s@) ==> (r matches Ok(v) && v@ == hex_decode_seq(s@)),
{
    let n = s.unicode_len();
    if n % 2 != 0 {
        return Err(CipherError::OddLength);
    }
    let mut out: Vec<u8> = Vec::new();
    let mut i: usize = 0;
    while i < n
        invariant
            n == s@.len(),
            n % 2 == 0,
            i % 2 == 0,
            i <= n,
            forall|j: int| 0 <= j < i ==> is_hex_digit(#[trigger] s@[j]),
            out@ == hex_decode_seq(s@).take(i as int / 2),
        decreases n - i,
    {
        let c1 = s.get_char(i);
        let hi = match hex_digit_val(c1) {
            Some(v) => v,
            None => {
                return Err(CipherError::InvalidHexChar);
            },
        };
        let c2 = s.get_char(i + 1);
        let lo = match hex_digit_val(c2) {
            Some(v) => v,
            None => {
                return Err(CipherError::InvalidHexChar);
            },
        };
        out.push(hi * 16 + lo);
        i += 2;
        proof {
            assert(out@ =~= hex_decode_seq(s@).take(i as int / 2));
        }
    }
    proof {
        assert(out@ =~= hex_decode_seq(s@));
    }
    Ok(out)
}

/// A nibble's hex digit decodes back to the nibble.
proof fn lemma_nibble_round_trip(n: u8)
    requires
        n < 16,
    ensures
        hex_digit_value(hex_char(n)) == Some(n),
{
}

/// Round-trip law: for every byte sequence, decoding its hex rendering
/// yields the original bytes; the rendering has even length and consists of
/// hex digits only, so decoding it always succeeds.
pub proof fn lemma_hex_round_trip(bytes: Seq<u8>)
    ensures
        hex_encode_seq(bytes).len() % 2 == 0,
        all_hex(hex_encode_seq(bytes)),
        hex_decode_seq(hex_encode_seq(bytes)) == bytes,
{
    let enc = hex_encode_seq(bytes);
    assert forall|i: int| 0 <= i < enc.len() implies is_hex_digit(#[trigger] enc[i]) by {
        if i % 2 == 0 {
            lemma_nibble_round_trip((bytes[i / 2] / 16) as u8);
        } else {
            lemma_nibble_round_trip((bytes[i / 2] % 16) as u8);
        }
    }
    assert forall|i: int| 0 <= i < bytes.len() implies hex_decode_seq(enc)[i] == bytes[i] by {
        lemma_nibble_round_trip((bytes[i] / 16) as u8);
        lemma_nibble_round_trip((bytes[i] % 16) as u8);
        assert(enc[2 * i] == hex_char((bytes[i] / 16) as u8));
        assert(enc[2 * i + 1] == hex_char((bytes[i] % 16) as u8));
    }
    assert(hex_decode_seq(enc) =~= bytes);
}

} // verus!
