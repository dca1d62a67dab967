//! Hexadecimal patterns and digests.
//!
//! A pattern arrives as a hexadecimal string and is compared against raw
//! digest bytes, so the library needs both directions: decoding a hex
//! string to bytes and encoding bytes to a lowercase hex string. The
//! mathematical meaning of both is written out here (`decoded`,
//! `hex_str_of`); the byte work itself is done by the `hex` crate behind
//! two trusted wrappers whose contracts state exactly those functions.

use vstd::prelude::*;

verus! {

/// Whether `c` is an ASCII hexadecimal digit, upper or lower case.
pub open spec fn is_hex_digit(c: char) -> bool {
    (48 <= c as u32 && c as u32 <= 57)  // '0' ..= '9'
    || (97 <= c as u32 && c as u32 <= 102)  // 'a' ..= 'f'
    || (65 <= c as u32 && c as u32 <= 70)  // 'A' ..= 'F'
}

/// The numeric value of a hexadecimal digit character.
pub open spec fn hex_digit_value(c: char) -> nat {
    if 48 <= c as u32 && c as u32 <= 57 {
        (c as u32 - 48) as nat
    } else if 97 <= c as u32 && c as u32 <= 102 {
        (c as u32 - 97 + 10) as nat
    } else if 65 <= c as u32 && c as u32 <= 70 {
        (c as u32 - 65 + 10) as nat
    } else {
        0
    }
}

/// Whether `s` is a decodable hexadecimal string: an even number of
/// characters, each a hexadecimal digit. The empty string is valid and
/// decodes to no bytes.
pub open spec fn valid_hex(s: Seq<char>) -> bool {
    &&& s.len() % 2 == 0
    &&& forall|i: int| 0 <= i < s.len() ==> is_hex_digit(#[trigger] s[i])
}

/// The bytes a hexadecimal string stands for: each pair of digits is one
/// byte, high digit first. A trailing unpaired digit contributes nothing,
/// but `valid_hex` rules that shape out.
pub open spec fn decoded(s: Seq<char>) -> Seq<u8>
    decreases s.len(),
{
    if s.len() < 2 {
        seq![]
    } else {
        seq![(16 * hex_digit_value(s[0]) + hex_digit_value(s[1])) as u8] + decoded(s.skip(2))
    }
}

/// The lowercase hexadecimal digit character for a value below 16.
pub open spec fn lower_hex_char(d: nat) -> char {
    if d == 0 {
        '0'
    } else if d == 1 {
        '1'
    } else if d == 2 {
        '2'
    } else if d == 3 {
        '3'
    } else if d == 4 {
        '4'
    } else if d == 5 {
        '5'
    } else if d == 6 {
        '6'
    } else if d == 7 {
        '7'
    } else if d == 8 {
        '8'
    } else if d == 9 {
        '9'
    } else if d == 10 {
        'a'
    } else if d == 11 {
        'b'
    } else if d == 12 {
        'c'
    } else if d == 13 {
        'd'
    } else if d == 14 {
        'e'
    } else {
        'f'
    }
}

/// The lowercase hexadecimal string for a byte sequence: two digit
/// characters per byte, high digit first.
pub open spec fn hex_str_of(bytes: Seq<u8>) -> Seq<char>
    decreases bytes.len(),
{
    if bytes.len() == 0 {
        seq![]
    } else {
        seq![
            lower_hex_char((bytes[0] / 16) as nat),
            lower_hex_char((bytes[0] % 16) as nat),
        ] + hex_str_of(bytes.drop_first())
    }
}

/// Whether `c` is a lowercase hexadecimal digit.
pub open spec fn is_lower_hex_digit(c: char) -> bool {
    (48 <= c as u32 && c as u32 <= 57) || (97 <= c as u32 && c as u32 <= 102)
}

/// Whether `s` is a decodable hexadecimal string written entirely in
/// lowercase digits.
pub open spec fn lower_hex(s: Seq<char>) -> bool {
    &&& s.len() % 2 == 0
    &&& forall|i: int| 0 <= i < s.len() ==> is_lower_hex_digit(#[trigger] s[i])
}

/// A decoded hexadecimal string yields one byte per digit pair.
pub proof fn lemma_decoded_len(s: Seq<char>)
    ensures
        decoded(s).len() == s.len() / 2,
    decreases s.len(),
{
    if s.len() >= 2 {
        lemma_decoded_len(s.skip(2));
    }
}

/// Re-encoding a lowercase digit's value gives the digit back.
proof fn lemma_lower_hex_digit_round(c: char)
    requires
        is_lower_hex_digit(c),
    ensures
        hex_digit_value(c) < 16,
        lower_hex_char(hex_digit_value(c)) == c,
{
}

/// Re-encoding the bytes of a lowercase hexadecimal string gives the
/// string back.
pub proof fn lemma_hex_round_trip(s: Seq<char>)
    requires
        lower_hex(s),
    ensures
        hex_str_of(decoded(s)) == s,
    decreases s.len(),
{
    if s.len() < 2 {
        assert(hex_str_of(decoded(s)) =~= s);
    } else {
        let tail = s.skip(2);
        assert(lower_hex(tail)) by {
            assert(forall|i: int| 0 <= i < tail.len() ==> tail[i] == s[i + 2]);
        }
        lemma_hex_round_trip(tail);
        lemma_lower_hex_digit_round(s[0]);
        lemma_lower_hex_digit_round(s[1]);
        let v0 = hex_digit_value(s[0]);
        let v1 = hex_digit_value(s[1]);
        let b = (16 * v0 + v1) as u8;
        assert(b / 16 == v0 && b % 16 == v1) by (nonlinear_arith)
            requires
                v0 < 16 && v1 < 16 && b == 16 * v0 + v1,
        ;
        assert(decoded(s)[0] == b);
        assert(decoded(s).drop_first() =~= decoded(tail));
        assert(hex_str_of(decoded(s)) == seq![
            lower_hex_char((b / 16) as nat),
            lower_hex_char((b % 16) as nat),
        ] + hex_str_of(decoded(tail)));
        assert(hex_str_of(decoded(s)) =~= s);
    }
}

/// Relies on hex::decode: it returns the bytes spelled by the string when
/// the string has an even number of hexadecimal digit characters (either
/// case), and fails otherwise.
#[verifier::external_body]
pub(crate) fn hex_decode(s: &str) -> (r: Option<Vec<u8>>)
    ensures
        match r {
            Some(v) => valid_hex(s@) && v@ == decoded(s@),
            None => !valid_hex(s@),
        },
{
    match hex::decode(s) {
        Ok(v) => Some(v),
        Err(_) => None,
    }
}

/// Relies on hex::encode: it returns the lowercase hexadecimal string for
/// the given bytes, two digits per byte.
#[verifier::external_body]
pub(crate) fn hex_encode(bytes: &Vec<u8>) -> (r: String)
    ensures
        r@ == hex_str_of(bytes@),
{
    hex::encode(bytes)
}

} // verus!
