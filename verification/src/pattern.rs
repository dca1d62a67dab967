//! Validation and normalization of the caller's pattern string.
//!
//! Before a search starts, the pattern must be non-empty, fit within the
//! selected digest family's hexadecimal length, and consist of
//! hexadecimal digits only. A pattern that passes comes back normalized
//! to lowercase; one that fails comes back as a distinct human-readable
//! message.

use vstd::prelude::*;

verus! {

use vstd::string::StringExecFns;
use vstd::string::StrSliceExecFns;
use crate::hexcodec::is_hex_digit;

/// The lowercase form of an uppercase hexadecimal letter; any other
/// character is left as it is.
pub open spec fn to_lower_char(c: char) -> char {
    if c == 'A' {
        'a'
    } else if c == 'B' {
        'b'
    } else if c == 'C' {
        'c'
    } else if c == 'D' {
        'd'
    } else if c == 'E' {
        'e'
    } else if c == 'F' {
        'f'
    } else {
        c
    }
}

/// The string with every uppercase hexadecimal letter lowered.
pub open spec fn to_lower_hex(s: Seq<char>) -> Seq<char> {
    s.map_values(|c: char| to_lower_char(c))
}

/// The one-character string for the lowercase form of a hexadecimal
/// digit.
fn lower_hex_digit_str(c: char) -> (s: &'static str)
    requires
        is_hex_digit(c),
    ensures
        s@ == seq![to_lower_char(c)],
{
    proof {
        reveal_strlit("0");
        reveal_strlit("1");
        reveal_strlit("2");
        reveal_strlit("3");
        reveal_strlit("4");
        reveal_strlit("5");
        reveal_strlit("6");
        reveal_strlit("7");
        reveal_strlit("8");
        reveal_strlit("9");
        reveal_strlit("a");
        reveal_strlit("b");
        reveal_strlit("c");
        reveal_strlit("d");
        reveal_strlit("e");
        reveal_strlit("f");
    }
    let s: &'static str = if c == '0' {
        "0"
    } else if c == '1' {
        "1"
    } else if c == '2' {
        "2"
    } else if c == '3' {
        "3"
    } else if c == '4' {
        "4"
    } else if c == '5' {
        "5"
    } else if c == '6' {
        "6"
    } else if c == '7' {
        "7"
    } else if c == '8' {
        "8"
    } else if c == '9' {
        "9"
    } else if c == 'a' || c == 'A' {
        "a"
    } else if c == 'b' || c == 'B' {
        "b"
    } else if c == 'c' || c == 'C' {
        "c"
    } else if c == 'd' || c == 'D' {
        "d"
    } else if c == 'e' || c == 'E' {
        "e"
    } else {
        "f"
    };
    proof {
        assert(s@ =~= seq![to_lower_char(c)]);
    }
    s
}

/// Checks a pattern string before a search: it must be non-empty, at most
/// `max_length` characters, and all hexadecimal digits. A pattern that
/// passes is returned lowercased; one that fails earns the message for
/// the first check it misses, in the order stated here.
pub fn validate_hex_pattern(s: &str, max_length: usize) -> (r: Result<String, String>)
    ensures
        match r {
            Ok(p) => {
                &&& 0 < s@.len() <= max_length
                &&& forall|i: int| 0 <= i < s@.len() ==> is_hex_digit(#[trigger] s@[i])
                &&& p@ == to_lower_hex(s@)
            },
            Err(m) => {
                if s@.len() == 0 {
                    m@ == "Pattern cannot be empty."@
                } else if s@.len() > max_length {
                    m@ == "Pattern cannot exceed the length of the hash digest."@
                } else {
                    &&& exists|i: int| 0 <= i < s@.len() && !is_hex_digit(#[trigger] s@[i])
                    &&& m@ == "Pattern must only contain hexadecimal digits."@
                }
            },
        },
{
    let n = s.unicode_len();
    if n == 0 {
        return Err(String::from_str("Pattern cannot be empty."));
    }
    if n > max_length {
        return Err(String::from_str("Pattern cannot exceed the length of the hash digest."));
    }
    let mut out = String::new();
    let mut i: usize = 0;
    while i < n
        invariant
            i <= n,
            n == s@.len(),
            0 < n <= max_length,
            forall|j: int| 0 <= j < i ==> is_hex_digit(#[trigger] s@[j]),
            out@ == to_lower_hex(s@.take(i as int)),
        decreases n - i,
    {
        let c = s.get_char(i);
        let v: u32 = c as u32;
        if (48 <= v && v <= 57) || (97 <= v && v <= 102) || (65 <= v && v <= 70) {
            out.append(lower_hex_digit_str(c));
            proof {
                assert(out@ =~= to_lower_hex(s@.take(i + 1)));
            }
            i = i + 1;
        } else {
            proof {
                assert(!is_hex_digit(s@[i as int]));
            }
            return Err(String::from_str("Pattern must only contain hexadecimal digits."));
        }
    }
    proof {
        assert(s@.take(n as int) =~= s@);
    }
    Ok(out)
}

} // verus!
