//! The brute-force digest-prefix search.
//!
//! `mine` enumerates the non-negative integers below `10^max_input_length`
//! in increasing order, hashes each one's canonical decimal string, and
//! returns the first candidate whose digest starts with the pattern's
//! bytes. Exhausting the candidate space is a normal outcome, not an
//! error; only an undecodable pattern or an oversized bound is.

use vstd::prelude::*;

verus! {

use crate::decimal::{dec_str, render_decimal};
use crate::digest::{sha256_of, sha256_digest};
use crate::hexcodec::{decoded, hex_str_of, lower_hex, valid_hex, hex_decode, hex_encode,
    lemma_decoded_len, lemma_hex_round_trip};
use crate::protocol::HashingProtocol;

/// The largest accepted input-length bound, in decimal digits.
/// `10^19` still fits the candidate counter; a larger bound is refused
/// up front rather than searched.
pub const MAX_INPUT_LENGTH: usize = 19;

/// Why a search could not run.
#[derive(Clone, Copy, PartialEq, Eq, Structural, Debug)]
pub enum SearchError {
    /// The pattern string could not be decoded as hexadecimal bytes: an
    /// odd number of characters, or a character that is no hexadecimal
    /// digit.
    DecodeError,
    /// The input-length bound exceeds `MAX_INPUT_LENGTH`.
    BoundTooLarge,
}

/// A successful search result: the winning candidate and the full
/// lowercase hexadecimal digest it produced.
#[derive(Debug)]
pub struct MinedMatch {
    input: String,
    digest: String,
}

impl MinedMatch {
    /// The characters of the winning candidate.
    pub closed spec fn input_spec(&self) -> Seq<char> {
        self.input@
    }

    /// The characters of the winning candidate's full hex-encoded digest.
    pub closed spec fn digest_spec(&self) -> Seq<char> {
        self.digest@
    }

    /// The winning candidate, a canonical decimal string.
    pub fn input(&self) -> (r: &str)
        ensures
            r@ == self.input_spec(),
    {
        self.input.as_str()
    }

    /// The full digest of the winning candidate, hex-encoded in
    /// lowercase.
    pub fn digest(&self) -> (r: &str)
        ensures
            r@ == self.digest_spec(),
    {
        self.digest.as_str()
    }
}

/// `10^b`, the size of the candidate space for a bound of `b` decimal
/// digits.
pub open spec fn pow10(b: nat) -> nat
    decreases b,
{
    if b == 0 {
        1
    } else {
        10 * pow10((b - 1) as nat)
    }
}

pub proof fn lemma_pow10_pos(b: nat)
    ensures
        pow10(b) >= 1,
    decreases b,
{
    if b > 0 {
        lemma_pow10_pos((b - 1) as nat);
    }
}

pub proof fn lemma_pow10_monotonic(a: nat, b: nat)
    requires
        a <= b,
    ensures
        pow10(a) <= pow10(b),
    decreases b,
{
    if a < b {
        lemma_pow10_monotonic(a, (b - 1) as nat);
        lemma_pow10_pos((b - 1) as nat);
    }
}

proof fn lemma_pow10_max_value()
    ensures
        pow10(MAX_INPUT_LENGTH as nat) == 10_000_000_000_000_000_000,
{
    reveal_with_fuel(pow10, 20);
}

/// `10^b` as a machine integer.
fn pow10_u64(b: usize) -> (n: u64)
    requires
        b <= MAX_INPUT_LENGTH,
    ensures
        n == pow10(b as nat),
{
    let mut acc: u64 = 1;
    let mut i: usize = 0;
    while i < b
        invariant
            i <= b <= MAX_INPUT_LENGTH,
            acc == pow10(i as nat),
        decreases b - i,
    {
        proof {
            lemma_pow10_monotonic((i + 1) as nat, MAX_INPUT_LENGTH as nat);
            lemma_pow10_max_value();
        }
        acc = acc * 10;
        i = i + 1;
    }
    acc
}

/// Whether the digest of the candidate string `s` starts with the
/// pattern bytes `p`.
pub open spec fn input_matches(p: Seq<u8>, s: Seq<char>) -> bool {
    &&& p.len() <= sha256_of(s).len()
    &&& sha256_of(s).take(p.len() as int) == p
}

/// Whether `k` is the smallest candidate whose digest starts with `p`.
pub open spec fn is_first_match(p: Seq<u8>, k: nat) -> bool {
    &&& input_matches(p, dec_str(k))
    &&& forall|j: nat| j < k ==> !input_matches(p, #[trigger] dec_str(j))
}

/// Whether `input` and `digest` are the record that a search for `p`
/// with bound `bound` reports: the smallest matching candidate in the
/// space, with its full hex-encoded digest.
pub open spec fn is_reported_match(p: Seq<u8>, bound: nat, input: Seq<char>, digest: Seq<char>) -> bool {
    exists|k: nat|
        {
            &&& k < pow10(bound)
            &&& #[trigger] is_first_match(p, k)
            &&& input == dec_str(k)
            &&& digest == hex_str_of(sha256_of(dec_str(k)))
        }
}

/// Whether the leading bytes of `digest` equal `pattern`.
pub fn prefix_matches(digest: &Vec<u8>, pattern: &Vec<u8>) -> (m: bool)
    ensures
        m == (pattern@.len() <= digest@.len() && digest@.take(pattern@.len() as int) == pattern@),
{
    if pattern.len() > digest.len() {
        return false;
    }
    let mut i: usize = 0;
    while i < pattern.len()
        invariant
            i <= pattern@.len() <= digest@.len(),
            forall|j: int| 0 <= j < i ==> digest@[j] == pattern@[j],
        decreases pattern@.len() - i,
    {
        if digest[i] != pattern[i] {
            proof {
                let l = pattern@.len() as int;
                assert(digest@.take(l)[i as int] == digest@[i as int]);
            }
            return false;
        }
        i = i + 1;
    }
    proof {
        assert(digest@.take(pattern@.len() as int) =~= pattern@);
    }
    true
}

/// Hashes one candidate and compares the digest's leading bytes against
/// the pattern: the full hex-encoded digest on a match, nothing
/// otherwise.
pub fn compare_patterns(input: &str, pattern: &Vec<u8>) -> (r: Option<String>)
    requires
        pattern@.len() <= 32,
    ensures
        match r {
            Some(d) => input_matches(pattern@, input@) && d@ == hex_str_of(sha256_of(input@)),
            None => !input_matches(pattern@, input@),
        },
{
    let digest = sha256_digest(input);
    if prefix_matches(&digest, pattern) {
        Some(hex_encode(&digest))
    } else {
        None
    }
}

/// Searches `[0, 10^max_input_length)` for the smallest candidate whose
/// digest starts with the bytes spelled by `pattern`.
///
/// Candidates are visited in increasing numeric order, each rendered as
/// its canonical decimal string, so a bound of `0` yields the single
/// candidate `"0"`. Exhaustion returns `Ok(None)`. The digest family
/// computed is SHA-256; the selector is carried so callers size the
/// pattern ceiling for the family they chose at validation.
pub fn mine(pattern: &str, _protocol: &HashingProtocol, max_input_length: usize) -> (r: Result<
    Option<MinedMatch>,
    SearchError,
>)
    requires
        pattern@.len() <= 64,
    ensures
        match r {
            Ok(found) => {
                &&& max_input_length <= MAX_INPUT_LENGTH
                &&& valid_hex(pattern@)
                &&& match found {
                    Some(m) => is_reported_match(
                        decoded(pattern@),
                        max_input_length as nat,
                        m.input_spec(),
                        m.digest_spec(),
                    ),
                    None => forall|k: nat|
                        k < pow10(max_input_length as nat) ==> !input_matches(
                            decoded(pattern@),
                            #[trigger] dec_str(k),
                        ),
                }
            },
            Err(e) => match e {
                SearchError::BoundTooLarge => max_input_length > MAX_INPUT_LENGTH,
                SearchError::DecodeError => max_input_length <= MAX_INPUT_LENGTH && !valid_hex(
                    pattern@,
                ),
            },
        },
{
    if max_input_length > MAX_INPUT_LENGTH {
        return Err(SearchError::BoundTooLarge);
    }
    let pattern_bytes = match hex_decode(pattern) {
        Some(v) => v,
        None => {
            return Err(SearchError::DecodeError);
        },
    };
    proof {
        lemma_decoded_len(pattern@);
    }
    let n = pow10_u64(max_input_length);
    let mut i: u64 = 0;
    while i < n
        invariant
            i <= n,
            n == pow10(max_input_length as nat),
            max_input_length <= MAX_INPUT_LENGTH,
            valid_hex(pattern@),
            pattern_bytes@ == decoded(pattern@),
            pattern_bytes@.len() <= 32,
            forall|j: nat| j < i ==> !input_matches(pattern_bytes@, #[trigger] dec_str(j)),
        decreases n - i,
    {
        let s = render_decimal(i);
        match compare_patterns(s.as_str(), &pattern_bytes) {
            Some(d) => {
                let m = MinedMatch { input: s, digest: d };
                proof {
                    assert(is_first_match(decoded(pattern@), i as nat));
                    assert(m.input_spec() == dec_str(i as nat));
                    assert(m.digest_spec() == hex_str_of(sha256_of(dec_str(i as nat))));
                    assert(i < pow10(max_input_length as nat));
                }
                return Ok(Some(m));
            },
            None => {},
        }
        i = i + 1;
    }
    Ok(None)
}

/// The search outcome is a function of the pattern and the bound alone:
/// two reported matches for the same pattern and bound are the same
/// record.
pub proof fn lemma_search_deterministic(
    p: Seq<u8>,
    bound: nat,
    input1: Seq<char>,
    digest1: Seq<char>,
    input2: Seq<char>,
    digest2: Seq<char>,
)
    requires
        is_reported_match(p, bound, input1, digest1),
        is_reported_match(p, bound, input2, digest2),
    ensures
        input1 == input2,
        digest1 == digest2,
{
    let k1 = choose|k: nat|
        {
            &&& k < pow10(bound)
            &&& #[trigger] is_first_match(p, k)
            &&& input1 == dec_str(k)
            &&& digest1 == hex_str_of(sha256_of(dec_str(k)))
        };
    let k2 = choose|k: nat|
        {
            &&& k < pow10(bound)
            &&& #[trigger] is_first_match(p, k)
            &&& input2 == dec_str(k)
            &&& digest2 == hex_str_of(sha256_of(dec_str(k)))
        };
    lemma_first_match_unique(p, k1, k2);
}

/// At most one candidate is the smallest match for a pattern.
pub proof fn lemma_first_match_unique(p: Seq<u8>, k1: nat, k2: nat)
    requires
        is_first_match(p, k1),
        is_first_match(p, k2),
    ensures
        k1 == k2,
{
    if k1 < k2 {
        assert(!input_matches(p, dec_str(k1)));
    } else if k2 < k1 {
        assert(!input_matches(p, dec_str(k2)));
    }
}

/// If some candidate below `10^bound` matches and no smaller one does,
/// any record the search reports is exactly that candidate with its
/// digest.
pub proof fn lemma_smallest_match_reported(
    p: Seq<u8>,
    bound: nat,
    k: nat,
    input: Seq<char>,
    digest: Seq<char>,
)
    requires
        k < pow10(bound),
        is_first_match(p, k),
        is_reported_match(p, bound, input, digest),
    ensures
        input == dec_str(k),
        digest == hex_str_of(sha256_of(dec_str(k))),
{
    let k2 = choose|j: nat|
        {
            &&& j < pow10(bound)
            &&& #[trigger] is_first_match(p, j)
            &&& input == dec_str(j)
            &&& digest == hex_str_of(sha256_of(dec_str(j)))
        };
    lemma_first_match_unique(p, k, k2);
}

/// Exhaustion is monotone in the bound: a search space that found no
/// match contains every smaller space, so those find none either.
pub proof fn lemma_exhaustion_monotonic(p: Seq<u8>, bound_small: nat, bound_large: nat)
    requires
        bound_small <= bound_large,
        forall|k: nat| k < pow10(bound_large) ==> !input_matches(p, #[trigger] dec_str(k)),
    ensures
        forall|k: nat| k < pow10(bound_small) ==> !input_matches(p, #[trigger] dec_str(k)),
{
    lemma_pow10_monotonic(bound_small, bound_large);
}

/// A reported match holds together: the stored digest is the digest of
/// the stored input, and truncated to the pattern's bytes and re-encoded
/// it reads back as the lowercase pattern string.
pub proof fn lemma_match_digest_has_pattern_prefix(
    pat: Seq<char>,
    bound: nat,
    input: Seq<char>,
    digest: Seq<char>,
)
    requires
        lower_hex(pat),
        is_reported_match(decoded(pat), bound, input, digest),
    ensures
        input_matches(decoded(pat), input),
        digest == hex_str_of(sha256_of(input)),
        hex_str_of(sha256_of(input).take(decoded(pat).len() as int)) == pat,
{
    let p = decoded(pat);
    let k = choose|j: nat|
        {
            &&& j < pow10(bound)
            &&& #[trigger] is_first_match(p, j)
            &&& input == dec_str(j)
            &&& digest == hex_str_of(sha256_of(dec_str(j)))
        };
    lemma_hex_round_trip(pat);
}

} // verus!
