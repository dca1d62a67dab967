use hashminer::{mine, validate_hex_pattern, HashingProtocol, SearchError};

const SHA256_OF_0: &str = "5feceb66ffc86f38d952786c6d696c79c2dbc239dd4e91b46729d73a27fb57e9";
const SHA256_OF_1: &str = "6b86b273ff34fce19d6b804eff5a3f5747ada4eaa22f1d49c01e52ddb7875b4b";

#[test]
fn empty_pattern_rejected() {
    let r = validate_hex_pattern("", 64);
    assert_eq!(r, Err(String::from("Pattern cannot be empty.")));
}

#[test]
fn oversized_pattern_rejected() {
    // 40 hex digits against MD5's 32-hex-digit digest.
    let pattern = "0123456789abcdef0123456789abcdef01234567";
    let max = HashingProtocol::Md5.digest_hex_len();
    assert_eq!(max, 32);
    let r = validate_hex_pattern(pattern, max);
    assert_eq!(
        r,
        Err(String::from(
            "Pattern cannot exceed the length of the hash digest."
        ))
    );
}

#[test]
fn non_hex_pattern_rejected() {
    let r = validate_hex_pattern("12g4", 64);
    assert_eq!(
        r,
        Err(String::from("Pattern must only contain hexadecimal digits."))
    );
}

#[test]
fn validation_lowercases() {
    assert_eq!(validate_hex_pattern("AbCdEf", 64), Ok(String::from("abcdef")));
    assert_eq!(validate_hex_pattern("1234", 64), Ok(String::from("1234")));
}

#[test]
fn zero_bound_searches_single_candidate() {
    // Bound 0 gives the single candidate "0"; its digest starts with 5f, not 00.
    let r = mine("00", &HashingProtocol::Sha256, 0).unwrap();
    assert!(r.is_none());
}

#[test]
fn zero_bound_can_match() {
    let m = mine("5f", &HashingProtocol::Sha256, 0).unwrap().unwrap();
    assert_eq!(m.input(), "0");
    assert_eq!(m.digest(), SHA256_OF_0);
}

#[test]
fn single_digit_match() {
    let m = mine("5f", &HashingProtocol::Sha256, 1).unwrap().unwrap();
    assert_eq!(m.input(), "0");
    assert_eq!(m.digest(), SHA256_OF_0);
}

#[test]
fn smallest_match_is_reported() {
    // "0" hashes to 5f..., so the first candidate matching 6b is "1".
    let m = mine("6b", &HashingProtocol::Sha256, 1).unwrap().unwrap();
    assert_eq!(m.input(), "1");
    assert_eq!(m.digest(), SHA256_OF_1);
}

#[test]
fn odd_length_pattern_decode_error() {
    let r = mine("abc", &HashingProtocol::Sha256, 1);
    assert_eq!(r.unwrap_err(), SearchError::DecodeError);
}

#[test]
fn non_hex_pattern_decode_error() {
    let r = mine("zz", &HashingProtocol::Sha256, 1);
    assert_eq!(r.unwrap_err(), SearchError::DecodeError);
}

#[test]
fn oversized_bound_refused() {
    let r = mine("00", &HashingProtocol::Sha256, 20);
    assert_eq!(r.unwrap_err(), SearchError::BoundTooLarge);
}

#[test]
fn uppercase_pattern_decodes() {
    // The miner itself accepts either case; only validation lowercases.
    let m = mine("5F", &HashingProtocol::Sha256, 1).unwrap().unwrap();
    assert_eq!(m.input(), "0");
}

#[test]
fn empty_hex_pattern_matches_first_candidate() {
    // Zero pattern bytes match every digest, so the first candidate wins.
    let m = mine("", &HashingProtocol::Sha256, 1).unwrap().unwrap();
    assert_eq!(m.input(), "0");
    assert_eq!(m.digest(), SHA256_OF_0);
}

#[test]
fn search_is_deterministic() {
    let a = mine("6b", &HashingProtocol::Sha256, 2).unwrap().unwrap();
    let b = mine("6b", &HashingProtocol::Sha256, 2).unwrap().unwrap();
    assert_eq!(a.input(), b.input());
    assert_eq!(a.digest(), b.digest());
}

#[test]
fn exhaustion_is_monotone_in_bound() {
    // No two-digit-or-shorter candidate hashes to an all-zero digest; once
    // the larger space is exhausted, every smaller space is too.
    let all_zero = "0000000000000000000000000000000000000000000000000000000000000000";
    assert!(mine(all_zero, &HashingProtocol::Sha256, 2).unwrap().is_none());
    assert!(mine(all_zero, &HashingProtocol::Sha256, 1).unwrap().is_none());
    assert!(mine(all_zero, &HashingProtocol::Sha256, 0).unwrap().is_none());
}

#[test]
fn match_digest_starts_with_pattern() {
    let m = mine("6b86", &HashingProtocol::Sha256, 1).unwrap().unwrap();
    assert_eq!(&m.digest()[..4], "6b86");
    assert_eq!(m.digest().len(), 64);
}

#[test]
fn digest_recomputes_from_input() {
    // Round trip: hash the reported input independently and compare.
    let m = mine("6b", &HashingProtocol::Sha256, 1).unwrap().unwrap();
    let recomputed = hex::encode(<sha2::Sha256 as sha2::Digest>::digest(m.input().as_bytes()));
    assert_eq!(m.digest(), recomputed);
}

#[test]
fn validated_pattern_mines() {
    let p = validate_hex_pattern("5F", HashingProtocol::Sha256.digest_hex_len()).unwrap();
    assert_eq!(p, "5f");
    let m = mine(&p, &HashingProtocol::Sha256, 1).unwrap().unwrap();
    assert_eq!(m.input(), "0");
}

#[test]
fn prefix_comparison_exact() {
    let digest = vec![0x5f, 0xec, 0xeb];
    assert!(hashminer::miner::prefix_matches(&digest, &vec![0x5f, 0xec]));
    assert!(!hashminer::miner::prefix_matches(&digest, &vec![0x5f, 0xed]));
    assert!(!hashminer::miner::prefix_matches(
        &digest,
        &vec![0x5f, 0xec, 0xeb, 0x00]
    ));
    assert!(hashminer::miner::prefix_matches(&digest, &vec![]));
}

#[test]
fn compare_patterns_reports_digest() {
    let r = hashminer::miner::compare_patterns("0", &vec![0x5f]).unwrap();
    assert_eq!(r, SHA256_OF_0);
    assert!(hashminer::miner::compare_patterns("0", &vec![0x00]).is_none());
}

#[test]
fn candidates_render_canonically() {
    assert_eq!(hashminer::decimal::render_decimal(0), "0");
    assert_eq!(hashminer::decimal::render_decimal(7), "7");
    assert_eq!(hashminer::decimal::render_decimal(105), "105");
    assert_eq!(
        hashminer::decimal::render_decimal(u64::MAX),
        "18446744073709551615"
    );
}

#[test]
fn protocol_names() {
    assert_eq!(HashingProtocol::Sha256.name(), "sha256");
    assert_eq!(HashingProtocol::Md5.name(), "md5");
    assert_eq!(HashingProtocol::Sha256.digest_hex_len(), 64);
}
