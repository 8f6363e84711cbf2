use create3miner::create3::Address;
use create3miner::pattern::{
    address_matches_pattern, describe_pattern, get_pattern_for_gpu, hex_or_pattern_to_regex,
    parse_or_conditions, parse_pattern, PatternType,
};

fn sample_address() -> Address {
    let mut bytes = [0u8; 20];
    bytes[0] = 0xab;
    bytes[1] = 0xcd;
    bytes[19] = 0xef;
    Address { bytes }
}

#[test]
fn parse_simple_prefix() {
    match parse_pattern("abcd") {
        PatternType::Prefix(p) => assert_eq!(p, vec![0xab, 0xcd]),
        _ => panic!("expected a prefix pattern"),
    }
}

#[test]
fn parse_empty_token_gives_empty_prefix() {
    match parse_pattern("") {
        PatternType::Prefix(p) => assert!(p.is_empty()),
        _ => panic!("expected a prefix pattern"),
    }
}

#[test]
fn parse_single_nibble_falls_back_to_empty_prefix() {
    // Odd-length hex text does not decode; the parser substitutes the
    // empty prefix, which matches every address.
    match parse_pattern("a") {
        PatternType::Prefix(p) => assert!(p.is_empty()),
        _ => panic!("expected a prefix pattern"),
    }
    let pattern = parse_pattern("a");
    assert!(address_matches_pattern(&sample_address(), &pattern));
    let other = Address { bytes: [0x11u8; 20] };
    assert!(address_matches_pattern(&other, &pattern));
}

#[test]
fn parse_advanced_and_describe() {
    // "ab...cd" parses to one leading and one trailing alternative, and
    // its description names both.
    match parse_pattern("ab...cd") {
        PatternType::Advanced { leading, trailing } => {
            assert_eq!(leading, Some(vec![vec![0xab]]));
            assert_eq!(trailing, Some(vec![vec![0xcd]]));
        },
        _ => panic!("expected an advanced pattern"),
    }
    let pattern = parse_pattern("ab...cd");
    let text = describe_pattern(&pattern);
    assert!(text.contains("leading: 0xab"), "description was: {}", text);
    assert!(text.contains("trailing: 0xcd"), "description was: {}", text);
}

#[test]
fn parse_advanced_leading_only() {
    match parse_pattern("abcd...") {
        PatternType::Advanced { leading, trailing } => {
            assert_eq!(leading, Some(vec![vec![0xab, 0xcd]]));
            assert_eq!(trailing, None);
        },
        _ => panic!("expected an advanced pattern"),
    }
}

#[test]
fn parse_advanced_trailing_only() {
    match parse_pattern("...ef") {
        PatternType::Advanced { leading, trailing } => {
            assert_eq!(leading, None);
            assert_eq!(trailing, Some(vec![vec![0xef]]));
        },
        _ => panic!("expected an advanced pattern"),
    }
}

#[test]
fn parse_advanced_group_alternatives() {
    match parse_pattern("(ab|cd)...(ef|01)") {
        PatternType::Advanced { leading, trailing } => {
            assert_eq!(leading, Some(vec![vec![0xab], vec![0xcd]]));
            assert_eq!(trailing, Some(vec![vec![0xef], vec![0x01]]));
        },
        _ => panic!("expected an advanced pattern"),
    }
}

#[test]
fn advanced_matching_rules() {
    let addr = sample_address();
    let both = parse_pattern("ab...ef");
    assert!(address_matches_pattern(&addr, &both));
    let wrong_tail = parse_pattern("ab...01");
    assert!(!address_matches_pattern(&addr, &wrong_tail));
    let wrong_head = parse_pattern("01...ef");
    assert!(!address_matches_pattern(&addr, &wrong_head));
    let alternatives = parse_pattern("(01|ab)...(02|ef)");
    assert!(address_matches_pattern(&addr, &alternatives));
}

#[test]
fn advanced_side_with_no_decodable_alternative_matches_nothing() {
    // An undecodable side keeps its (empty) alternative list, and an
    // empty list of required alternatives can never be satisfied.
    match parse_pattern("zz...ef") {
        PatternType::Advanced { leading, trailing } => {
            assert_eq!(leading, Some(vec![]));
            assert_eq!(trailing, Some(vec![vec![0xef]]));
        },
        _ => panic!("expected an advanced pattern"),
    }
    let pattern = parse_pattern("zz...ef");
    assert!(!address_matches_pattern(&sample_address(), &pattern));
}

#[test]
fn parse_splits_around_the_first_dot_triple_only() {
    // The token is split around the first "..." alone: everything after
    // it is one trailing side. "cd...ef" is neither a group nor valid
    // hex, so the trailing side keeps an empty alternative list and the
    // pattern can never match.
    match parse_pattern("ab...cd...ef") {
        PatternType::Advanced { leading, trailing } => {
            assert_eq!(leading, Some(vec![vec![0xab]]));
            assert_eq!(trailing, Some(vec![]));
        },
        _ => panic!("expected an advanced pattern"),
    }
    let pattern = parse_pattern("ab...cd...ef");
    assert!(!address_matches_pattern(&sample_address(), &pattern));
}

#[test]
fn bare_dots_constrain_nothing() {
    match parse_pattern("...") {
        PatternType::Advanced { leading, trailing } => {
            assert_eq!(leading, None);
            assert_eq!(trailing, None);
        },
        _ => panic!("expected an advanced pattern"),
    }
    let pattern = parse_pattern("...");
    assert!(address_matches_pattern(&sample_address(), &pattern));
}

#[test]
fn parse_accepts_uppercase_hex() {
    match parse_pattern("AB") {
        PatternType::Prefix(p) => assert_eq!(p, vec![0xab]),
        _ => panic!("expected a prefix pattern"),
    }
}

#[test]
fn prefix_matcher_byte_level() {
    let addr = sample_address();
    assert!(address_matches_pattern(&addr, &PatternType::Prefix(vec![])));
    assert!(address_matches_pattern(&addr, &PatternType::Prefix(vec![0xab])));
    assert!(address_matches_pattern(&addr, &PatternType::Prefix(vec![0xab, 0xcd])));
    assert!(!address_matches_pattern(&addr, &PatternType::Prefix(vec![0xcd])));
    assert!(!address_matches_pattern(&addr, &PatternType::Prefix(vec![0xab, 0xce])));
    // The whole address as its own prefix matches; anything longer cannot.
    assert!(address_matches_pattern(&addr, &PatternType::Prefix(addr.bytes.to_vec())));
    let mut too_long = addr.bytes.to_vec();
    too_long.push(0x00);
    assert!(!address_matches_pattern(&addr, &PatternType::Prefix(too_long)));
}

#[test]
fn parse_or_group_drops_undecodable_alternatives() {
    assert_eq!(parse_or_conditions("(aa|bb)"), vec![vec![0xaa], vec![0xbb]]);
    assert_eq!(parse_or_conditions("(aa|zz|bb)"), vec![vec![0xaa], vec![0xbb]]);
    assert_eq!(parse_or_conditions("abcd"), vec![vec![0xab, 0xcd]]);
    assert_eq!(parse_or_conditions("xyz"), Vec::<Vec<u8>>::new());
}

#[test]
fn parse_regex_pattern_is_anchored() {
    let pattern = parse_pattern("(a|b)");
    match &pattern {
        PatternType::Regex(src) => assert_eq!(src.as_str(), "^(a|b)$"),
        _ => panic!("expected a regex pattern"),
    }
    let text = describe_pattern(&pattern);
    assert_eq!(text, "addresses matching regex: ^(a|b)$");
    // Anchored against the 40-digit hex text, a one-character alternation
    // can never match a real address.
    assert!(!address_matches_pattern(&sample_address(), &pattern));
}

#[test]
fn parse_regex_that_really_matches() {
    // 40 hex digits starting with "ab" and ending with "ef".
    let pattern = parse_pattern("(ab.{36}ef|zz)");
    match &pattern {
        PatternType::Regex(src) => assert_eq!(src.as_str(), "^(ab.{36}ef|zz)$"),
        _ => panic!("expected a regex pattern"),
    }
    assert!(address_matches_pattern(&sample_address(), &pattern));
    let other = Address { bytes: [0x11u8; 20] };
    assert!(!address_matches_pattern(&other, &pattern));
}

#[test]
fn invalid_regex_falls_back_to_prefix_decoding() {
    // "(a|" has an OR and a parenthesis but does not compile; the raw
    // token is not hex either, so the empty prefix remains.
    match parse_pattern("(a|") {
        PatternType::Prefix(p) => assert!(p.is_empty()),
        _ => panic!("expected a prefix pattern"),
    }
}

#[test]
fn describe_prefix_pattern() {
    let pattern = parse_pattern("abcd");
    assert_eq!(describe_pattern(&pattern), "addresses starting with: 0xabcd");
}

#[test]
fn hex_or_pattern_to_regex_is_verbatim() {
    assert_eq!(hex_or_pattern_to_regex("(a|b)"), "(a|b)");
}

#[test]
fn gpu_projection_keeps_only_prefixes() {
    let (bytes, len) = get_pattern_for_gpu(&parse_pattern("abcd"));
    assert_eq!(bytes, vec![0xab, 0xcd]);
    assert_eq!(len, 2);
    let (bytes, len) = get_pattern_for_gpu(&parse_pattern("ab...cd"));
    assert!(bytes.is_empty());
    assert_eq!(len, 0);
    let (bytes, len) = get_pattern_for_gpu(&parse_pattern("(a|b)"));
    assert!(bytes.is_empty());
    assert_eq!(len, 0);
}
