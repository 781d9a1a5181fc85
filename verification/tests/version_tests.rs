use blitz_l10n::version::{is_version_compatible, version_newer, version_components, parse_u32_chars};

#[test]
fn compatible_wildcard_accepts_anything() {
    assert!(is_version_compatible("*", "11.3.0.1234"));
    assert!(is_version_compatible("*", ""));
}

#[test]
fn compatible_exact_and_dotted_prefix() {
    assert!(is_version_compatible("11.3", "11.3"));
    assert!(is_version_compatible("11.3", "11.3.0.512"));
    assert!(!is_version_compatible("11.3", "11.30"));
    assert!(!is_version_compatible("11.3.0", "11.3"));
    assert!(!is_version_compatible("11.4", "11.3.0"));
}

#[test]
fn compatible_empty_supported() {
    assert!(is_version_compatible("", ""));
    assert!(is_version_compatible("", ".5"));
    assert!(!is_version_compatible("", "1.2"));
}

#[test]
fn compatible_is_reflexive_on_examples() {
    for v in ["", "*", "1", "11.3.0", "abc"] {
        assert!(is_version_compatible(v, v));
    }
}

#[test]
fn compatible_star_only_fits_star_from_below() {
    assert!(!is_version_compatible("1.2", "*"));
    assert!(is_version_compatible("*", "*"));
}

#[test]
fn compatible_chain_example() {
    assert!(is_version_compatible("11", "11.3"));
    assert!(is_version_compatible("11.3", "11.3.7"));
    assert!(is_version_compatible("11", "11.3.7"));
}

#[test]
fn newer_basic() {
    assert!(version_newer("1.2.0", "1.1.9"));
    assert!(!version_newer("1.1.9", "1.2.0"));
    assert!(version_newer("2", "1.9.9"));
    assert!(version_newer("1.10", "1.9"));
}

#[test]
fn newer_is_irreflexive() {
    for v in ["", "1", "1.2.3", "0.0.1", "x.y"] {
        assert!(!version_newer(v, v));
    }
}

#[test]
fn newer_missing_components_are_zero() {
    assert!(!version_newer("1.2", "1.2.0"));
    assert!(!version_newer("1.2.0", "1.2"));
    assert!(version_newer("1.2.1", "1.2"));
}

#[test]
fn newer_skips_non_numeric_pieces() {
    assert_eq!(version_components("1.beta.3"), vec![1, 3]);
    assert!(!version_newer("1.beta.3", "1.3"));
    assert_eq!(version_components(""), Vec::<u32>::new());
    assert_eq!(version_components("+7..-2.4294967296.4294967295"), vec![7, 4294967295]);
}

#[test]
fn newer_transitive_example() {
    assert!(version_newer("1.3", "1.2.9"));
    assert!(version_newer("1.2.9", "1.2.1"));
    assert!(version_newer("1.3", "1.2.1"));
}

#[test]
fn parse_u32_like_std() {
    for s in ["0", "42", "+42", "007", "4294967295", "4294967296", "", "+", "-1", "1a", " 1", "++1"] {
        let chars: Vec<char> = s.chars().collect();
        assert_eq!(parse_u32_chars(&chars), s.parse::<u32>().ok(), "input {:?}", s);
    }
}

#[test]
fn newer_ignores_pieces_that_are_not_u32() {
    assert!(!version_newer("1.x", "1.0"));
    assert!(!version_newer("1.0", "1.x"));
    assert!(!version_newer("4294967296", "1"));
    assert!(version_newer("1", "4294967296"));
    assert!(version_newer("2.x", "1.9"));
}

#[test]
fn newer_ignores_a_trailing_zero() {
    assert!(!version_newer("1.2.0", "1.2"));
    assert!(version_newer("1.3.0", "1.2"));
    assert!(!version_newer("1.2", "1.3.0"));
    assert!(version_newer("1.3", "1.2.0"));
    assert_eq!(version_newer("0.0", "0"), version_newer("0", "0"));
}

#[test]
fn newer_skips_a_leading_or_middle_piece() {
    assert_eq!(version_components("rc.2.1"), vec![2, 1]);
    assert_eq!(version_newer("rc.2.1", "2.0"), version_newer("2.1", "2.0"));
    assert_eq!(version_newer("2.x.1", "2.0"), version_newer("2.1", "2.0"));
    assert!(!version_newer("2.0", "beta.2"));
}
