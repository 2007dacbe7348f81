use pyappify::error::EnvError;
use pyappify::version::{is_older, is_text_before, parse_major_minor};

#[test]
fn parses_major_minor_specs() {
    assert_eq!(parse_major_minor("3.12").unwrap(), "3.12");
    assert_eq!(parse_major_minor("3.12.10").unwrap(), "3.12");
    assert!(parse_major_minor("12").is_err());
    assert!(parse_major_minor("").is_err());
}

#[test]
fn an_invalid_version_is_reported() {
    let e = parse_major_minor("1.2.3.4").unwrap_err();
    assert_eq!(e, EnvError::InvalidVersion("1.2.3.4".to_string()));
    assert_eq!(
        e.message(),
        "Invalid version format: 1.2.3.4. Expected X.Y or X.Y.Z"
    );
}

#[test]
fn the_key_of_a_key_is_itself() {
    let key = parse_major_minor("3.13.1").unwrap();
    assert_eq!(parse_major_minor(&key).unwrap(), key);
}

#[test]
fn numbers_count_as_numbers() {
    assert!(is_older("3.12.9", "3.12.10"));
    assert!(!is_older("3.12.10", "3.12.9"));
    assert!(is_older("3.9.18", "3.12.0"));
    assert!(is_older("3.12", "3.12.0"));
    assert!(is_older(
        "3.12.99999999999999999999999999999999999999",
        "3.12.100000000000000000000000000000000000000"
    ));
}

#[test]
fn pre_releases_come_before_releases() {
    assert!(is_older("3.13.0rc1", "3.13.0"));
    assert!(is_older("3.13.0a4", "3.13.0b1"));
    assert!(is_older("3.13.0b1", "3.13.0rc1"));
    assert!(is_older("3.12.9", "3.13.0a1"));
    assert!(is_older(
        "cpython-3.13.0rc1-windows-x86_64-none",
        "cpython-3.13.0-windows-x86_64-none"
    ));
}

#[test]
fn the_order_is_strict_and_total() {
    let texts = [
        "", "0", "00", "1", "01", "a", "b", "A", "-", ".", "1.2", "1.02", "1a", "1+x", "1-x", "z9",
        "~", "\u{e9}",
    ];
    for a in texts {
        assert!(!is_older(a, a));
        for b in texts {
            assert_eq!(a != b, is_older(a, b) != is_older(b, a));
            for c in texts {
                assert!(!(is_older(a, b) && is_older(b, c)) || is_older(a, c));
            }
        }
    }
}

#[test]
fn texts_are_ordered_by_their_characters() {
    assert!(is_text_before("win", "windows"));
    assert!(!is_text_before("windows", "win"));
    assert!(is_text_before("a10", "a9"));
    assert!(is_text_before("", "a"));
    assert!(!is_text_before("a", "a"));
    assert!(is_text_before("Z", "a"));
}
