//! Trimming, splitting and searching, held against the standard library.
use duo_auth::text::{contains, ends_with, same, split, split_once, starts_with, trim, trim_end_matches};

#[test]
fn every_character_is_trimmed_as_the_standard_library_does() {
    for code in 0..=0x10ffffu32 {
        if let Some(c) = char::from_u32(code) {
            let padded = format!("{}x{}", c, c);
            assert_eq!(trim(&padded), padded.trim(), "U+{:04X}", code);
        }
    }
}

#[test]
fn trimming_edge_cases() {
    for s in ["", " ", "\t\n ", "a", " a", "a ", " a b ", "\u{3000}\u{e9} \u{85}"] {
        assert_eq!(trim(s), s.trim());
        assert_eq!(trim(trim(s)), s.trim());
    }
}

#[test]
fn trailing_slashes_are_stripped() {
    for s in ["", "/", "///", "a", "a/", "a//", "/a", "a/b//", "\u{e9}/"] {
        assert_eq!(trim_end_matches(s, '/'), s.trim_end_matches('/'));
    }
}

#[test]
fn splitting_agrees_with_the_standard_library() {
    for s in ["", "|", "a|b", "a|b|c", "|b", "a|", "ab", "\u{e9}|\u{20ac}"] {
        assert_eq!(split_once(s, '|'), s.split_once('|'));
        assert_eq!(split(s, '|'), s.split('|').collect::<Vec<&str>>());
    }
}

#[test]
fn searching_agrees_with_the_standard_library() {
    for s in ["", "a", "ab", "aab", "code=1", "xcode=", "cod\u{e9}="] {
        for n in ["", "a", "ab", "code=", "\u{e9}", "aabb"] {
            assert_eq!(contains(s, n), s.contains(n));
            assert_eq!(starts_with(s, n), s.starts_with(n));
            assert_eq!(ends_with(s, n), s.ends_with(n));
            assert_eq!(same(s, n), s == n);
        }
    }
}
