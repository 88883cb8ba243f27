use imperial_verify::email::{ends_with_suffix, is_acceptable, trim};

#[test]
fn trim_removes_leading_and_trailing_padding() {
    assert_eq!(trim("  a@imperial.ac.uk \t\r\n"), "a@imperial.ac.uk");
}

#[test]
fn trim_keeps_inner_characters() {
    assert_eq!(trim("a b"), "a b");
    assert_eq!(trim("no-padding"), "no-padding");
}

#[test]
fn trim_of_all_padding_is_empty() {
    assert_eq!(trim(" \t\n\r"), "");
    assert_eq!(trim(""), "");
}

#[test]
fn trim_removes_all_unicode_white_space() {
    // form feed, vertical tab, next line, no-break space, ideographic space
    assert_eq!(trim("\u{000C}\u{000B}a@imperial.ac.uk\u{0085}\u{00A0}\u{3000}"), "a@imperial.ac.uk");
    assert_eq!(trim("\u{2000}\u{200A}\u{2028}\u{2029}\u{202F}\u{205F}\u{1680}"), "");
    // zero-width space is not white space and must survive
    assert_eq!(trim("\u{200B}"), "\u{200B}");
}

#[test]
fn suffix_check_matches_exact_tail() {
    assert!(ends_with_suffix("a@imperial.ac.uk", "@imperial.ac.uk"));
    assert!(ends_with_suffix("@imperial.ac.uk", "@imperial.ac.uk"));
    assert!(!ends_with_suffix("a@gmail.com", "@imperial.ac.uk"));
    assert!(!ends_with_suffix("uk", "@imperial.ac.uk"));
    assert!(!ends_with_suffix("a@imperial.ac.uk.evil", "@imperial.ac.uk"));
}

#[test]
fn acceptable_requires_institutional_domain() {
    assert!(is_acceptable("a@imperial.ac.uk"));
    assert!(is_acceptable("first.last23@imperial.ac.uk"));
    assert!(!is_acceptable("a@gmail.com"));
    assert!(!is_acceptable("a@imperial.ac.uk "));
    assert!(!is_acceptable(""));
}
