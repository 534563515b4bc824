use stache::util::is_valid_name;

#[test]
fn two_lowercase_letters_are_a_name() {
    assert!(is_valid_name("ab", true));
    assert!(is_valid_name("ab", false));
}

#[test]
fn one_letter_is_too_short() {
    assert!(!is_valid_name("a", true));
    assert!(!is_valid_name("a", false));
    assert!(!is_valid_name("", true));
    assert!(!is_valid_name("", false));
}

#[test]
fn uppercase_is_valid_only_in_relaxed_mode() {
    assert!(!is_valid_name("AB3", true));
    assert!(is_valid_name("AB3", false));
    assert!(!is_valid_name("aB", true));
    assert!(is_valid_name("aZ", false));
}

#[test]
fn thirty_three_characters_are_too_many() {
    let long = "a".repeat(33);
    assert!(!is_valid_name(&long, true));
    assert!(!is_valid_name(&long, false));
    let upper = "A".repeat(33);
    assert!(!is_valid_name(&upper, false));
}

#[test]
fn thirty_two_characters_are_still_a_name() {
    let name = "a1".repeat(16);
    assert_eq!(name.len(), 32);
    assert!(is_valid_name(&name, true));
    assert!(is_valid_name(&name, false));
}

#[test]
fn digits_and_the_ends_of_each_range_are_allowed() {
    assert!(is_valid_name("az09", true));
    assert!(is_valid_name("0123456789", true));
    assert!(is_valid_name("AZaz09", false));
}

#[test]
fn neighbours_of_the_ranges_are_refused() {
    for name in ["a`", "a{", "a/", "a:", "a@", "a[", "a_", "a-", "a."] {
        assert!(!is_valid_name(name, true), "{:?}", name);
        assert!(!is_valid_name(name, false), "{:?}", name);
    }
}

#[test]
fn whitespace_is_refused() {
    for name in ["a b", " ab", "ab ", "a\tb", "a\nb", "a\u{a0}b", "a\u{2003}b"] {
        assert!(!is_valid_name(name, true), "{:?}", name);
        assert!(!is_valid_name(name, false), "{:?}", name);
    }
}

#[test]
fn letters_outside_ascii_are_refused() {
    for name in ["\u{e9}t\u{e9}", "na\u{ef}ve", "\u{3b1}\u{3b2}", "ab\u{1f600}"] {
        assert!(!is_valid_name(name, true), "{:?}", name);
        assert!(!is_valid_name(name, false), "{:?}", name);
    }
}
