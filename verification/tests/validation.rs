use passkey_auth::auth::validate_username;

#[test]
fn empty_username_rejected() {
    assert!(!validate_username(""));
}

#[test]
fn username_over_64_chars_rejected() {
    let long = "a".repeat(65);
    assert!(!validate_username(&long));
}

#[test]
fn username_of_exactly_64_chars_accepted() {
    let edge = "a".repeat(64);
    assert!(validate_username(&edge));
}

#[test]
fn username_of_one_char_accepted() {
    assert!(validate_username("a"));
}

#[test]
fn usernames_with_word_chars_and_hyphens_accepted() {
    assert!(validate_username("alice"));
    assert!(validate_username("Alice_Smith-2"));
    assert!(validate_username("0_9-AZ-az"));
    assert!(validate_username("---"));
    assert!(validate_username("___"));
}

#[test]
fn usernames_with_other_chars_rejected() {
    assert!(!validate_username("user name"));
    assert!(!validate_username("user!"));
    assert!(!validate_username("p@ss"));
    assert!(!validate_username("a/b"));
    assert!(!validate_username("dot.dot"));
    assert!(!validate_username("tab\there"));
    assert!(!validate_username("caf\u{e9}"));
}
