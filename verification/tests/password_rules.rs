use utopia_server::passwords::{hash_with_salt, verify_password};

#[test]
fn a_hash_checks_the_password_it_was_made_from() {
    let h = hash_with_salt("correct horse", "c29tZXNhbHRzb21lc2FsdA").unwrap();
    assert!(h.starts_with("$argon2id$v=19$"));
    assert!(h.contains("$c29tZXNhbHRzb21lc2FsdA$"));
    assert!(verify_password("correct horse", &h));
    assert!(!verify_password("correct horsf", &h));
    assert_eq!(hash_with_salt("correct horse", "c29tZXNhbHRzb21lc2FsdA").unwrap(), h);
}

#[test]
fn a_bad_salt_or_a_bad_hash_is_refused() {
    let e = hash_with_salt("pw", "no").unwrap_err();
    assert!(e.starts_with("Password hashing failed: "), "{e}");
    assert!(hash_with_salt("pw", "bad salt!").is_err());
    assert!(!verify_password("pw", "not a phc string"));
    assert!(!verify_password("pw", ""));
}
