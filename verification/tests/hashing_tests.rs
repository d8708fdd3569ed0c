use tiny_trails::hashing::{hash_with_env_salt, hash_with_salt};

#[test]
fn hash_is_deterministic() {
    let a = hash_with_salt("pepper", "10.0.0.1");
    let b = hash_with_salt("pepper", "10.0.0.1");
    assert_eq!(a, b);
}

#[test]
fn hash_is_fixed_length_hex() {
    for data in ["", "x", "a rather longer input with spaces", "10.0.0.1:3000"] {
        let h = hash_with_salt("salt", data);
        assert_eq!(h.len(), 64);
        assert!(h.chars().all(|c| c.is_ascii_hexdigit() && !c.is_ascii_uppercase()));
    }
}

#[test]
fn hash_of_empty_inputs_is_sha256_of_nothing() {
    // SHA-256 of the empty message, in lowercase hex.
    assert_eq!(
        hash_with_salt("", ""),
        "e3b0c44298fc1c149afbf4c8996fb92427ae41e4649b934ca495991b7852b855"
    );
}

#[test]
fn salt_changes_the_hash() {
    assert_ne!(hash_with_salt("salt1", "data"), hash_with_salt("salt2", "data"));
}

#[test]
fn env_salt_hash_matches_explicit_salt() {
    assert_eq!(hash_with_env_salt("10.0.0.1"), hash_with_salt("TT_HASH_SALT", "10.0.0.1"));
    assert_eq!(hash_with_env_salt("x").len(), 64);
}
