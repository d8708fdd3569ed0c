use tiny_trails::codec::{decode_base62, encode_base62};

#[test]
fn encode_zero_is_empty() {
    assert_eq!(encode_base62(0), "");
}

#[test]
fn encode_single_digits() {
    assert_eq!(encode_base62(1), "b");
    assert_eq!(encode_base62(25), "z");
    assert_eq!(encode_base62(26), "A");
    assert_eq!(encode_base62(51), "Z");
    assert_eq!(encode_base62(52), "0");
    assert_eq!(encode_base62(61), "9");
}

#[test]
fn encode_multi_digit_values() {
    assert_eq!(encode_base62(62), "ba");
    assert_eq!(encode_base62(63), "bb");
    assert_eq!(encode_base62(12345), "dnh");
}

#[test]
fn decode_inverts_encode() {
    for n in [0u64, 1, 25, 26, 61, 62, 63, 3843, 3844, 12345, 987654321, u64::MAX] {
        let code = encode_base62(n);
        assert_eq!(decode_base62(&code), Some(n));
    }
}

#[test]
fn decode_known_values() {
    assert_eq!(decode_base62(""), Some(0));
    assert_eq!(decode_base62("b"), Some(1));
    assert_eq!(decode_base62("dnh"), Some(12345));
}

#[test]
fn decode_rejects_foreign_characters() {
    assert_eq!(decode_base62("ab!"), None);
    assert_eq!(decode_base62("-"), None);
    assert_eq!(decode_base62("a b"), None);
}

#[test]
fn decode_rejects_overflow() {
    // Twelve maximal digits stand for a value above u64::MAX.
    assert_eq!(decode_base62("999999999999"), None);
}

#[test]
fn distinct_ids_get_distinct_codes() {
    let codes: Vec<String> = (1u64..=500).map(encode_base62).collect();
    for i in 0..codes.len() {
        for j in 0..codes.len() {
            if i != j {
                assert_ne!(codes[i], codes[j]);
            }
        }
    }
}
