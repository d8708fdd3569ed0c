use tiny_trails::json::{JsonData, JsonValue};
use tiny_trails::shorten::{generate_secret, ShortenInput};

fn object(fields: Vec<(&str, JsonValue)>) -> JsonData {
    JsonData::Object(fields.into_iter().map(|(k, v)| (k.to_string(), v)).collect())
}

fn url_field(url: &str) -> (&'static str, JsonValue) {
    ("url", JsonValue::Str(url.to_string()))
}

#[test]
fn accepts_url_only() {
    let input = object(vec![url_field("https://example.com")]);
    let parsed = ShortenInput::from_json(&input).unwrap();
    assert_eq!(parsed.url, "https://example.com");
    assert_eq!(parsed.expiration_hours, None);
}

#[test]
fn accepts_url_with_expiration() {
    let input = object(vec![
        url_field("https://example.com"),
        ("expiration_hours", JsonValue::Int(24)),
    ]);
    let parsed = ShortenInput::from_json(&input).unwrap();
    assert_eq!(parsed.url, "https://example.com");
    assert_eq!(parsed.expiration_hours, Some(24));
}

#[test]
fn accepts_boundary_expirations() {
    for hours in [1i64, 720] {
        let input = object(vec![
            url_field("https://example.com"),
            ("expiration_hours", JsonValue::Int(hours)),
        ]);
        let parsed = ShortenInput::from_json(&input).unwrap();
        assert_eq!(parsed.expiration_hours, Some(hours as u16));
    }
}

#[test]
fn rejects_non_object_body() {
    let errors = ShortenInput::from_json(&JsonData::Other).unwrap_err();
    assert_eq!(errors.len(), 1);
    assert_eq!(errors[0].message, "Field must be type object");
    assert_eq!(errors[0].location, vec![":all:".to_string()]);
}

#[test]
fn rejects_extra_fields_each_with_its_name() {
    let input = object(vec![
        url_field("https://example.com"),
        ("surprise", JsonValue::Int(1)),
        ("another", JsonValue::Str("x".to_string())),
    ]);
    let errors = ShortenInput::from_json(&input).unwrap_err();
    assert_eq!(errors.len(), 2);
    assert_eq!(errors[0].message, "Extra field not allowed");
    assert_eq!(errors[0].location, vec!["surprise".to_string()]);
    assert_eq!(errors[1].message, "Extra field not allowed");
    assert_eq!(errors[1].location, vec!["another".to_string()]);
}

#[test]
fn rejects_missing_url() {
    let input = object(vec![("expiration_hours", JsonValue::Int(1))]);
    let errors = ShortenInput::from_json(&input).unwrap_err();
    // The extra-field pass accepts expiration_hours, so the failure is the
    // missing required field.
    assert_eq!(errors.len(), 1);
    assert_eq!(errors[0].message, "Required field");
    assert_eq!(errors[0].location, vec!["url".to_string()]);
}

#[test]
fn rejects_non_string_url() {
    let input = object(vec![("url", JsonValue::Int(5))]);
    let errors = ShortenInput::from_json(&input).unwrap_err();
    assert_eq!(errors.len(), 1);
    assert_eq!(errors[0].message, "Field must be type string");
    assert_eq!(errors[0].location, vec!["url".to_string()]);
}

#[test]
fn rejects_invalid_url() {
    let input = object(vec![url_field("invalid")]);
    let errors = ShortenInput::from_json(&input).unwrap_err();
    assert_eq!(errors.len(), 1);
    assert_eq!(errors[0].message, "Invalid URL");
    assert_eq!(errors[0].location, vec!["url".to_string()]);
}

#[test]
fn rejects_non_number_expiration() {
    let input = object(vec![
        url_field("https://example.com"),
        ("expiration_hours", JsonValue::Str("soon".to_string())),
    ]);
    let errors = ShortenInput::from_json(&input).unwrap_err();
    assert_eq!(errors.len(), 1);
    assert_eq!(errors[0].message, "Field must be type number");
    assert_eq!(errors[0].location, vec!["expiration_hours".to_string()]);
}

#[test]
fn rejects_expiration_below_minimum() {
    let input = object(vec![
        url_field("https://example.com"),
        ("expiration_hours", JsonValue::Int(0)),
    ]);
    let errors = ShortenInput::from_json(&input).unwrap_err();
    assert_eq!(errors.len(), 1);
    assert_eq!(errors[0].message, "Value must be at least: 1");
    assert_eq!(errors[0].location, vec!["expiration_hours".to_string()]);
}

#[test]
fn rejects_expiration_above_maximum() {
    let input = object(vec![
        url_field("https://example.com"),
        ("expiration_hours", JsonValue::Int(721)),
    ]);
    let errors = ShortenInput::from_json(&input).unwrap_err();
    assert_eq!(errors.len(), 1);
    assert_eq!(errors[0].message, "Value must be at most: 720");
    assert_eq!(errors[0].location, vec!["expiration_hours".to_string()]);
}

#[test]
fn generated_secrets_are_long_and_alphanumeric() {
    let secret = generate_secret();
    assert_eq!(secret.len(), 40);
    assert!(secret.chars().all(|c| c.is_ascii_alphanumeric()));
}
