use tiny_trails::args::AppArgs;
use tiny_trails::clock::format_utc;
use tiny_trails::error::{Error, StoreError, ToTTError};
use tiny_trails::response::TTResponse;
use tiny_trails::text::{i64_to_dec_string, u64_to_dec_string};

#[test]
fn decimal_rendering() {
    assert_eq!(u64_to_dec_string(0), "0");
    assert_eq!(u64_to_dec_string(7), "7");
    assert_eq!(u64_to_dec_string(12345), "12345");
    assert_eq!(u64_to_dec_string(u64::MAX), "18446744073709551615");
    assert_eq!(i64_to_dec_string(-42), "-42");
    assert_eq!(i64_to_dec_string(i64::MIN), "-9223372036854775808");
}

#[test]
fn listen_address_joins_host_and_port() {
    let args = AppArgs {
        host: "0.0.0.0".to_string(),
        port: 3000,
        database: "postgres://localhost/tt".to_string(),
    };
    assert_eq!(args.listen_address(), "0.0.0.0:3000");
}

#[test]
fn error_constructors_carry_message_and_location() {
    let e = Error::type_mismatch("object", vec![":all:".to_string()]);
    assert_eq!(e.message, "Field must be type object");
    assert_eq!(e.location, vec![":all:".to_string()]);

    let e = Error::max_exceeded(720, vec!["expiration_hours".to_string()]);
    assert_eq!(e.message, "Value must be at most: 720");

    let e = Error::min_exceeded(1, vec!["expiration_hours".to_string()]);
    assert_eq!(e.message, "Value must be at least: 1");

    let e = Error::internal_error("boom".to_string());
    assert_eq!(e.message, "boom");
    assert_eq!(e.location, vec![":internal:".to_string()]);
    assert!(e.is_internal());

    let e = Error::invalid_url(vec!["url".to_string()]);
    assert!(!e.is_internal());
}

#[test]
fn store_errors_become_internal_errors() {
    let store_error = StoreError { message: "connection reset".to_string() };
    let e = store_error.to_tt_error();
    assert_eq!(e.message, "connection reset");
    assert_eq!(e.location, vec![":internal:".to_string()]);
}

#[test]
fn response_status_codes() {
    let data: TTResponse<u32> = TTResponse::Data(7);
    assert_eq!(data.status_code(), 200);

    let plain: TTResponse<u32> = TTResponse::Error(Error::invalid_url(vec!["url".to_string()]));
    assert_eq!(plain.status_code(), 400);

    let internal: TTResponse<u32> = TTResponse::Error(Error::internal_error("x".to_string()));
    assert_eq!(internal.status_code(), 500);

    let mixed: TTResponse<u32> = TTResponse::Errors(vec![
        Error::invalid_url(vec!["url".to_string()]),
        Error::internal_error("x".to_string()),
    ]);
    assert_eq!(mixed.status_code(), 500);
}

#[test]
fn internal_error_dominates_visible_errors() {
    let mixed: TTResponse<u32> = TTResponse::Errors(vec![
        Error::invalid_url(vec!["url".to_string()]),
        Error::internal_error("first".to_string()),
        Error::internal_error("second".to_string()),
    ]);
    let visible = mixed.visible_errors();
    // Only the first internal error is shown.
    assert_eq!(visible.len(), 1);
    assert_eq!(visible[0].message, "first");
}

#[test]
fn plain_errors_are_all_visible() {
    let plain: TTResponse<u32> = TTResponse::Errors(vec![
        Error::invalid_url(vec!["url".to_string()]),
        Error::required_field(vec!["name".to_string()]),
    ]);
    let visible = plain.visible_errors();
    assert_eq!(visible.len(), 2);
    assert_eq!(visible[0].message, "Invalid URL");
    assert_eq!(visible[1].message, "Required field");
}

#[test]
fn unwrap_helpers() {
    let data: TTResponse<u32> = TTResponse::Data(7);
    assert_eq!(data.unwrap_data(), 7);

    let single: TTResponse<u32> = TTResponse::Error(Error::invalid_url(vec!["url".to_string()]));
    let errors = single.unwrap_errors();
    assert_eq!(errors.len(), 1);
    assert_eq!(errors[0].message, "Invalid URL");
}

#[test]
fn utc_rendering_matches_chrono() {
    assert_eq!(format_utc(1_431_648_000), "2015-05-15 00:00:00");
    assert_eq!(format_utc(0), "1970-01-01 00:00:00");
}
