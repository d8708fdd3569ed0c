use tiny_trails::codec::encode_base62;
use tiny_trails::delete::DeleteTrailResponse;
use tiny_trails::hashing::hash_with_env_salt;
use tiny_trails::json::{JsonData, JsonValue};
use tiny_trails::link::ClickRecord;
use tiny_trails::resolve::{trail_not_found_message, ResolveResponse};
use tiny_trails::response::TTResponse;
use tiny_trails::service::{delete_trail, resolve, shorten, trail_info};
use tiny_trails::store::LinkStore;
use tiny_trails::trail_info::{TrailInfoQueryParams, TrailInfoResponse, TrailInfoResponseData};

const NOW: i64 = 1_700_000_000;

fn shorten_body(url: &str) -> JsonData {
    JsonData::Object(vec![("url".to_string(), JsonValue::Str(url.to_string()))])
}

fn create(store: &mut LinkStore, url: &str, now: i64) -> (String, String) {
    let response = shorten(store, &shorten_body(url), now);
    let data = response.unwrap_data();
    (data.trailid, data.secret)
}

fn info_data(store: &LinkStore, code: &String, secret: Option<&String>, week: bool) -> TrailInfoResponseData {
    let query = TrailInfoQueryParams { with_week_history: week };
    match trail_info(store, code, secret, &query, NOW) {
        TrailInfoResponse::TTResponse(inner) => inner.unwrap_data(),
        TrailInfoResponse::NotFound => panic!("link should exist"),
    }
}

#[test]
fn shorten_test_ok() {
    let mut store = LinkStore::new();
    let response = shorten(&mut store, &shorten_body("https://example.com"), NOW);
    assert_eq!(response.status_code(), 200);
    let data = response.unwrap_data();
    // The first link in the store gets identifier 1.
    assert_eq!(data.trailid, encode_base62(1));
    assert_eq!(data.secret.len(), 40);
    assert_eq!(store.links.len(), 1);
    assert_eq!(store.links[0].target_url, "https://example.com");
    assert_eq!(store.links[0].expiration_hours, 1);
}

#[test]
fn test_invalid_url() {
    let mut store = LinkStore::new();
    let response = shorten(&mut store, &shorten_body("invalid"), NOW);
    assert_eq!(response.status_code(), 400);
    assert!(matches!(response, TTResponse::Errors(_)));
    let errors = response.unwrap_errors();
    assert_eq!(errors.len(), 1);
    assert_eq!(errors[0].message, "Invalid URL");
    assert_eq!(errors[0].location, vec!["url".to_string()]);
    assert_eq!(store.links.len(), 0);
}

#[test]
fn concurrent_style_creations_get_distinct_codes() {
    let mut store = LinkStore::new();
    let mut codes = Vec::new();
    for _ in 0..20 {
        let (code, _) = create(&mut store, "https://example.com", NOW);
        codes.push(code);
    }
    for i in 0..codes.len() {
        for j in 0..codes.len() {
            if i != j {
                assert_ne!(codes[i], codes[j]);
            }
        }
    }
    // Each code decodes back to its own freshly assigned identifier.
    for (i, code) in codes.iter().enumerate() {
        assert_eq!(tiny_trails::codec::decode_base62(code), Some(i as u64 + 1));
    }
}

#[test]
fn test_resolve() {
    let mut store = LinkStore::new();
    let (code, _) = create(&mut store, "https://example.com", NOW);
    let address = "127.0.0.1:3000".to_string();
    let response = resolve(&mut store, &code, Some(&address), NOW + 60);
    assert_eq!(response.status_code(), 302);
    match &response {
        ResolveResponse::Found(url) => assert_eq!(url, "https://example.com"),
        _ => panic!("expected a redirect"),
    }
    assert_eq!(response.redirect_target().map(|u| u.as_str()), Some("https://example.com"));
    // Exactly one click is recorded, carrying the hashed address, never
    // the raw one.
    assert_eq!(store.clicks.len(), 1);
    assert_eq!(store.clicks[0].link_id, 1);
    assert_eq!(store.clicks[0].created_at, NOW + 60);
    assert_eq!(
        store.clicks[0].hashed_address,
        Some(hash_with_env_salt(&address))
    );
}

#[test]
fn resolve_test_not_found() {
    let mut store = LinkStore::new();
    let code = "notexists".to_string();
    let response = resolve(&mut store, &code, None, NOW);
    assert_eq!(response.status_code(), 404);
    assert_eq!(response.body_text(), trail_not_found_message());
    assert!(matches!(response, ResolveResponse::NotFound));
    assert_eq!(store.clicks.len(), 0);
}

#[test]
fn resolve_empty_code_is_not_found() {
    let mut store = LinkStore::new();
    let code = String::new();
    let response = resolve(&mut store, &code, None, NOW);
    assert!(matches!(response, ResolveResponse::NotFound));
}

#[test]
fn test_expired() {
    let mut store = LinkStore::new();
    let (code, _) = create(&mut store, "https://example.com", NOW);
    let response = resolve(&mut store, &code, None, NOW + 2 * 3600);
    assert!(matches!(response, ResolveResponse::Expired));
    // An expired link renders exactly like a missing one.
    assert_eq!(response.status_code(), 404);
    assert_eq!(response.body_text(), trail_not_found_message());
    assert_eq!(store.clicks.len(), 0);
}

#[test]
fn expiration_boundary_minute_by_minute() {
    // A one-hour link is live at 59 minutes and expired from exactly 60.
    let mut store = LinkStore::new();
    let (code, _) = create(&mut store, "https://example.com", NOW);
    let at_59 = resolve(&mut store, &code, None, NOW + 59 * 60);
    assert!(matches!(at_59, ResolveResponse::Found(_)));
    let at_60 = resolve(&mut store, &code, None, NOW + 60 * 60);
    assert!(matches!(at_60, ResolveResponse::Expired));
    let at_61 = resolve(&mut store, &code, None, NOW + 61 * 60);
    assert!(matches!(at_61, ResolveResponse::Expired));
}

#[test]
fn test_not_authenticated() {
    let mut store = LinkStore::new();
    let (code, _) = create(&mut store, "https://example.com", NOW);
    let response = delete_trail(&mut store, &code, None);
    assert!(matches!(response, DeleteTrailResponse::Unauthenticated));
    assert_eq!(response.status_code(), 401);
    assert_eq!(store.links.len(), 1);
    // The link is still resolvable.
    let still = resolve(&mut store, &code, None, NOW);
    assert!(matches!(still, ResolveResponse::Found(_)));
}

#[test]
fn test_not_authorized() {
    let mut store = LinkStore::new();
    let (code, _) = create(&mut store, "https://example.com", NOW);
    let wrong = "notwow".to_string();
    let response = delete_trail(&mut store, &code, Some(&wrong));
    assert!(matches!(response, DeleteTrailResponse::Unauthorized));
    assert_eq!(response.status_code(), 403);
    assert_eq!(store.links.len(), 1);
    let still = resolve(&mut store, &code, None, NOW);
    assert!(matches!(still, ResolveResponse::Found(_)));
}

#[test]
fn delete_test_not_found() {
    let mut store = LinkStore::new();
    let code = "test".to_string();
    let secret = "wow".to_string();
    let response = delete_trail(&mut store, &code, Some(&secret));
    assert!(matches!(response, DeleteTrailResponse::NotFound));
    assert_eq!(response.status_code(), 404);
    assert_eq!(response.body_text(), trail_not_found_message());
}

#[test]
fn delete_test_ok() {
    let mut store = LinkStore::new();
    let (code, secret) = create(&mut store, "https://example.com", NOW);
    resolve(&mut store, &code, None, NOW);
    assert_eq!(store.clicks.len(), 1);
    let response = delete_trail(&mut store, &code, Some(&secret));
    assert!(matches!(response, DeleteTrailResponse::Deleted));
    assert_eq!(response.status_code(), 200);
    assert_eq!(store.links.len(), 0);
    // The clicks are cascaded away with the link.
    assert_eq!(store.clicks.len(), 0);
    // A subsequent resolve finds nothing.
    let gone = resolve(&mut store, &code, None, NOW);
    assert!(matches!(gone, ResolveResponse::NotFound));
}

#[test]
fn internal_errors_render_as_server_failures() {
    let store_error = || tiny_trails::error::StoreError { message: "connection reset".to_string() };
    let r = ResolveResponse::from_store_error(store_error());
    assert_eq!(r.status_code(), 500);
    assert_eq!(r.body_text(), "connection reset");
    let d = DeleteTrailResponse::from_store_error(store_error());
    assert_eq!(d.status_code(), 500);
    assert_eq!(d.body_text(), "connection reset");
    let i = TrailInfoResponse::from_store_error(store_error());
    assert_eq!(i.status_code(), 500);
}

#[test]
fn expiry_time_is_created_at_plus_hours() {
    let mut store = LinkStore::new();
    create(&mut store, "https://example.com", NOW);
    let record = &store.links[0];
    assert_eq!(record.expires_at(), NOW + 3600);
    assert!(!record.is_expired(NOW + 3599));
    assert!(record.is_expired(NOW + 3600));
}

fn insert_click(store: &mut LinkStore, link_id: u64, address: Option<&str>, at: i64) {
    store.insert_click(ClickRecord {
        link_id,
        hashed_address: address.map(|a| a.to_string()),
        created_at: at,
    });
}

/// Clicks from A, A, B and two anonymous clicks: three unique sources.
#[test]
fn test_unique_click_counting() {
    let mut store = LinkStore::new();
    let (code, _) = create(&mut store, "https://example.com", NOW);
    insert_click(&mut store, 1, Some("A"), NOW);
    insert_click(&mut store, 1, Some("A"), NOW);
    insert_click(&mut store, 1, Some("B"), NOW);
    insert_click(&mut store, 1, None, NOW);
    insert_click(&mut store, 1, None, NOW);
    let data = info_data(&store, &code, None, false);
    assert_eq!(data.unique_tracks, 3);
    assert_eq!(data.total_tracks, 4 + 1);
}

fn setup_clicks(store: &mut LinkStore, link_id: u64) {
    let old = NOW - 14 * 24 * 3600;
    insert_click(store, link_id, Some("one"), NOW);
    insert_click(store, link_id, Some("two"), NOW);
    insert_click(store, link_id, Some("two"), NOW);
    insert_click(store, link_id, Some("three"), NOW);
    insert_click(store, link_id, Some("three"), NOW);
    insert_click(store, link_id, Some("three"), old);
    insert_click(store, link_id, None, NOW);
    insert_click(store, link_id, None, old);
    insert_click(store, link_id, None, old);
}

#[test]
fn test_ok_without_secret() {
    let mut store = LinkStore::new();
    let (code, _) = create(&mut store, "https://example.com", NOW);
    setup_clicks(&mut store, 1);
    let data = info_data(&store, &code, None, false);
    assert_eq!(data.trailid, code);
    assert_eq!(data.long, "https://example.com");
    // Three named sources plus one shared anonymous bucket.
    assert_eq!(data.unique_tracks, 4);
    assert_eq!(data.total_tracks, 9);
    assert_eq!(data.created_at, None);
    assert_eq!(data.expiration_hours, None);
    assert_eq!(data.expires_at, None);
    assert_eq!(data.week_history, None);
}

#[test]
fn test_ok_with_secret() {
    let mut store = LinkStore::new();
    let (code, secret) = create(&mut store, "https://example.com", NOW);
    setup_clicks(&mut store, 1);
    let data = info_data(&store, &code, Some(&secret), false);
    assert_eq!(data.trailid, code);
    assert_eq!(data.long, "https://example.com");
    assert_eq!(data.unique_tracks, 4);
    assert_eq!(data.total_tracks, 9);
    assert_eq!(data.expiration_hours, Some(1));
    assert!(data.created_at.is_some());
    assert!(data.expires_at.is_some());
    assert_eq!(data.week_history, None);
}

#[test]
fn wrong_secret_sees_what_no_secret_sees() {
    let mut store = LinkStore::new();
    let (code, _) = create(&mut store, "https://example.com", NOW);
    setup_clicks(&mut store, 1);
    let wrong = "definitely-not-the-secret".to_string();
    let with_wrong = info_data(&store, &code, Some(&wrong), true);
    let with_none = info_data(&store, &code, None, true);
    assert_eq!(with_wrong.trailid, with_none.trailid);
    assert_eq!(with_wrong.long, with_none.long);
    assert_eq!(with_wrong.unique_tracks, with_none.unique_tracks);
    assert_eq!(with_wrong.total_tracks, with_none.total_tracks);
    assert_eq!(with_wrong.created_at, None);
    assert_eq!(with_wrong.expiration_hours, None);
    assert_eq!(with_wrong.expires_at, None);
    assert_eq!(with_wrong.week_history, None);
    assert_eq!(with_none.created_at, None);
    assert_eq!(with_none.week_history, None);
}

#[test]
fn trail_info_test_not_found() {
    let store = LinkStore::new();
    let code = "test".to_string();
    let query = TrailInfoQueryParams { with_week_history: false };
    let response = trail_info(&store, &code, None, &query, NOW);
    assert!(matches!(response, TrailInfoResponse::NotFound));
    assert_eq!(response.status_code(), 404);
}

#[test]
fn test_ok_with_week_history() {
    let mut store = LinkStore::new();
    let (code, secret) = create(&mut store, "https://example.com", NOW);
    setup_clicks(&mut store, 1);
    let data = info_data(&store, &code, Some(&secret), true);
    assert_eq!(data.unique_tracks, 4);
    assert_eq!(data.total_tracks, 9);
    assert_eq!(data.expiration_hours, Some(1));
    assert!(data.created_at.is_some());
    assert!(data.expires_at.is_some());
    // Six of the nine clicks fall within the last week.
    assert_eq!(data.week_history.map(|v| v.len()), Some(6));
}

#[test]
fn week_history_is_newest_first() {
    let mut store = LinkStore::new();
    let (code, secret) = create(&mut store, "https://example.com", NOW);
    insert_click(&mut store, 1, Some("a"), NOW - 30);
    insert_click(&mut store, 1, Some("b"), NOW - 10);
    insert_click(&mut store, 1, Some("c"), NOW - 20);
    let data = info_data(&store, &code, Some(&secret), true);
    let history = data.week_history.expect("history requested under the secret");
    assert_eq!(history.len(), 3);
    let expect_10 = tiny_trails::clock::format_utc(NOW - 10);
    let expect_20 = tiny_trails::clock::format_utc(NOW - 20);
    let expect_30 = tiny_trails::clock::format_utc(NOW - 30);
    assert_eq!(history, vec![expect_10, expect_20, expect_30]);
}
