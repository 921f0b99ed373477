use gacha_cache::error::Error;
use gacha_cache::fetch::{
    classify_response, default_backoff_schedule, error_for_response, run_retry, should_retry,
    ResponseKind, BACKOFF_MAX_MS, BACKOFF_MIN_MS, MAX_ATTEMPTS,
};
use gacha_cache::records::AccountFacet;
use gacha_cache::urlbuild::build_page_request_url;

#[test]
fn classification_by_retcode() {
    assert_eq!(classify_response(0, &b"OK".to_vec()), ResponseKind::Success);
    assert_eq!(classify_response(-101, &b"".to_vec()), ResponseKind::AuthExpired);
    assert_eq!(classify_response(-110, &b"".to_vec()), ResponseKind::RateLimited);
    assert_eq!(classify_response(-1, &b"internal".to_vec()), ResponseKind::RemoteError);
}

#[test]
fn classification_by_message() {
    assert_eq!(
        classify_response(-1, &b"invalid authkey".to_vec()),
        ResponseKind::AuthExpired
    );
    assert_eq!(
        classify_response(-1, &b"bad auth key here".to_vec()),
        ResponseKind::AuthExpired
    );
    assert_eq!(
        classify_response(-1, &b"visit too frequently".to_vec()),
        ResponseKind::RateLimited
    );
}

#[test]
fn errors_for_responses() {
    assert_eq!(error_for_response(0, b"OK".to_vec()), None);
    assert_eq!(
        error_for_response(-101, b"".to_vec()),
        Some(Error::AuthorizationExpired)
    );
    assert_eq!(error_for_response(-110, b"".to_vec()), Some(Error::RateLimited));
    assert_eq!(
        error_for_response(7, b"boom".to_vec()),
        Some(Error::RemoteApi { retcode: 7, message: b"boom".to_vec() })
    );
}

#[test]
fn five_rate_limits_exhaust_the_budget() {
    let outcomes = vec![ResponseKind::RateLimited; 5];
    let (attempts, last) = run_retry(&outcomes, 5);
    assert_eq!(attempts, 5);
    assert_eq!(last, ResponseKind::RateLimited);
}

#[test]
fn success_after_one_rate_limit_takes_two_attempts() {
    let outcomes = vec![
        ResponseKind::RateLimited,
        ResponseKind::Success,
        ResponseKind::RateLimited,
        ResponseKind::RateLimited,
        ResponseKind::RateLimited,
    ];
    let (attempts, last) = run_retry(&outcomes, 5);
    assert_eq!(attempts, 2);
    assert_eq!(last, ResponseKind::Success);
}

#[test]
fn fatal_failure_is_never_retried() {
    let outcomes = vec![
        ResponseKind::AuthExpired,
        ResponseKind::Success,
        ResponseKind::Success,
        ResponseKind::Success,
        ResponseKind::Success,
    ];
    let (attempts, last) = run_retry(&outcomes, 5);
    assert_eq!(attempts, 1);
    assert_eq!(last, ResponseKind::AuthExpired);
    assert!(!should_retry(ResponseKind::AuthExpired, 1, 5));
    assert!(!should_retry(ResponseKind::RemoteError, 1, 5));
    assert!(should_retry(ResponseKind::RateLimited, 1, 5));
    assert!(!should_retry(ResponseKind::RateLimited, 5, 5));
}

#[test]
fn backoff_schedule_has_five_bounded_attempts() {
    let schedule = default_backoff_schedule();
    assert_eq!(schedule.len(), MAX_ATTEMPTS);
    assert!(schedule[MAX_ATTEMPTS - 1].is_none());
    for slot in schedule.iter().take(MAX_ATTEMPTS - 1) {
        let ms = slot.expect("every attempt before the last sleeps");
        assert!((BACKOFF_MIN_MS..=BACKOFF_MAX_MS).contains(&ms));
    }
}

const GACHA_URL: &str =
    "https://hk4e.example/api/getGachaLog?authkey=abc%2Fxyz&lang=en&gacha_type=301&page=3&size=6&end_id=555";
const ENDPOINT: &str = "/api/getGachaLog?";

#[test]
fn page_request_url_rebuilds_query() {
    let url = build_page_request_url(
        &GACHA_URL.as_bytes().to_vec(),
        &ENDPOINT.as_bytes().to_vec(),
        AccountFacet::Genshin,
        None,
        None,
    )
    .unwrap();
    let url = String::from_utf8(url).unwrap();
    // kept parameters survive, the paging parameters are pinned, and the
    // cursor already in the query is kept
    assert_eq!(
        url,
        "https://hk4e.example/api/getGachaLog?authkey=abc%2Fxyz&lang=en&page=1&size=20&gacha_type=301&end_id=555"
    );
}

#[test]
fn page_request_url_takes_overrides() {
    let url = build_page_request_url(
        &GACHA_URL.as_bytes().to_vec(),
        &ENDPOINT.as_bytes().to_vec(),
        AccountFacet::Genshin,
        Some(&b"302".to_vec()),
        Some(&b"999".to_vec()),
    )
    .unwrap();
    let url = String::from_utf8(url).unwrap();
    assert_eq!(
        url,
        "https://hk4e.example/api/getGachaLog?authkey=abc%2Fxyz&lang=en&page=1&size=20&gacha_type=302&end_id=999"
    );
}

#[test]
fn zenless_facet_uses_its_own_field_name() {
    let url = "https://zzz.example/api/getGachaLog?authkey=a&real_gacha_type=2001";
    let built = build_page_request_url(
        &url.as_bytes().to_vec(),
        &ENDPOINT.as_bytes().to_vec(),
        AccountFacet::ZenlessZoneZero,
        None,
        None,
    )
    .unwrap();
    let built = String::from_utf8(built).unwrap();
    assert_eq!(
        built,
        "https://zzz.example/api/getGachaLog?authkey=a&page=1&size=20&real_gacha_type=2001"
    );
}

#[test]
fn duplicate_query_keys_fold_to_the_last_value() {
    let url = "https://hk4e.example/api/getGachaLog?authkey=old&authkey=new&gacha_type=301";
    let built = build_page_request_url(
        &url.as_bytes().to_vec(),
        &ENDPOINT.as_bytes().to_vec(),
        AccountFacet::Genshin,
        None,
        None,
    )
    .unwrap();
    let built = String::from_utf8(built).unwrap();
    assert_eq!(
        built,
        "https://hk4e.example/api/getGachaLog?authkey=new&page=1&size=20&gacha_type=301"
    );
}

#[test]
fn url_without_endpoint_is_illegal() {
    let r = build_page_request_url(
        &b"https://example.com/somewhere?gacha_type=1".to_vec(),
        &ENDPOINT.as_bytes().to_vec(),
        AccountFacet::Genshin,
        None,
        None,
    );
    assert_eq!(r, Err(Error::IllegalUrl));
}

#[test]
fn url_without_gacha_type_field_is_illegal() {
    let r = build_page_request_url(
        &b"https://hk4e.example/api/getGachaLog?authkey=abc".to_vec(),
        &ENDPOINT.as_bytes().to_vec(),
        AccountFacet::Genshin,
        None,
        None,
    );
    assert_eq!(r, Err(Error::IllegalUrl));
}
