use gacha_cache::error::Error;
use gacha_cache::extract::GachaUrl;
use gacha_cache::records::AccountFacet;
use gacha_cache::validate::{
    should_throttle, validate_candidates, ProbeOutcome, UrlCache, PROBE_THROTTLE_EVERY,
};

const NOW: i64 = 1_700_000_000;

fn candidate(addr: u32, age: i64, text: &str) -> GachaUrl {
    GachaUrl { addr, creation_time: NOW - age, value: text.as_bytes().to_vec() }
}

#[test]
fn right_uid_validates_first_candidate() {
    let mut cache = UrlCache::new();
    let candidates = vec![candidate(1, 60, "https://a.example?gacha_type=1")];
    let probes = vec![ProbeOutcome::Observed { uid: b"100000001".to_vec() }];
    let out = validate_candidates(
        &mut cache,
        AccountFacet::Genshin,
        &b"100000001".to_vec(),
        &candidates,
        &probes,
        NOW,
    );
    assert_eq!(out.probes_used, 1);
    assert_eq!(out.result.unwrap().addr, 1);
}

#[test]
fn wrong_then_right_probes_both_and_returns_second() {
    let mut cache = UrlCache::new();
    let a = candidate(1, 60, "https://a.example?gacha_type=1");
    let b = candidate(2, 90, "https://b.example?gacha_type=1");
    let candidates = vec![a, b];
    let probes = vec![
        ProbeOutcome::Observed { uid: b"200000002".to_vec() },
        ProbeOutcome::Observed { uid: b"100000001".to_vec() },
    ];
    let out = validate_candidates(
        &mut cache,
        AccountFacet::Genshin,
        &b"100000001".to_vec(),
        &candidates,
        &probes,
        NOW,
    );
    assert_eq!(out.probes_used, 2);
    assert_eq!(out.result.unwrap().addr, 2);

    // the mismatched first candidate was cached under the uid actually
    // observed: validating for that other account now hits the cache
    let candidates2 = vec![candidate(1, 60, "https://a.example?gacha_type=1")];
    let probes2 = vec![ProbeOutcome::Empty];
    let out2 = validate_candidates(
        &mut cache,
        AccountFacet::Genshin,
        &b"200000002".to_vec(),
        &candidates2,
        &probes2,
        NOW,
    );
    assert_eq!(out2.probes_used, 0);
    assert_eq!(out2.result.unwrap().addr, 1);
}

#[test]
fn second_validation_within_a_day_uses_the_cache() {
    let mut cache = UrlCache::new();
    let candidates = vec![candidate(7, 120, "https://a.example?gacha_type=1")];
    let uid = b"100000001".to_vec();
    let probes = vec![ProbeOutcome::Observed { uid: uid.clone() }];
    let first = validate_candidates(
        &mut cache,
        AccountFacet::Genshin,
        &uid,
        &candidates,
        &probes,
        NOW,
    );
    assert_eq!(first.probes_used, 1);

    // same facet and uid, shortly after: no probe at all
    let probes2 = vec![ProbeOutcome::Empty];
    let second = validate_candidates(
        &mut cache,
        AccountFacet::Genshin,
        &uid,
        &candidates,
        &probes2,
        NOW + 600,
    );
    assert_eq!(second.probes_used, 0);
    assert_eq!(second.result.unwrap().addr, 7);
}

#[test]
fn stale_cache_entry_is_evicted_and_reprobed() {
    let mut cache = UrlCache::new();
    let candidates = vec![candidate(7, 120, "https://a.example?gacha_type=1")];
    let uid = b"100000001".to_vec();
    let probes = vec![ProbeOutcome::Observed { uid: uid.clone() }];
    let first =
        validate_candidates(&mut cache, AccountFacet::Genshin, &uid, &candidates, &probes, NOW);
    assert_eq!(first.probes_used, 1);

    // a day later the cached entry is stale: the candidate is probed again
    let later = NOW + 100_000;
    let second =
        validate_candidates(&mut cache, AccountFacet::Genshin, &uid, &candidates, &probes, later);
    assert_eq!(second.probes_used, 1);
}

#[test]
fn remote_error_probe_means_no_valid_url() {
    let mut cache = UrlCache::new();
    let candidates = vec![
        candidate(1, 60, "https://a.example?gacha_type=1"),
        candidate(2, 90, "https://b.example?gacha_type=1"),
    ];
    let probes = vec![
        ProbeOutcome::Failed {
            error: Error::RemoteApi { retcode: -1, message: b"bad".to_vec() },
        },
        ProbeOutcome::Observed { uid: b"100000001".to_vec() },
    ];
    let out = validate_candidates(
        &mut cache,
        AccountFacet::Genshin,
        &b"100000001".to_vec(),
        &candidates,
        &probes,
        NOW,
    );
    // one bad candidate ends the pass as "nothing valid", without
    // probing the rest
    assert_eq!(out.probes_used, 1);
    assert_eq!(out.result, Err(Error::NoValidUrlFound));
}

#[test]
fn auth_expired_probe_propagates() {
    let mut cache = UrlCache::new();
    let candidates = vec![
        candidate(1, 60, "https://a.example?gacha_type=1"),
        candidate(2, 90, "https://b.example?gacha_type=1"),
    ];
    let probes = vec![
        ProbeOutcome::Failed { error: Error::AuthorizationExpired },
        ProbeOutcome::Observed { uid: b"100000001".to_vec() },
    ];
    let out = validate_candidates(
        &mut cache,
        AccountFacet::Genshin,
        &b"100000001".to_vec(),
        &candidates,
        &probes,
        NOW,
    );
    assert_eq!(out.probes_used, 1);
    assert_eq!(out.result, Err(Error::AuthorizationExpired));
}

#[test]
fn exhausted_candidates_mean_no_valid_url() {
    let mut cache = UrlCache::new();
    let candidates = vec![
        candidate(1, 60, "https://a.example?gacha_type=1"),
        candidate(2, 90, "https://b.example?gacha_type=1"),
    ];
    let probes = vec![ProbeOutcome::Empty, ProbeOutcome::Empty];
    let out = validate_candidates(
        &mut cache,
        AccountFacet::Genshin,
        &b"100000001".to_vec(),
        &candidates,
        &probes,
        NOW,
    );
    assert_eq!(out.probes_used, 2);
    assert_eq!(out.result, Err(Error::NoValidUrlFound));
}

#[test]
fn facets_do_not_share_cache_entries() {
    let mut cache = UrlCache::new();
    let candidates = vec![candidate(1, 60, "https://a.example?gacha_type=1")];
    let uid = b"100000001".to_vec();
    let probes = vec![ProbeOutcome::Observed { uid: uid.clone() }];
    let first =
        validate_candidates(&mut cache, AccountFacet::Genshin, &uid, &candidates, &probes, NOW);
    assert_eq!(first.probes_used, 1);

    // the same uid and slot under another facet misses the cache
    let second =
        validate_candidates(&mut cache, AccountFacet::StarRail, &uid, &candidates, &probes, NOW);
    assert_eq!(second.probes_used, 1);
}

#[test]
fn throttle_strikes_after_every_fifth_probe() {
    assert!(!should_throttle(0));
    assert!(!should_throttle(1));
    assert!(!should_throttle(4));
    assert!(should_throttle(PROBE_THROTTLE_EVERY));
    assert!(!should_throttle(7));
    assert!(should_throttle(10));
}
