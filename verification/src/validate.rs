use crate::bytesutil::{bytes_clone, bytes_eq};
use crate::error::Error;
use crate::extract::{is_fresh, spec_is_fresh, spec_views, GachaUrl, GachaUrlView};
use crate::records::AccountFacet;
use vstd::prelude::*;

verus! {

/// After how many probes in a row one throttle pause is due.
pub const PROBE_THROTTLE_EVERY: usize = 5;

/// How long the throttle pause lasts, in seconds.
pub const PROBE_THROTTLE_SECONDS: u64 = 3;

/// Whether a bulk scan pauses before probing candidate number `counter`:
/// after every fifth probe, and never before the first.
pub open spec fn spec_should_throttle(counter: int) -> bool {
    counter != 0 && counter % (PROBE_THROTTLE_EVERY as int) == 0
}

pub fn should_throttle(counter: usize) -> (r: bool)
    ensures
        r == spec_should_throttle(counter as int),
{
    counter != 0 && counter % PROBE_THROTTLE_EVERY == 0
}

/// What one validation cache entry is keyed by: the account facet, an
/// account id, and the cache slot address the URL came from.
pub struct CacheKey {
    pub facet: AccountFacet,
    pub uid: Vec<u8>,
    pub addr: u32,
}

pub ghost struct CacheKeyView {
    pub facet: AccountFacet,
    pub uid: Seq<u8>,
    pub addr: u32,
}

impl View for CacheKey {
    type V = CacheKeyView;

    open spec fn view(&self) -> CacheKeyView {
        CacheKeyView { facet: self.facet, uid: self.uid@, addr: self.addr }
    }
}

pub open spec fn spec_key(facet: AccountFacet, uid: Seq<u8>, addr: u32) -> CacheKeyView {
    CacheKeyView { facet, uid, addr }
}

/// The mapping a list of cache entries amounts to, later entries winning.
pub open spec fn spec_entries_map(s: Seq<(CacheKey, GachaUrl)>) -> Map<CacheKeyView, GachaUrlView>
    decreases s.len(),
{
    if s.len() == 0 {
        Map::empty()
    } else {
        spec_entries_map(s.drop_last()).insert(s.last().0@, s.last().1@)
    }
}

pub open spec fn spec_keys_unique(s: Seq<(CacheKey, GachaUrl)>) -> bool {
    forall|i: int, j: int| 0 <= i < j < s.len() ==> s[i].0@ != s[j].0@
}

proof fn lemma_entries_map_index(s: Seq<(CacheKey, GachaUrl)>, i: int)
    requires
        spec_keys_unique(s),
        0 <= i < s.len(),
    ensures
        spec_entries_map(s).contains_key(s[i].0@),
        spec_entries_map(s)[s[i].0@] == s[i].1@,
    decreases s.len(),
{
    if i == s.len() - 1 {
    } else {
        lemma_entries_map_index(s.drop_last(), i);
    }
}

proof fn lemma_entries_map_absent(s: Seq<(CacheKey, GachaUrl)>, k: CacheKeyView)
    requires
        forall|i: int| 0 <= i < s.len() ==> s[i].0@ != k,
    ensures
        !spec_entries_map(s).contains_key(k),
    decreases s.len(),
{
    if s.len() > 0 {
        lemma_entries_map_absent(s.drop_last(), k);
    }
}

proof fn lemma_entries_map_remove(s: Seq<(CacheKey, GachaUrl)>, i: int)
    requires
        spec_keys_unique(s),
        0 <= i < s.len(),
    ensures
        spec_entries_map(s.remove(i)) == spec_entries_map(s).remove(s[i].0@),
    decreases s.len(),
{
    if i == s.len() - 1 {
        assert(s.remove(i) =~= s.drop_last());
        lemma_entries_map_absent(s.drop_last(), s[i].0@);
        assert(spec_entries_map(s.drop_last()) =~= spec_entries_map(s).remove(s[i].0@));
    } else {
        assert(s.remove(i).drop_last() =~= s.drop_last().remove(i));
        assert(s.remove(i).last() == s.last());
        lemma_entries_map_remove(s.drop_last(), i);
        assert(spec_entries_map(s.remove(i)) == spec_entries_map(s.drop_last().remove(i)).insert(
            s.last().0@,
            s.last().1@,
        ));
        assert(s[i].0@ != s.last().0@);
        assert(spec_entries_map(s.drop_last()).remove(s[i].0@).insert(s.last().0@, s.last().1@)
            =~= spec_entries_map(s.drop_last()).insert(s.last().0@, s.last().1@).remove(s[i].0@));
    }
}

/// The process-wide validation cache, owned explicitly and handed to
/// every caller: confirmed `(facet, uid, slot)` to URL mappings, each
/// fresh for a day and evicted lazily on the next lookup of its key.
pub struct UrlCache {
    entries: Vec<(CacheKey, GachaUrl)>,
}

impl View for UrlCache {
    type V = Map<CacheKeyView, GachaUrlView>;

    closed spec fn view(&self) -> Map<CacheKeyView, GachaUrlView> {
        spec_entries_map(self.entries@)
    }
}

impl UrlCache {
    pub closed spec fn wf(self) -> bool {
        spec_keys_unique(self.entries@)
    }

    pub fn new() -> (r: UrlCache)
        ensures
            r@ == Map::<CacheKeyView, GachaUrlView>::empty(),
            r.wf(),
    {
        UrlCache { entries: Vec::new() }
    }

    fn find_index(&self, facet: AccountFacet, uid: &Vec<u8>, addr: u32) -> (r: Option<usize>)
        ensures
            match r {
                Some(i) => i < self.entries@.len() && self.entries@[i as int].0@ == spec_key(
                    facet,
                    uid@,
                    addr,
                ),
                None => forall|i: int|
                    0 <= i < self.entries@.len() ==> self.entries@[i].0@ != spec_key(
                        facet,
                        uid@,
                        addr,
                    ),
            },
    {
        let mut i: usize = 0;
        while i < self.entries.len()
            invariant
                i <= self.entries@.len(),
                forall|k: int|
                    0 <= k < i ==> self.entries@[k].0@ != spec_key(facet, uid@, addr),
            decreases self.entries@.len() - i,
        {
            let e = &self.entries[i];
            if e.0.facet == facet && e.0.addr == addr && bytes_eq(&e.0.uid, uid) {
                return Some(i);
            }
            i += 1;
        }
        None
    }

    /// Looks the key up and evicts lazily: a fresh entry is returned and
    /// kept; a stale one is removed; a missing one changes nothing.
    pub fn lookup(&mut self, facet: AccountFacet, uid: &Vec<u8>, addr: u32, now: i64) -> (r: Option<
        GachaUrl,
    >)
        requires
            old(self).wf(),
        ensures
            final(self).wf(),
            ({
                let k = spec_key(facet, uid@, addr);
                if old(self)@.contains_key(k) {
                    if spec_is_fresh(old(self)@[k].creation_time, now as int) {
                        &&& r matches Some(u) && u@ == old(self)@[k]
                        &&& final(self)@ == old(self)@
                    } else {
                        &&& r is None
                        &&& final(self)@ == old(self)@.remove(k)
                    }
                } else {
                    &&& r is None
                    &&& final(self)@ == old(self)@
                }
            }),
    {
        let ghost k = spec_key(facet, uid@, addr);
        match self.find_index(facet, uid, addr) {
            Some(i) => {
                proof {
                    lemma_entries_map_index(self.entries@, i as int);
                }
                let fresh = is_fresh(self.entries[i].1.creation_time, now);
                if fresh {
                    let u = clone_url(&self.entries[i].1);
                    Some(u)
                } else {
                    proof {
                        lemma_entries_map_remove(self.entries@, i as int);
                    }
                    let _ = self.entries.remove(i);
                    None
                }
            },
            None => {
                proof {
                    lemma_entries_map_absent(self.entries@, k);
                }
                None
            },
        }
    }

    /// Stores a mapping, replacing whatever the key held.
    pub fn insert(&mut self, key: CacheKey, url: GachaUrl)
        requires
            old(self).wf(),
        ensures
            final(self).wf(),
            final(self)@ == old(self)@.insert(key@, url@),
    {
        let ghost kv = key@;
        match self.find_index(key.facet, &key.uid, key.addr) {
            Some(i) => {
                let ghost orig = self.entries@;
                proof {
                    lemma_entries_map_remove(self.entries@, i as int);
                }
                let _ = self.entries.remove(i);
                let ghost mid = self.entries@;
                proof {
                    assert(forall|j: int| 0 <= j < mid.len() ==> mid[j].0@ != kv);
                }
                self.entries.push((key, url));
                proof {
                    assert(self.entries@.drop_last() =~= mid);
                    assert(spec_entries_map(self.entries@) == spec_entries_map(mid).insert(
                        kv,
                        url@,
                    ));
                    assert(spec_entries_map(orig).remove(kv).insert(kv, url@) =~= spec_entries_map(
                        orig,
                    ).insert(kv, url@));
                }
            },
            None => {
                let ghost mid = self.entries@;
                self.entries.push((key, url));
                proof {
                    assert(self.entries@.drop_last() =~= mid);
                    assert(spec_entries_map(self.entries@) == spec_entries_map(mid).insert(
                        kv,
                        url@,
                    ));
                }
            },
        }
    }
}

/// A copy of a recovered URL.
pub fn clone_url(u: &GachaUrl) -> (r: GachaUrl)
    ensures
        r@ == u@,
{
    GachaUrl { addr: u.addr, creation_time: u.creation_time, value: bytes_clone(&u.value) }
}

/// What one minimal probe request came back with: the account id read
/// off the returned records, an empty payload, or a failure already
/// classified into an error.
pub enum ProbeOutcome {
    /// The probe succeeded and its records carry this account id.
    Observed { uid: Vec<u8> },
    /// The probe succeeded with no records, so no id to read.
    Empty,
    /// The probe failed with this error.
    Failed { error: Error },
}

/// Keeps only the fresh candidates, in order.
pub open spec fn spec_filter_fresh(s: Seq<GachaUrlView>, now: int) -> Seq<GachaUrlView>
    decreases s.len(),
{
    if s.len() == 0 {
        Seq::empty()
    } else {
        let rest = spec_filter_fresh(s.drop_last(), now);
        if spec_is_fresh(s.last().creation_time, now) {
            rest.push(s.last())
        } else {
            rest
        }
    }
}

pub fn filter_fresh_candidates(candidates: &Vec<GachaUrl>, now: i64) -> (r: Vec<GachaUrl>)
    ensures
        spec_views(r@) == spec_filter_fresh(spec_views(candidates@), now as int),
{
    let ghost views = spec_views(candidates@);
    let mut acc: Vec<GachaUrl> = Vec::new();
    let mut i: usize = 0;
    while i < candidates.len()
        invariant
            i <= candidates.len(),
            views == spec_views(candidates@),
            spec_views(acc@) == spec_filter_fresh(views.take(i as int), now as int),
        decreases candidates.len() - i,
    {
        let ghost prev = spec_views(acc@);
        proof {
            assert(views.take(i + 1).drop_last() =~= views.take(i as int));
            assert(views.take(i + 1).last() == views[i as int]);
        }
        if is_fresh(candidates[i].creation_time, now) {
            let u = clone_url(&candidates[i]);
            acc.push(u);
            proof {
                assert(spec_views(acc@) =~= prev.push(views[i as int]));
            }
        }
        i += 1;
    }
    proof {
        assert(views.take(candidates@.len() as int) =~= views);
    }
    acc
}

/// Whether two errors read the same.
pub open spec fn spec_error_matches(a: Error, b: Error) -> bool {
    match (a, b) {
        (Error::RemoteApi { retcode: c1, message: m1 }, Error::RemoteApi {
            retcode: c2,
            message: m2,
        }) => c1 == c2 && m1@ == m2@,
        (Error::UidMismatch { expected: e1, actual: a1 }, Error::UidMismatch {
            expected: e2,
            actual: a2,
        }) => e1@ == e2@ && a1@ == a2@,
        _ => a == b,
    }
}

fn clone_error(e: &Error) -> (r: Error)
    ensures
        spec_error_matches(*e, r),
        r is RemoteApi <==> e is RemoteApi,
{
    match e {
        Error::CacheFormat => Error::CacheFormat,
        Error::CacheNotFound => Error::CacheNotFound,
        Error::NoUsableUrl => Error::NoUsableUrl,
        Error::IllegalUrl => Error::IllegalUrl,
        Error::AuthorizationExpired => Error::AuthorizationExpired,
        Error::RateLimited => Error::RateLimited,
        Error::RemoteApi { retcode, message } => Error::RemoteApi {
            retcode: *retcode,
            message: bytes_clone(message),
        },
        Error::UidMismatch { expected, actual } => Error::UidMismatch {
            expected: bytes_clone(expected),
            actual: bytes_clone(actual),
        },
        Error::NoValidUrlFound => Error::NoValidUrlFound,
    }
}

/// What one validation pass amounts to: its outcome, how many probes it
/// spent, and the cache it leaves behind.
pub ghost struct ValidationModel {
    pub result: Result<GachaUrlView, Error>,
    pub probes: int,
    pub cache: Map<CacheKeyView, GachaUrlView>,
}

/// The validation pass over a candidate list, one candidate and at most
/// one probe at a time. For each candidate in order: a fresh cached entry
/// under its key ends the pass at once, with no probe; a stale one is
/// evicted first. Otherwise one probe is spent. A probe that fails with a
/// remote-status error ends the pass as `NoValidUrlFound` (one bad
/// candidate is no outage); any other failure ends it with that error. An
/// observed account id is cached under the id actually seen, whoever it
/// belongs to; only the expected id validates the candidate. Candidates
/// running out is `NoValidUrlFound`.
pub open spec fn spec_validate(
    cache: Map<CacheKeyView, GachaUrlView>,
    facet: AccountFacet,
    uid: Seq<u8>,
    candidates: Seq<GachaUrlView>,
    probes: Seq<ProbeOutcome>,
    now: int,
) -> ValidationModel
    decreases candidates.len(),
{
    if candidates.len() == 0 {
        ValidationModel { result: Err(Error::NoValidUrlFound), probes: 0, cache }
    } else {
        let c = candidates[0];
        let k = spec_key(facet, uid, c.addr);
        if cache.contains_key(k) && spec_is_fresh(cache[k].creation_time, now) {
            ValidationModel { result: Ok(cache[k]), probes: 0, cache }
        } else {
            let cache1 = if cache.contains_key(k) {
                cache.remove(k)
            } else {
                cache
            };
            if probes.len() == 0 {
                ValidationModel { result: Err(Error::NoValidUrlFound), probes: 0, cache: cache1 }
            } else {
                match probes[0] {
                    ProbeOutcome::Failed { error } => {
                        if error is RemoteApi {
                            ValidationModel {
                                result: Err(Error::NoValidUrlFound),
                                probes: 1,
                                cache: cache1,
                            }
                        } else {
                            ValidationModel { result: Err(error), probes: 1, cache: cache1 }
                        }
                    },
                    ProbeOutcome::Empty => {
                        let rest = spec_validate(
                            cache1,
                            facet,
                            uid,
                            candidates.drop_first(),
                            probes.drop_first(),
                            now,
                        );
                        ValidationModel {
                            result: rest.result,
                            probes: rest.probes + 1,
                            cache: rest.cache,
                        }
                    },
                    ProbeOutcome::Observed { uid: ouid } => {
                        let cache2 = cache1.insert(spec_key(facet, ouid@, c.addr), c);
                        if ouid@ == uid {
                            ValidationModel { result: Ok(c), probes: 1, cache: cache2 }
                        } else {
                            let rest = spec_validate(
                                cache2,
                                facet,
                                uid,
                                candidates.drop_first(),
                                probes.drop_first(),
                                now,
                            );
                            ValidationModel {
                                result: rest.result,
                                probes: rest.probes + 1,
                                cache: rest.cache,
                            }
                        }
                    },
                }
            }
        }
    }
}

/// One validation pass's visible outcome: the validated URL or the error,
/// and how many probes were spent getting there.
pub struct ValidationOutcome {
    pub result: Result<GachaUrl, Error>,
    pub probes_used: usize,
}

/// Replays one validation pass against a list of probe outcomes, reading
/// and updating the cache exactly as the pass asks. The caller supplies
/// one probe outcome per candidate; a pass that ends early leaves the
/// rest untouched.
pub fn validate_candidates(
    cache: &mut UrlCache,
    facet: AccountFacet,
    uid: &Vec<u8>,
    candidates: &Vec<GachaUrl>,
    probes: &Vec<ProbeOutcome>,
    now: i64,
) -> (out: ValidationOutcome)
    requires
        old(cache).wf(),
        probes@.len() >= candidates@.len(),
    ensures
        final(cache).wf(),
        ({
            let m = spec_validate(
                old(cache)@,
                facet,
                uid@,
                spec_views(candidates@),
                probes@,
                now as int,
            );
            &&& final(cache)@ == m.cache
            &&& out.probes_used == m.probes
            &&& match (out.result, m.result) {
                (Ok(u), Ok(v)) => u@ == v,
                (Err(a), Err(b)) => spec_error_matches(b, a),
                _ => false,
            }
        }),
{
    let ghost cviews = spec_views(candidates@);
    let ghost m_total = spec_validate(old(cache)@, facet, uid@, cviews, probes@, now as int);
    proof {
        assert(cviews.skip(0) =~= cviews);
        assert(probes@.skip(0) =~= probes@);
    }
    let mut i: usize = 0;
    loop
        invariant
            cache.wf(),
            i <= candidates@.len() <= probes@.len(),
            cviews == spec_views(candidates@),
            m_total == spec_validate(old(cache)@, facet, uid@, cviews, probes@, now as int),
            ({
                let m = spec_validate(
                    cache@,
                    facet,
                    uid@,
                    cviews.skip(i as int),
                    probes@.skip(i as int),
                    now as int,
                );
                m_total == ValidationModel {
                    result: m.result,
                    probes: i + m.probes,
                    cache: m.cache,
                }
            }),
        decreases candidates@.len() - i,
    {
        let ghost rem_c = cviews.skip(i as int);
        let ghost rem_p = probes@.skip(i as int);
        let ghost m_rem = spec_validate(cache@, facet, uid@, rem_c, rem_p, now as int);
        if i == candidates.len() {
            proof {
                assert(rem_c.len() == 0);
            }
            return ValidationOutcome { result: Err(Error::NoValidUrlFound), probes_used: i };
        }
        proof {
            assert(rem_c[0] == cviews[i as int]);
            assert(rem_p[0] == probes@[i as int]);
            assert(cviews[i as int] == candidates@[i as int]@);
            assert(rem_c.drop_first() =~= cviews.skip(i + 1));
            assert(rem_p.drop_first() =~= probes@.skip(i + 1));
        }
        let c = &candidates[i];
        match cache.lookup(facet, uid, c.addr, now) {
            Some(u) => {
                return ValidationOutcome { result: Ok(u), probes_used: i };
            },
            None => {},
        }
        let p = &probes[i];
        match p {
            ProbeOutcome::Failed { error } => {
                if matches!(error, Error::RemoteApi { .. }) {
                    return ValidationOutcome {
                        result: Err(Error::NoValidUrlFound),
                        probes_used: i + 1,
                    };
                } else {
                    let e = clone_error(error);
                    return ValidationOutcome { result: Err(e), probes_used: i + 1 };
                }
            },
            ProbeOutcome::Empty => {},
            ProbeOutcome::Observed { uid: ouid } => {
                let key = CacheKey { facet, uid: bytes_clone(ouid), addr: c.addr };
                let u = clone_url(c);
                cache.insert(key, u);
                if bytes_eq(ouid, uid) {
                    let c2 = clone_url(&candidates[i]);
                    return ValidationOutcome { result: Ok(c2), probes_used: i + 1 };
                }
            },
        }
        i += 1;
    }
}

/// A fresh cached entry for the first candidate's key ends a validation
/// pass at once: the cached URL comes back, no probe is spent, and the
/// cache stands as it was.
pub proof fn lemma_cache_hit_short_circuits(
    cache: Map<CacheKeyView, GachaUrlView>,
    facet: AccountFacet,
    uid: Seq<u8>,
    candidates: Seq<GachaUrlView>,
    probes: Seq<ProbeOutcome>,
    now: int,
)
    requires
        candidates.len() > 0,
        cache.contains_key(spec_key(facet, uid, candidates[0].addr)),
        spec_is_fresh(cache[spec_key(facet, uid, candidates[0].addr)].creation_time, now),
    ensures
        ({
            let m = spec_validate(cache, facet, uid, candidates, probes, now);
            &&& m.probes == 0
            &&& m.result == Ok::<GachaUrlView, Error>(
                cache[spec_key(facet, uid, candidates[0].addr)],
            )
            &&& m.cache == cache
        }),
{
}

/// A cache is consistent when every entry sits under the slot address of
/// the URL it holds. A fresh cache is, and validation passes keep it so.
pub open spec fn spec_cache_consistent(cache: Map<CacheKeyView, GachaUrlView>) -> bool {
    forall|k: CacheKeyView| cache.contains_key(k) ==> (#[trigger] cache[k]).addr == k.addr
}

/// A validation pass keeps the cache consistent.
pub proof fn lemma_validation_keeps_consistency(
    cache: Map<CacheKeyView, GachaUrlView>,
    facet: AccountFacet,
    uid: Seq<u8>,
    candidates: Seq<GachaUrlView>,
    probes: Seq<ProbeOutcome>,
    now: int,
)
    requires
        spec_cache_consistent(cache),
    ensures
        spec_cache_consistent(spec_validate(cache, facet, uid, candidates, probes, now).cache),
    decreases candidates.len(),
{
    if candidates.len() > 0 {
        let c = candidates[0];
        let k = spec_key(facet, uid, c.addr);
        if !(cache.contains_key(k) && spec_is_fresh(cache[k].creation_time, now)) {
            let cache1 = if cache.contains_key(k) {
                cache.remove(k)
            } else {
                cache
            };
            assert(spec_cache_consistent(cache1));
            if probes.len() > 0 {
                match probes[0] {
                    ProbeOutcome::Failed { error } => {},
                    ProbeOutcome::Empty => {
                        lemma_validation_keeps_consistency(
                            cache1,
                            facet,
                            uid,
                            candidates.drop_first(),
                            probes.drop_first(),
                            now,
                        );
                    },
                    ProbeOutcome::Observed { uid: ouid } => {
                        let cache2 = cache1.insert(spec_key(facet, ouid@, c.addr), c);
                        assert(spec_cache_consistent(cache2));
                        if ouid@ != uid {
                            lemma_validation_keeps_consistency(
                                cache2,
                                facet,
                                uid,
                                candidates.drop_first(),
                                probes.drop_first(),
                                now,
                            );
                        }
                    },
                }
            }
        }
    }
}

/// Two validation passes for the same account within the freshness
/// window: when the first pass ends with the leading candidate, the
/// second pass over the same candidates spends no probe at all; it
/// returns the cached URL at once and leaves the cache as it stands.
pub proof fn lemma_revalidation_hits_cache(
    cache: Map<CacheKeyView, GachaUrlView>,
    facet: AccountFacet,
    uid: Seq<u8>,
    candidates: Seq<GachaUrlView>,
    probes: Seq<ProbeOutcome>,
    probes2: Seq<ProbeOutcome>,
    now: int,
    now2: int,
)
    requires
        spec_cache_consistent(cache),
        candidates.len() > 0,
        spec_validate(cache, facet, uid, candidates, probes, now).result == Ok::<
            GachaUrlView,
            Error,
        >(candidates[0]),
        spec_is_fresh(candidates[0].creation_time, now2),
    ensures
        ({
            let m1 = spec_validate(cache, facet, uid, candidates, probes, now);
            let m2 = spec_validate(m1.cache, facet, uid, candidates, probes2, now2);
            &&& m2.probes == 0
            &&& m2.result == Ok::<GachaUrlView, Error>(candidates[0])
            &&& m2.cache == m1.cache
        }),
    decreases candidates.len(),
{
    let m1 = spec_validate(cache, facet, uid, candidates, probes, now);
    lemma_ok_of_consistent_pass_is_cached(cache, facet, uid, candidates, probes, now);
    let k = spec_key(facet, uid, candidates[0].addr);
    assert(m1.cache.contains_key(k) && m1.cache[k] == candidates[0]);
    lemma_cache_hit_short_circuits(m1.cache, facet, uid, candidates, probes2, now2);
}

/// Over a consistent cache, a pass that ends with a URL leaves that URL
/// cached under the expected account id and the URL's own slot address.
pub proof fn lemma_ok_of_consistent_pass_is_cached(
    cache: Map<CacheKeyView, GachaUrlView>,
    facet: AccountFacet,
    uid: Seq<u8>,
    candidates: Seq<GachaUrlView>,
    probes: Seq<ProbeOutcome>,
    now: int,
)
    requires
        spec_cache_consistent(cache),
        spec_validate(cache, facet, uid, candidates, probes, now).result is Ok,
    ensures
        ({
            let m = spec_validate(cache, facet, uid, candidates, probes, now);
            let u = m.result->Ok_0;
            m.cache.contains_key(spec_key(facet, uid, u.addr)) && m.cache[spec_key(
                facet,
                uid,
                u.addr,
            )] == u
        }),
    decreases candidates.len(),
{
    let c = candidates[0];
    let k = spec_key(facet, uid, c.addr);
    if cache.contains_key(k) && spec_is_fresh(cache[k].creation_time, now) {
        assert(cache[k].addr == k.addr);
    } else {
        let cache1 = if cache.contains_key(k) {
            cache.remove(k)
        } else {
            cache
        };
        assert(spec_cache_consistent(cache1));
        match probes[0] {
            ProbeOutcome::Failed { error } => {},
            ProbeOutcome::Empty => {
                lemma_ok_of_consistent_pass_is_cached(
                    cache1,
                    facet,
                    uid,
                    candidates.drop_first(),
                    probes.drop_first(),
                    now,
                );
            },
            ProbeOutcome::Observed { uid: ouid } => {
                let cache2 = cache1.insert(spec_key(facet, ouid@, c.addr), c);
                if ouid@ != uid {
                    assert(spec_cache_consistent(cache2));
                    lemma_ok_of_consistent_pass_is_cached(
                        cache2,
                        facet,
                        uid,
                        candidates.drop_first(),
                        probes.drop_first(),
                        now,
                    );
                }
            },
        }
    }
}

} // verus!
