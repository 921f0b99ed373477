use crate::addr::CacheAddress;
use crate::block::BlockFile;
use crate::bytesutil::{contains_sub, spec_contains_sub, spec_strip_prefix, strip_prefix_bytes};
use crate::entry::{
    spec_entry_resolvable, spec_is_long_key, spec_key_len, spec_long_key, spec_long_url_bytes_raw,
    spec_long_url_in_bounds_raw, EntryStore,
};
use crate::error::Error;
use crate::index::IndexFile;
use vstd::multiset::Multiset;
use vstd::prelude::*;

verus! {

broadcast use vstd::seq_lib::group_to_multiset_ensures;

/// 100 ns ticks per second in a FILETIME-style creation time.
pub const FILETIME_TICKS_PER_SECOND: u64 = 10_000_000;

/// Seconds between 1601-01-01 and 1970-01-01, the two time epochs.
pub const EPOCH_SHIFT_SECONDS: i64 = 11_644_473_600;

/// How long a recovered URL stays fresh, in seconds.
pub const FRESH_WINDOW_SECONDS: i64 = 86_400;

/// A FILETIME-style tick count as seconds since the Unix epoch.
pub open spec fn spec_filetime_to_unix(ticks: u64) -> int {
    ticks as int / (FILETIME_TICKS_PER_SECOND as int) - EPOCH_SHIFT_SECONDS
}

/// Converts a creation time in 100 ns ticks since 1601-01-01 UTC to
/// seconds since the Unix epoch.
pub fn filetime_to_unix(ticks: u64) -> (r: i64)
    ensures
        r as int == spec_filetime_to_unix(ticks),
{
    (ticks / FILETIME_TICKS_PER_SECOND) as i64 - EPOCH_SHIFT_SECONDS
}

/// A URL is fresh exactly when its creation time plus one day is still
/// ahead of `now` (both in seconds since the Unix epoch).
pub open spec fn spec_is_fresh(creation_time: int, now: int) -> bool {
    creation_time + FRESH_WINDOW_SECONDS > now
}

pub fn is_fresh(creation_time: i64, now: i64) -> (r: bool)
    ensures
        r == spec_is_fresh(creation_time as int, now as int),
{
    match creation_time.checked_add(FRESH_WINDOW_SECONDS) {
        Some(s) => s > now,
        None => true,
    }
}

/// The query marker every usable URL must carry.
pub open spec fn spec_gacha_type_marker() -> Seq<u8> {
    seq![38u8, 103u8, 97u8, 99u8, 104u8, 97u8, 95u8, 116u8, 121u8, 112u8, 101u8, 61u8]
}

pub fn gacha_type_marker() -> (r: Vec<u8>)
    ensures
        r@ == spec_gacha_type_marker(),
{
    let mut v: Vec<u8> = Vec::new();
    v.push(38u8);
    v.push(103u8);
    v.push(97u8);
    v.push(99u8);
    v.push(104u8);
    v.push(97u8);
    v.push(95u8);
    v.push(116u8);
    v.push(121u8);
    v.push(112u8);
    v.push(101u8);
    v.push(61u8);
    proof {
        assert(v@ =~= spec_gacha_type_marker());
    }
    v
}

/// The path prefix some cached URLs carry and lose on extraction.
pub open spec fn spec_url_path_prefix() -> Seq<u8> {
    seq![49u8, 47u8, 48u8, 47u8]
}

pub fn url_path_prefix() -> (r: Vec<u8>)
    ensures
        r@ == spec_url_path_prefix(),
{
    let mut v: Vec<u8> = Vec::new();
    v.push(49u8);
    v.push(47u8);
    v.push(48u8);
    v.push(47u8);
    proof {
        assert(v@ =~= spec_url_path_prefix());
    }
    v
}

/// A recovered authorization URL: the raw table address it came from (for
/// cache keying), its creation time in seconds since the Unix epoch, and
/// the URL bytes.
#[derive(Debug, Clone, PartialEq, Eq)]
pub struct GachaUrl {
    pub addr: u32,
    pub creation_time: i64,
    pub value: Vec<u8>,
}

pub ghost struct GachaUrlView {
    pub addr: u32,
    pub creation_time: int,
    pub value: Seq<u8>,
}

impl View for GachaUrl {
    type V = GachaUrlView;

    open spec fn view(&self) -> GachaUrlView {
        GachaUrlView {
            addr: self.addr,
            creation_time: self.creation_time as int,
            value: self.value@,
        }
    }
}

/// What one slot of the index table contributes: the URL it leads to, or
/// nothing. A slot is skipped when it is uninitialized, when it does not
/// resolve to a complete entry of the primary file, when the entry has no
/// out-of-line URL, when the long key's file number is not the secondary
/// file's own, when the long key runs past the secondary file, when the
/// URL lacks the endpoint or the gacha-type marker, or when it is stale
/// and stale entries were asked away.
pub open spec fn spec_slot_candidate(
    index: IndexFile,
    bf1: BlockFile,
    bf2: BlockFile,
    endpoint: Seq<u8>,
    now: int,
    skip_expired: bool,
    i: int,
) -> Option<GachaUrlView> {
    let a = index.table@[i];
    let long_key = spec_long_key(bf1, a);
    let key_len = spec_key_len(bf1, a);
    if !a.spec_is_initialized() {
        None
    } else if !spec_entry_resolvable(bf1, a) {
        None
    } else if !spec_is_long_key(long_key) {
        None
    } else if long_key.spec_file_number() != bf2.header.this_file {
        None
    } else if !spec_long_url_in_bounds_raw(long_key, key_len, bf2) {
        None
    } else {
        let url = spec_long_url_bytes_raw(long_key, key_len, bf2);
        let ct = spec_filetime_to_unix(crate::entry::spec_raw_creation_time(bf1, a));
        if !(spec_contains_sub(url, endpoint) && spec_contains_sub(url, spec_gacha_type_marker())) {
            None
        } else if skip_expired && !spec_is_fresh(ct, now) {
            None
        } else {
            Some(
                GachaUrlView {
                    addr: a.raw,
                    creation_time: ct,
                    value: spec_strip_prefix(url, spec_url_path_prefix()),
                },
            )
        }
    }
}

/// The URLs contributed by the first `n` slots, in table order.
pub open spec fn spec_candidates_prefix(
    index: IndexFile,
    bf1: BlockFile,
    bf2: BlockFile,
    endpoint: Seq<u8>,
    now: int,
    skip_expired: bool,
    n: int,
) -> Seq<GachaUrlView>
    decreases n,
{
    if n <= 0 {
        Seq::empty()
    } else {
        let rest = spec_candidates_prefix(index, bf1, bf2, endpoint, now, skip_expired, n - 1);
        match spec_slot_candidate(index, bf1, bf2, endpoint, now, skip_expired, n - 1) {
            Some(u) => rest.push(u),
            None => rest,
        }
    }
}

/// Every URL the whole index table contributes, in table order.
pub open spec fn spec_candidates(
    index: IndexFile,
    bf1: BlockFile,
    bf2: BlockFile,
    endpoint: Seq<u8>,
    now: int,
    skip_expired: bool,
) -> Seq<GachaUrlView> {
    spec_candidates_prefix(
        index,
        bf1,
        bf2,
        endpoint,
        now,
        skip_expired,
        index.table@.len() as int,
    )
}

/// Descending order by creation time: most recent first.
pub open spec fn spec_sorted_desc(s: Seq<GachaUrlView>) -> bool {
    forall|i: int, j: int|
        0 <= i < j < s.len() ==> s[i].creation_time >= s[j].creation_time
}

pub open spec fn spec_views(s: Seq<GachaUrl>) -> Seq<GachaUrlView> {
    s.map_values(|u: GachaUrl| u@)
}

/// A slot whose long-key file number disagrees with the secondary file's
/// declared number contributes nothing, whatever else it holds.
pub proof fn lemma_mismatched_file_number_excluded(
    index: IndexFile,
    bf1: BlockFile,
    bf2: BlockFile,
    endpoint: Seq<u8>,
    now: int,
    skip_expired: bool,
    i: int,
)
    requires
        spec_long_key(bf1, index.table@[i]).spec_file_number() != bf2.header.this_file,
    ensures
        spec_slot_candidate(index, bf1, bf2, endpoint, now, skip_expired, i) is None,
{
}

/// Picks the most recent remaining URL over and over: the result holds
/// the same URLs, most recent first.
fn sort_by_creation_desc(input: Vec<GachaUrl>) -> (out: Vec<GachaUrl>)
    ensures
        spec_views(out@).to_multiset() == spec_views(input@).to_multiset(),
        spec_sorted_desc(spec_views(out@)),
{
    let ghost orig = spec_views(input@);
    let mut rem = input;
    let mut out: Vec<GachaUrl> = Vec::new();
    while rem.len() > 0
        invariant
            spec_views(out@).to_multiset().add(spec_views(rem@).to_multiset())
                == orig.to_multiset(),
            spec_sorted_desc(spec_views(out@)),
            forall|p: int, q: int|
                0 <= p < out@.len() && 0 <= q < rem@.len() ==> spec_views(out@)[p].creation_time
                    >= spec_views(rem@)[q].creation_time,
        decreases rem.len(),
    {
        let mut m: usize = 0;
        let mut k: usize = 1;
        while k < rem.len()
            invariant
                k <= rem.len(),
                m < rem.len(),
                rem.len() > 0,
                forall|q: int|
                    0 <= q < k ==> rem@[m as int]@.creation_time >= rem@[q]@.creation_time,
            decreases rem.len() - k,
        {
            if rem[k].creation_time > rem[m].creation_time {
                m = k;
            }
            k += 1;
        }
        let ghost old_rem = rem@;
        let ghost old_out = out@;
        let x = rem.remove(m);
        out.push(x);
        proof {
            assert(spec_views(old_out.push(x)) =~= spec_views(old_out).push(x@));
            assert(spec_views(old_rem.remove(m as int)) =~= spec_views(old_rem).remove(m as int));
            assert(spec_views(old_rem)[m as int] == x@);
            assert(spec_views(rem@).to_multiset() =~= spec_views(old_rem).to_multiset().remove(
                x@,
            ));
            assert(spec_views(out@).to_multiset() =~= spec_views(old_out).to_multiset().insert(
                x@,
            ));
            assert(spec_views(out@).to_multiset().add(spec_views(rem@).to_multiset())
                =~= spec_views(old_out).to_multiset().add(spec_views(old_rem).to_multiset()));
            assert(forall|q: int|
                0 <= q < spec_views(rem@).len() ==> x@.creation_time >= spec_views(
                    rem@,
                )[q].creation_time);
        }
    }
    proof {
        assert(spec_views(rem@).to_multiset() =~= Multiset::empty());
        assert(spec_views(out@).to_multiset() =~= orig.to_multiset());
    }
    out
}

/// Walks the index table, resolves each slot through the primary and
/// secondary block files, and collects every usable authorization URL,
/// most recent first. An empty harvest is a `NoUsableUrl` error, never an
/// empty success: the caller is told that nothing in the cache can help.
pub fn extract_gacha_urls(
    index: &IndexFile,
    bf1: &BlockFile,
    bf2: &BlockFile,
    endpoint: &Vec<u8>,
    now: i64,
    skip_expired: bool,
) -> (r: Result<Vec<GachaUrl>, Error>)
    ensures
        ({
            let cands = spec_candidates(*index, *bf1, *bf2, endpoint@, now as int, skip_expired);
            match r {
                Ok(v) => {
                    &&& cands.len() > 0
                    &&& v@.len() == cands.len()
                    &&& spec_views(v@).to_multiset() == cands.to_multiset()
                    &&& spec_sorted_desc(spec_views(v@))
                },
                Err(e) => {
                    &&& e == Error::NoUsableUrl
                    &&& cands.len() == 0
                },
            }
        }),
{
    let marker = gacha_type_marker();
    let prefix = url_path_prefix();
    let n = index.table.len();
    let mut acc: Vec<GachaUrl> = Vec::new();
    let mut i: usize = 0;
    while i < n
        invariant
            n == index.table@.len(),
            i <= n,
            marker@ == spec_gacha_type_marker(),
            prefix@ == spec_url_path_prefix(),
            spec_views(acc@) == spec_candidates_prefix(
                *index,
                *bf1,
                *bf2,
                endpoint@,
                now as int,
                skip_expired,
                i as int,
            ),
        decreases n - i,
    {
        let ghost prev = spec_views(acc@);
        let a = index.table[i];
        let ghost cand = spec_slot_candidate(
            *index,
            *bf1,
            *bf2,
            endpoint@,
            now as int,
            skip_expired,
            i as int,
        );
        if a.is_initialized() {
            match EntryStore::from_block_file(bf1, a) {
                Err(_) => {
                    proof {
                        assert(cand is None);
                    }
                },
                Ok(e) => {
                    if e.is_long_url() && e.long_key.file_number() == bf2.header.this_file as u32 {
                        match e.read_long_url(bf2) {
                            Err(_) => {
                                proof {
                                    assert(cand is None);
                                }
                            },
                            Ok(url) => {
                                if contains_sub(&url, endpoint) && contains_sub(&url, &marker) {
                                    let ct = filetime_to_unix(e.creation_time);
                                    if !skip_expired || is_fresh(ct, now) {
                                        let value = strip_prefix_bytes(&url, &prefix);
                                        let u = GachaUrl { addr: a.raw, creation_time: ct, value };
                                        proof {
                                            assert(cand == Some(u@));
                                        }
                                        acc.push(u);
                                        proof {
                                            assert(spec_views(acc@) =~= prev.push(u@));
                                        }
                                    } else {
                                        proof {
                                            assert(cand is None);
                                        }
                                    }
                                } else {
                                    proof {
                                        assert(cand is None);
                                    }
                                }
                            },
                        }
                    } else {
                        proof {
                            assert(cand is None);
                        }
                    }
                },
            }
        } else {
            proof {
                assert(cand is None);
            }
        }
        i += 1;
        proof {
            assert(spec_candidates_prefix(
                *index,
                *bf1,
                *bf2,
                endpoint@,
                now as int,
                skip_expired,
                i as int,
            ) == if cand is Some {
                prev.push(cand->0)
            } else {
                prev
            });
        }
    }
    if acc.len() == 0 {
        proof {
            assert(spec_candidates(
                *index,
                *bf1,
                *bf2,
                endpoint@,
                now as int,
                skip_expired,
            ).len() == 0);
        }
        return Err(Error::NoUsableUrl);
    }
    let out = sort_by_creation_desc(acc);
    proof {
        let cands = spec_candidates(*index, *bf1, *bf2, endpoint@, now as int, skip_expired);
        assert(cands.to_multiset().len() == cands.len());
        assert(spec_views(out@).to_multiset().len() > 0);
    }
    Ok(out)
}

} // verus!
