use crate::bytesutil::{bytes_clone, bytes_eq};
use crate::records::{GachaRecord, GachaRecordView};
use vstd::prelude::*;

verus! {

/// How many records one page asks for and at most carries.
pub const PAGE_SIZE: usize = 20;

/// Lexicographic byte order.
pub open spec fn spec_lex_lt(a: Seq<u8>, b: Seq<u8>) -> bool
    decreases a.len(),
{
    if b.len() == 0 {
        false
    } else if a.len() == 0 {
        true
    } else if a[0] < b[0] {
        true
    } else if a[0] > b[0] {
        false
    } else {
        spec_lex_lt(a.drop_first(), b.drop_first())
    }
}

/// Record-id order: ids are decimal strings without leading zeros, so a
/// longer id is the greater, and ids of one length compare byte by byte.
pub open spec fn spec_id_lt(a: Seq<u8>, b: Seq<u8>) -> bool {
    a.len() < b.len() || (a.len() == b.len() && spec_lex_lt(a, b))
}

pub fn id_lt(a: &Vec<u8>, b: &Vec<u8>) -> (r: bool)
    ensures
        r == spec_id_lt(a@, b@),
{
    if a.len() != b.len() {
        return a.len() < b.len();
    }
    let n = a.len();
    proof {
        assert(a@.skip(0) =~= a@);
        assert(b@.skip(0) =~= b@);
    }
    let mut k: usize = 0;
    while k < n
        invariant
            n == a@.len() == b@.len(),
            k <= n,
            spec_lex_lt(a@, b@) == spec_lex_lt(a@.skip(k as int), b@.skip(k as int)),
        decreases n - k,
    {
        proof {
            assert(a@.skip(k as int)[0] == a@[k as int]);
            assert(b@.skip(k as int)[0] == b@[k as int]);
            assert(a@.skip(k as int).drop_first() =~= a@.skip(k + 1));
            assert(b@.skip(k as int).drop_first() =~= b@.skip(k + 1));
        }
        if a[k] < b[k] {
            return true;
        }
        if a[k] > b[k] {
            return false;
        }
        k += 1;
    }
    proof {
        assert(a@.skip(n as int).len() == 0);
    }
    false
}

/// A copy of one record.
pub fn clone_record(r: &GachaRecord) -> (out: GachaRecord)
    ensures
        out@ == r@,
{
    GachaRecord {
        id: bytes_clone(&r.id),
        uid: bytes_clone(&r.uid),
        gacha_type: bytes_clone(&r.gacha_type),
        time: bytes_clone(&r.time),
        lang: bytes_clone(&r.lang),
        name: bytes_clone(&r.name),
        item_type: bytes_clone(&r.item_type),
        rank_type: bytes_clone(&r.rank_type),
        item_id: bytes_clone(&r.item_id),
    }
}

pub open spec fn spec_record_views(s: Seq<GachaRecord>) -> Seq<GachaRecordView> {
    s.map_values(|r: GachaRecord| r@)
}

pub open spec fn spec_id_views(s: Seq<Vec<u8>>) -> Seq<Seq<u8>> {
    s.map_values(|v: Vec<u8>| v@)
}

/// How many stored ids are newer (greater) than the threshold.
pub open spec fn spec_count_newer(ids: Seq<Seq<u8>>, t: Seq<u8>) -> int
    decreases ids.len(),
{
    if ids.len() == 0 {
        0
    } else {
        spec_count_newer(ids.drop_last(), t) + if spec_id_lt(t, ids.last()) {
            1int
        } else {
            0int
        }
    }
}

pub fn count_newer(ids: &Vec<Vec<u8>>, t: &Vec<u8>) -> (r: usize)
    ensures
        r == spec_count_newer(spec_id_views(ids@), t@),
        r <= ids@.len(),
{
    let ghost views = spec_id_views(ids@);
    let mut count: usize = 0;
    let mut i: usize = 0;
    while i < ids.len()
        invariant
            i <= ids.len(),
            views == spec_id_views(ids@),
            count == spec_count_newer(views.take(i as int), t@),
            count <= i,
        decreases ids.len() - i,
    {
        proof {
            assert(views.take(i + 1).drop_last() =~= views.take(i as int));
            assert(views.take(i + 1).last() == views[i as int]);
            assert(views[i as int] == ids@[i as int]@);
        }
        if id_lt(t, &ids[i]) {
            count += 1;
        }
        i += 1;
    }
    proof {
        assert(views.take(ids@.len() as int) =~= views);
    }
    count
}

/// One partition's repair plan under a full resync: everything stored
/// that is newer than the oldest freshly fetched id is deleted before the
/// fresh batch goes in, and the net change is what goes in minus what
/// went out.
pub struct ReconcilePlan {
    /// The oldest id of the fresh batch; pagination runs newest first, so
    /// it is the batch's last record's id.
    pub oldest_id: Vec<u8>,
    /// How many stored ids the plan deletes: those newer than `oldest_id`.
    pub deleted: usize,
    /// How many fresh records the plan inserts: the whole batch.
    pub inserted: usize,
    /// Inserted minus deleted.
    pub net: i64,
}

/// Plans the reconciliation of one partition: given the ids already
/// stored there and the freshly fetched batch, newest first. An empty
/// batch needs no repair and gets no plan.
pub fn plan_reconciliation(stored_ids: &Vec<Vec<u8>>, fetched: &Vec<GachaRecord>) -> (r: Option<
    ReconcilePlan,
>)
    requires
        stored_ids@.len() <= 0x7fff_ffff_ffff_ffff,
        fetched@.len() <= 0x7fff_ffff_ffff_ffff,
    ensures
        match r {
            Some(p) => {
                &&& fetched@.len() > 0
                &&& p.oldest_id@ == fetched@.last().id@
                &&& p.deleted == spec_count_newer(spec_id_views(stored_ids@), p.oldest_id@)
                &&& p.inserted == fetched@.len()
                &&& p.net == p.inserted - p.deleted
            },
            None => fetched@.len() == 0,
        },
{
    if fetched.len() == 0 {
        return None;
    }
    let oldest_id = bytes_clone(&fetched[fetched.len() - 1].id);
    let deleted = count_newer(stored_ids, &oldest_id);
    let inserted = fetched.len();
    let net: i64 = inserted as i64 - deleted as i64;
    Some(ReconcilePlan { oldest_id, deleted, inserted, net })
}

/// Records of one category, in order.
pub open spec fn spec_filter_by_type(s: Seq<GachaRecordView>, k: Seq<u8>) -> Seq<GachaRecordView>
    decreases s.len(),
{
    if s.len() == 0 {
        Seq::empty()
    } else {
        let rest = spec_filter_by_type(s.drop_last(), k);
        if s.last().gacha_type == k {
            rest.push(s.last())
        } else {
            rest
        }
    }
}

/// The distinct categories of a batch, in order of first appearance.
pub open spec fn spec_type_keys(s: Seq<GachaRecordView>) -> Seq<Seq<u8>>
    decreases s.len(),
{
    if s.len() == 0 {
        Seq::empty()
    } else {
        let rest = spec_type_keys(s.drop_last());
        if rest.contains(s.last().gacha_type) {
            rest
        } else {
            rest.push(s.last().gacha_type)
        }
    }
}

fn contains_key_bytes(keys: &Vec<Vec<u8>>, k: &Vec<u8>) -> (r: bool)
    ensures
        r == spec_id_views(keys@).contains(k@),
{
    let mut i: usize = 0;
    while i < keys.len()
        invariant
            i <= keys.len(),
            forall|j: int| 0 <= j < i ==> spec_id_views(keys@)[j] != k@,
        decreases keys.len() - i,
    {
        proof {
            assert(spec_id_views(keys@)[i as int] == keys@[i as int]@);
        }
        if bytes_eq(&keys[i], k) {
            proof {
                assert(spec_id_views(keys@)[i as int] == k@);
            }
            return true;
        }
        i += 1;
    }
    proof {
        assert(forall|j: int| 0 <= j < spec_id_views(keys@).len() ==> spec_id_views(keys@)[j] != k@);
    }
    false
}

fn collect_type_keys(records: &Vec<GachaRecord>) -> (r: Vec<Vec<u8>>)
    ensures
        spec_id_views(r@) == spec_type_keys(spec_record_views(records@)),
{
    let ghost views = spec_record_views(records@);
    let mut acc: Vec<Vec<u8>> = Vec::new();
    let mut i: usize = 0;
    while i < records.len()
        invariant
            i <= records.len(),
            views == spec_record_views(records@),
            spec_id_views(acc@) == spec_type_keys(views.take(i as int)),
        decreases records.len() - i,
    {
        let ghost prev = spec_id_views(acc@);
        proof {
            assert(views.take(i + 1).drop_last() =~= views.take(i as int));
            assert(views.take(i + 1).last() == views[i as int]);
            assert(views[i as int] == records@[i as int]@);
        }
        if !contains_key_bytes(&acc, &records[i].gacha_type) {
            let k = bytes_clone(&records[i].gacha_type);
            acc.push(k);
            proof {
                assert(spec_id_views(acc@) =~= prev.push(views[i as int].gacha_type));
            }
        }
        i += 1;
    }
    proof {
        assert(views.take(records@.len() as int) =~= views);
    }
    acc
}

fn filter_by_type(records: &Vec<GachaRecord>, k: &Vec<u8>) -> (r: Vec<GachaRecord>)
    ensures
        spec_record_views(r@) == spec_filter_by_type(spec_record_views(records@), k@),
{
    let ghost views = spec_record_views(records@);
    let mut acc: Vec<GachaRecord> = Vec::new();
    let mut i: usize = 0;
    while i < records.len()
        invariant
            i <= records.len(),
            views == spec_record_views(records@),
            spec_record_views(acc@) == spec_filter_by_type(views.take(i as int), k@),
        decreases records.len() - i,
    {
        let ghost prev = spec_record_views(acc@);
        proof {
            assert(views.take(i + 1).drop_last() =~= views.take(i as int));
            assert(views.take(i + 1).last() == views[i as int]);
            assert(views[i as int] == records@[i as int]@);
        }
        if bytes_eq(&records[i].gacha_type, k) {
            let rec = clone_record(&records[i]);
            acc.push(rec);
            proof {
                assert(spec_record_views(acc@) =~= prev.push(views[i as int]));
            }
        }
        i += 1;
    }
    proof {
        assert(views.take(records@.len() as int) =~= views);
    }
    acc
}

/// Splits a batch into its record-type partitions: one group per distinct
/// category, in order of first appearance, each holding its records in
/// batch order.
pub fn group_by_gacha_type(records: &Vec<GachaRecord>) -> (r: Vec<(Vec<u8>, Vec<GachaRecord>)>)
    ensures
        ({
            let views = spec_record_views(records@);
            let ks = spec_type_keys(views);
            &&& r@.len() == ks.len()
            &&& forall|i: int|
                0 <= i < r@.len() ==> (#[trigger] r@[i]).0@ == ks[i] && spec_record_views(r@[i].1@)
                    == spec_filter_by_type(views, ks[i])
        }),
{
    let keys = collect_type_keys(records);
    let mut groups: Vec<(Vec<u8>, Vec<GachaRecord>)> = Vec::new();
    let mut i: usize = 0;
    while i < keys.len()
        invariant
            i <= keys.len(),
            spec_id_views(keys@) == spec_type_keys(spec_record_views(records@)),
            groups@.len() == i,
            forall|j: int|
                0 <= j < i ==> (#[trigger] groups@[j]).0@ == spec_id_views(keys@)[j]
                    && spec_record_views(groups@[j].1@) == spec_filter_by_type(
                    spec_record_views(records@),
                    spec_id_views(keys@)[j],
                ),
        decreases keys.len() - i,
    {
        proof {
            assert(spec_id_views(keys@)[i as int] == keys@[i as int]@);
        }
        let k = bytes_clone(&keys[i]);
        let g = filter_by_type(records, &k);
        groups.push((k, g));
        i += 1;
    }
    groups
}

/// Records of a page kept by the bounded mode: those newer than the
/// caller's last-known id; every one, when no bound is set.
pub open spec fn spec_keep_newer(s: Seq<GachaRecordView>, stop: Option<Vec<u8>>) -> Seq<
    GachaRecordView,
>
    decreases s.len(),
{
    if s.len() == 0 {
        Seq::empty()
    } else {
        let rest = spec_keep_newer(s.drop_last(), stop);
        let keep = match stop {
            Some(t) => spec_id_lt(t@, s.last().id),
            None => true,
        };
        if keep {
            rest.push(s.last())
        } else {
            rest
        }
    }
}

/// One record-type partition's fetch, driven page by page: the category,
/// the bound a bounded fetch stops at, the continuation cursor for the
/// next page, what was collected, and whether the partition is exhausted.
/// Pages are applied strictly in cursor order; nothing here reorders
/// them.
pub struct PartitionFetch {
    pub gacha_type: Vec<u8>,
    pub stop_id: Option<Vec<u8>>,
    pub cursor: Option<Vec<u8>>,
    pub records: Vec<GachaRecord>,
    pub done: bool,
}

impl PartitionFetch {
    /// A partition about to fetch its first page.
    pub fn new(gacha_type: Vec<u8>, stop_id: Option<Vec<u8>>) -> (r: PartitionFetch)
        ensures
            r.gacha_type@ == gacha_type@,
            r.stop_id == stop_id,
            r.cursor is None,
            r.records@.len() == 0,
            !r.done,
    {
        PartitionFetch { gacha_type, stop_id, cursor: None, records: Vec::new(), done: false }
    }

    /// Forgets the bound: a full resync walks the whole partition.
    pub fn clear_stop(&mut self)
        ensures
            final(self).stop_id is None,
            final(self).gacha_type == old(self).gacha_type,
            final(self).cursor == old(self).cursor,
            final(self).records == old(self).records,
            final(self).done == old(self).done,
    {
        self.stop_id = None;
    }

    /// The cursor the next page request carries, or nothing when the
    /// partition is exhausted.
    pub fn next_request(&self) -> (r: Option<Option<Vec<u8>>>)
        ensures
            match r {
                Some(c) => !self.done && (match (c, self.cursor) {
                    (Some(a), Some(b)) => a@ == b@,
                    (None, None) => true,
                    _ => false,
                }),
                None => self.done,
            },
    {
        if self.done {
            None
        } else {
            match &self.cursor {
                Some(c) => Some(Some(bytes_clone(c))),
                None => Some(None),
            }
        }
    }

    /// Takes one fetched page, newest first: keeps what the bound allows,
    /// moves the cursor to the page's last id, and declares the partition
    /// exhausted on a short page, an empty page, or the bound being
    /// reached.
    pub fn apply_page(&mut self, page: &Vec<GachaRecord>)
        requires
            !old(self).done,
        ensures
            final(self).gacha_type == old(self).gacha_type,
            final(self).stop_id == old(self).stop_id,
            spec_record_views(final(self).records@) == spec_record_views(old(self).records@)
                + spec_keep_newer(spec_record_views(page@), old(self).stop_id),
            final(self).done == (page@.len() < PAGE_SIZE || spec_keep_newer(
                spec_record_views(page@),
                old(self).stop_id,
            ).len() < page@.len()),
            page@.len() > 0 ==> (final(self).cursor matches Some(c) && c@ == page@.last().id@),
            page@.len() == 0 ==> final(self).cursor == old(self).cursor,
    {
        let ghost views = spec_record_views(page@);
        let ghost stop0 = self.stop_id;
        let mut kept: usize = 0;
        let mut i: usize = 0;
        let ghost recs0 = spec_record_views(self.records@);
        while i < page.len()
            invariant
                i <= page.len(),
                views == spec_record_views(page@),
                self.stop_id == stop0,
                self.gacha_type == old(self).gacha_type,
                self.cursor == old(self).cursor,
                self.done == old(self).done,
                recs0 == spec_record_views(old(self).records@),
                kept == spec_keep_newer(views.take(i as int), stop0).len(),
                kept <= i,
                spec_record_views(self.records@) == recs0 + spec_keep_newer(
                    views.take(i as int),
                    stop0,
                ),
            decreases page.len() - i,
        {
            let ghost prev = spec_record_views(self.records@);
            proof {
                assert(views.take(i + 1).drop_last() =~= views.take(i as int));
                assert(views.take(i + 1).last() == views[i as int]);
                assert(views[i as int] == page@[i as int]@);
            }
            let keep = match &self.stop_id {
                Some(t) => id_lt(t, &page[i].id),
                None => true,
            };
            if keep {
                let rec = clone_record(&page[i]);
                self.records.push(rec);
                kept += 1;
                proof {
                    assert(spec_record_views(self.records@) =~= prev.push(views[i as int]));
                    assert(recs0 + spec_keep_newer(views.take(i + 1), stop0) =~= prev.push(
                        views[i as int],
                    ));
                }
            } else {
                proof {
                    assert(recs0 + spec_keep_newer(views.take(i + 1), stop0) =~= prev);
                }
            }
            i += 1;
        }
        proof {
            assert(views.take(page@.len() as int) =~= views);
        }
        if page.len() > 0 {
            let c = bytes_clone(&page[page.len() - 1].id);
            self.cursor = Some(c);
        }
        self.done = page.len() < PAGE_SIZE || kept < page.len();
    }
}

} // verus!
