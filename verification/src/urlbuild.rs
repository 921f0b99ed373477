use crate::bytesutil::{bytes_clone, bytes_eq, copy_range, spec_find_first, find_first_sub};
use crate::error::Error;
use crate::records::AccountFacet;
use vstd::prelude::*;

verus! {

/// The views of a sequence of byte-string pairs.
pub open spec fn spec_pair_views(ps: Seq<(Vec<u8>, Vec<u8>)>) -> Seq<(Seq<u8>, Seq<u8>)> {
    ps.map_values(|p: (Vec<u8>, Vec<u8>)| (p.0@, p.1@))
}

/// The key/value pairs a URL query string holds, percent-decoded, in
/// order; a pure function of the bytes.
pub uninterp spec fn spec_parsed_query(bytes: Seq<u8>) -> Seq<(Seq<u8>, Seq<u8>)>;

/// Relies on `form_urlencoded::parse`: splits the input on `&` into
/// `key=value` pairs and percent-decodes both halves, in input order, a
/// function of the bytes alone.
#[verifier::external_body]
pub(crate) fn parse_query(input: &Vec<u8>) -> (r: Vec<(Vec<u8>, Vec<u8>)>)
    ensures
        spec_pair_views(r@) == spec_parsed_query(input@),
{
    form_urlencoded::parse(input.as_slice())
        .into_owned()
        .map(|(k, v): (String, String)| (k.into_bytes(), v.into_bytes()))
        .collect()
}

/// The serialized absolute URL built from a base and appended query
/// pairs; nothing when the base is no absolute URL or some byte string is
/// no UTF-8. A pure function of its arguments.
pub uninterp spec fn spec_url_with_params(base: Seq<u8>, params: Seq<(Seq<u8>, Seq<u8>)>) -> Option<
    Seq<u8>,
>;

/// Relies on `url::Url::parse_with_params` and `url::Url::as_str`: parses
/// the base as an absolute URL, percent-encodes and appends every pair to
/// its query, and serializes the result, a function of the arguments
/// alone.
#[verifier::external_body]
pub(crate) fn url_with_params(base: &Vec<u8>, params: &Vec<(Vec<u8>, Vec<u8>)>) -> (r: Option<Vec<u8>>)
    ensures
        match r {
            Some(v) => spec_url_with_params(base@, spec_pair_views(params@)) == Some(v@),
            None => spec_url_with_params(base@, spec_pair_views(params@)) is None,
        },
{
    let base = match std::str::from_utf8(base.as_slice()) {
        Ok(s) => s,
        Err(_) => return None,
    };
    let mut pairs: Vec<(&str, &str)> = Vec::new();
    for (k, v) in params.iter() {
        match (std::str::from_utf8(k), std::str::from_utf8(v)) {
            (Ok(k), Ok(v)) => pairs.push((k, v)),
            _ => return None,
        }
    }
    match url::Url::parse_with_params(base, pairs) {
        Ok(u) => Some(u.as_str().as_bytes().to_vec()),
        Err(_) => None,
    }
}

/// The position of the first pair whose key is `k`, from `from` on; `-1`
/// when no pair has it.
pub open spec fn spec_index_of_key(ps: Seq<(Seq<u8>, Seq<u8>)>, k: Seq<u8>, from: int) -> int
    decreases ps.len() + 1 - from,
{
    if from < 0 || from >= ps.len() {
        -1
    } else if ps[from].0 == k {
        from
    } else {
        spec_index_of_key(ps, k, from + 1)
    }
}

/// The first pair holding key `k`, if any.
pub fn assoc_find(ps: &Vec<(Vec<u8>, Vec<u8>)>, k: &Vec<u8>) -> (r: Option<usize>)
    ensures
        match r {
            Some(i) => i < ps@.len() && spec_index_of_key(spec_pair_views(ps@), k@, 0) == i,
            None => spec_index_of_key(spec_pair_views(ps@), k@, 0) == -1,
        },
{
    let ghost views = spec_pair_views(ps@);
    let mut j: usize = 0;
    while j < ps.len()
        invariant
            j <= ps.len(),
            views == spec_pair_views(ps@),
            spec_index_of_key(views, k@, 0) == spec_index_of_key(views, k@, j as int),
        decreases ps.len() - j,
    {
        proof {
            assert(views[j as int] == (ps@[j as int].0@, ps@[j as int].1@));
        }
        if bytes_eq(&ps[j].0, k) {
            return Some(j);
        }
        j += 1;
    }
    None
}

/// Pairs with duplicate keys folded away: the first occurrence keeps its
/// place, the last occurrence's value wins.
pub open spec fn spec_dedup_prefix(ps: Seq<(Seq<u8>, Seq<u8>)>, n: int) -> Seq<(Seq<u8>, Seq<u8>)>
    decreases n,
{
    if n <= 0 {
        Seq::empty()
    } else {
        let acc = spec_dedup_prefix(ps, n - 1);
        let p = ps[n - 1];
        let j = spec_index_of_key(acc, p.0, 0);
        if j >= 0 {
            acc.update(j, p)
        } else {
            acc.push(p)
        }
    }
}

pub open spec fn spec_dedup(ps: Seq<(Seq<u8>, Seq<u8>)>) -> Seq<(Seq<u8>, Seq<u8>)> {
    spec_dedup_prefix(ps, ps.len() as int)
}

pub fn dedup_pairs(ps: &Vec<(Vec<u8>, Vec<u8>)>) -> (r: Vec<(Vec<u8>, Vec<u8>)>)
    ensures
        spec_pair_views(r@) == spec_dedup(spec_pair_views(ps@)),
{
    let ghost views = spec_pair_views(ps@);
    let mut acc: Vec<(Vec<u8>, Vec<u8>)> = Vec::new();
    let mut i: usize = 0;
    while i < ps.len()
        invariant
            i <= ps.len(),
            views == spec_pair_views(ps@),
            spec_pair_views(acc@) == spec_dedup_prefix(views, i as int),
        decreases ps.len() - i,
    {
        let ghost prev = spec_pair_views(acc@);
        proof {
            assert(views[i as int] == (ps@[i as int].0@, ps@[i as int].1@));
        }
        let key = bytes_clone(&ps[i].0);
        let val = bytes_clone(&ps[i].1);
        match assoc_find(&acc, &key) {
            Some(j) => {
                acc.remove(j);
                acc.insert(j, (key, val));
                proof {
                    assert(spec_pair_views(acc@) =~= prev.update(j as int, views[i as int]));
                }
            },
            None => {
                acc.push((key, val));
                proof {
                    assert(spec_pair_views(acc@) =~= prev.push(views[i as int]));
                }
            },
        }
        i += 1;
    }
    acc
}

/// The bytes of `"page"`.
pub open spec fn spec_page_key() -> Seq<u8> {
    seq![112u8, 97u8, 103u8, 101u8]
}

pub fn page_key() -> (r: Vec<u8>)
    ensures
        r@ == spec_page_key(),
{
    let mut v: Vec<u8> = Vec::new();
    v.push(112u8);
    v.push(97u8);
    v.push(103u8);
    v.push(101u8);
    proof {
        assert(v@ =~= spec_page_key());
    }
    v
}

/// The bytes of `"size"`.
pub open spec fn spec_size_key() -> Seq<u8> {
    seq![115u8, 105u8, 122u8, 101u8]
}

pub fn size_key() -> (r: Vec<u8>)
    ensures
        r@ == spec_size_key(),
{
    let mut v: Vec<u8> = Vec::new();
    v.push(115u8);
    v.push(105u8);
    v.push(122u8);
    v.push(101u8);
    proof {
        assert(v@ =~= spec_size_key());
    }
    v
}

/// The bytes of `"begin_id"`.
pub open spec fn spec_begin_id_key() -> Seq<u8> {
    seq![98u8, 101u8, 103u8, 105u8, 110u8, 95u8, 105u8, 100u8]
}

pub fn begin_id_key() -> (r: Vec<u8>)
    ensures
        r@ == spec_begin_id_key(),
{
    let mut v: Vec<u8> = Vec::new();
    v.push(98u8);
    v.push(101u8);
    v.push(103u8);
    v.push(105u8);
    v.push(110u8);
    v.push(95u8);
    v.push(105u8);
    v.push(100u8);
    proof {
        assert(v@ =~= spec_begin_id_key());
    }
    v
}

/// The bytes of `"end_id"`.
pub open spec fn spec_end_id_key() -> Seq<u8> {
    seq![101u8, 110u8, 100u8, 95u8, 105u8, 100u8]
}

pub fn end_id_key() -> (r: Vec<u8>)
    ensures
        r@ == spec_end_id_key(),
{
    let mut v: Vec<u8> = Vec::new();
    v.push(101u8);
    v.push(110u8);
    v.push(100u8);
    v.push(95u8);
    v.push(105u8);
    v.push(100u8);
    proof {
        assert(v@ =~= spec_end_id_key());
    }
    v
}

/// The bytes of `"1"`, the page number a probe or first page asks for.
pub open spec fn spec_page_one() -> Seq<u8> {
    seq![49u8]
}

pub fn page_one() -> (r: Vec<u8>)
    ensures
        r@ == spec_page_one(),
{
    let mut v: Vec<u8> = Vec::new();
    v.push(49u8);
    proof {
        assert(v@ =~= spec_page_one());
    }
    v
}

/// The bytes of `"20"`, the fixed page size.
pub open spec fn spec_page_size_value() -> Seq<u8> {
    seq![50u8, 48u8]
}

pub fn page_size_value() -> (r: Vec<u8>)
    ensures
        r@ == spec_page_size_value(),
{
    let mut v: Vec<u8> = Vec::new();
    v.push(50u8);
    v.push(48u8);
    proof {
        assert(v@ =~= spec_page_size_value());
    }
    v
}

/// The query keys a page request sets itself and first clears away.
pub open spec fn spec_is_reserved_key(k: Seq<u8>, field: Seq<u8>) -> bool {
    k == field || k == spec_page_key() || k == spec_size_key() || k == spec_begin_id_key() || k
        == spec_end_id_key()
}

/// The pairs with every reserved key dropped.
pub open spec fn spec_strip_reserved(ps: Seq<(Seq<u8>, Seq<u8>)>, field: Seq<u8>) -> Seq<
    (Seq<u8>, Seq<u8>),
>
    decreases ps.len(),
{
    if ps.len() == 0 {
        Seq::empty()
    } else {
        let rest = spec_strip_reserved(ps.drop_last(), field);
        if spec_is_reserved_key(ps.last().0, field) {
            rest
        } else {
            rest.push(ps.last())
        }
    }
}

fn strip_reserved(ps: &Vec<(Vec<u8>, Vec<u8>)>, field: &Vec<u8>) -> (r: Vec<(Vec<u8>, Vec<u8>)>)
    ensures
        spec_pair_views(r@) == spec_strip_reserved(spec_pair_views(ps@), field@),
{
    let ghost views = spec_pair_views(ps@);
    let page = page_key();
    let size = size_key();
    let begin_id = begin_id_key();
    let end_id = end_id_key();
    let mut acc: Vec<(Vec<u8>, Vec<u8>)> = Vec::new();
    let mut i: usize = 0;
    while i < ps.len()
        invariant
            i <= ps.len(),
            views == spec_pair_views(ps@),
            page@ == spec_page_key(),
            size@ == spec_size_key(),
            begin_id@ == spec_begin_id_key(),
            end_id@ == spec_end_id_key(),
            spec_pair_views(acc@) == spec_strip_reserved(views.take(i as int), field@),
        decreases ps.len() - i,
    {
        let ghost prev = spec_pair_views(acc@);
        proof {
            assert(views[i as int] == (ps@[i as int].0@, ps@[i as int].1@));
            assert(views.take(i + 1).drop_last() =~= views.take(i as int));
            assert(views.take(i + 1).last() == views[i as int]);
        }
        let k = &ps[i].0;
        let reserved = bytes_eq(k, field) || bytes_eq(k, &page) || bytes_eq(k, &size) || bytes_eq(
            k,
            &begin_id,
        ) || bytes_eq(k, &end_id);
        if !reserved {
            let key = bytes_clone(&ps[i].0);
            let val = bytes_clone(&ps[i].1);
            acc.push((key, val));
            proof {
                assert(spec_pair_views(acc@) =~= prev.push(views[i as int]));
            }
        }
        i += 1;
    }
    proof {
        assert(views.take(ps@.len() as int) =~= views);
    }
    acc
}

pub open spec fn spec_opt_view(o: Option<&Vec<u8>>) -> Option<Seq<u8>> {
    match o {
        Some(v) => Some(v@),
        None => None,
    }
}

/// The page-request URL a recovered authorization URL gives rise to:
/// everything up to and including the endpoint is the base; the query
/// behind it is parsed, folded to unique keys, must carry the facet's
/// gacha-type field (else nothing), loses the reserved keys, and gets
/// page `1`, size `20`, the chosen gacha type and the chosen continuation
/// cursor appended. The caller's gacha type and cursor win over the ones
/// found in the query.
pub open spec fn spec_page_request_url(
    gacha_url: Seq<u8>,
    endpoint: Seq<u8>,
    facet: AccountFacet,
    gacha_type: Option<Seq<u8>>,
    end_id: Option<Seq<u8>>,
) -> Option<Seq<u8>> {
    let e = spec_find_first(gacha_url, endpoint, 0);
    if e < 0 {
        None
    } else {
        let split = e + endpoint.len();
        let base = gacha_url.take(split as int);
        let query = gacha_url.skip(split as int);
        let pairs = spec_dedup(spec_parsed_query(query));
        let field = facet.spec_gacha_type_field();
        let tidx = spec_index_of_key(pairs, field, 0);
        if tidx < 0 {
            None
        } else {
            let origin_type = pairs[tidx].1;
            let eidx = spec_index_of_key(pairs, spec_end_id_key(), 0);
            let origin_end: Option<Seq<u8>> = if eidx >= 0 {
                Some(pairs[eidx].1)
            } else {
                None
            };
            let cleaned = spec_strip_reserved(pairs, field);
            let chosen_type = match gacha_type {
                Some(t) => t,
                None => origin_type,
            };
            let chosen_end = match end_id {
                Some(t) => Some(t),
                None => origin_end,
            };
            let with_fixed = cleaned.push((spec_page_key(), spec_page_one())).push(
                (spec_size_key(), spec_page_size_value()),
            ).push((field, chosen_type));
            let final_pairs = match chosen_end {
                Some(t) => with_fixed.push((spec_end_id_key(), t)),
                None => with_fixed,
            };
            spec_url_with_params(base, final_pairs)
        }
    }
}

/// Builds the URL that asks for one page of records. A URL without the
/// endpoint or without the facet's gacha-type query field, or one the URL
/// parser rejects, is an `IllegalUrl` error.
pub fn build_page_request_url(
    gacha_url: &Vec<u8>,
    endpoint: &Vec<u8>,
    facet: AccountFacet,
    gacha_type: Option<&Vec<u8>>,
    end_id: Option<&Vec<u8>>,
) -> (r: Result<Vec<u8>, Error>)
    ensures
        ({
            let spec = spec_page_request_url(
                gacha_url@,
                endpoint@,
                facet,
                spec_opt_view(gacha_type),
                spec_opt_view(end_id),
            );
            match r {
                Ok(v) => spec == Some(v@),
                Err(e) => e == Error::IllegalUrl && spec is None,
            }
        }),
{
    let e = match find_first_sub(gacha_url, endpoint) {
        Some(e) => e,
        None => {
            return Err(Error::IllegalUrl);
        },
    };
    let total = gacha_url.len();
    proof {
        crate::bytesutil::lemma_find_first_matches(gacha_url@, endpoint@, 0);
        assert(e + endpoint@.len() <= total);
    }
    let split = e + endpoint.len();
    let base = copy_range(gacha_url, 0, split);
    let query = copy_range(gacha_url, split, total);
    proof {
        assert(base@ =~= gacha_url@.take(split as int));
        assert(query@ =~= gacha_url@.skip(split as int));
    }
    let parsed = parse_query(&query);
    let pairs = dedup_pairs(&parsed);
    let field = facet.gacha_type_field();
    let tidx = match assoc_find(&pairs, &field) {
        Some(t) => t,
        None => {
            return Err(Error::IllegalUrl);
        },
    };
    proof {
        assert(spec_pair_views(pairs@)[tidx as int] == (pairs@[tidx as int].0@, pairs@[tidx as int].1@));
    }
    let origin_type = bytes_clone(&pairs[tidx].1);
    let end_key = end_id_key();
    let origin_end: Option<Vec<u8>> = match assoc_find(&pairs, &end_key) {
        Some(eidx) => {
            proof {
                assert(spec_pair_views(pairs@)[eidx as int] == (
                    pairs@[eidx as int].0@,
                    pairs@[eidx as int].1@,
                ));
            }
            Some(bytes_clone(&pairs[eidx].1))
        },
        None => None,
    };
    let cleaned = strip_reserved(&pairs, &field);
    let chosen_type: Vec<u8> = match gacha_type {
        Some(t) => bytes_clone(t),
        None => origin_type,
    };
    let chosen_end: Option<Vec<u8>> = match end_id {
        Some(t) => Some(bytes_clone(t)),
        None => origin_end,
    };
    let mut final_pairs = cleaned;
    let ghost g0 = spec_pair_views(final_pairs@);
    final_pairs.push((page_key(), page_one()));
    proof {
        assert(spec_pair_views(final_pairs@) =~= g0.push((spec_page_key(), spec_page_one())));
    }
    let ghost g1 = spec_pair_views(final_pairs@);
    final_pairs.push((size_key(), page_size_value()));
    proof {
        assert(spec_pair_views(final_pairs@) =~= g1.push(
            (spec_size_key(), spec_page_size_value()),
        ));
    }
    let ghost g2 = spec_pair_views(final_pairs@);
    let ghost field_v = field@;
    let ghost chosen_v = chosen_type@;
    final_pairs.push((field, chosen_type));
    proof {
        assert(spec_pair_views(final_pairs@) =~= g2.push((field_v, chosen_v)));
    }
    match chosen_end {
        Some(t) => {
            let ghost g3 = spec_pair_views(final_pairs@);
            let ghost tv = t@;
            let k = end_id_key();
            final_pairs.push((k, t));
            proof {
                assert(spec_pair_views(final_pairs@) =~= g3.push((spec_end_id_key(), tv)));
            }
        },
        None => {},
    }
    match url_with_params(&base, &final_pairs) {
        Some(v) => Ok(v),
        None => Err(Error::IllegalUrl),
    }
}

} // verus!
