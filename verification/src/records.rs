use vstd::prelude::*;

verus! {

/// The account facets the pipeline serves. Each carries its own
/// query-field name for the record category and its own capability for
/// serialized import/export, dispatched as data instead of per-facet code
/// paths.
#[derive(Debug, Clone, Copy, PartialEq, Eq, Structural)]
pub enum AccountFacet {
    Genshin,
    StarRail,
    ZenlessZoneZero,
}

/// The bytes of `"gacha_type"`.
pub open spec fn spec_gacha_type_key() -> Seq<u8> {
    seq![103u8, 97u8, 99u8, 104u8, 97u8, 95u8, 116u8, 121u8, 112u8, 101u8]
}

pub fn gacha_type_key() -> (r: Vec<u8>)
    ensures
        r@ == spec_gacha_type_key(),
{
    let mut v: Vec<u8> = Vec::new();
    v.push(103u8);
    v.push(97u8);
    v.push(99u8);
    v.push(104u8);
    v.push(97u8);
    v.push(95u8);
    v.push(116u8);
    v.push(121u8);
    v.push(112u8);
    v.push(101u8);
    proof {
        assert(v@ =~= spec_gacha_type_key());
    }
    v
}

/// The bytes of `"real_gacha_type"`.
pub open spec fn spec_real_gacha_type_key() -> Seq<u8> {
    seq![114u8, 101u8, 97u8, 108u8, 95u8] + spec_gacha_type_key()
}

pub fn real_gacha_type_key() -> (r: Vec<u8>)
    ensures
        r@ == spec_real_gacha_type_key(),
{
    let mut v: Vec<u8> = Vec::new();
    v.push(114u8);
    v.push(101u8);
    v.push(97u8);
    v.push(108u8);
    v.push(95u8);
    let mut rest = gacha_type_key();
    v.append(&mut rest);
    proof {
        assert(v@ =~= spec_real_gacha_type_key());
    }
    v
}

impl AccountFacet {
    /// The query-parameter name that carries the record category for this
    /// facet; one facet names it otherwise than the rest.
    pub open spec fn spec_gacha_type_field(self) -> Seq<u8> {
        if self == AccountFacet::ZenlessZoneZero {
            spec_real_gacha_type_key()
        } else {
            spec_gacha_type_key()
        }
    }

    pub fn gacha_type_field(self) -> (r: Vec<u8>)
        ensures
            r@ == self.spec_gacha_type_field(),
    {
        if self == AccountFacet::ZenlessZoneZero {
            real_gacha_type_key()
        } else {
            gacha_type_key()
        }
    }

    /// Whether serialized import/export exists for this facet. Callers
    /// must check this before asking for either; for one facet the remote
    /// format has no settled shape here.
    pub open spec fn spec_supports_import_export(self) -> bool {
        self != AccountFacet::ZenlessZoneZero
    }

    pub fn supports_import_export(self) -> (r: bool)
        ensures
            r == self.spec_supports_import_export(),
    {
        self != AccountFacet::ZenlessZoneZero
    }
}

/// One fetched record. The id is a decimal string, unique and ordered;
/// `gacha_type` is the record-type partition the remote API pages over.
#[derive(Debug, Clone, PartialEq, Eq)]
pub struct GachaRecord {
    pub id: Vec<u8>,
    pub uid: Vec<u8>,
    pub gacha_type: Vec<u8>,
    pub time: Vec<u8>,
    pub lang: Vec<u8>,
    pub name: Vec<u8>,
    pub item_type: Vec<u8>,
    pub rank_type: Vec<u8>,
    pub item_id: Vec<u8>,
}

pub ghost struct GachaRecordView {
    pub id: Seq<u8>,
    pub uid: Seq<u8>,
    pub gacha_type: Seq<u8>,
    pub time: Seq<u8>,
    pub lang: Seq<u8>,
    pub name: Seq<u8>,
    pub item_type: Seq<u8>,
    pub rank_type: Seq<u8>,
    pub item_id: Seq<u8>,
}

impl View for GachaRecord {
    type V = GachaRecordView;

    open spec fn view(&self) -> GachaRecordView {
        GachaRecordView {
            id: self.id@,
            uid: self.uid@,
            gacha_type: self.gacha_type@,
            time: self.time@,
            lang: self.lang@,
            name: self.name@,
            item_type: self.item_type@,
            rank_type: self.rank_type@,
            item_id: self.item_id@,
        }
    }
}

/// Checks an imported batch's account id against the target account:
/// agreement or a `UidMismatch` that carries both ids verbatim.
pub fn check_uid_consistency(expected: &Vec<u8>, actual: &Vec<u8>) -> (r: Result<
    (),
    crate::error::Error,
>)
    ensures
        match r {
            Ok(()) => expected@ == actual@,
            Err(e) => expected@ != actual@ && (e matches crate::error::Error::UidMismatch {
                expected: x,
                actual: y,
            } && x@ == expected@ && y@ == actual@),
        },
{
    if crate::bytesutil::bytes_eq(expected, actual) {
        Ok(())
    } else {
        let e = crate::bytesutil::copy_range(expected, 0, expected.len());
        let a = crate::bytesutil::copy_range(actual, 0, actual.len());
        proof {
            assert(e@ =~= expected@);
            assert(a@ =~= actual@);
        }
        Err(crate::error::Error::UidMismatch { expected: e, actual: a })
    }
}

} // verus!
