use crate::addr::{CacheAddress, FileKind};
use crate::block::{BlockFile, BLOCK_HEADER_SIZE};
use crate::bytesutil::{copy_range, le32_at, le64_at, read_u32_at, read_u64_at};
use crate::error::Error;
use vstd::prelude::*;

verus! {

/// Byte offset of the creation time inside an entry record.
pub const ENTRY_CREATION_TIME_OFFSET: usize = 24;

/// Byte offset of the key length inside an entry record.
pub const ENTRY_KEY_LEN_OFFSET: usize = 32;

/// Byte offset of the long-key address inside an entry record.
pub const ENTRY_LONG_KEY_OFFSET: usize = 36;

/// Byte offset at which the inline (short) key starts.
pub const ENTRY_KEY_INLINE_OFFSET: usize = 92;

/// Whether the address names a record of this block file: initialized, of
/// a block kind whose unit is the file's record size, and carrying the
/// file's own number.
pub open spec fn spec_block_kind_ok(bf: BlockFile, a: CacheAddress) -> bool {
    &&& a.spec_is_initialized()
    &&& match a.spec_kind() {
        Some(k) => k != FileKind::Separate && k.spec_unit() == bf.header.entry_size,
        None => false,
    }
    &&& a.spec_file_number() == bf.header.this_file
}

/// Byte position of the first record the address names.
pub open spec fn spec_record_base(bf: BlockFile, a: CacheAddress) -> int {
    BLOCK_HEADER_SIZE + a.spec_offset() * bf.header.entry_size
}

pub open spec fn spec_first_record_in_bounds(bf: BlockFile, a: CacheAddress) -> bool {
    spec_record_base(bf, a) + bf.header.entry_size <= bf.data@.len()
}

pub open spec fn spec_raw_creation_time(bf: BlockFile, a: CacheAddress) -> u64 {
    le64_at(bf.data@, spec_record_base(bf, a) + ENTRY_CREATION_TIME_OFFSET)
}

pub open spec fn spec_key_len(bf: BlockFile, a: CacheAddress) -> u32 {
    le32_at(bf.data@, spec_record_base(bf, a) + ENTRY_KEY_LEN_OFFSET)
}

pub open spec fn spec_long_key(bf: BlockFile, a: CacheAddress) -> CacheAddress {
    CacheAddress { raw: le32_at(bf.data@, spec_record_base(bf, a) + ENTRY_LONG_KEY_OFFSET) }
}

/// How many contiguous records the entry spans. An entry whose key lives
/// out of line takes one record; an inline key may spill over into further
/// records.
pub open spec fn spec_record_count(bf: BlockFile, a: CacheAddress) -> int {
    if spec_long_key(bf, a).spec_is_initialized() {
        1
    } else {
        (ENTRY_KEY_INLINE_OFFSET + spec_key_len(bf, a) + bf.header.entry_size - 1) as int
            / bf.header.entry_size as int
    }
}

/// Whether one whole entry can be reconstructed at this address: the
/// address names a record here and every record it spans lies inside the
/// file.
pub open spec fn spec_entry_resolvable(bf: BlockFile, a: CacheAddress) -> bool {
    &&& spec_block_kind_ok(bf, a)
    &&& spec_first_record_in_bounds(bf, a)
    &&& spec_record_base(bf, a) + spec_record_count(bf, a) * bf.header.entry_size <= bf.data@.len()
}

/// The entry's logical bytes: its contiguous records, concatenated.
pub open spec fn spec_entry_bytes(bf: BlockFile, a: CacheAddress) -> Seq<u8> {
    bf.data@.subrange(
        spec_record_base(bf, a),
        spec_record_base(bf, a) + spec_record_count(bf, a) * bf.header.entry_size,
    )
}

/// Whether a long-key address names an out-of-line key: initialized and
/// of the separate-file kind.
pub open spec fn spec_is_long_key(long_key: CacheAddress) -> bool {
    long_key.spec_is_initialized() && long_key.spec_kind() == Some(FileKind::Separate)
}

/// Whether `key_len` bytes at the long-key byte offset lie inside the
/// secondary file.
pub open spec fn spec_long_url_in_bounds_raw(
    long_key: CacheAddress,
    key_len: u32,
    bf2: BlockFile,
) -> bool {
    BLOCK_HEADER_SIZE + long_key.spec_offset() + key_len <= bf2.data@.len()
}

/// The out-of-line key bytes an entry with this long key and key length
/// holds in the secondary file.
pub open spec fn spec_long_url_bytes_raw(
    long_key: CacheAddress,
    key_len: u32,
    bf2: BlockFile,
) -> Seq<u8> {
    bf2.data@.subrange(
        BLOCK_HEADER_SIZE + long_key.spec_offset(),
        BLOCK_HEADER_SIZE + long_key.spec_offset() + key_len,
    )
}

/// One cache entry's metadata, reconstructed from one or more contiguous
/// block-file records: creation time in 100 ns ticks since 1601-01-01 UTC,
/// the full key length, the out-of-line key address (uninitialized when
/// the key is inline), and the concatenated record bytes.
#[derive(Debug, PartialEq, Eq)]
pub struct EntryStore {
    pub creation_time: u64,
    pub key_len: u32,
    pub long_key: CacheAddress,
    pub data: Vec<u8>,
}

impl EntryStore {
    /// Whether this entry's key (its URL) lives out of line: the long-key
    /// address must be initialized and of the separate-file kind.
    pub open spec fn spec_is_long_url(self) -> bool {
        spec_is_long_key(self.long_key)
    }

    pub fn is_long_url(&self) -> (r: bool)
        ensures
            r == self.spec_is_long_url(),
    {
        if !self.long_key.is_initialized() {
            return false;
        }
        match self.long_key.kind() {
            Some(k) => k == FileKind::Separate,
            None => false,
        }
    }

    /// Reconstructs the entry a cache address points at, reading as many
    /// contiguous records as the entry spans. An address that does not name
    /// a complete entry of this file is a `CacheFormat` error.
    pub fn from_block_file(bf: &BlockFile, a: CacheAddress) -> (r: Result<EntryStore, Error>)
        ensures
            r is Ok <==> spec_entry_resolvable(*bf, a),
            match r {
                Ok(e) => {
                    &&& e.creation_time == spec_raw_creation_time(*bf, a)
                    &&& e.key_len == spec_key_len(*bf, a)
                    &&& e.long_key == spec_long_key(*bf, a)
                    &&& e.data@ == spec_entry_bytes(*bf, a)
                },
                Err(e) => e == Error::CacheFormat,
            },
    {
        if !a.is_initialized() {
            return Err(Error::CacheFormat);
        }
        let k = match a.kind() {
            Some(k) => k,
            None => { return Err(Error::CacheFormat) },
        };
        if k == FileKind::Separate {
            return Err(Error::CacheFormat);
        }
        let unit = k.unit() as u64;
        if unit != bf.header.entry_size as u64 {
            return Err(Error::CacheFormat);
        }
        if a.file_number() != bf.header.this_file as u32 {
            return Err(Error::CacheFormat);
        }
        proof {
            crate::addr::lemma_offset_bound(a.raw);
            assert(a.spec_offset() as int * unit as int <= 0x10_0000 * 4096) by (nonlinear_arith)
                requires
                    a.spec_offset() < 0x10_0000,
                    unit <= 4096,
            ;
        }
        let base: u64 = BLOCK_HEADER_SIZE as u64 + a.offset() as u64 * unit;
        if base + unit > bf.data.len() as u64 {
            return Err(Error::CacheFormat);
        }
        let base_us: usize = base as usize;
        let creation_time = read_u64_at(&bf.data, base_us + ENTRY_CREATION_TIME_OFFSET);
        let key_len = read_u32_at(&bf.data, base_us + ENTRY_KEY_LEN_OFFSET);
        let long_key = CacheAddress { raw: read_u32_at(&bf.data, base_us + ENTRY_LONG_KEY_OFFSET) };
        let records: u64 = if long_key.is_initialized() {
            1
        } else {
            (ENTRY_KEY_INLINE_OFFSET as u64 + key_len as u64 + unit - 1) / unit
        };
        proof {
            assert(records as int * unit as int <= 92 + key_len as int + 2 * unit as int) by (nonlinear_arith)
                requires
                    1 <= unit,
                    key_len >= 0,
                    records == 1 || records == (92 + key_len as int + unit as int - 1) / unit as int,
            ;
        }
        let span_end: u64 = base + records * unit;
        if span_end > bf.data.len() as u64 {
            return Err(Error::CacheFormat);
        }
        let data = copy_range(&bf.data, base_us, span_end as usize);
        Ok(EntryStore { creation_time, key_len, long_key, data })
    }

    /// The inline (short) key: up to `key_len` bytes behind the entry
    /// header, capped at what the entry's records hold. Meaningful when
    /// the key does not live out of line.
    pub open spec fn spec_short_key(self) -> Seq<u8> {
        if self.data@.len() <= ENTRY_KEY_INLINE_OFFSET {
            Seq::empty()
        } else if ENTRY_KEY_INLINE_OFFSET + self.key_len <= self.data@.len() {
            self.data@.subrange(
                ENTRY_KEY_INLINE_OFFSET as int,
                ENTRY_KEY_INLINE_OFFSET + self.key_len,
            )
        } else {
            self.data@.subrange(ENTRY_KEY_INLINE_OFFSET as int, self.data@.len() as int)
        }
    }

    pub fn short_key(&self) -> (r: Vec<u8>)
        ensures
            r@ == self.spec_short_key(),
    {
        if self.data.len() <= ENTRY_KEY_INLINE_OFFSET {
            return Vec::new();
        }
        let end64: u64 = ENTRY_KEY_INLINE_OFFSET as u64 + self.key_len as u64;
        let end: usize = if end64 > self.data.len() as u64 {
            self.data.len()
        } else {
            end64 as usize
        };
        copy_range(&self.data, ENTRY_KEY_INLINE_OFFSET, end)
    }

    /// Whether the out-of-line key bytes lie inside the secondary file.
    pub open spec fn spec_long_url_in_bounds(self, bf2: BlockFile) -> bool {
        spec_long_url_in_bounds_raw(self.long_key, self.key_len, bf2)
    }

    /// The out-of-line key bytes: `key_len` bytes at the long-key byte
    /// offset inside the secondary file's data area.
    pub open spec fn spec_long_url_bytes(self, bf2: BlockFile) -> Seq<u8> {
        spec_long_url_bytes_raw(self.long_key, self.key_len, bf2)
    }

    /// Reads the entry's out-of-line URL from the secondary block file.
    /// Whether the long-key address belongs to that file at all is for the
    /// caller to decide by its file number; this only rejects an entry with
    /// no out-of-line key and a read past the file's end.
    pub fn read_long_url(&self, bf2: &BlockFile) -> (r: Result<Vec<u8>, Error>)
        ensures
            r is Ok <==> self.spec_is_long_url() && self.spec_long_url_in_bounds(*bf2),
            match r {
                Ok(v) => v@ == self.spec_long_url_bytes(*bf2),
                Err(e) => e == Error::CacheFormat,
            },
    {
        if !self.is_long_url() {
            return Err(Error::CacheFormat);
        }
        let start: u64 = BLOCK_HEADER_SIZE as u64 + self.long_key.offset() as u64;
        let end: u64 = start + self.key_len as u64;
        if end > bf2.data.len() as u64 {
            return Err(Error::CacheFormat);
        }
        Ok(copy_range(&bf2.data, start as usize, end as usize))
    }
}

} // verus!
