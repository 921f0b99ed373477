use crate::addr::CacheAddress;
use crate::bytesutil::{le32_at, read_u32_at};
use crate::error::Error;
use vstd::prelude::*;

verus! {

/// Magic number of both the index file and the block files.
pub const CACHE_MAGIC: u32 = 0xC103CAC3;

/// Accepted on-disk format versions.
pub const CACHE_VERSION_2_0: u32 = 0x2_0000;

pub const CACHE_VERSION_2_1: u32 = 0x2_0001;

/// Byte size of the index file header; the address table follows it.
pub const INDEX_HEADER_SIZE: usize = 256;

pub open spec fn version_accepted(v: u32) -> bool {
    v == CACHE_VERSION_2_0 || v == CACHE_VERSION_2_1
}

/// Header of the master index file: magic, version, number of stored
/// entries, and the capacity of the address table.
#[derive(Debug, Clone, Copy, PartialEq, Eq, Structural)]
pub struct IndexFileHeader {
    pub magic: u32,
    pub version: u32,
    pub entry_count: u32,
    pub table_size: u32,
}

/// Whether the bytes form a complete index file: a full header with the
/// expected magic and version, and a full address table behind it.
pub open spec fn index_well_formed(b: Seq<u8>) -> bool {
    &&& b.len() >= INDEX_HEADER_SIZE
    &&& le32_at(b, 0) == CACHE_MAGIC
    &&& version_accepted(le32_at(b, 4))
    &&& b.len() >= INDEX_HEADER_SIZE + 4 * (le32_at(b, 12) as int)
}

/// The master index: a header and an ordered table of cache addresses.
/// Unused table slots hold uninitialized (zero) addresses and are skipped
/// by readers.
#[derive(Debug, PartialEq, Eq)]
pub struct IndexFile {
    pub header: IndexFileHeader,
    pub table: Vec<CacheAddress>,
}

impl IndexFile {
    /// Reads an index file out of its raw bytes, validating magic, version
    /// and length. Anything malformed is a `CacheFormat` error; nothing
    /// panics, whatever the bytes hold.
    pub fn from_bytes(bytes: &Vec<u8>) -> (r: Result<IndexFile, Error>)
        ensures
            r is Ok <==> index_well_formed(bytes@),
            match r {
                Ok(f) => {
                    &&& f.header.magic == le32_at(bytes@, 0)
                    &&& f.header.version == le32_at(bytes@, 4)
                    &&& f.header.entry_count == le32_at(bytes@, 8)
                    &&& f.header.table_size == le32_at(bytes@, 12)
                    &&& f.table@.len() == f.header.table_size
                    &&& forall|i: int|
                        0 <= i < f.table@.len() ==> f.table@[i].raw == le32_at(
                            bytes@,
                            INDEX_HEADER_SIZE + 4 * i,
                        )
                },
                Err(e) => e == Error::CacheFormat,
            },
    {
        if bytes.len() < INDEX_HEADER_SIZE {
            return Err(Error::CacheFormat);
        }
        let magic = read_u32_at(bytes, 0);
        let version = read_u32_at(bytes, 4);
        let entry_count = read_u32_at(bytes, 8);
        let table_size = read_u32_at(bytes, 12);
        if magic != CACHE_MAGIC {
            return Err(Error::CacheFormat);
        }
        if version != CACHE_VERSION_2_0 && version != CACHE_VERSION_2_1 {
            return Err(Error::CacheFormat);
        }
        if (bytes.len() - INDEX_HEADER_SIZE) / 4 < table_size as usize {
            return Err(Error::CacheFormat);
        }
        let n = table_size as usize;
        let mut table: Vec<CacheAddress> = Vec::new();
        let mut i: usize = 0;
        while i < n
            invariant
                n == table_size,
                INDEX_HEADER_SIZE + 4 * n <= bytes.len(),
                i <= n,
                table@.len() == i,
                forall|k: int|
                    0 <= k < i ==> table@[k].raw == le32_at(bytes@, INDEX_HEADER_SIZE + 4 * k),
            decreases n - i,
        {
            let raw = read_u32_at(bytes, INDEX_HEADER_SIZE + 4 * i);
            table.push(CacheAddress { raw });
            i += 1;
        }
        Ok(IndexFile { header: IndexFileHeader { magic, version, entry_count, table_size }, table })
    }
}

} // verus!
