use crate::bytesutil::{le16_at, le32_at, read_u16_at, read_u32_at};
use crate::error::Error;
use crate::index::{version_accepted, CACHE_MAGIC, CACHE_VERSION_2_0, CACHE_VERSION_2_1};
use vstd::prelude::*;

verus! {

/// Byte size of a block file's header; the record array follows it.
pub const BLOCK_HEADER_SIZE: usize = 8192;

/// Header of a block file: magic, version, the file number the file
/// declares for itself, the byte size of one record, and the record
/// capacity.
#[derive(Debug, Clone, Copy, PartialEq, Eq, Structural)]
pub struct BlockFileHeader {
    pub magic: u32,
    pub version: u32,
    pub this_file: u16,
    pub entry_size: u16,
    pub max_entries: u32,
}

/// Whether the bytes form a usable block file: a full header with the
/// expected magic and version and a non-zero record size.
pub open spec fn block_well_formed(b: Seq<u8>) -> bool {
    &&& b.len() >= BLOCK_HEADER_SIZE
    &&& le32_at(b, 0) == CACHE_MAGIC
    &&& version_accepted(le32_at(b, 4))
    &&& le16_at(b, 10) > 0
}

/// A block file held in memory: its header and the raw file bytes, whose
/// record array is read record by record through cache addresses.
#[derive(Debug, PartialEq, Eq)]
pub struct BlockFile {
    pub header: BlockFileHeader,
    pub data: Vec<u8>,
}

impl BlockFile {
    /// Reads a block file out of its raw bytes, validating magic, version
    /// and length. Anything malformed is a `CacheFormat` error; nothing
    /// panics, whatever the bytes hold.
    pub fn from_bytes(bytes: Vec<u8>) -> (r: Result<BlockFile, Error>)
        ensures
            r is Ok <==> block_well_formed(bytes@),
            match r {
                Ok(f) => {
                    &&& f.header.magic == le32_at(bytes@, 0)
                    &&& f.header.version == le32_at(bytes@, 4)
                    &&& f.header.this_file == le16_at(bytes@, 8)
                    &&& f.header.entry_size == le16_at(bytes@, 10)
                    &&& f.header.max_entries == le32_at(bytes@, 12)
                    &&& f.data@ == bytes@
                },
                Err(e) => e == Error::CacheFormat,
            },
    {
        if bytes.len() < BLOCK_HEADER_SIZE {
            return Err(Error::CacheFormat);
        }
        let magic = read_u32_at(&bytes, 0);
        let version = read_u32_at(&bytes, 4);
        let this_file = read_u16_at(&bytes, 8);
        let entry_size = read_u16_at(&bytes, 10);
        let max_entries = read_u32_at(&bytes, 12);
        if magic != CACHE_MAGIC {
            return Err(Error::CacheFormat);
        }
        if version != CACHE_VERSION_2_0 && version != CACHE_VERSION_2_1 {
            return Err(Error::CacheFormat);
        }
        if entry_size == 0 {
            return Err(Error::CacheFormat);
        }
        Ok(
            BlockFile {
                header: BlockFileHeader { magic, version, this_file, entry_size, max_entries },
                data: bytes,
            },
        )
    }
}

} // verus!
