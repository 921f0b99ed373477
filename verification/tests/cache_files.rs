use gacha_cache::addr::CacheAddress;
use gacha_cache::block::BlockFile;
use gacha_cache::entry::EntryStore;
use gacha_cache::error::Error;
use gacha_cache::index::IndexFile;

const MAGIC: u32 = 0xC103CAC3;
const VERSION: u32 = 0x2_0001;

fn put_u32(v: &mut Vec<u8>, at: usize, x: u32) {
    v[at..at + 4].copy_from_slice(&x.to_le_bytes());
}

fn put_u16(v: &mut Vec<u8>, at: usize, x: u16) {
    v[at..at + 2].copy_from_slice(&x.to_le_bytes());
}

fn make_index(addrs: &[u32]) -> Vec<u8> {
    let mut v = vec![0u8; 256];
    put_u32(&mut v, 0, MAGIC);
    put_u32(&mut v, 4, VERSION);
    put_u32(&mut v, 8, addrs.len() as u32);
    put_u32(&mut v, 12, addrs.len() as u32);
    for a in addrs {
        v.extend_from_slice(&a.to_le_bytes());
    }
    v
}

fn make_block_header(this_file: u16, entry_size: u16) -> Vec<u8> {
    let mut v = vec![0u8; 8192];
    put_u32(&mut v, 0, MAGIC);
    put_u32(&mut v, 4, VERSION);
    put_u16(&mut v, 8, this_file);
    put_u16(&mut v, 10, entry_size);
    put_u32(&mut v, 12, 64);
    v
}

#[test]
fn index_parses_header_and_table() {
    let bytes = make_index(&[0, 0x9010_0002, 0]);
    let f = IndexFile::from_bytes(&bytes).unwrap();
    assert_eq!(f.header.magic, MAGIC);
    assert_eq!(f.header.version, VERSION);
    assert_eq!(f.header.entry_count, 3);
    assert_eq!(f.header.table_size, 3);
    assert_eq!(f.table.len(), 3);
    assert_eq!(f.table[1].raw, 0x9010_0002);
}

#[test]
fn truncated_index_is_cache_format_error() {
    let bytes = vec![1u8, 2, 3];
    assert_eq!(IndexFile::from_bytes(&bytes), Err(Error::CacheFormat));
}

#[test]
fn index_with_short_table_is_cache_format_error() {
    let mut bytes = make_index(&[0, 0]);
    // claim a bigger table than the file holds
    put_u32(&mut bytes, 12, 100);
    assert_eq!(IndexFile::from_bytes(&bytes), Err(Error::CacheFormat));
}

#[test]
fn index_with_wrong_magic_is_cache_format_error() {
    let mut bytes = make_index(&[0]);
    put_u32(&mut bytes, 0, 0xDEADBEEF);
    assert_eq!(IndexFile::from_bytes(&bytes), Err(Error::CacheFormat));
}

#[test]
fn index_with_wrong_version_is_cache_format_error() {
    let mut bytes = make_index(&[0]);
    put_u32(&mut bytes, 4, 0x3_0000);
    assert_eq!(IndexFile::from_bytes(&bytes), Err(Error::CacheFormat));
}

#[test]
fn block_parses_header() {
    let bytes = make_block_header(1, 256);
    let f = BlockFile::from_bytes(bytes).unwrap();
    assert_eq!(f.header.magic, MAGIC);
    assert_eq!(f.header.this_file, 1);
    assert_eq!(f.header.entry_size, 256);
    assert_eq!(f.header.max_entries, 64);
}

#[test]
fn truncated_block_is_cache_format_error() {
    let bytes = vec![0u8; 100];
    assert!(matches!(BlockFile::from_bytes(bytes), Err(Error::CacheFormat)));
}

#[test]
fn block_with_wrong_magic_is_cache_format_error() {
    let mut bytes = make_block_header(1, 256);
    put_u32(&mut bytes, 0, 1234);
    assert!(matches!(BlockFile::from_bytes(bytes), Err(Error::CacheFormat)));
}

#[test]
fn inline_entry_exposes_its_short_key() {
    // one 256-byte record at slot 0 of file 1, key inline
    let mut record = vec![0u8; 256];
    record[32..36].copy_from_slice(&5u32.to_le_bytes()); // key_len
    record[92..97].copy_from_slice(b"hello");
    let mut bytes = make_block_header(1, 256);
    bytes.extend_from_slice(&record);
    let bf = BlockFile::from_bytes(bytes).unwrap();
    let addr = CacheAddress { raw: 0x8000_0000 | (1 << 28) | (1 << 20) };
    let entry = EntryStore::from_block_file(&bf, addr).unwrap();
    assert!(!entry.is_long_url());
    assert_eq!(entry.short_key(), b"hello".to_vec());
    assert_eq!(entry.key_len, 5);
}

#[test]
fn long_inline_key_spans_several_records() {
    // an inline key of 300 bytes does not fit one 256-byte record: the
    // entry spans two, and the key runs over into the second
    let mut records = vec![0u8; 512];
    records[32..36].copy_from_slice(&300u32.to_le_bytes());
    for (i, b) in records[92..392].iter_mut().enumerate() {
        *b = (i % 251) as u8;
    }
    let mut bytes = make_block_header(1, 256);
    bytes.extend_from_slice(&records);
    let bf = BlockFile::from_bytes(bytes).unwrap();
    let addr = CacheAddress { raw: 0x8000_0000 | (1 << 28) | (1 << 20) };
    let entry = EntryStore::from_block_file(&bf, addr).unwrap();
    assert_eq!(entry.data.len(), 512);
    let key = entry.short_key();
    assert_eq!(key.len(), 300);
    assert_eq!(key[299], (299 % 251) as u8);
    // the same entry in a file holding only one record cannot be read whole
    let mut short = make_block_header(1, 256);
    short.extend_from_slice(&records[..256]);
    let bf_short = BlockFile::from_bytes(short).unwrap();
    assert_eq!(
        EntryStore::from_block_file(&bf_short, addr),
        Err(Error::CacheFormat)
    );
}

#[test]
fn entry_address_out_of_bounds_is_cache_format_error() {
    let bytes = make_block_header(1, 256);
    let bf = BlockFile::from_bytes(bytes).unwrap();
    // slot 4 lies past the end of a file with no records
    let addr = CacheAddress { raw: 0x8000_0000 | (1 << 28) | (1 << 20) | 4 };
    assert_eq!(EntryStore::from_block_file(&bf, addr), Err(Error::CacheFormat));
}

#[test]
fn block_with_zero_entry_size_is_cache_format_error() {
    let bytes = make_block_header(1, 0);
    assert!(matches!(BlockFile::from_bytes(bytes), Err(Error::CacheFormat)));
}
