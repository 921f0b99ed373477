use gacha_cache::block::BlockFile;
use gacha_cache::error::Error;
use gacha_cache::extract::{extract_gacha_urls, filetime_to_unix, is_fresh};
use gacha_cache::index::IndexFile;

const MAGIC: u32 = 0xC103CAC3;
const VERSION: u32 = 0x2_0001;
const EPOCH_SHIFT: i64 = 11_644_473_600;

fn put_u32(v: &mut Vec<u8>, at: usize, x: u32) {
    v[at..at + 4].copy_from_slice(&x.to_le_bytes());
}

fn put_u16(v: &mut Vec<u8>, at: usize, x: u16) {
    v[at..at + 2].copy_from_slice(&x.to_le_bytes());
}

fn put_u64(v: &mut Vec<u8>, at: usize, x: u64) {
    v[at..at + 8].copy_from_slice(&x.to_le_bytes());
}

fn make_index(addrs: &[u32]) -> Vec<u8> {
    let mut v = vec![0u8; 256];
    put_u32(&mut v, 0, MAGIC);
    put_u32(&mut v, 4, VERSION);
    put_u32(&mut v, 8, addrs.len() as u32);
    put_u32(&mut v, 12, addrs.len() as u32);
    for a in addrs {
        v.extend_from_slice(&a.to_le_bytes());
    }
    v
}

fn make_block(this_file: u16, entry_size: u16, data: Vec<u8>) -> Vec<u8> {
    let mut v = vec![0u8; 8192];
    put_u32(&mut v, 0, MAGIC);
    put_u32(&mut v, 4, VERSION);
    put_u16(&mut v, 8, this_file);
    put_u16(&mut v, 10, entry_size);
    put_u32(&mut v, 12, 64);
    v.extend_from_slice(&data);
    v
}

fn ticks_of_unix(unix: i64) -> u64 {
    ((EPOCH_SHIFT + unix) as u64) * 10_000_000
}

/// A 256-byte primary record whose key lives out of line.
fn make_entry_record(creation_unix: i64, long_key: u32, key_len: u32) -> Vec<u8> {
    let mut r = vec![0u8; 256];
    put_u64(&mut r, 24, ticks_of_unix(creation_unix));
    put_u32(&mut r, 32, key_len);
    put_u32(&mut r, 36, long_key);
    r
}

fn slot_addr(slot: u32) -> u32 {
    0x8000_0000 | (1 << 28) | (1 << 20) | slot
}

fn long_key_addr(file_number: u32, byte_off: u32) -> u32 {
    0x8000_0000 | (file_number << 20) | byte_off
}

const NOW: i64 = 1_700_000_000;

/// Builds an index plus two block files holding the given URLs, one
/// entry per URL, at consecutive slots and byte offsets.
fn make_cache(urls: &[(&str, i64, u32)]) -> (Vec<u8>, Vec<u8>, Vec<u8>) {
    // (url text, creation unix, long-key file number)
    let mut addrs = Vec::new();
    let mut records = Vec::new();
    let mut data2 = Vec::new();
    for (i, (url, created, file_no)) in urls.iter().enumerate() {
        let off = data2.len() as u32;
        addrs.push(slot_addr(i as u32));
        records.extend_from_slice(&make_entry_record(
            *created,
            long_key_addr(*file_no, off),
            url.len() as u32,
        ));
        data2.extend_from_slice(url.as_bytes());
    }
    (
        make_index(&addrs),
        make_block(1, 256, records),
        make_block(2, 1024, data2),
    )
}

const ENDPOINT: &str = "/api/getGachaLog";

#[test]
fn extraction_keeps_matching_urls_sorted_descending() {
    let older = "1/0/https://hk4e.example/api/getGachaLog?authkey=a&gacha_type=301";
    let newer = "1/0/https://hk4e.example/api/getGachaLog?authkey=b&gacha_type=302";
    let unrelated = "1/0/https://hk4e.example/other/path?x=1";
    let (index_bytes, b1, b2) = make_cache(&[
        (older, NOW - 600, 2),
        (unrelated, NOW - 10, 2),
        (newer, NOW - 300, 2),
    ]);
    let index = IndexFile::from_bytes(&index_bytes).unwrap();
    let bf1 = BlockFile::from_bytes(b1).unwrap();
    let bf2 = BlockFile::from_bytes(b2).unwrap();
    let urls = extract_gacha_urls(&index, &bf1, &bf2, &ENDPOINT.as_bytes().to_vec(), NOW, true)
        .unwrap();
    assert_eq!(urls.len(), 2);
    // most recent first, and the "1/0/" prefix is stripped
    assert_eq!(
        urls[0].value,
        b"https://hk4e.example/api/getGachaLog?authkey=b&gacha_type=302".to_vec()
    );
    assert_eq!(
        urls[1].value,
        b"https://hk4e.example/api/getGachaLog?authkey=a&gacha_type=301".to_vec()
    );
    assert_eq!(urls[0].creation_time, NOW - 300);
    assert_eq!(urls[1].creation_time, NOW - 600);
    assert_eq!(urls[1].addr, slot_addr(0));
}

#[test]
fn mismatched_long_key_file_number_is_excluded() {
    let good = "1/0/https://hk4e.example/api/getGachaLog?authkey=a&gacha_type=301";
    let astray = "1/0/https://hk4e.example/api/getGachaLog?authkey=c&gacha_type=301";
    // the second entry's long key claims file 3, but the secondary file is 2
    let (index_bytes, b1, b2) = make_cache(&[(good, NOW - 60, 2), (astray, NOW - 30, 3)]);
    let index = IndexFile::from_bytes(&index_bytes).unwrap();
    let bf1 = BlockFile::from_bytes(b1).unwrap();
    let bf2 = BlockFile::from_bytes(b2).unwrap();
    let urls = extract_gacha_urls(&index, &bf1, &bf2, &ENDPOINT.as_bytes().to_vec(), NOW, true)
        .unwrap();
    assert_eq!(urls.len(), 1);
    assert_eq!(
        urls[0].value,
        b"https://hk4e.example/api/getGachaLog?authkey=a&gacha_type=301".to_vec()
    );
}

#[test]
fn expired_entries_are_skipped_when_asked() {
    let stale = "1/0/https://hk4e.example/api/getGachaLog?authkey=a&gacha_type=301";
    let (index_bytes, b1, b2) = make_cache(&[(stale, NOW - 90_000, 2)]);
    let index = IndexFile::from_bytes(&index_bytes).unwrap();
    let bf1 = BlockFile::from_bytes(b1).unwrap();
    let bf2 = BlockFile::from_bytes(b2).unwrap();
    let endpoint = ENDPOINT.as_bytes().to_vec();
    assert_eq!(
        extract_gacha_urls(&index, &bf1, &bf2, &endpoint, NOW, true),
        Err(Error::NoUsableUrl)
    );
    // the same entry is kept when expiry is not enforced
    let urls = extract_gacha_urls(&index, &bf1, &bf2, &endpoint, NOW, false).unwrap();
    assert_eq!(urls.len(), 1);
}

#[test]
fn empty_harvest_is_no_usable_url() {
    let (index_bytes, b1, b2) = make_cache(&[]);
    let index = IndexFile::from_bytes(&index_bytes).unwrap();
    let bf1 = BlockFile::from_bytes(b1).unwrap();
    let bf2 = BlockFile::from_bytes(b2).unwrap();
    assert_eq!(
        extract_gacha_urls(&index, &bf1, &bf2, &ENDPOINT.as_bytes().to_vec(), NOW, true),
        Err(Error::NoUsableUrl)
    );
}

#[test]
fn url_without_gacha_type_marker_is_excluded() {
    let no_marker = "1/0/https://hk4e.example/api/getGachaLog?authkey=a";
    let (index_bytes, b1, b2) = make_cache(&[(no_marker, NOW - 60, 2)]);
    let index = IndexFile::from_bytes(&index_bytes).unwrap();
    let bf1 = BlockFile::from_bytes(b1).unwrap();
    let bf2 = BlockFile::from_bytes(b2).unwrap();
    assert_eq!(
        extract_gacha_urls(&index, &bf1, &bf2, &ENDPOINT.as_bytes().to_vec(), NOW, true),
        Err(Error::NoUsableUrl)
    );
}

#[test]
fn filetime_conversion_reproduces_known_timestamp() {
    // 2023-01-01T00:00:00Z is 1672531200 seconds after the Unix epoch,
    // which is 13317004800 seconds after 1601-01-01, i.e. the epoch shift
    // of 11644473600 seconds plus the Unix timestamp.
    let ticks: u64 = 13_317_004_800 * 10_000_000;
    assert_eq!(filetime_to_unix(ticks), 1_672_531_200);
    let dt = time::OffsetDateTime::from_unix_timestamp(1_672_531_200).unwrap();
    assert_eq!(dt.year(), 2023);
    assert_eq!(dt.month(), time::Month::January);
    assert_eq!(dt.day(), 1);
    assert_eq!((dt.hour(), dt.minute(), dt.second()), (0, 0, 0));
}

#[test]
fn freshness_window_is_one_day() {
    assert!(is_fresh(NOW - 86_399, NOW));
    assert!(!is_fresh(NOW - 86_400, NOW));
    assert!(!is_fresh(NOW - 90_000, NOW));
}
