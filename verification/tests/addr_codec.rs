use gacha_cache::addr::{CacheAddress, FileKind};

#[test]
fn roundtrip_recovers_fields() {
    let raw = CacheAddress::encode(true, 1, 3, 0x12345);
    let a = CacheAddress { raw };
    assert!(a.is_initialized());
    assert_eq!(a.kind(), Some(FileKind::Block256));
    assert_eq!(a.file_number(), 3);
    assert_eq!(a.offset(), 0x12345);
}

#[test]
fn roundtrip_uninitialized() {
    let raw = CacheAddress::encode(false, 0, 0, 7);
    let a = CacheAddress { raw };
    assert!(!a.is_initialized());
    assert_eq!(a.kind(), Some(FileKind::Separate));
    assert_eq!(a.file_number(), 0);
    assert_eq!(a.offset(), 7);
}

#[test]
fn roundtrip_extremes() {
    let raw = CacheAddress::encode(true, 3, 255, 0xF_FFFF);
    let a = CacheAddress { raw };
    assert!(a.is_initialized());
    assert_eq!(a.kind(), Some(FileKind::Block4K));
    assert_eq!(a.file_number(), 255);
    assert_eq!(a.offset(), 0xF_FFFF);
}

#[test]
fn kind_bits_beyond_enum_are_no_kind() {
    let raw = CacheAddress::encode(true, 5, 0, 0);
    let a = CacheAddress { raw };
    assert_eq!(a.kind(), None);
}

#[test]
fn zero_address_points_nowhere() {
    let a = CacheAddress { raw: 0 };
    assert!(!a.is_initialized());
}

#[test]
fn offset_units_per_kind() {
    assert_eq!(FileKind::Separate.unit(), 1);
    assert_eq!(FileKind::Block256.unit(), 256);
    assert_eq!(FileKind::Block1K.unit(), 1024);
    assert_eq!(FileKind::Block4K.unit(), 4096);
}
