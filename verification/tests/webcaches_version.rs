use gacha_cache::error::Error;
use gacha_cache::plugin::GachaPluginBuilder;
use gacha_cache::records::{check_uid_consistency, AccountFacet};
use gacha_cache::webcaches::{select_latest_version, WebCachesVersion};

#[test]
fn parses_three_component_versions() {
    let v = WebCachesVersion::parse("2.20.3").unwrap();
    assert_eq!(v.version(), "2.20.3");
    assert_eq!((v.major, v.minor, v.patch, v.build), (2, 20, 3, None));
}

#[test]
fn parses_four_component_versions() {
    let v = WebCachesVersion::parse("2.20.3.1").unwrap();
    assert_eq!(v.version(), "2.20.3.1");
    assert_eq!(v.build, Some(1));
}

#[test]
fn leading_zeros_parse_to_their_value() {
    let v = WebCachesVersion::parse("1.2.03").unwrap();
    assert_eq!(v.version(), "1.2.3");
}

#[test]
fn malformed_names_are_rejected() {
    assert!(WebCachesVersion::parse("2.20").is_err());
    assert!(WebCachesVersion::parse("a.b.c").is_err());
    assert!(WebCachesVersion::parse("1.2.3.4.5").is_err());
    assert!(WebCachesVersion::parse("256.0.0").is_err());
    assert!(WebCachesVersion::parse("1..3").is_err());
    assert!(WebCachesVersion::parse("").is_err());
    assert!(WebCachesVersion::parse("Cache_Data").is_err());
}

#[test]
fn latest_version_wins() {
    let names = vec![
        "2.6.0".to_string(),
        "junk".to_string(),
        "2.13.0.1".to_string(),
        "2.13.0".to_string(),
    ];
    let best = select_latest_version(&names).unwrap();
    assert_eq!(best.version(), "2.13.0.1");
}

#[test]
fn no_version_directory_is_cache_not_found() {
    let names = vec!["GPUCache".to_string(), "blob_storage".to_string()];
    assert_eq!(select_latest_version(&names), Err(Error::CacheNotFound));
}

#[test]
fn missing_build_sorts_before_any_build() {
    let names = vec!["2.13.0.0".to_string(), "2.13.0".to_string()];
    let best = select_latest_version(&names).unwrap();
    assert_eq!(best.version(), "2.13.0.0");
}

#[test]
fn uid_mismatch_carries_both_ids() {
    assert!(check_uid_consistency(&b"1".to_vec(), &b"1".to_vec()).is_ok());
    let e = check_uid_consistency(&b"1".to_vec(), &b"2".to_vec()).unwrap_err();
    assert_eq!(
        e,
        Error::UidMismatch { expected: b"1".to_vec(), actual: b"2".to_vec() }
    );
}

#[test]
fn facet_capabilities_and_field_names() {
    assert_eq!(AccountFacet::Genshin.gacha_type_field(), b"gacha_type".to_vec());
    assert_eq!(AccountFacet::StarRail.gacha_type_field(), b"gacha_type".to_vec());
    assert_eq!(
        AccountFacet::ZenlessZoneZero.gacha_type_field(),
        b"real_gacha_type".to_vec()
    );
    assert!(AccountFacet::Genshin.supports_import_export());
    assert!(AccountFacet::StarRail.supports_import_export());
    assert!(!AccountFacet::ZenlessZoneZero.supports_import_export());
}

#[test]
fn plugin_builder_names_the_plugin() {
    let b = GachaPluginBuilder::new();
    assert_eq!(b.plugin_name(), "gacha");
    assert_eq!(GachaPluginBuilder::default(), b);
}
