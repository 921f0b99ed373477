use gacha_cache::orchestrate::{
    group_by_gacha_type, id_lt, plan_reconciliation, PartitionFetch, PAGE_SIZE,
};
use gacha_cache::records::GachaRecord;

fn record(id: &str, gacha_type: &str) -> GachaRecord {
    GachaRecord {
        id: id.as_bytes().to_vec(),
        uid: b"100000001".to_vec(),
        gacha_type: gacha_type.as_bytes().to_vec(),
        time: b"2023-01-01 00:00:00".to_vec(),
        lang: b"en-us".to_vec(),
        name: b"Item".to_vec(),
        item_type: b"Weapon".to_vec(),
        rank_type: b"3".to_vec(),
        item_id: b"15401".to_vec(),
    }
}

#[test]
fn id_order_is_numeric_for_decimal_strings() {
    assert!(id_lt(&b"80".to_vec(), &b"100".to_vec()));
    assert!(!id_lt(&b"100".to_vec(), &b"80".to_vec()));
    assert!(id_lt(&b"85".to_vec(), &b"90".to_vec()));
    assert!(!id_lt(&b"90".to_vec(), &b"90".to_vec()));
    assert!(id_lt(
        &b"1675200000000000001".to_vec(),
        &b"1675200000000000002".to_vec()
    ));
}

#[test]
fn full_resync_deletes_everything_newer_than_oldest_fetched() {
    // stored up to id 100; the fresh batch reaches back to id 80
    let stored = vec![b"70".to_vec(), b"85".to_vec(), b"100".to_vec()];
    let fetched = vec![record("100", "301"), record("95", "301"), record("80", "301")];
    let plan = plan_reconciliation(&stored, &fetched).unwrap();
    assert_eq!(plan.oldest_id, b"80".to_vec());
    // every stored record with id > 80 goes: 85 and 100
    assert_eq!(plan.deleted, 2);
    assert_eq!(plan.inserted, 3);
    assert_eq!(plan.net, 1);
}

#[test]
fn empty_batch_needs_no_reconciliation() {
    let stored = vec![b"100".to_vec()];
    let fetched: Vec<GachaRecord> = Vec::new();
    assert!(plan_reconciliation(&stored, &fetched).is_none());
}

#[test]
fn grouping_splits_by_category_in_first_seen_order() {
    let records = vec![
        record("5", "301"),
        record("4", "302"),
        record("3", "301"),
        record("2", "200"),
        record("1", "302"),
    ];
    let groups = group_by_gacha_type(&records);
    assert_eq!(groups.len(), 3);
    assert_eq!(groups[0].0, b"301".to_vec());
    assert_eq!(groups[1].0, b"302".to_vec());
    assert_eq!(groups[2].0, b"200".to_vec());
    assert_eq!(groups[0].1.len(), 2);
    assert_eq!(groups[0].1[0].id, b"5".to_vec());
    assert_eq!(groups[0].1[1].id, b"3".to_vec());
    assert_eq!(groups[1].1.len(), 2);
    assert_eq!(groups[2].1.len(), 1);
}

fn full_page(start: u64) -> Vec<GachaRecord> {
    // PAGE_SIZE records with strictly decreasing ids
    (0..PAGE_SIZE as u64)
        .map(|i| record(&format!("{}", start - i), "301"))
        .collect()
}

#[test]
fn short_page_exhausts_the_partition() {
    let mut p = PartitionFetch::new(b"301".to_vec(), None);
    p.apply_page(&vec![record("9", "301"), record("8", "301")]);
    assert!(p.done);
    assert_eq!(p.records.len(), 2);
    assert_eq!(p.cursor, Some(b"8".to_vec()));
}

#[test]
fn full_page_continues_with_cursor() {
    let mut p = PartitionFetch::new(b"301".to_vec(), None);
    p.apply_page(&full_page(1000));
    assert!(!p.done);
    assert_eq!(p.records.len(), PAGE_SIZE);
    assert_eq!(p.cursor, Some(b"981".to_vec()));
    assert_eq!(p.next_request(), Some(Some(b"981".to_vec())));

    p.apply_page(&vec![record("980", "301")]);
    assert!(p.done);
    assert_eq!(p.records.len(), PAGE_SIZE + 1);
    assert_eq!(p.next_request(), None);
}

#[test]
fn empty_page_exhausts_the_partition() {
    let mut p = PartitionFetch::new(b"301".to_vec(), None);
    p.apply_page(&Vec::new());
    assert!(p.done);
    assert!(p.records.is_empty());
    assert_eq!(p.cursor, None);
}

#[test]
fn bounded_fetch_stops_at_the_known_id() {
    let mut p = PartitionFetch::new(b"301".to_vec(), Some(b"985".to_vec()));
    // a full page whose tail reaches past the bound
    p.apply_page(&full_page(1000));
    // 1000 down to 986 are newer than the bound; 985 and older are not
    assert!(p.done);
    assert_eq!(p.records.len(), 15);
    assert_eq!(p.records.last().unwrap().id, b"986".to_vec());
}

#[test]
fn full_resync_clears_the_bound() {
    let mut p = PartitionFetch::new(b"301".to_vec(), Some(b"985".to_vec()));
    p.clear_stop();
    p.apply_page(&full_page(1000));
    assert!(!p.done);
    assert_eq!(p.records.len(), PAGE_SIZE);
}
