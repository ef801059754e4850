use mentori::dedup::DuplicateDetector;
use mentori::record::VariantRecord;

fn record(rid: Option<u32>, pos: i64, id: &str, alleles: &[&str]) -> VariantRecord {
    VariantRecord {
        rid,
        pos,
        id: id.to_string(),
        alleles: alleles.iter().map(|a| a.to_string()).collect(),
    }
}

#[test]
fn identical_records_at_one_position_are_both_reported() {
    let mut d = DuplicateDetector::new();

    assert!(d.push(&record(Some(1), 7, "a", &["A", "T"])).is_empty());
    assert!(d.push(&record(Some(1), 7, "b", &["A", "T"])).is_empty());

    let report = d.collect_duplicates();
    assert_eq!(report.len(), 2);
    assert_eq!(report[0].id, "a");
    assert_eq!(report[1].id, "b");
    assert_eq!(report[0].rid, 1);
    assert_eq!(report[0].pos, 7);
    assert_eq!(report[0].reference, "A");
    assert_eq!(report[0].alternate, "T");
}

#[test]
fn differing_alleles_at_one_position_are_not_reported() {
    let mut d = DuplicateDetector::new();

    assert!(d.push(&record(Some(1), 7, "a", &["A", "T"])).is_empty());
    assert!(d.push(&record(Some(1), 7, "b", &["A", "G"])).is_empty());

    assert!(d.collect_duplicates().is_empty());
}

#[test]
fn identical_alleles_at_differing_positions_are_not_reported() {
    let mut d = DuplicateDetector::new();

    assert!(d.push(&record(Some(1), 7, "a", &["A", "T"])).is_empty());
    assert!(d.push(&record(Some(1), 8, "b", &["A", "T"])).is_empty());

    assert!(d.collect_duplicates().is_empty());
}

#[test]
fn moving_to_a_new_position_flushes_the_window() {
    let mut d = DuplicateDetector::new();

    assert!(d.push(&record(Some(1), 7, "a", &["A", "T"])).is_empty());
    assert!(d.push(&record(Some(1), 7, "b", &["A", "T"])).is_empty());

    let flushed = d.push(&record(Some(1), 9, "c", &["C", "G"]));
    assert_eq!(flushed.len(), 2);
    assert_eq!(flushed[0].id, "a");
    assert_eq!(flushed[1].id, "b");

    assert!(d.collect_duplicates().is_empty());
}

#[test]
fn three_identical_records_are_all_reported() {
    let mut d = DuplicateDetector::new();

    for id in ["a", "b", "c"] {
        assert!(d.push(&record(Some(2), 5, id, &["AC", "A"])).is_empty());
    }

    let report = d.collect_duplicates();
    assert_eq!(report.len(), 3);
    assert_eq!(report[0].id, "a");
    assert_eq!(report[1].id, "b");
    assert_eq!(report[2].id, "c");
}

#[test]
fn differing_sequence_ids_are_not_duplicates() {
    let mut d = DuplicateDetector::new();

    assert!(d.push(&record(Some(1), 7, "a", &["A", "T"])).is_empty());
    assert!(d.push(&record(Some(2), 7, "b", &["A", "T"])).is_empty());

    assert!(d.collect_duplicates().is_empty());
}

#[test]
fn records_without_two_alleles_or_without_sequence_id_are_skipped() {
    let mut d = DuplicateDetector::new();

    assert!(d.push(&record(Some(1), 7, "a", &["A", "T", "G"])).is_empty());
    assert!(d.push(&record(Some(1), 7, "b", &["A", "T", "G"])).is_empty());
    assert!(d.push(&record(Some(1), 7, "c", &["A"])).is_empty());
    assert!(d.push(&record(None, 7, "d", &["A", "T"])).is_empty());
    assert!(d.push(&record(None, 7, "e", &["A", "T"])).is_empty());

    assert!(d.collect_duplicates().is_empty());
}

#[test]
fn duplicate_groups_flush_in_the_order_they_were_opened() {
    let mut d = DuplicateDetector::new();

    assert!(d.push(&record(Some(1), 7, "a", &["A", "T"])).is_empty());
    assert!(d.push(&record(Some(1), 7, "b", &["C", "G"])).is_empty());
    assert!(d.push(&record(Some(1), 7, "c", &["C", "G"])).is_empty());
    assert!(d.push(&record(Some(1), 7, "d", &["A", "T"])).is_empty());

    let report = d.collect_duplicates();
    assert_eq!(report.len(), 4);
    assert_eq!(report[0].id, "a");
    assert_eq!(report[1].id, "d");
    assert_eq!(report[2].id, "b");
    assert_eq!(report[3].id, "c");
}
