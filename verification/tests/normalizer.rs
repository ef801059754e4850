use mentori::errors::Error;
use mentori::normalize;
use mentori::record::VariantRecord;

fn record(rid: Option<u32>, pos: i64, id: &str, alleles: &[&str]) -> VariantRecord {
    VariantRecord {
        rid,
        pos,
        id: id.to_string(),
        alleles: alleles.iter().map(|a| a.to_string()).collect(),
    }
}

#[test]
fn biallelic_record_is_trimmed_and_shifted() {
    let mut r = record(Some(3), 100, "rs1", &["CTA", "CT"]);

    assert!(normalize(&mut r).is_ok());
    assert_eq!(r.rid, Some(3));
    assert_eq!(r.pos, 101);
    assert_eq!(r.id, "rs1");
    assert_eq!(r.alleles, vec!["TA".to_string(), "T".to_string()]);
}

#[test]
fn already_minimal_record_is_unchanged_with_zero_shift() {
    let mut r = record(Some(0), 42, "rs2", &["T", "A"]);

    assert!(normalize(&mut r).is_ok());
    assert_eq!(r.pos, 42);
    assert_eq!(r.alleles, vec!["T".to_string(), "A".to_string()]);
}

#[test]
fn triallelic_record_passes_through_untouched() {
    let mut r = record(Some(1), 7, "rs3", &["CTA", "CT", "C"]);

    assert!(normalize(&mut r).is_ok());
    assert_eq!(r.rid, Some(1));
    assert_eq!(r.pos, 7);
    assert_eq!(r.id, "rs3");
    assert_eq!(
        r.alleles,
        vec!["CTA".to_string(), "CT".to_string(), "C".to_string()]
    );
}

#[test]
fn reference_only_record_passes_through_untouched() {
    let mut r = record(Some(1), 7, "rs4", &["CTA"]);

    assert!(normalize(&mut r).is_ok());
    assert_eq!(r.pos, 7);
    assert_eq!(r.alleles, vec!["CTA".to_string()]);
}

#[test]
fn record_without_sequence_id_fails_and_is_unchanged() {
    let mut r = record(None, 100, "rs5", &["CTA", "CT"]);

    let res = normalize(&mut r);
    assert!(matches!(res, Err(Error::ReferenceIdNotFoundError)));
    assert_eq!(r.rid, None);
    assert_eq!(r.pos, 100);
    assert_eq!(r.id, "rs5");
    assert_eq!(r.alleles, vec!["CTA".to_string(), "CT".to_string()]);
}
