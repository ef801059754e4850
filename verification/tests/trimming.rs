use mentori::remove_shared_bases;

#[test]
fn test_remove_shared_bases_1() {
    let (shift, reference, alternate) = remove_shared_bases("T", "A");

    assert_eq!(shift, 0);
    assert_eq!(reference, "T");
    assert_eq!(alternate, "A");
}

#[test]
fn test_remove_shared_bases_2() {
    let (shift, reference, alternate) = remove_shared_bases("TA", "AA");

    assert_eq!(shift, 0);
    assert_eq!(reference, "T");
    assert_eq!(alternate, "A");
}

#[test]
fn test_remove_shared_bases_3() {
    let (shift, reference, alternate) = remove_shared_bases("ACCCTAAC", "A");

    assert_eq!(shift, 0);
    assert_eq!(reference, "ACCCTAAC");
    assert_eq!(alternate, "A");
}

#[test]
fn test_remove_shared_bases_4() {
    let (shift, reference, alternate) = remove_shared_bases("ACCCTAAC", "CCCCTAAC");

    assert_eq!(shift, 0);
    assert_eq!(reference, "A");
    assert_eq!(alternate, "C");
}

#[test]
fn test_remove_shared_bases_5() {
    let (shift, reference, alternate) = remove_shared_bases("ACCCTAAC", "ACCCCTAAC");

    assert_eq!(shift, 0);
    assert_eq!(reference, "A");
    assert_eq!(alternate, "AC");
}

#[test]
fn test_remove_shared_bases_6() {
    let (shift, reference, alternate) = remove_shared_bases("CTA", "CT");

    assert_eq!(shift, 1);
    assert_eq!(reference, "TA");
    assert_eq!(alternate, "T");
}

#[test]
fn trimming_is_idempotent() {
    for (r, a) in [
        ("T", "A"),
        ("TA", "AA"),
        ("ACCCTAAC", "A"),
        ("ACCCTAAC", "CCCCTAAC"),
        ("ACCCTAAC", "ACCCCTAAC"),
        ("CTA", "CT"),
        ("GATTACA", "GATTTACA"),
    ] {
        let (_, r1, a1) = remove_shared_bases(r, a);
        let (shift, r2, a2) = remove_shared_bases(&r1, &a1);
        assert_eq!(shift, 0);
        assert_eq!(r2, r1);
        assert_eq!(a2, a1);
    }
}

#[test]
fn trimmed_alleles_are_never_empty() {
    for (r, a) in [
        ("T", "T"),
        ("AA", "AA"),
        ("ACCCTAAC", "A"),
        ("A", "ACCCTAAC"),
        ("GCGCGC", "GC"),
        ("CTA", "CT"),
    ] {
        let (_, r1, a1) = remove_shared_bases(r, a);
        assert!(!r1.is_empty());
        assert!(!a1.is_empty());
    }
}

#[test]
fn shift_stays_within_the_reference() {
    for (r, a) in [("T", "A"), ("ACCCTAAC", "ACCCCTAAC"), ("CTA", "CT"), ("GCGCGC", "GC")] {
        let (shift, r1, _) = remove_shared_bases(r, a);
        assert!(shift >= 0);
        assert!(shift as usize + r1.chars().count() <= r.chars().count());
    }
}

#[test]
fn identical_alleles_keep_one_base() {
    let (shift, reference, alternate) = remove_shared_bases("GGG", "GGG");

    assert_eq!(shift, 0);
    assert_eq!(reference, "G");
    assert_eq!(alternate, "G");
}

#[test]
fn multibyte_characters_trim_on_character_boundaries() {
    let (shift, reference, alternate) = remove_shared_bases("\u{e9}A", "\u{e9}T");

    assert_eq!(shift, 1);
    assert_eq!(reference, "A");
    assert_eq!(alternate, "T");
}

#[test]
fn empty_alleles_pass_through() {
    let (shift, reference, alternate) = remove_shared_bases("", "");

    assert_eq!(shift, 0);
    assert_eq!(reference, "");
    assert_eq!(alternate, "");
}
