use vstd::prelude::*;

verus! {

/// A variant record as the normalizer and duplicate detector see it: an
/// optional sequence id, a 0-based position, an identifier, and the allele
/// texts with the reference allele first and the alternates after it.
///
/// The variant I/O shell owns the on-disk representation; it hands records
/// over in this form and converts them back after normalization.
pub struct VariantRecord {
    /// Sequence (reference) id, absent when the record has no sequence.
    pub rid: Option<u32>,
    /// 0-based genomic position.
    pub pos: i64,
    /// Record identifier.
    pub id: String,
    /// Allele texts: index 0 is the reference, the rest are alternates.
    pub alleles: Vec<String>,
}

} // verus!
