//! Normalization of genomic variant records: trimming the bases an allele
//! pair shares at either end (shifting the record's position accordingly)
//! and detection of duplicate records that share a position and alleles.
//! Reading and writing the variant-call container format is left to an
//! outside I/O shell, which hands records over as plain values.

pub mod dedup;
pub mod errors;
pub mod normalizer;
pub mod record;
pub mod trimming;

pub use normalizer::normalize;
pub use trimming::remove_shared_bases;
