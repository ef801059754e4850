use crate::errors::Error;
use crate::record::VariantRecord;
use crate::trimming::{prefix_trim_len, remove_shared_bases, trimmed_alternate, trimmed_reference};
use vstd::prelude::*;

verus! {

/// Normalize a variant record in place. A record without a sequence id is
/// rejected and left untouched. A bi-allelic record (exactly two alleles) has
/// the bases shared by its reference and alternate alleles trimmed from both
/// ends and its position advanced by the number of characters removed from
/// the left; every other field is kept. A record with fewer or more than two
/// alleles passes through unmodified, and the call still succeeds.
pub fn normalize(record: &mut VariantRecord) -> (res: Result<(), Error>)
    requires
        old(record).alleles@.len() == 2 ==> old(record).alleles@[0]@.len() <= i64::MAX && old(
            record,
        ).pos + old(record).alleles@[0]@.len() <= i64::MAX,
    ensures
        res is Err <==> old(record).rid is None,
        res is Err ==> (res matches Err(Error::ReferenceIdNotFoundError)) && *final(record)
            == *old(record),
        old(record).rid is Some && old(record).alleles@.len() != 2 ==> *final(record) == *old(
            record,
        ),
        old(record).rid is Some && old(record).alleles@.len() == 2 ==> {
            let r = old(record).alleles@[0]@;
            let a = old(record).alleles@[1]@;
            &&& final(record).rid == old(record).rid
            &&& final(record).id == old(record).id
            &&& final(record).pos == old(record).pos + prefix_trim_len(r, a)
            &&& final(record).alleles@.len() == 2
            &&& final(record).alleles@[0]@ == trimmed_reference(r, a)
            &&& final(record).alleles@[1]@ == trimmed_alternate(r, a)
        },
{
    if record.rid.is_none() {
        return Err(Error::ReferenceIdNotFoundError);
    }
    if record.alleles.len() == 2 {
        let (shift, reference, alternate) = remove_shared_bases(
            record.alleles[0].as_str(),
            record.alleles[1].as_str(),
        );
        let mut alleles: Vec<String> = Vec::new();
        alleles.push(reference);
        alleles.push(alternate);
        record.pos = record.pos + shift;
        record.alleles = alleles;
    }
    Ok(())
}

} // verus!
