use vstd::math::min;
use vstd::prelude::*;

verus! {

/// Length of the longest common prefix of two character sequences.
pub open spec fn common_prefix_len(r: Seq<char>, a: Seq<char>) -> nat
    decreases r.len(),
{
    if r.len() == 0 || a.len() == 0 || r[0] != a[0] {
        0
    } else {
        1 + common_prefix_len(r.drop_first(), a.drop_first())
    }
}

/// Length of the longest common suffix of two character sequences.
pub open spec fn common_suffix_len(r: Seq<char>, a: Seq<char>) -> nat
    decreases r.len(),
{
    if r.len() == 0 || a.len() == 0 || r.last() != a.last() {
        0
    } else {
        1 + common_suffix_len(r.drop_last(), a.drop_last())
    }
}

/// The characters at distance `j` from the right ends of both sequences
/// are equal (a quantifiable form of "the `j`-th trailing characters match").
pub open spec fn tail_match(r: Seq<char>, a: Seq<char>, j: int) -> bool {
    r[r.len() - 1 - j] == a[a.len() - 1 - j]
}

/// Number of trailing characters removed by the right trim: the longest
/// common suffix, capped so that neither sequence is ever fully consumed.
pub open spec fn suffix_trim_len(r: Seq<char>, a: Seq<char>) -> int {
    if r.len() == 0 || a.len() == 0 {
        0
    } else {
        min(common_suffix_len(r, a) as int, min(r.len() - 1, a.len() - 1))
    }
}

/// Number of leading characters removed by the left trim: the longest common
/// prefix, capped so that it stops one character short of the region the
/// right trim has already reserved.
pub open spec fn prefix_trim_len(r: Seq<char>, a: Seq<char>) -> int {
    if r.len() == 0 || a.len() == 0 {
        0
    } else {
        let k = suffix_trim_len(r, a);
        min(common_prefix_len(r, a) as int, min(r.len() - k - 1, a.len() - k - 1))
    }
}

/// The reference allele after both trims.
pub open spec fn trimmed_reference(r: Seq<char>, a: Seq<char>) -> Seq<char> {
    r.subrange(prefix_trim_len(r, a), r.len() - suffix_trim_len(r, a))
}

/// The alternate allele after both trims.
pub open spec fn trimmed_alternate(r: Seq<char>, a: Seq<char>) -> Seq<char> {
    a.subrange(prefix_trim_len(r, a), a.len() - suffix_trim_len(r, a))
}

/// `common_prefix_len` is a common prefix and is maximal: the characters
/// right after it (when both exist) differ.
proof fn lemma_common_prefix_len(r: Seq<char>, a: Seq<char>)
    ensures
        common_prefix_len(r, a) <= r.len(),
        common_prefix_len(r, a) <= a.len(),
        forall|j: int| 0 <= j < common_prefix_len(r, a) ==> r[j] == a[j],
        common_prefix_len(r, a) < r.len() && common_prefix_len(r, a) < a.len() ==> r[common_prefix_len(
            r,
            a,
        ) as int] != a[common_prefix_len(r, a) as int],
    decreases r.len(),
{
    if r.len() == 0 || a.len() == 0 || r[0] != a[0] {
    } else {
        lemma_common_prefix_len(r.drop_first(), a.drop_first());
        let n = common_prefix_len(r, a) as int;
        assert forall|j: int| 0 <= j < n implies r[j] == a[j] by {
            if j > 0 {
                assert(r.drop_first()[j - 1] == r[j]);
                assert(a.drop_first()[j - 1] == a[j]);
            }
        }
        if n < r.len() && n < a.len() {
            assert(r.drop_first()[n - 1] == r[n]);
            assert(a.drop_first()[n - 1] == a[n]);
        }
    }
}

/// `common_suffix_len` is a common suffix and is maximal: the characters
/// right before it (when both exist) differ.
proof fn lemma_common_suffix_len(r: Seq<char>, a: Seq<char>)
    ensures
        common_suffix_len(r, a) <= r.len(),
        common_suffix_len(r, a) <= a.len(),
        forall|j: int| 0 <= j < common_suffix_len(r, a) ==> #[trigger] tail_match(r, a, j),
        common_suffix_len(r, a) < r.len() && common_suffix_len(r, a) < a.len() ==> r[r.len() - 1
            - common_suffix_len(r, a)] != a[a.len() - 1 - common_suffix_len(r, a)],
    decreases r.len(),
{
    if r.len() == 0 || a.len() == 0 || r.last() != a.last() {
    } else {
        lemma_common_suffix_len(r.drop_last(), a.drop_last());
        let n = common_suffix_len(r, a) as int;
        assert forall|j: int| 0 <= j < n implies #[trigger] tail_match(r, a, j) by {
            if j > 0 {
                assert(tail_match(r.drop_last(), a.drop_last(), j - 1));
                assert(r.drop_last()[r.len() - 1 - j] == r[r.len() - 1 - j]);
                assert(a.drop_last()[a.len() - 1 - j] == a[a.len() - 1 - j]);
            }
        }
        if n < r.len() && n < a.len() {
            assert(r.drop_last()[r.len() - 1 - n] == r[r.len() - 1 - n]);
            assert(a.drop_last()[a.len() - 1 - n] == a[a.len() - 1 - n]);
        }
    }
}

/// Bounds on the two trim lengths for non-empty alleles: the right trim never
/// consumes either allele, and the left trim stops short of the right trim's
/// boundary, so at least one character survives on each side.
pub proof fn lemma_trim_bounds(r: Seq<char>, a: Seq<char>)
    requires
        r.len() > 0,
        a.len() > 0,
    ensures
        0 <= suffix_trim_len(r, a),
        suffix_trim_len(r, a) <= r.len() - 1,
        suffix_trim_len(r, a) <= a.len() - 1,
        0 <= prefix_trim_len(r, a),
        prefix_trim_len(r, a) <= r.len() - suffix_trim_len(r, a) - 1,
        prefix_trim_len(r, a) <= a.len() - suffix_trim_len(r, a) - 1,
{
    lemma_common_suffix_len(r, a);
    lemma_common_prefix_len(r, a);
}

/// A scan that matched the `k` trailing characters and then stopped, either
/// at a mismatch or one short of consuming an allele, found the right trim.
proof fn lemma_suffix_scan(r: Seq<char>, a: Seq<char>, k: int)
    requires
        r.len() > 0,
        a.len() > 0,
        0 <= k,
        k + 1 <= r.len(),
        k + 1 <= a.len(),
        forall|j: int| 0 <= j < k ==> #[trigger] tail_match(r, a, j),
        k + 1 == r.len() || k + 1 == a.len() || r[r.len() - 1 - k] != a[a.len() - 1 - k],
    ensures
        k == suffix_trim_len(r, a),
{
    lemma_common_suffix_len(r, a);
    let lcs = common_suffix_len(r, a) as int;
    if lcs < k {
        assert(tail_match(r, a, lcs));
        assert(false);
    }
    if k + 1 < r.len() && k + 1 < a.len() {
        if lcs > k {
            assert(tail_match(r, a, k));
            assert(false);
        }
    }
}

/// A scan that matched the `p` leading characters and then stopped, either at
/// a mismatch or one short of the right trim's boundary, found the left trim.
proof fn lemma_prefix_scan(r: Seq<char>, a: Seq<char>, k: int, p: int)
    requires
        r.len() > 0,
        a.len() > 0,
        k == suffix_trim_len(r, a),
        0 <= p,
        p + 1 <= r.len() - k,
        p + 1 <= a.len() - k,
        forall|j: int| 0 <= j < p ==> r[j] == a[j],
        p + 1 == r.len() - k || p + 1 == a.len() - k || r[p] != a[p],
    ensures
        p == prefix_trim_len(r, a),
{
    lemma_trim_bounds(r, a);
    lemma_common_prefix_len(r, a);
    let lcp = common_prefix_len(r, a) as int;
    if lcp < p {
        assert(r[lcp] == a[lcp]);
        assert(false);
    }
    if p + 1 < r.len() - k && p + 1 < a.len() - k {
        if lcp > p {
            assert(r[p] == a[p]);
            assert(false);
        }
    }
}

/// Trimming is idempotent: the pair a trim produced trims no further, so a
/// second application returns the same pair with shift 0.
pub proof fn lemma_trim_idempotent(r: Seq<char>, a: Seq<char>)
    requires
        r.len() > 0,
        a.len() > 0,
    ensures
        prefix_trim_len(trimmed_reference(r, a), trimmed_alternate(r, a)) == 0,
        suffix_trim_len(trimmed_reference(r, a), trimmed_alternate(r, a)) == 0,
        trimmed_reference(trimmed_reference(r, a), trimmed_alternate(r, a)) == trimmed_reference(
            r,
            a,
        ),
        trimmed_alternate(trimmed_reference(r, a), trimmed_alternate(r, a)) == trimmed_alternate(
            r,
            a,
        ),
{
    lemma_trim_bounds(r, a);
    lemma_common_suffix_len(r, a);
    lemma_common_prefix_len(r, a);
    let k = suffix_trim_len(r, a);
    let p = prefix_trim_len(r, a);
    let lcs = common_suffix_len(r, a) as int;
    let lcp = common_prefix_len(r, a) as int;
    let r1 = trimmed_reference(r, a);
    let a1 = trimmed_alternate(r, a);
    assert(r1.len() == r.len() - k - p);
    assert(a1.len() == a.len() - k - p);

    // The right trim of the trimmed pair removes nothing.
    if k == lcs && k < r.len() - 1 && k < a.len() - 1 {
        // The trim stopped at a mismatch, which now sits at the very end.
        assert(r1.last() == r[r.len() - 1 - k]);
        assert(a1.last() == a[a.len() - 1 - k]);
        assert(common_suffix_len(r1, a1) == 0);
    } else {
        // The trim stopped one short of consuming an allele, and the left
        // trim could not remove that last character either.
        assert(r1.len() == 1 || a1.len() == 1);
    }
    assert(suffix_trim_len(r1, a1) == 0);

    // The left trim of the trimmed pair removes nothing.
    if p == lcp && p < r.len() - k - 1 && p < a.len() - k - 1 {
        assert(r1[0] == r[p]);
        assert(a1[0] == a[p]);
        assert(r[p] != a[p]);
        assert(common_prefix_len(r1, a1) == 0);
    } else {
        assert(r1.len() == 1 || a1.len() == 1);
    }
    assert(prefix_trim_len(r1, a1) == 0);

    assert(trimmed_reference(r1, a1) =~= r1);
    assert(trimmed_alternate(r1, a1) =~= a1);
}

/// Remove the bases shared between a reference and an alternate allele from
/// both ends, character by character, never consuming either allele
/// entirely. Returns the number of characters removed from the left (the
/// position shift) and the two trimmed alleles.
pub fn remove_shared_bases(reference: &str, alternate: &str) -> (res: (i64, String, String))
    requires
        reference@.len() <= i64::MAX,
    ensures
        res.0 == prefix_trim_len(reference@, alternate@),
        res.1@ == trimmed_reference(reference@, alternate@),
        res.2@ == trimmed_alternate(reference@, alternate@),
        0 <= res.0,
        res.0 + res.1@.len() <= reference@.len(),
        res.0 + res.2@.len() <= alternate@.len(),
        reference@.len() > 0 && alternate@.len() > 0 ==> res.1@.len() > 0 && res.2@.len() > 0,
{
    let rlen = reference.unicode_len();
    let alen = alternate.unicode_len();

    let mut k: usize = 0;
    let mut p: usize = 0;

    if rlen > 0 && alen > 0 {
        loop
            invariant
                rlen == reference@.len(),
                alen == alternate@.len(),
                0 < rlen,
                0 < alen,
                k + 1 <= rlen,
                k + 1 <= alen,
                forall|j: int| 0 <= j < k ==> #[trigger] tail_match(reference@, alternate@, j),
            ensures
                k + 1 <= rlen,
                k + 1 <= alen,
                forall|j: int| 0 <= j < k ==> #[trigger] tail_match(reference@, alternate@, j),
                k + 1 == rlen || k + 1 == alen || reference@[rlen - 1 - k] != alternate@[alen - 1
                    - k],
            decreases rlen - k,
        {
            if k + 1 == rlen || k + 1 == alen {
                break ;
            }
            let c1 = reference.get_char(rlen - 1 - k);
            let c2 = alternate.get_char(alen - 1 - k);
            if c1 != c2 {
                break ;
            }
            proof {
                assert(tail_match(reference@, alternate@, k as int));
            }
            k = k + 1;
        }
        proof {
            lemma_suffix_scan(reference@, alternate@, k as int);
        }
        loop
            invariant
                rlen == reference@.len(),
                alen == alternate@.len(),
                0 < rlen,
                0 < alen,
                k == suffix_trim_len(reference@, alternate@),
                p + 1 <= rlen - k,
                p + 1 <= alen - k,
                forall|j: int| 0 <= j < p ==> reference@[j] == alternate@[j],
            ensures
                p + 1 <= rlen - k,
                p + 1 <= alen - k,
                forall|j: int| 0 <= j < p ==> reference@[j] == alternate@[j],
                p + 1 == rlen - k || p + 1 == alen - k || reference@[p as int] != alternate@[
                    p as int],
            decreases rlen - p,
        {
            if p + 1 == rlen - k || p + 1 == alen - k {
                break ;
            }
            let c1 = reference.get_char(p);
            let c2 = alternate.get_char(p);
            if c1 != c2 {
                break ;
            }
            p = p + 1;
        }
        proof {
            lemma_prefix_scan(reference@, alternate@, k as int, p as int);
            lemma_trim_bounds(reference@, alternate@);
        }
    }
    let trimmed_r = reference.substring_char(p, rlen - k).to_owned();
    let trimmed_a = alternate.substring_char(p, alen - k).to_owned();
    (p as i64, trimmed_r, trimmed_a)
}

} // verus!
