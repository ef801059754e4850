use crate::record::VariantRecord;
use vstd::prelude::*;

verus! {

/// What is reported for each member of a duplicate group: the fields that
/// make up one output line.
pub struct RecordSummary {
    pub rid: u32,
    pub pos: i64,
    pub id: String,
    pub reference: String,
    pub alternate: String,
}

/// Mathematical image of a `RecordSummary`.
#[verifier::ext_equal]
pub struct SummaryModel {
    pub rid: u32,
    pub pos: i64,
    pub id: Seq<char>,
    pub reference: Seq<char>,
    pub alternate: Seq<char>,
}

impl View for RecordSummary {
    type V = SummaryModel;

    open spec fn view(&self) -> SummaryModel {
        SummaryModel {
            rid: self.rid,
            pos: self.pos,
            id: self.id@,
            reference: self.reference@,
            alternate: self.alternate@,
        }
    }
}

impl RecordSummary {
    /// Field-by-field copy, with the same view as the original.
    fn duplicate(&self) -> (s: RecordSummary)
        ensures
            s@ == self@,
    {
        RecordSummary {
            rid: self.rid,
            pos: self.pos,
            id: self.id.clone(),
            reference: self.reference.clone(),
            alternate: self.alternate.clone(),
        }
    }
}

/// The records of the current position window that share one duplicate key
/// (sequence id, position, reference allele, alternate allele).
pub struct DuplicateGroup {
    pub rid: u32,
    pub pos: i64,
    pub reference: String,
    pub alternate: String,
    pub members: Vec<RecordSummary>,
}

/// Mathematical image of a `DuplicateGroup`.
#[verifier::ext_equal]
pub struct GroupModel {
    pub rid: u32,
    pub pos: i64,
    pub reference: Seq<char>,
    pub alternate: Seq<char>,
    pub members: Seq<SummaryModel>,
}

impl View for DuplicateGroup {
    type V = GroupModel;

    open spec fn view(&self) -> GroupModel {
        GroupModel {
            rid: self.rid,
            pos: self.pos,
            reference: self.reference@,
            alternate: self.alternate@,
            members: self.members@.map_values(|m: RecordSummary| m@),
        }
    }
}

/// Detects duplicate records in a stream sorted by position. Records of the
/// current position window are grouped by (sequence id, position, reference,
/// alternate); when a record moves to a new position the window is flushed
/// and every member of every group that collected more than one record is
/// reported.
pub struct DuplicateDetector {
    pub pos: i64,
    pub groups: Vec<DuplicateGroup>,
}

/// Mathematical image of a `DuplicateDetector`.
#[verifier::ext_equal]
pub struct DetectorModel {
    pub pos: i64,
    pub groups: Seq<GroupModel>,
}

impl View for DuplicateDetector {
    type V = DetectorModel;

    open spec fn view(&self) -> DetectorModel {
        DetectorModel {
            pos: self.pos,
            groups: self.groups@.map_values(|g: DuplicateGroup| g@),
        }
    }
}

/// A record takes part in duplicate detection exactly when it is bi-allelic
/// and carries a sequence id; all other records are skipped.
pub open spec fn participates(r: VariantRecord) -> bool {
    r.alleles@.len() == 2 && r.rid is Some
}

/// The summary reported for a participating record.
pub open spec fn summary_model(r: VariantRecord) -> SummaryModel {
    SummaryModel {
        rid: r.rid->0,
        pos: r.pos,
        id: r.id@,
        reference: r.alleles@[0]@,
        alternate: r.alleles@[1]@,
    }
}

/// The summary belongs to the group: same sequence id, position and alleles.
pub open spec fn group_matches(g: GroupModel, s: SummaryModel) -> bool {
    g.rid == s.rid && g.pos == s.pos && g.reference == s.reference && g.alternate == s.alternate
}

/// A fresh group holding one summary.
pub open spec fn singleton_group(s: SummaryModel) -> GroupModel {
    GroupModel {
        rid: s.rid,
        pos: s.pos,
        reference: s.reference,
        alternate: s.alternate,
        members: seq![s],
    }
}

/// The group extended by one more member.
pub open spec fn group_with(g: GroupModel, s: SummaryModel) -> GroupModel {
    GroupModel {
        rid: g.rid,
        pos: g.pos,
        reference: g.reference,
        alternate: g.alternate,
        members: g.members.push(s),
    }
}

/// Add a summary to the first group with its key, or open a new group at the
/// end when no group has it.
pub open spec fn insert_summary(groups: Seq<GroupModel>, s: SummaryModel) -> Seq<GroupModel>
    decreases groups.len(),
{
    if groups.len() == 0 {
        seq![singleton_group(s)]
    } else if group_matches(groups[0], s) {
        seq![group_with(groups[0], s)] + groups.drop_first()
    } else {
        seq![groups[0]] + insert_summary(groups.drop_first(), s)
    }
}

/// Every member of every group that collected more than one record, in the
/// order the groups were opened.
pub open spec fn duplicate_report(groups: Seq<GroupModel>) -> Seq<SummaryModel>
    decreases groups.len(),
{
    if groups.len() == 0 {
        Seq::empty()
    } else if groups.last().members.len() > 1 {
        duplicate_report(groups.drop_last()) + groups.last().members
    } else {
        duplicate_report(groups.drop_last())
    }
}

/// The state of a freshly created detector: position 0, no groups.
pub open spec fn initial_detector() -> DetectorModel {
    DetectorModel { pos: 0, groups: Seq::empty() }
}

/// Detector state after it has seen one record: unchanged for a record that
/// does not participate; otherwise the record's summary joins its group,
/// inside the current window when the position is unchanged, or as the only
/// group of a fresh window when the position moved.
pub open spec fn push_state(d: DetectorModel, r: VariantRecord) -> DetectorModel {
    if !participates(r) {
        d
    } else if d.pos == r.pos {
        DetectorModel { pos: d.pos, groups: insert_summary(d.groups, summary_model(r)) }
    } else {
        DetectorModel { pos: r.pos, groups: seq![singleton_group(summary_model(r))] }
    }
}

/// What seeing one record makes the detector report: the closed window's
/// duplicates when a participating record moves to a new position, and
/// nothing otherwise.
pub open spec fn push_report(d: DetectorModel, r: VariantRecord) -> Seq<SummaryModel> {
    if participates(r) && d.pos != r.pos {
        duplicate_report(d.groups)
    } else {
        Seq::empty()
    }
}

/// Views of a sequence of summaries.
pub open spec fn summaries_view(v: Seq<RecordSummary>) -> Seq<SummaryModel> {
    v.map_values(|m: RecordSummary| m@)
}

/// Appending a summary and taking views commute.
proof fn lemma_summaries_view_push(v: Seq<RecordSummary>, x: RecordSummary)
    ensures
        summaries_view(v.push(x)) =~= summaries_view(v).push(x@),
{
    assert forall|q: int| 0 <= q < v.len() + 1 implies summaries_view(v.push(x))[q]
        == summaries_view(v).push(x@)[q] by {
        if q < v.len() {
            assert(v.push(x)[q] == v[q]);
        } else {
            assert(v.push(x)[q] == x);
        }
    }
}

/// One step of scanning the groups left to right for the report.
proof fn lemma_report_take_step(groups: Seq<GroupModel>, i: int)
    requires
        0 <= i < groups.len(),
    ensures
        duplicate_report(groups.take(i + 1)) == duplicate_report(groups.take(i)) + (
        if groups[i].members.len() > 1 {
            groups[i].members
        } else {
            Seq::<SummaryModel>::empty()
        }),
{
    let t = groups.take(i + 1);
    assert(t.last() == groups[i]);
    assert(t.drop_last() =~= groups.take(i));
    if !(groups[i].members.len() > 1) {
        assert(duplicate_report(groups.take(i)) + Seq::<SummaryModel>::empty() =~= duplicate_report(
            groups.take(i),
        ));
    }
}

/// Inserting a summary whose key the first `i` groups lack and group `i` has
/// extends group `i` in place.
proof fn lemma_insert_at(groups: Seq<GroupModel>, s: SummaryModel, i: int)
    requires
        0 <= i < groups.len(),
        forall|j: int| 0 <= j < i ==> !group_matches(#[trigger] groups[j], s),
        group_matches(groups[i], s),
    ensures
        insert_summary(groups, s) =~= groups.update(i, group_with(groups[i], s)),
    decreases i,
{
    if i == 0 {
        assert(insert_summary(groups, s) =~= groups.update(0, group_with(groups[0], s)));
    } else {
        assert(!group_matches(groups[0], s));
        assert forall|j: int| 0 <= j < i - 1 implies !group_matches(
            #[trigger] groups.drop_first()[j],
            s,
        ) by {
            assert(groups.drop_first()[j] == groups[j + 1]);
        }
        assert(groups.drop_first()[i - 1] == groups[i]);
        lemma_insert_at(groups.drop_first(), s, i - 1);
        assert(insert_summary(groups, s) =~= groups.update(i, group_with(groups[i], s)));
    }
}

/// Inserting a summary whose key no group has appends a fresh singleton
/// group.
proof fn lemma_insert_append(groups: Seq<GroupModel>, s: SummaryModel)
    requires
        forall|j: int| 0 <= j < groups.len() ==> !group_matches(#[trigger] groups[j], s),
    ensures
        insert_summary(groups, s) =~= groups.push(singleton_group(s)),
    decreases groups.len(),
{
    if groups.len() == 0 {
    } else {
        assert forall|j: int| 0 <= j < groups.drop_first().len() implies !group_matches(
            #[trigger] groups.drop_first()[j],
            s,
        ) by {
            assert(groups.drop_first()[j] == groups[j + 1]);
        }
        lemma_insert_append(groups.drop_first(), s);
        assert(insert_summary(groups, s) =~= groups.push(singleton_group(s)));
    }
}

impl DuplicateDetector {
    /// A detector with no groups, expecting the first window at position 0.
    pub fn new() -> (d: Self)
        ensures
            d@ == initial_detector(),
    {
        let d = DuplicateDetector { pos: 0, groups: Vec::new() };
        proof {
            assert(d@ =~= initial_detector());
        }
        d
    }

    /// Every member of every group of the current window that collected more
    /// than one record, in the order the groups were opened.
    pub fn collect_duplicates(&self) -> (out: Vec<RecordSummary>)
        ensures
            summaries_view(out@) == duplicate_report(self@.groups),
    {
        let mut out: Vec<RecordSummary> = Vec::new();
        proof {
            assert(summaries_view(out@) =~= duplicate_report(self@.groups.take(0)));
        }
        let n = self.groups.len();
        let mut i: usize = 0;
        while i < n
            invariant
                n == self.groups@.len(),
                i <= n,
                summaries_view(out@) == duplicate_report(self@.groups.take(i as int)),
            decreases n - i,
        {
            proof {
                assert(self@.groups[i as int] == self.groups@[i as int]@);
            }
            if self.groups[i].members.len() > 1 {
                let m = self.groups[i].members.len();
                let mut j: usize = 0;
                proof {
                    assert(self@.groups[i as int].members.take(0)
                        =~= Seq::<SummaryModel>::empty());
                    assert(summaries_view(out@) + Seq::<SummaryModel>::empty() =~= summaries_view(
                        out@,
                    ));
                }
                while j < m
                    invariant
                        n == self.groups@.len(),
                        i < n,
                        m == self@.groups[i as int].members.len(),
                        j <= m,
                        summaries_view(out@) == duplicate_report(self@.groups.take(i as int))
                            + self@.groups[i as int].members.take(j as int),
                    decreases m - j,
                {
                    proof {
                        assert(self@.groups[i as int] == self.groups@[i as int]@);
                        assert(self@.groups[i as int].members[j as int] == self.groups@[
                            i as int].members@[j as int]@);
                    }
                    let s = self.groups[i].members[j].duplicate();
                    let ghost snap = out@;
                    let ghost selem = s;
                    out.push(s);
                    proof {
                        lemma_summaries_view_push(snap, selem);
                        let gm = self@.groups[i as int].members;
                        assert(gm.take(j as int + 1) =~= gm.take(j as int).push(gm[j as int]));
                        assert((duplicate_report(self@.groups.take(i as int)) + gm.take(
                            j as int,
                        )).push(gm[j as int]) =~= duplicate_report(self@.groups.take(i as int))
                            + gm.take(j as int + 1));
                        assert(summaries_view(out@) =~= duplicate_report(self@.groups.take(
                            i as int,
                        )) + gm.take(j as int + 1));
                    }
                    j = j + 1;
                }
                proof {
                    lemma_report_take_step(self@.groups, i as int);
                    assert(self@.groups[i as int].members.take(m as int) =~= self@.groups[
                        i as int].members);
                    assert(summaries_view(out@) =~= duplicate_report(self@.groups.take(
                        i as int + 1,
                    )));
                }
            } else {
                proof {
                    lemma_report_take_step(self@.groups, i as int);
                    assert(summaries_view(out@) =~= duplicate_report(self@.groups.take(
                        i as int + 1,
                    )));
                }
            }
            i = i + 1;
        }
        proof {
            assert(self@.groups.take(n as int) =~= self@.groups);
        }
        out
    }

    /// Feed one record. Returns the report for the position window that the
    /// record closes: empty unless the record participates and its position
    /// differs from the window's.
    pub fn push(&mut self, record: &VariantRecord) -> (out: Vec<RecordSummary>)
        ensures
            final(self)@ == push_state(old(self)@, *record),
            summaries_view(out@) == push_report(old(self)@, *record),
    {
        if record.alleles.len() != 2 || record.rid.is_none() {
            let out: Vec<RecordSummary> = Vec::new();
            proof {
                assert(!participates(*record));
                assert(summaries_view(out@) =~= push_report(old(self)@, *record));
            }
            return out;
        }
        let rid = record.rid.unwrap();
        let summary = RecordSummary {
            rid,
            pos: record.pos,
            id: record.id.clone(),
            reference: record.alleles[0].clone(),
            alternate: record.alleles[1].clone(),
        };
        let ghost s = summary_model(*record);
        proof {
            assert(summary@ =~= s);
        }

        let mut out: Vec<RecordSummary> = Vec::new();
        if self.pos != record.pos {
            out = self.collect_duplicates();
            self.groups = Vec::new();
            self.pos = record.pos;
        } else {
            proof {
                assert(summaries_view(out@) =~= push_report(old(self)@, *record));
            }
        }
        let ghost mid = self@.groups;
        proof {
            assert(mid =~= if old(self)@.pos == record.pos {
                old(self)@.groups
            } else {
                Seq::<GroupModel>::empty()
            });
        }

        let n = self.groups.len();
        let mut found = false;
        let mut idx: usize = 0;
        let mut i: usize = 0;
        while i < n
            invariant
                n == self.groups@.len(),
                self@.groups == mid,
                self@.pos == record.pos,
                i <= n,
                summary@ == s,
                s == summary_model(*record),
                rid == record.rid->0,
                found ==> 0 <= idx < i && group_matches(mid[idx as int], summary@) && forall|
                    j: int,
                |
                    0 <= j < idx ==> !group_matches(#[trigger] mid[j], summary@),
                !found ==> forall|j: int| 0 <= j < i ==> !group_matches(#[trigger] mid[j], summary@),
            decreases n - i,
        {
            proof {
                assert(mid[i as int] == self.groups@[i as int]@);
            }
            if !found && self.groups[i].rid == rid && self.groups[i].pos == record.pos
                && self.groups[i].reference == summary.reference && self.groups[i].alternate
                == summary.alternate {
                proof {
                    assert(group_matches(mid[i as int], summary@));
                }
                found = true;
                idx = i;
            } else {
                proof {
                    if !found {
                        assert(!group_matches(mid[i as int], summary@));
                    }
                }
            }
            i = i + 1;
        }

        if found {
            let ghost midvec = self.groups@;
            let mut g = self.groups.remove(idx);
            let ghost gsnap = g;
            let ghost sumsnap = summary;
            g.members.push(summary);
            self.groups.insert(idx, g);
            proof {
                lemma_insert_at(mid, s, idx as int);
                lemma_summaries_view_push(gsnap.members@, sumsnap);
                let target = mid.update(idx as int, group_with(mid[idx as int], s));
                assert(self.groups@ =~= midvec.update(idx as int, g));
                assert(g@ =~= group_with(mid[idx as int], s));
                assert forall|q: int| 0 <= q < self@.groups.len() implies self@.groups[q]
                    == target[q] by {
                    assert(self@.groups[q] == self.groups@[q]@);
                    if q != idx {
                        assert(self.groups@[q] == midvec[q]);
                        assert(mid[q] == midvec[q]@);
                    }
                }
                assert(self@.groups =~= target);
                assert(final(self)@ =~= push_state(old(self)@, *record));
            }
        } else {
            let ghost midvec = self.groups@;
            let reference = summary.reference.clone();
            let alternate = summary.alternate.clone();
            let mut members: Vec<RecordSummary> = Vec::new();
            let ghost sumsnap = summary;
            members.push(summary);
            let pos = self.pos;
            self.groups.push(DuplicateGroup { rid, pos, reference, alternate, members });
            proof {
                lemma_insert_append(mid, s);
                lemma_summaries_view_push(Seq::<RecordSummary>::empty(), sumsnap);
                assert(summaries_view(Seq::<RecordSummary>::empty())
                    =~= Seq::<SummaryModel>::empty());
                let ng = self.groups@[self.groups@.len() - 1];
                assert(ng.members@ =~= Seq::<RecordSummary>::empty().push(sumsnap));
                assert(ng@ =~= singleton_group(s));
                let target = mid.push(singleton_group(s));
                assert forall|q: int| 0 <= q < self@.groups.len() implies self@.groups[q]
                    == target[q] by {
                    assert(self@.groups[q] == self.groups@[q]@);
                    if q < mid.len() {
                        assert(self.groups@[q] == midvec[q]);
                        assert(mid[q] == midvec[q]@);
                    }
                }
                assert(self@.groups =~= target);
                assert(final(self)@ =~= push_state(old(self)@, *record));
            }
        }
        out
    }
}

/// The report of a window holding one group: its members when there are at
/// least two of them, nothing otherwise.
proof fn lemma_report_singleton(g: GroupModel)
    ensures
        duplicate_report(seq![g]) == if g.members.len() > 1 {
            g.members
        } else {
            Seq::<SummaryModel>::empty()
        },
{
    assert(seq![g].last() == g);
    assert(seq![g].drop_last() =~= Seq::<GroupModel>::empty());
    assert(duplicate_report(Seq::<GroupModel>::empty()) == Seq::<SummaryModel>::empty());
    if g.members.len() > 1 {
        assert(Seq::<SummaryModel>::empty() + g.members =~= g.members);
    }
}

/// Two participating records at one position with the same sequence id,
/// reference and alternate both land in one group, and flushing that window
/// reports both of them, in order.
pub proof fn lemma_duplicate_pair_reported(r1: VariantRecord, r2: VariantRecord)
    requires
        participates(r1),
        participates(r2),
        r1.rid == r2.rid,
        r1.pos == r2.pos,
        r1.alleles@[0]@ == r2.alleles@[0]@,
        r1.alleles@[1]@ == r2.alleles@[1]@,
    ensures
        duplicate_report(push_state(push_state(initial_detector(), r1), r2).groups) == seq![
            summary_model(r1),
            summary_model(r2),
        ],
{
    let s1 = summary_model(r1);
    let s2 = summary_model(r2);
    let d1 = push_state(initial_detector(), r1);
    assert(d1.groups =~= seq![singleton_group(s1)]);
    let d2 = push_state(d1, r2);
    assert(group_matches(singleton_group(s1), s2));
    let g = group_with(singleton_group(s1), s2);
    assert(d2.groups =~= seq![g]);
    assert(g.members =~= seq![s1, s2]);
    lemma_report_singleton(g);
    assert(duplicate_report(d2.groups) =~= seq![s1, s2]);
}

/// Two participating records at one position whose alleles differ land in
/// two groups of one record each, so flushing that window reports nothing.
pub proof fn lemma_distinct_alleles_not_reported(r1: VariantRecord, r2: VariantRecord)
    requires
        participates(r1),
        participates(r2),
        r1.pos == r2.pos,
        r1.alleles@[0]@ != r2.alleles@[0]@ || r1.alleles@[1]@ != r2.alleles@[1]@,
    ensures
        duplicate_report(push_state(push_state(initial_detector(), r1), r2).groups)
            == Seq::<SummaryModel>::empty(),
{
    let s1 = summary_model(r1);
    let s2 = summary_model(r2);
    let d1 = push_state(initial_detector(), r1);
    assert(d1.groups =~= seq![singleton_group(s1)]);
    let d2 = push_state(d1, r2);
    assert(!group_matches(singleton_group(s1), s2));
    assert(seq![singleton_group(s1)].drop_first() =~= Seq::<GroupModel>::empty());
    assert(insert_summary(Seq::<GroupModel>::empty(), s2) =~= seq![singleton_group(s2)]);
    assert(seq![singleton_group(s1)] + seq![singleton_group(s2)] =~= seq![
        singleton_group(s1),
        singleton_group(s2),
    ]);
    assert(d2.groups =~= seq![singleton_group(s1), singleton_group(s2)]);
    assert(d2.groups.drop_last() =~= seq![singleton_group(s1)]);
    assert(d2.groups.last() == singleton_group(s2));
    lemma_report_singleton(singleton_group(s1));
    assert(duplicate_report(d2.groups) == duplicate_report(seq![singleton_group(s1)]));
    assert(duplicate_report(d2.groups) =~= Seq::<SummaryModel>::empty());
}

/// Two participating records with identical sequence id and alleles but
/// different positions never share a window: moving to the second position
/// flushes a window of one singleton group, which reports nothing, and the
/// new window again holds one singleton group.
pub proof fn lemma_distinct_positions_not_reported(r1: VariantRecord, r2: VariantRecord)
    requires
        participates(r1),
        participates(r2),
        r1.rid == r2.rid,
        r1.pos != r2.pos,
        r1.alleles@[0]@ == r2.alleles@[0]@,
        r1.alleles@[1]@ == r2.alleles@[1]@,
    ensures
        push_report(push_state(initial_detector(), r1), r2) == Seq::<SummaryModel>::empty(),
        duplicate_report(push_state(push_state(initial_detector(), r1), r2).groups)
            == Seq::<SummaryModel>::empty(),
{
    let s1 = summary_model(r1);
    let s2 = summary_model(r2);
    let d1 = push_state(initial_detector(), r1);
    assert(d1.groups =~= seq![singleton_group(s1)]);
    assert(d1.pos == r1.pos);
    let d2 = push_state(d1, r2);
    lemma_report_singleton(singleton_group(s1));
    assert(push_report(d1, r2) =~= Seq::<SummaryModel>::empty());
    assert(d2.groups =~= seq![singleton_group(s2)]);
    lemma_report_singleton(singleton_group(s2));
    assert(duplicate_report(d2.groups) =~= Seq::<SummaryModel>::empty());
}

} // verus!
