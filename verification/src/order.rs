//! The order in which a listing is shown.
//!
//! A listing comes in the order of the scan. Between collecting and
//! drawing it can be put into another order; the records themselves are
//! never changed, added or dropped.

use crate::record::record_views;
use crate::record::PathKind;
use crate::record::PathRecord;
use crate::record::PathRecordView;
use crate::text::chars_of;
use crate::text::same_text;
use vstd::prelude::*;

verus! {

/// The orders that a listing can be shown in.
#[derive(Clone, Copy, Debug, PartialEq, Eq, Structural)]
pub enum SortPolicy {
    /// As listed: the order of the scan.
    Listed,
    /// All folders before all files, each group as listed.
    FoldersFirst,
    /// By name, character by character; records of one name as listed.
    ByName,
}

impl SortPolicy {
    /// The policy that an identifier names, if it names one.
    pub open spec fn named(name: Seq<char>) -> Option<SortPolicy> {
        if name == "listed"@ {
            Some(SortPolicy::Listed)
        } else if name == "folders-first"@ {
            Some(SortPolicy::FoldersFirst)
        } else if name == "name"@ {
            Some(SortPolicy::ByName)
        } else {
            None
        }
    }

    /// Reads the identifier of a policy.
    pub fn from_name(name: &str) -> (policy: Option<SortPolicy>)
        ensures
            policy == SortPolicy::named(name@),
    {
        if same_text(name, "listed") {
            Some(SortPolicy::Listed)
        } else if same_text(name, "folders-first") {
            Some(SortPolicy::FoldersFirst)
        } else if same_text(name, "name") {
            Some(SortPolicy::ByName)
        } else {
            None
        }
    }
}

/// Whether a text comes before another, or is the same, in the order of
/// a dictionary whose letters are ordered as the characters are numbered.
pub open spec fn text_le(a: Seq<char>, b: Seq<char>) -> bool
    decreases a.len(),
{
    if a.len() == 0 {
        true
    } else if b.len() == 0 {
        false
    } else if a[0] != b[0] {
        (a[0] as u32) < (b[0] as u32)
    } else {
        text_le(a.drop_first(), b.drop_first())
    }
}

/// The records of a kind, as listed.
pub open spec fn of_kind(records: Seq<PathRecordView>, kind: PathKind) -> Seq<PathRecordView>
    decreases records.len(),
{
    if records.len() == 0 {
        Seq::<PathRecordView>::empty()
    } else if records.last().kind == kind {
        of_kind(records.drop_last(), kind).push(records.last())
    } else {
        of_kind(records.drop_last(), kind)
    }
}

/// Where a record of a name goes among records that are ordered by name:
/// behind the last one whose name does not come after it.
pub open spec fn slot(ordered: Seq<PathRecordView>, name: Seq<char>) -> nat
    decreases ordered.len(),
{
    if ordered.len() == 0 {
        0
    } else if text_le(ordered.last().name, name) {
        ordered.len()
    } else {
        slot(ordered.drop_last(), name)
    }
}

/// The records ordered by name: each, in the order of the listing, put
/// into its slot among those before it.
pub open spec fn by_name(records: Seq<PathRecordView>) -> Seq<PathRecordView>
    decreases records.len(),
{
    if records.len() == 0 {
        Seq::<PathRecordView>::empty()
    } else {
        let before = by_name(records.drop_last());
        before.insert(slot(before, records.last().name) as int, records.last())
    }
}

/// A listing in the order of a policy.
pub open spec fn arranged(records: Seq<PathRecordView>, policy: SortPolicy) -> Seq<PathRecordView> {
    match policy {
        SortPolicy::Listed => records,
        SortPolicy::FoldersFirst => of_kind(records, PathKind::Folder) + of_kind(
            records,
            PathKind::File,
        ),
        SortPolicy::ByName => by_name(records),
    }
}

/// Whether records are ordered by name.
pub open spec fn ordered_by_name(records: Seq<PathRecordView>) -> bool {
    forall|i: int, j: int|
        0 <= i <= j < records.len() ==> text_le(
            (#[trigger] records[i]).name,
            (#[trigger] records[j]).name,
        )
}

/// Every text is in order with itself.
pub proof fn lemma_text_le_reflexive(a: Seq<char>)
    ensures
        text_le(a, a),
    decreases a.len(),
{
    if a.len() > 0 {
        lemma_text_le_reflexive(a.drop_first());
    }
}

/// Of two texts one comes before the other, or they are the same.
pub proof fn lemma_text_le_total(a: Seq<char>, b: Seq<char>)
    ensures
        text_le(a, b) || text_le(b, a),
    decreases a.len(),
{
    if a.len() > 0 && b.len() > 0 {
        if a[0] == b[0] {
            lemma_text_le_total(a.drop_first(), b.drop_first());
        } else {
            vstd::utf8::char_u32_cast(a[0], a[0] as u32);
            vstd::utf8::char_u32_cast(b[0], b[0] as u32);
        }
    }
}

/// What comes before a text comes before everything that the text comes
/// before.
pub proof fn lemma_text_le_transitive(a: Seq<char>, b: Seq<char>, c: Seq<char>)
    requires
        text_le(a, b),
        text_le(b, c),
    ensures
        text_le(a, c),
    decreases a.len(),
{
    if a.len() > 0 && b.len() > 0 && c.len() > 0 && a[0] == b[0] && b[0] == c[0] {
        lemma_text_le_transitive(a.drop_first(), b.drop_first(), c.drop_first());
    }
}

/// Two texts that each come before the other are the same.
pub proof fn lemma_text_le_antisymmetric(a: Seq<char>, b: Seq<char>)
    requires
        text_le(a, b),
        text_le(b, a),
    ensures
        a == b,
    decreases a.len(),
{
    if a.len() > 0 && b.len() > 0 {
        lemma_text_le_antisymmetric(a.drop_first(), b.drop_first());
        assert(a =~= seq![a[0]] + a.drop_first());
        assert(b =~= seq![b[0]] + b.drop_first());
    } else {
        assert(a =~= b);
    }
}

/// The slot of a name lies behind a record whose name does not come after
/// it, and before all records whose names do.
pub proof fn lemma_slot(ordered: Seq<PathRecordView>, name: Seq<char>)
    ensures
        slot(ordered, name) <= ordered.len(),
        slot(ordered, name) > 0 ==> text_le(ordered[slot(ordered, name) - 1].name, name),
        forall|k: int|
            slot(ordered, name) <= k < ordered.len() ==> !text_le(
                (#[trigger] ordered[k]).name,
                name,
            ),
    decreases ordered.len(),
{
    if ordered.len() > 0 && !text_le(ordered.last().name, name) {
        lemma_slot(ordered.drop_last(), name);
        assert forall|k: int| slot(ordered, name) <= k < ordered.len() implies !text_le(
            (#[trigger] ordered[k]).name,
            name,
        ) by {
            if k < ordered.len() - 1 {
                assert(ordered.drop_last()[k] == ordered[k]);
            }
        }
    }
}

/// Putting a record into its slot keeps records ordered by name.
pub proof fn lemma_slot_keeps_order(ordered: Seq<PathRecordView>, record: PathRecordView)
    requires
        ordered_by_name(ordered),
    ensures
        ordered_by_name(ordered.insert(slot(ordered, record.name) as int, record)),
{
    let at = slot(ordered, record.name) as int;
    let grown = ordered.insert(at, record);
    lemma_slot(ordered, record.name);
    lemma_text_le_reflexive(record.name);
    assert forall|i: int, j: int| 0 <= i <= j < grown.len() implies text_le(
        (#[trigger] grown[i]).name,
        (#[trigger] grown[j]).name,
    ) by {
        if i < at && j == at {
            assert(grown[i] == ordered[i]);
            assert(text_le(ordered[i].name, ordered[at - 1].name));
            lemma_text_le_transitive(ordered[i].name, ordered[at - 1].name, record.name);
        } else if i == at && j > at {
            assert(grown[j] == ordered[j - 1]);
            lemma_text_le_total(ordered[j - 1].name, record.name);
        } else if i < at && j > at {
            assert(grown[i] == ordered[i]);
            assert(grown[j] == ordered[j - 1]);
        } else if i > at {
            assert(grown[i] == ordered[i - 1]);
            assert(grown[j] == ordered[j - 1]);
        } else if j < at {
            assert(grown[i] == ordered[i]);
            assert(grown[j] == ordered[j]);
        }
    }
}

/// Ordering by name gives records that are ordered by name.
pub proof fn lemma_by_name_ordered(records: Seq<PathRecordView>)
    ensures
        ordered_by_name(by_name(records)),
    decreases records.len(),
{
    if records.len() > 0 {
        lemma_by_name_ordered(records.drop_last());
        lemma_slot_keeps_order(by_name(records.drop_last()), records.last());
    }
}

/// The folders and the files of a listing are its records.
pub proof fn lemma_kinds_partition(records: Seq<PathRecordView>)
    ensures
        (of_kind(records, PathKind::Folder) + of_kind(records, PathKind::File)).to_multiset()
            == records.to_multiset(),
    decreases records.len(),
{
    let folders = of_kind(records, PathKind::Folder);
    let files = of_kind(records, PathKind::File);
    vstd::seq_lib::lemma_multiset_commutative(folders, files);
    if records.len() == 0 {
        assert(folders + files =~= records);
    } else {
        let before = records.drop_last();
        let last = records.last();
        lemma_kinds_partition(before);
        vstd::seq_lib::lemma_multiset_commutative(
            of_kind(before, PathKind::Folder),
            of_kind(before, PathKind::File),
        );
        assert(records =~= before.push(last));
        vstd::seq_lib::to_multiset_build(before, last);
        vstd::seq_lib::to_multiset_build(of_kind(before, PathKind::Folder), last);
        vstd::seq_lib::to_multiset_build(of_kind(before, PathKind::File), last);
        assert((folders + files).to_multiset() =~= records.to_multiset());
    }
}

/// Ordering by name keeps the records.
pub proof fn lemma_by_name_permutes(records: Seq<PathRecordView>)
    ensures
        by_name(records).to_multiset() == records.to_multiset(),
    decreases records.len(),
{
    if records.len() > 0 {
        let before = records.drop_last();
        let last = records.last();
        lemma_by_name_permutes(before);
        lemma_slot(by_name(before), last.name);
        assert(by_name(before).len() == before.len()) by {
            vstd::seq_lib::to_multiset_len(by_name(before));
            vstd::seq_lib::to_multiset_len(before);
        }
        vstd::seq_lib::to_multiset_insert(
            by_name(before),
            slot(by_name(before), last.name) as int,
            last,
        );
        assert(records =~= before.push(last));
        vstd::seq_lib::to_multiset_build(before, last);
    } else {
        assert(by_name(records) =~= records);
    }
}

/// Whatever the policy, arranging a listing only reorders it: every record
/// is in the result exactly as often as in the listing.
pub proof fn lemma_arranged_permutes(records: Seq<PathRecordView>, policy: SortPolicy)
    ensures
        arranged(records, policy).to_multiset() == records.to_multiset(),
        arranged(records, policy).len() == records.len(),
{
    match policy {
        SortPolicy::Listed => {},
        SortPolicy::FoldersFirst => lemma_kinds_partition(records),
        SortPolicy::ByName => lemma_by_name_permutes(records),
    }
    vstd::seq_lib::to_multiset_len(arranged(records, policy));
    vstd::seq_lib::to_multiset_len(records);
}

/// Whether the name `a` comes before the name `b`, or is the same.
pub fn name_le(a: &str, b: &str) -> (le: bool)
    ensures
        le == text_le(a@, b@),
{
    let x = chars_of(a);
    let y = chars_of(b);
    let mut i: usize = 0;
    assert(a@.skip(0) =~= a@);
    assert(b@.skip(0) =~= b@);
    while i < x.len() && i < y.len()
        invariant
            i <= x.len(),
            i <= y.len(),
            x@ == a@,
            y@ == b@,
            text_le(a@, b@) == text_le(a@.skip(i as int), b@.skip(i as int)),
        decreases x.len() - i,
    {
        proof {
            assert(a@.skip(i as int)[0] == a@[i as int]);
            assert(b@.skip(i as int)[0] == b@[i as int]);
            assert(a@.skip(i as int).drop_first() =~= a@.skip(i + 1));
            assert(b@.skip(i as int).drop_first() =~= b@.skip(i + 1));
        }
        if x[i] != y[i] {
            return (x[i] as u32) < (y[i] as u32);
        }
        i = i + 1;
    }
    i == x.len()
}

/// The records of a kind, as listed, added to `out`.
fn push_kind(out: &mut Vec<PathRecord>, records: &Vec<PathRecord>, kind: PathKind)
    ensures
        record_views(final(out)@) == record_views(old(out)@) + of_kind(record_views(records@), kind),
{
    let ghost views = record_views(records@);
    let mut i: usize = 0;
    assert(views.take(0) =~= Seq::<PathRecordView>::empty());
    assert(record_views(out@) + of_kind(views.take(0), kind) =~= record_views(old(out)@));
    while i < records.len()
        invariant
            i <= records.len(),
            views == record_views(records@),
            record_views(out@) == record_views(old(out)@) + of_kind(views.take(i as int), kind),
        decreases records.len() - i,
    {
        let ghost before = out@;
        proof {
            assert(views.take(i + 1).drop_last() =~= views.take(i as int));
            assert(views.take(i + 1).last() == records@[i as int]@);
        }
        if records[i].kind() == kind {
            out.push(records[i].clone());
            assert(record_views(out@) =~= record_views(before).push(records@[i as int]@));
            assert(record_views(out@) =~= record_views(old(out)@) + of_kind(
                views.take(i + 1),
                kind,
            ));
        }
        i = i + 1;
    }
    assert(views.take(i as int) =~= views);
}

/// A listing in the order of a policy. The listing itself is left as it
/// is.
pub fn arrange(records: &Vec<PathRecord>, policy: SortPolicy) -> (out: Vec<PathRecord>)
    ensures
        record_views(out@) == arranged(record_views(records@), policy),
{
    let ghost views = record_views(records@);
    let mut out: Vec<PathRecord> = Vec::new();
    match policy {
        SortPolicy::Listed => {
            let mut i: usize = 0;
            while i < records.len()
                invariant
                    i <= records.len(),
                    out.len() == i,
                    forall|k: int| 0 <= k < i ==> (#[trigger] out@[k])@ == records@[k]@,
                decreases records.len() - i,
            {
                out.push(records[i].clone());
                i = i + 1;
            }
            assert(record_views(out@) =~= views);
        },
        SortPolicy::FoldersFirst => {
            assert(record_views(out@) =~= Seq::<PathRecordView>::empty());
            push_kind(&mut out, records, PathKind::Folder);
            push_kind(&mut out, records, PathKind::File);
            assert(record_views(out@) =~= arranged(views, policy));
        },
        SortPolicy::ByName => {
            let mut i: usize = 0;
            assert(views.take(0) =~= Seq::<PathRecordView>::empty());
            assert(record_views(out@) =~= by_name(views.take(0)));
            while i < records.len()
                invariant
                    i <= records.len(),
                    views == record_views(records@),
                    record_views(out@) == by_name(views.take(i as int)),
                decreases records.len() - i,
            {
                let record = records[i].clone();
                let ghost before = out@;
                let ghost ordered = record_views(before);
                let mut at: usize = out.len();
                assert(ordered.take(at as int) =~= ordered);
                while at > 0 && !name_le(out[at - 1].name(), record.name())
                    invariant
                        at <= out.len(),
                        out@ == before,
                        ordered == record_views(before),
                        slot(ordered, record@.name) == slot(ordered.take(at as int), record@.name),
                    decreases at,
                {
                    proof {
                        assert(ordered.take(at as int).last() == out@[at - 1]@);
                        assert(ordered.take(at as int).drop_last() =~= ordered.take(at - 1));
                    }
                    at = at - 1;
                }
                proof {
                    if at > 0 {
                        assert(ordered.take(at as int).last() == out@[at - 1]@);
                    }
                    assert(at == slot(ordered, record@.name));
                    assert(views.take(i + 1).drop_last() =~= views.take(i as int));
                    assert(views.take(i + 1).last() == records@[i as int]@);
                }
                out.insert(at, record);
                assert(record_views(out@) =~= ordered.insert(at as int, record@));
                i = i + 1;
            }
            assert(views.take(i as int) =~= views);
        },
    }
    out
}

} // verus!
