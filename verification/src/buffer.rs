//! The report buffer: at most one record for each request identifier.

use crate::report::{Report, ReportView};
use vstd::prelude::*;

verus! {

/// No two records of `entries` have the same `id`.
pub open spec fn distinct_ids(entries: Seq<ReportView>) -> bool {
    forall|i: int, j: int|
        0 <= i < j < entries.len() ==> (#[trigger] entries[i]).id != (#[trigger] entries[j]).id
}

/// Some record of `entries` has this `id`.
pub open spec fn holds_id(entries: Seq<ReportView>, id: Seq<char>) -> bool {
    exists|i: int| 0 <= i < entries.len() && (#[trigger] entries[i]).id == id
}

/// `entries` after `report` went in: it takes the place of the record with
/// its `id`, or the last place if there is no such record.
pub open spec fn upsert(entries: Seq<ReportView>, report: ReportView) -> Seq<ReportView> {
    if holds_id(entries, report.id) {
        entries.map_values(
            |e: ReportView|
                if e.id == report.id {
                    report
                } else {
                    e
                },
        )
    } else {
        entries.push(report)
    }
}

/// The mapping from `id` to record that a list of records stands for, a later
/// record replacing an earlier one with the same `id`.
pub open spec fn mapping_of(entries: Seq<ReportView>) -> Map<Seq<char>, ReportView>
    decreases entries.len(),
{
    if entries.len() == 0 {
        Map::empty()
    } else {
        mapping_of(entries.drop_last()).insert(entries.last().id, entries.last())
    }
}

/// The mapping of a list holds exactly the identifiers of the list.
pub proof fn lemma_mapping_domain(entries: Seq<ReportView>)
    ensures
        mapping_of(entries).dom().finite(),
        forall|id: Seq<char>| mapping_of(entries).dom().contains(id) <==> holds_id(entries, id),
    decreases entries.len(),
{
    if entries.len() > 0 {
        let front = entries.drop_last();
        lemma_mapping_domain(front);
        assert forall|id: Seq<char>| mapping_of(entries).dom().contains(id) implies holds_id(
            entries,
            id,
        ) by {
            if id == entries.last().id {
                assert(entries[entries.len() - 1].id == id);
            } else {
                assert(holds_id(front, id));
                let i = choose|i: int| 0 <= i < front.len() && (#[trigger] front[i]).id == id;
                assert(entries[i].id == id);
            }
        }
        assert forall|id: Seq<char>| holds_id(entries, id) implies mapping_of(
            entries,
        ).dom().contains(id) by {
            let i = choose|i: int| 0 <= i < entries.len() && (#[trigger] entries[i]).id == id;
            if i < entries.len() - 1 {
                assert(front[i].id == id);
                assert(holds_id(front, id));
            }
        }
    }
}

/// In a list without a repeated identifier, the mapping has one entry for
/// each record, and it is that record.
pub proof fn lemma_mapping_of_distinct(entries: Seq<ReportView>)
    requires
        distinct_ids(entries),
    ensures
        mapping_of(entries).dom().finite(),
        mapping_of(entries).len() == entries.len(),
        forall|i: int|
            0 <= i < entries.len() ==> mapping_of(entries).dom().contains(
                (#[trigger] entries[i]).id,
            ) && mapping_of(entries)[entries[i].id] == entries[i],
    decreases entries.len(),
{
    lemma_mapping_domain(entries);
    if entries.len() > 0 {
        let front = entries.drop_last();
        assert(distinct_ids(front)) by {
            assert forall|i: int, j: int| 0 <= i < j < front.len() implies (#[trigger] front[i]).id
                != (#[trigger] front[j]).id by {
                assert(entries[i].id != entries[j].id);
            }
        }
        lemma_mapping_of_distinct(front);
        lemma_mapping_domain(front);
        assert(!mapping_of(front).dom().contains(entries.last().id)) by {
            if holds_id(front, entries.last().id) {
                let i = choose|i: int|
                    0 <= i < front.len() && (#[trigger] front[i]).id == entries.last().id;
                assert(entries[i].id != entries[entries.len() - 1].id);
            }
        }
        assert forall|i: int| 0 <= i < entries.len() implies mapping_of(entries).dom().contains(
            (#[trigger] entries[i]).id,
        ) && mapping_of(entries)[entries[i].id] == entries[i] by {
            if i < entries.len() - 1 {
                assert(front[i] == entries[i]);
                assert(entries[i].id != entries[entries.len() - 1].id);
            }
        }
    }
}

/// Putting a record into a list without a repeated identifier puts it into
/// the mapping, and repeats no identifier.
pub proof fn lemma_upsert(entries: Seq<ReportView>, report: ReportView)
    requires
        distinct_ids(entries),
    ensures
        distinct_ids(upsert(entries, report)),
        mapping_of(upsert(entries, report)) == mapping_of(entries).insert(report.id, report),
    decreases entries.len(),
{
    let after = upsert(entries, report);
    if !holds_id(entries, report.id) {
        assert(after.drop_last() =~= entries);
        assert forall|i: int, j: int| 0 <= i < j < after.len() implies (#[trigger] after[i]).id != (
        #[trigger] after[j]).id by {
            if j == entries.len() {
                assert(entries[i].id != report.id);
            } else {
                assert(entries[i].id != entries[j].id);
            }
        }
    } else {
        assert forall|i: int, j: int| 0 <= i < j < after.len() implies (#[trigger] after[i]).id != (
        #[trigger] after[j]).id by {
            assert(entries[i].id != entries[j].id);
        }
        let front = entries.drop_last();
        let last = entries.last();
        assert(distinct_ids(front)) by {
            assert forall|i: int, j: int| 0 <= i < j < front.len() implies (#[trigger] front[i]).id
                != (#[trigger] front[j]).id by {
                assert(entries[i].id != entries[j].id);
            }
        }
        if last.id == report.id {
            assert(!holds_id(front, report.id)) by {
                if holds_id(front, report.id) {
                    let i = choose|i: int|
                        0 <= i < front.len() && (#[trigger] front[i]).id == report.id;
                    assert(entries[i].id != entries[entries.len() - 1].id);
                }
            }
            assert(after.drop_last() =~= front) by {
                assert forall|i: int| 0 <= i < front.len() implies after.drop_last()[i]
                    == front[i] by {
                    assert(entries[i].id != entries[entries.len() - 1].id);
                }
            }
            assert(after.last() == report);
            assert(mapping_of(after) =~= mapping_of(entries).insert(report.id, report));
        } else {
            assert(holds_id(front, report.id)) by {
                let i = choose|i: int|
                    0 <= i < entries.len() && (#[trigger] entries[i]).id == report.id;
                assert(front[i].id == report.id);
            }
            lemma_upsert(front, report);
            assert(after.drop_last() =~= upsert(front, report));
            assert(after.last() == last);
            assert(mapping_of(after) =~= mapping_of(entries).insert(report.id, report));
        }
    }
}

/// `entries` after each of `reports` went in, in order.
pub open spec fn upsert_all(entries: Seq<ReportView>, reports: Seq<ReportView>) -> Seq<ReportView>
    decreases reports.len(),
{
    if reports.len() == 0 {
        entries
    } else {
        upsert(upsert_all(entries, reports.drop_last()), reports.last())
    }
}

/// However many records go in, no identifier is ever held twice.
pub proof fn lemma_upsert_all_distinct(entries: Seq<ReportView>, reports: Seq<ReportView>)
    requires
        distinct_ids(entries),
    ensures
        distinct_ids(upsert_all(entries, reports)),
    decreases reports.len(),
{
    if reports.len() > 0 {
        lemma_upsert_all_distinct(entries, reports.drop_last());
        lemma_upsert(upsert_all(entries, reports.drop_last()), reports.last());
    }
}

/// Last write wins: after any number of inserts under one `id`, the buffer
/// holds exactly one record for that `id`, the one that went in last, and
/// every other identifier keeps its record.
pub proof fn lemma_last_write_wins(
    entries: Seq<ReportView>,
    reports: Seq<ReportView>,
    id: Seq<char>,
)
    requires
        distinct_ids(entries),
        reports.len() > 0,
        forall|i: int| 0 <= i < reports.len() ==> (#[trigger] reports[i]).id == id,
    ensures
        distinct_ids(upsert_all(entries, reports)),
        mapping_of(upsert_all(entries, reports)) == mapping_of(entries).insert(id, reports.last()),
        exists|i: int|
            {
                &&& 0 <= i < upsert_all(entries, reports).len()
                &&& #[trigger] upsert_all(entries, reports)[i] == reports.last()
                &&& forall|j: int|
                    0 <= j < upsert_all(entries, reports).len() && j != i ==> (
                    #[trigger] upsert_all(entries, reports)[j]).id != id
            },
    decreases reports.len(),
{
    let front = reports.drop_last();
    let last = reports.last();
    let before = upsert_all(entries, front);
    let after = upsert_all(entries, reports);
    lemma_upsert_all_distinct(entries, front);
    lemma_upsert(before, last);
    if front.len() > 0 {
        lemma_last_write_wins(entries, front, id);
        assert(mapping_of(after) =~= mapping_of(entries).insert(id, last));
    }
    lemma_mapping_domain(after);
    lemma_mapping_of_distinct(after);
    assert(mapping_of(after).dom().contains(id));
    assert(holds_id(after, id));
    let i = choose|i: int| 0 <= i < after.len() && (#[trigger] after[i]).id == id;
    assert(after[i] == last);
    assert forall|j: int| 0 <= j < after.len() && j != i implies (#[trigger] after[j]).id != id by {
        if j < i {
            assert(after[j].id != after[i].id);
        } else {
            assert(after[i].id != after[j].id);
        }
    }
}

/// Records with distinct identifiers that go into an empty buffer are all
/// kept, each in its turn.
pub proof fn lemma_distinct_inserts(reports: Seq<ReportView>)
    requires
        distinct_ids(reports),
    ensures
        upsert_all(Seq::empty(), reports) == reports,
        mapping_of(upsert_all(Seq::empty(), reports)).len() == reports.len(),
    decreases reports.len(),
{
    if reports.len() > 0 {
        let front = reports.drop_last();
        assert(distinct_ids(front)) by {
            assert forall|i: int, j: int| 0 <= i < j < front.len() implies (#[trigger] front[i]).id
                != (#[trigger] front[j]).id by {
                assert(reports[i].id != reports[j].id);
            }
        }
        lemma_distinct_inserts(front);
        assert(!holds_id(front, reports.last().id)) by {
            if holds_id(front, reports.last().id) {
                let i = choose|i: int|
                    0 <= i < front.len() && (#[trigger] front[i]).id == reports.last().id;
                assert(reports[i].id != reports[reports.len() - 1].id);
            }
        }
        assert(front.push(reports.last()) =~= reports);
    }
    lemma_mapping_of_distinct(reports);
}

/// The buffered reports, keyed by request identifier. A record that enters
/// under an identifier already present replaces the earlier one.
#[derive(Debug)]
pub struct ReportBuffer {
    records: Vec<Report>,
}

impl View for ReportBuffer {
    type V = Map<Seq<char>, ReportView>;

    open spec fn view(&self) -> Map<Seq<char>, ReportView> {
        mapping_of(self.entries())
    }
}

impl ReportBuffer {
    /// The records in the order in which a flush writes them.
    pub closed spec fn entries(&self) -> Seq<ReportView> {
        self.records@.map_values(|r: Report| r@)
    }

    #[verifier::type_invariant]
    spec fn well_formed(&self) -> bool {
        distinct_ids(self.entries())
    }

    /// An empty buffer.
    pub fn new() -> (buffer: ReportBuffer)
        ensures
            buffer.entries() == Seq::<ReportView>::empty(),
            buffer@ == Map::<Seq<char>, ReportView>::empty(),
    {
        let buffer = ReportBuffer { records: Vec::new() };
        assert(buffer.entries() =~= Seq::<ReportView>::empty());
        buffer
    }

    /// The number of records, which is the number of identifiers.
    pub fn len(&self) -> (n: usize)
        ensures
            n == self@.len(),
            n == self.entries().len(),
            distinct_ids(self.entries()),
            self@.dom().finite(),
    {
        proof {
            use_type_invariant(self);
            lemma_mapping_of_distinct(self.entries());
        }
        self.records.len()
    }

    /// Whether the buffer holds no record.
    pub fn is_empty(&self) -> (empty: bool)
        ensures
            empty == (self@.len() == 0),
            empty == (self.entries().len() == 0),
    {
        self.len() == 0
    }

    /// Where the record with this `id` stands, if there is one.
    fn position(&self, id: &String) -> (place: Option<usize>)
        ensures
            match place {
                Some(i) => i < self.entries().len() && self.entries()[i as int].id == id@,
                None => !holds_id(self.entries(), id@),
            },
    {
        let mut i: usize = 0;
        while i < self.records.len()
            invariant
                i <= self.records.len(),
                forall|j: int| 0 <= j < i ==> (#[trigger] self.entries()[j]).id != id@,
            decreases self.records.len() - i,
        {
            if self.records[i].id == *id {
                return Some(i);
            }
            i = i + 1;
        }
        None
    }

    /// The record kept for `id`, if there is one.
    pub fn get(&self, id: &String) -> (found: Option<&Report>)
        ensures
            found.is_some() == self@.dom().contains(id@),
            found matches Some(report) ==> report@ == self@[id@],
    {
        proof {
            use_type_invariant(self);
            lemma_mapping_domain(self.entries());
            lemma_mapping_of_distinct(self.entries());
        }
        match self.position(id) {
            Some(i) => Some(&self.records[i]),
            None => None,
        }
    }

    /// Puts `report` into the buffer under its `id`, in place of the record
    /// that was there under that `id`, if any.
    pub fn insert(&mut self, report: Report)
        ensures
            final(self).entries() == upsert(old(self).entries(), report@),
            final(self)@ == old(self)@.insert(report@.id, report@),
            distinct_ids(final(self).entries()),
    {
        proof {
            use_type_invariant(&*self);
            lemma_upsert(self.entries(), report@);
        }
        let ghost before = self.entries();
        let place = self.position(&report.id);
        // The records are taken out for the change and put back whole.
        let mut records: Vec<Report> = Vec::new();
        core::mem::swap(&mut self.records, &mut records);
        match place {
            Some(i) => {
                proof {
                    assert forall|j: int| 0 <= j < before.len() && j != i implies (
                    #[trigger] before[j]).id != report@.id by {
                        if j < i {
                            assert(before[j].id != before[i as int].id);
                        } else {
                            assert(before[i as int].id != before[j].id);
                        }
                    }
                }
                records.set(i, report);
            },
            None => {
                records.push(report);
            },
        }
        assert(records@.map_values(|r: Report| r@) =~= upsert(before, report@));
        core::mem::swap(&mut self.records, &mut records);
    }

    /// Empties the buffer.
    pub fn clear(&mut self)
        ensures
            final(self).entries() == Seq::<ReportView>::empty(),
            final(self)@ == Map::<Seq<char>, ReportView>::empty(),
    {
        let mut records: Vec<Report> = Vec::new();
        assert(records@.map_values(|r: Report| r@) =~= Seq::<ReportView>::empty());
        core::mem::swap(&mut self.records, &mut records);
    }

    /// The records in the order in which a flush writes them.
    pub fn records(&self) -> (records: &Vec<Report>)
        ensures
            records@.map_values(|r: Report| r@) == self.entries(),
            distinct_ids(self.entries()),
    {
        proof {
            use_type_invariant(self);
        }
        &self.records
    }
}

} // verus!
