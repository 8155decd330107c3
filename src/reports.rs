use vstd::prelude::*;
use crate::model::{
    CircuitImportReport, NotificationRepository, ReportView, Reporter, StoreError, FINISH_KIND,
};

verus! {

/// An entry of the report log with its acknowledgement flag.
pub struct StoredReport {
    pub report: CircuitImportReport,
    pub seen: bool,
}

/// A stored entry as plain values.
pub struct StoredView {
    pub report: ReportView,
    pub seen: bool,
}

impl View for StoredReport {
    type V = StoredView;

    open spec fn view(&self) -> StoredView {
        StoredView { report: self.report@, seen: self.seen }
    }
}

/// Whether some entry of the log has this identifier.
pub open spec fn has_id(log: Seq<StoredView>, id: Seq<char>) -> bool {
    exists|i: int| 0 <= i < log.len() && #[trigger] log[i].report.id == id
}

/// The log after every entry with this identifier is marked as seen.
pub open spec fn acknowledged(log: Seq<StoredView>, id: Seq<char>) -> Seq<StoredView> {
    Seq::new(
        log.len(),
        |i: int| if log[i].report.id == id { StoredView { seen: true, ..log[i] } } else { log[i] },
    )
}

/// The log after the message of every entry with this identifier is replaced.
pub open spec fn finished(log: Seq<StoredView>, id: Seq<char>, message: Seq<char>) -> Seq<StoredView> {
    Seq::new(
        log.len(),
        |i: int| if log[i].report.id == id {
            StoredView { report: ReportView { message, ..log[i].report }, ..log[i] }
        } else {
            log[i]
        },
    )
}

/// Whether an entry is an import's opening entry that nobody has acknowledged.
pub open spec fn is_new(e: StoredView) -> bool {
    e.report.kind == FINISH_KIND@ && !e.seen
}

/// The opening entries that nobody has acknowledged, in log order.
pub open spec fn unseen_finish(log: Seq<StoredView>) -> Seq<ReportView>
    decreases log.len(),
{
    if log.len() == 0 {
        Seq::empty()
    } else if is_new(log.last()) {
        unseen_finish(log.drop_last()).push(log.last().report)
    } else {
        unseen_finish(log.drop_last())
    }
}

/// The reports of a log, in order.
pub open spec fn all_reports(log: Seq<StoredView>) -> Seq<ReportView> {
    log.map_values(|e: StoredView| e.report)
}

/// The report log in memory: entries in insertion order, each identifier at
/// most once.
pub struct ReportLog {
    entries: Vec<StoredReport>,
}

impl View for ReportLog {
    type V = Seq<StoredView>;

    closed spec fn view(&self) -> Seq<StoredView> {
        self.entries@.map_values(|e: StoredReport| e@)
    }
}

/// Whether no two entries share an identifier.
pub open spec fn unique_ids(log: Seq<StoredView>) -> bool {
    forall|i: int, j: int| 0 <= i < j < log.len() ==> log[i].report.id != log[j].report.id
}

impl ReportLog {
    /// An empty log.
    pub fn new() -> (r: ReportLog)
        ensures
            r@ == Seq::<StoredView>::empty(),
    {
        let r = ReportLog { entries: Vec::new() };
        assert(r@ =~= Seq::<StoredView>::empty());
        r
    }

    fn find(&self, id: &String) -> (r: Option<usize>)
        ensures
            r matches Some(i) ==> i < self@.len() && self@[i as int].report.id == id@,
            r is None ==> !has_id(self@, id@),
    {
        let mut i: usize = 0;
        while i < self.entries.len()
            invariant
                i <= self.entries.len(),
                forall|j: int| 0 <= j < i ==> self@[j].report.id != id@,
            decreases self.entries.len() - i,
        {
            if self.entries[i].report.id == *id {
                return Some(i);
            }
            i = i + 1;
        }
        None
    }
}

impl Reporter<CircuitImportReport> for ReportLog {
    type Id = String;

    /// Appends an entry, not yet seen. An identifier already in the log is refused.
    fn report(&mut self, value: CircuitImportReport) -> (r: Result<CircuitImportReport, StoreError>)
        ensures
            unique_ids(old(self)@) ==> unique_ids(final(self)@),
            has_id(old(self)@, value@.id) ==> r == Err::<CircuitImportReport, StoreError>(StoreError::DuplicateId)
                && final(self)@ == old(self)@,
            !has_id(old(self)@, value@.id) ==> (r matches Ok(v) && v@ == value@)
                && final(self)@ == old(self)@.push(StoredView { report: value@, seen: false }),
    {
        if self.find(&value.id).is_some() {
            return Err(StoreError::DuplicateId);
        }
        let copy = value.duplicate();
        let ghost prev = self@;
        self.entries.push(StoredReport { report: value, seen: false });
        assert(self@ =~= prev.push(StoredView { report: copy@, seen: false }));
        Ok(copy)
    }

    /// Marks every entry with this identifier as seen. Doing it again changes
    /// nothing and succeeds again; an identifier that no entry has is refused.
    fn acknowledge(&mut self, id: String) -> (r: Result<(), StoreError>)
        ensures
            unique_ids(old(self)@) ==> unique_ids(final(self)@),
            final(self)@ == acknowledged(old(self)@, id@),
            r is Ok <==> has_id(old(self)@, id@),
            r matches Err(e) ==> e == StoreError::NotFound,
    {
        let ghost prev = self@;
        assert(forall|j: int| 0 <= j < self.entries@.len() ==> #[trigger] self.entries@[j]@ == prev[j]);
        let mut found = false;
        let mut i: usize = 0;
        while i < self.entries.len()
            invariant
                i <= self.entries.len(),
                self.entries@.len() == prev.len(),
                forall|j: int| 0 <= j < i ==> #[trigger] self.entries@[j]@ == acknowledged(prev, id@)[j],
                forall|j: int| i <= j < self.entries@.len() ==> #[trigger] self.entries@[j]@ == prev[j],
                found <==> exists|j: int| 0 <= j < i && #[trigger] prev[j].report.id == id@,
            decreases self.entries.len() - i,
        {
            assert(self.entries@[i as int]@ == prev[i as int]);
            let is_match = self.entries[i].report.id == id;
            assert(is_match <==> prev[i as int].report.id == id@);
            if is_match {
                self.entries[i].seen = true;
                found = true;
            }
            assert(self.entries@[i as int]@ == acknowledged(prev, id@)[i as int]);
            assert(is_match ==> prev[i as int].report.id == id@);
            i = i + 1;
        }
        assert(self@ =~= acknowledged(prev, id@));
        if found {
            Ok(())
        } else {
            Err(StoreError::NotFound)
        }
    }

    /// Replaces the message of every entry with this identifier; an identifier
    /// that no entry has is refused.
    fn finish(&mut self, id: String, message: String) -> (r: Result<(), StoreError>)
        ensures
            unique_ids(old(self)@) ==> unique_ids(final(self)@),
            final(self)@ == finished(old(self)@, id@, message@),
            r is Ok <==> has_id(old(self)@, id@),
            r matches Err(e) ==> e == StoreError::NotFound,
    {
        let ghost prev = self@;
        assert(forall|j: int| 0 <= j < self.entries@.len() ==> #[trigger] self.entries@[j]@ == prev[j]);
        let mut found = false;
        let mut i: usize = 0;
        while i < self.entries.len()
            invariant
                i <= self.entries.len(),
                self.entries@.len() == prev.len(),
                forall|j: int| 0 <= j < i ==> #[trigger] self.entries@[j]@ == finished(prev, id@, message@)[j],
                forall|j: int| i <= j < self.entries@.len() ==> #[trigger] self.entries@[j]@ == prev[j],
                found <==> exists|j: int| 0 <= j < i && #[trigger] prev[j].report.id == id@,
            decreases self.entries.len() - i,
        {
            assert(self.entries@[i as int]@ == prev[i as int]);
            let is_match = self.entries[i].report.id == id;
            assert(is_match <==> prev[i as int].report.id == id@);
            if is_match {
                self.entries[i].report.message = message.clone();
                found = true;
            }
            assert(self.entries@[i as int]@ == finished(prev, id@, message@)[i as int]);
            i = i + 1;
        }
        assert(self@ =~= finished(prev, id@, message@));
        if found {
            Ok(())
        } else {
            Err(StoreError::NotFound)
        }
    }
}

impl NotificationRepository<CircuitImportReport> for ReportLog {
    /// Every entry, in log order.
    fn get_all(&self) -> (r: Result<Vec<CircuitImportReport>, StoreError>)
        ensures
            r matches Ok(v) && v@.map_values(|e: CircuitImportReport| e@) == all_reports(self@),
    {
        let mut out: Vec<CircuitImportReport> = Vec::new();
        let mut i: usize = 0;
        while i < self.entries.len()
            invariant
                i <= self.entries.len(),
                out.len() == i,
                forall|j: int| 0 <= j < i ==> #[trigger] out@[j]@ == self@[j].report,
            decreases self.entries.len() - i,
        {
            out.push(self.entries[i].report.duplicate());
            i = i + 1;
        }
        assert(out@.map_values(|e: CircuitImportReport| e@) =~= all_reports(self@));
        Ok(out)
    }

    /// The opening entries that nobody has acknowledged, in log order.
    fn get_new(&self) -> (r: Result<Vec<CircuitImportReport>, StoreError>)
        ensures
            r matches Ok(v) && v@.map_values(|e: CircuitImportReport| e@) == unseen_finish(self@),
    {
        let mut out: Vec<CircuitImportReport> = Vec::new();
        let mut i: usize = 0;
        let finish_kind = FINISH_KIND.to_string();
        while i < self.entries.len()
            invariant
                i <= self.entries.len(),
                finish_kind@ == FINISH_KIND@,
                out@.map_values(|e: CircuitImportReport| e@) == unseen_finish(self@.subrange(0, i as int)),
            decreases self.entries.len() - i,
        {
            let ghost before = out@;
            let e = &self.entries[i];
            assert(self@.subrange(0, i + 1).drop_last() =~= self@.subrange(0, i as int));
            if !e.seen && e.report.kind == finish_kind {
                out.push(e.report.duplicate());
                assert(out@.map_values(|e: CircuitImportReport| e@) =~= before.map_values(
                    |e: CircuitImportReport| e@,
                ).push(self@[i as int].report));
            }
            i = i + 1;
        }
        assert(self@.subrange(0, self@.len() as int) =~= self@);
        Ok(out)
    }
}

/// Nothing that `get_new` lists has been acknowledged: each entry that it
/// returns stands in the log as an opening entry whose `seen` flag is false.
pub proof fn lemma_new_entries_are_unseen(log: Seq<StoredView>, k: int)
    requires
        0 <= k < unseen_finish(log).len(),
    ensures
        exists|i: int| 0 <= i < log.len() && !log[i].seen && log[i].report.kind == FINISH_KIND@
            && #[trigger] log[i].report == unseen_finish(log)[k],
    decreases log.len(),
{
    let prev = unseen_finish(log.drop_last());
    if is_new(log.last()) && k == prev.len() {
        assert(log[log.len() - 1].report == unseen_finish(log)[k]);
    } else {
        lemma_new_entries_are_unseen(log.drop_last(), k);
        let i = choose|i: int| 0 <= i < log.drop_last().len() && !log.drop_last()[i].seen
            && log.drop_last()[i].report.kind == FINISH_KIND@
            && #[trigger] log.drop_last()[i].report == prev[k];
        assert(log[i] == log.drop_last()[i]);
    }
}

/// Acknowledging the same identifier twice is the same as acknowledging it
/// once: the second call changes nothing, and it succeeds whenever the first
/// did, with every entry of that identifier still seen.
pub proof fn lemma_acknowledge_twice(log: Seq<StoredView>, id: Seq<char>)
    ensures
        acknowledged(acknowledged(log, id), id) == acknowledged(log, id),
        has_id(acknowledged(log, id), id) == has_id(log, id),
        forall|i: int| 0 <= i < log.len() && log[i].report.id == id ==>
            #[trigger] acknowledged(log, id)[i].seen,
{
    let once = acknowledged(log, id);
    assert(acknowledged(once, id) =~= once);
    if has_id(log, id) {
        let i = choose|i: int| 0 <= i < log.len() && #[trigger] log[i].report.id == id;
        assert(once[i].report.id == id);
    }
    if has_id(once, id) {
        let i = choose|i: int| 0 <= i < once.len() && #[trigger] once[i].report.id == id;
        assert(log[i].report.id == id);
    }
}

/// Once an identifier is acknowledged, `get_new` lists no entry of it.
pub proof fn lemma_acknowledged_not_new(log: Seq<StoredView>, id: Seq<char>, k: int)
    requires
        0 <= k < unseen_finish(acknowledged(log, id)).len(),
    ensures
        unseen_finish(acknowledged(log, id))[k].id != id,
{
    let once = acknowledged(log, id);
    lemma_new_entries_are_unseen(once, k);
}

} // verus!
