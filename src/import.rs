use vstd::prelude::*;
use crate::model::{
    Circuit, CircuitImportReport, DataSource, ReportView, Reporter, ERROR_KIND, FINISH_KIND,
    copy_opt, fresh_id, is_ulid_text, opt_view,
};
use crate::reports::{finished, has_id, ReportLog, StoredView};
use crate::rows::{decode_rows, decoded_rows, rows_view, DecodedRow, RowView};
use crate::store::{holds_id, replaced, CircuitTable};
use crate::text::{decimal, decimal_string};
use crate::web::{
    RequestResponse, is_error_reply, STATUS_BAD_REQUEST, STATUS_INTERNAL_SERVER_ERROR, STATUS_OK,
};

verus! {

/// The summary that ends a run with `errors` failed rows.
pub open spec fn finish_message(errors: nat) -> Seq<char> {
    "Finished import with "@ + decimal(errors) + " errors"@
}

/// The summary that ends a run with `errors` failed rows.
pub fn finish_message_text(errors: usize) -> (r: String)
    ensures
        r@ == finish_message(errors as nat),
{
    let mut m = String::from_str("Finished import with ");
    m.append(decimal_string(errors).as_str());
    m.append(" errors");
    m
}

/// Which store call a decoded row leads to.
#[derive(PartialEq, Eq, Structural, Clone, Copy)]
pub enum ApplyKind {
    Create,
    Update,
}

/// What became of one row of an import run.
pub enum RowFate {
    DecodeFailed,
    Created,
    CreateFailed,
    Updated,
    UpdateFailed,
}

/// Whether a row's fate counts as an error of the run.
pub open spec fn is_failure(f: RowFate) -> bool {
    f is DecodeFailed || f is CreateFailed || f is UpdateFailed
}

/// The number of failed rows.
pub open spec fn failures(fates: Seq<RowFate>) -> nat
    decreases fates.len(),
{
    if fates.len() == 0 {
        0
    } else {
        failures(fates.drop_last()) + if is_failure(fates.last()) { 1nat } else { 0nat }
    }
}

/// The number of rows that the record store accepted.
pub open spec fn successes(fates: Seq<RowFate>) -> nat
    decreases fates.len(),
{
    if fates.len() == 0 {
        0
    } else {
        successes(fates.drop_last()) + if is_failure(fates.last()) { 0nat } else { 1nat }
    }
}

/// The attributes of a decoded row.
pub open spec fn row_fields(row: RowView) -> Seq<Seq<char>> {
    match row {
        RowView::Decoded(f) => f,
        RowView::Malformed(_) => Seq::empty(),
    }
}

/// The message of a malformed row.
pub open spec fn row_message(row: RowView) -> Seq<char> {
    match row {
        RowView::Decoded(_) => Seq::empty(),
        RowView::Malformed(m) => m,
    }
}

/// Whether a row is a circuit with an empty identifier, that is, a new record.
pub open spec fn has_blank_id(row: RowView) -> bool {
    row matches RowView::Decoded(f) && f[0].len() == 0
}

/// The store call that a decoded row leads to: a create for a blank identifier,
/// an update otherwise.
pub open spec fn kind_for(row: RowView) -> ApplyKind {
    if has_blank_id(row) { ApplyKind::Create } else { ApplyKind::Update }
}

/// Whether a fate is one that the row can have: a malformed row fails to decode;
/// a new record is created or fails to be; any other record is updated or fails
/// to be.
pub open spec fn fate_fits(row: RowView, fate: RowFate) -> bool {
    match row {
        RowView::Malformed(_) => fate is DecodeFailed,
        RowView::Decoded(_) => if has_blank_id(row) {
            fate is Created || fate is CreateFailed
        } else {
            fate is Updated || fate is UpdateFailed
        },
    }
}

/// The fate of a row whose store call succeeded or failed.
pub open spec fn applied_fate(kind: ApplyKind, ok: bool) -> RowFate {
    match kind {
        ApplyKind::Create => if ok { RowFate::Created } else { RowFate::CreateFailed },
        ApplyKind::Update => if ok { RowFate::Updated } else { RowFate::UpdateFailed },
    }
}

/// Whether `e` is an error entry of a run with the given file name, carrying
/// `message` under an identifier of its own.
pub open spec fn is_error_entry(e: ReportView, message: Seq<char>, file_name: Option<Seq<char>>) -> bool {
    &&& e.kind == ERROR_KIND@
    &&& is_ulid_text(e.id)
    &&& e.message == message
    &&& e.file_name == file_name
}

/// A create or an update that a run handed out, with the circuit it carries.
pub struct StoreCall {
    pub kind: ApplyKind,
    pub circuit: Seq<Seq<char>>,
}

/// The store calls after an action is handed out: a create or an update is
/// added, any other action leaves them as they are.
pub open spec fn calls_after(calls: Seq<StoreCall>, a: ImportAction) -> Seq<StoreCall> {
    match a {
        ImportAction::Create(c) => calls.push(StoreCall { kind: ApplyKind::Create, circuit: c@ }),
        ImportAction::Update(c) => calls.push(StoreCall { kind: ApplyKind::Update, circuit: c@ }),
        _ => calls,
    }
}

/// What the caller of an import run is to do next.
pub enum ImportAction {
    /// Create this new record in the record store.
    Create(Circuit),
    /// Replace the stored record of this identifier.
    Update(Circuit),
    /// Append this error entry to the report log; a failure to do so is only logged.
    Report(CircuitImportReport),
    /// Replace the message of the run's opening entry; the run is over.
    Finish { id: String, message: String },
}

/// The decisions of one import run over the decoded rows of an upload.
///
/// The run hands out one action at a time. Rows are taken in file order; a
/// create or an update waits for its outcome before the next row is taken.
/// Every failed row, malformed or refused by the store, gives one error entry
/// and counts as one error. After the last row the run hands out the summary
/// for its opening entry and is over.
pub struct ImportRun {
    report_id: String,
    file_name: Option<String>,
    rows: Vec<DecodedRow>,
    next: usize,
    pending: Option<ApplyKind>,
    finished: bool,
    num_errors: usize,
    num_applied: usize,
    fates: Ghost<Seq<RowFate>>,
    reported: Ghost<Seq<ReportView>>,
    calls: Ghost<Seq<StoreCall>>,
}

impl ImportRun {
    /// The identifier of the run's opening entry.
    pub closed spec fn report_id(&self) -> Seq<char> {
        self.report_id@
    }

    /// The file name that the run's entries carry.
    pub closed spec fn file_name(&self) -> Option<Seq<char>> {
        opt_view(self.file_name)
    }

    /// All rows of the upload, in file order.
    pub closed spec fn rows(&self) -> Seq<RowView> {
        rows_view(self.rows@)
    }

    /// The fates of the rows settled so far, in file order.
    pub closed spec fn fates(&self) -> Seq<RowFate> {
        self.fates@
    }

    /// The error entries handed out so far, in order.
    pub closed spec fn reported(&self) -> Seq<ReportView> {
        self.reported@
    }

    /// The creates and updates handed out so far, in order.
    pub closed spec fn calls(&self) -> Seq<StoreCall> {
        self.calls@
    }

    /// The store call whose outcome the run waits for, if any.
    pub closed spec fn pending(&self) -> Option<ApplyKind> {
        self.pending
    }

    /// Whether the summary has been handed out.
    pub closed spec fn is_finished(&self) -> bool {
        self.finished
    }

    /// Whether the run is ready to take its next row (or to finish).
    pub open spec fn awaits_row(&self) -> bool {
        self.pending() is None && !self.is_finished()
    }

    /// Number of rows taken so far, the one whose outcome is awaited included.
    pub open spec fn taken(&self) -> nat {
        self.fates().len() + if self.pending() is Some { 1nat } else { 0nat }
    }

    /// An upper bound on the number of calls left before the run is over.
    pub open spec fn steps_left(&self) -> nat {
        (2 * (self.rows().len() - self.taken()) + (if self.pending() is Some { 1int } else { 0int })
            + if self.is_finished() { 0int } else { 1int }) as nat
    }

    /// The run's invariant: every settled row has a fate that fits it, the
    /// counters and the error entries agree with the fates, and a finished run
    /// has taken every row.
    pub closed spec fn wf(&self) -> bool {
        &&& self.next <= self.rows@.len()
        &&& self.next == self.taken()
        &&& forall|i: int| 0 <= i < self.fates@.len() ==>
                #[trigger] fate_fits(self.rows()[i], self.fates@[i])
        &&& self.pending matches Some(k) ==> {
                &&& self.rows()[self.next - 1] is Decoded
                &&& k == kind_for(self.rows()[self.next - 1])
            }
        &&& self.num_errors == failures(self.fates@)
        &&& self.num_applied == successes(self.fates@)
        &&& self.reported@.len() == failures(self.fates@)
        &&& forall|j: int| 0 <= j < self.reported@.len() ==>
                #[trigger] self.reported@[j].kind == ERROR_KIND@
                && self.reported@[j].file_name == self.file_name()
        &&& self.finished ==> self.next == self.rows@.len() && self.pending is None
    }

    /// A run over the given rows, for the opening entry `report_id`.
    pub fn new(report_id: String, file_name: Option<String>, rows: Vec<DecodedRow>) -> (r: ImportRun)
        ensures
            r.wf(),
            r.awaits_row(),
            r.report_id() == report_id@,
            r.file_name() == opt_view(file_name),
            r.rows() == rows_view(rows@),
            r.fates() == Seq::<RowFate>::empty(),
            r.reported() == Seq::<ReportView>::empty(),
            r.calls() == Seq::<StoreCall>::empty(),
    {
        ImportRun {
            report_id,
            file_name,
            rows,
            next: 0,
            pending: None,
            finished: false,
            num_errors: 0,
            num_applied: 0,
            fates: Ghost(Seq::empty()),
            reported: Ghost(Seq::empty()),
            calls: Ghost(Seq::empty()),
        }
    }

    /// The number of failed rows so far.
    pub fn error_count(&self) -> (r: usize)
        requires
            self.wf(),
        ensures
            r == failures(self.fates()),
    {
        self.num_errors
    }

    /// The number of rows that the record store accepted so far.
    pub fn applied_count(&self) -> (r: usize)
        requires
            self.wf(),
        ensures
            r == successes(self.fates()),
    {
        self.num_applied
    }

    /// The row that the run takes next.
    pub open spec fn current_row(&self) -> RowView {
        self.rows()[self.taken() as int]
    }

    /// Whether the summary has been handed out.
    pub fn finished(&self) -> (r: bool)
        ensures
            r == self.is_finished(),
    {
        self.finished
    }

    /// Whether the run waits for the outcome of a create or an update.
    pub fn waits_for_outcome(&self) -> (r: bool)
        ensures
            r == self.pending() is Some,
    {
        self.pending.is_some()
    }
}

/// Failed and accepted rows together are all settled rows.
pub proof fn lemma_failures_plus_successes(fates: Seq<RowFate>)
    ensures
        failures(fates) + successes(fates) == fates.len(),
    decreases fates.len(),
{
    if fates.len() > 0 {
        lemma_failures_plus_successes(fates.drop_last());
    }
}

proof fn lemma_push_counts(fates: Seq<RowFate>, f: RowFate)
    ensures
        failures(fates.push(f)) == failures(fates) + if is_failure(f) { 1nat } else { 0nat },
        successes(fates.push(f)) == successes(fates) + if is_failure(f) { 0nat } else { 1nat },
{
    assert(fates.push(f).drop_last() =~= fates);
}

impl ImportRun {
    /// Takes the next row and says what to do with it, or, when every row has
    /// been taken, hands out the summary and ends the run.
    ///
    /// A malformed row is settled at once: it counts as an error and its message
    /// goes into an error entry, and the run is ready for the row after it. A row
    /// with a blank identifier is created under a fresh identifier; any other row
    /// is an update. Either way the run then waits for the outcome.
    pub fn next_action(&mut self) -> (a: ImportAction)
        requires
            old(self).wf(),
            old(self).awaits_row(),
        ensures
            final(self).wf(),
            final(self).report_id() == old(self).report_id(),
            final(self).file_name() == old(self).file_name(),
            final(self).rows() == old(self).rows(),
            final(self).steps_left() < old(self).steps_left(),
            final(self).calls() == calls_after(old(self).calls(), a),
            old(self).taken() < old(self).rows().len() ==> {
                &&& final(self).taken() == old(self).taken() + 1
                &&& !final(self).is_finished()
            },
            old(self).taken() < old(self).rows().len()
                && old(self).current_row() is Malformed ==> {
                &&& a matches ImportAction::Report(e)
                &&& is_error_entry(e@, row_message(old(self).current_row()), old(self).file_name())
                &&& final(self).fates() == old(self).fates().push(RowFate::DecodeFailed)
                &&& final(self).reported() == old(self).reported().push(e@)
                &&& final(self).pending() is None
            },
            old(self).taken() < old(self).rows().len()
                && old(self).current_row() is Decoded && has_blank_id(old(self).current_row()) ==> {
                &&& a matches ImportAction::Create(c)
                &&& is_ulid_text(c.id@)
                &&& c@ == row_fields(old(self).current_row()).update(0, c.id@)
                &&& final(self).fates() == old(self).fates()
                &&& final(self).reported() == old(self).reported()
                &&& final(self).pending() == Some(ApplyKind::Create)
            },
            old(self).taken() < old(self).rows().len()
                && old(self).current_row() is Decoded && !has_blank_id(old(self).current_row()) ==> {
                &&& a matches ImportAction::Update(c)
                &&& c@ == row_fields(old(self).current_row())
                &&& final(self).fates() == old(self).fates()
                &&& final(self).reported() == old(self).reported()
                &&& final(self).pending() == Some(ApplyKind::Update)
            },
            old(self).taken() == old(self).rows().len() ==> {
                &&& a matches ImportAction::Finish { id, message }
                &&& id@ == old(self).report_id()
                &&& message@ == finish_message(failures(old(self).fates()))
                &&& final(self).is_finished()
                &&& final(self).fates() == old(self).fates()
                &&& final(self).reported() == old(self).reported()
            },
    {
        proof {
            lemma_failures_plus_successes(self.fates@);
        }
        if self.next < self.rows.len() {
            let i = self.next;
            assert(self.rows()[i as int] == self.rows@[i as int]@);
            let action = match &self.rows[i] {
                DecodedRow::Malformed(m) => ImportAction::Report(CircuitImportReport {
                    kind: ERROR_KIND.to_string(),
                    id: fresh_id(),
                    message: m.clone(),
                    file_name: copy_opt(&self.file_name),
                }),
                DecodedRow::Decoded(c) => {
                    let mut copy = c.duplicate();
                    if c.id.as_str().is_empty() {
                        copy.id = fresh_id();
                        ImportAction::Create(copy)
                    } else {
                        ImportAction::Update(copy)
                    }
                },
            };
            self.next = i + 1;
            let ghost prev = *old(self);
            match &action {
                ImportAction::Report(e) => {
                    proof {
                        lemma_push_counts(self.fates@, RowFate::DecodeFailed);
                    }
                    self.num_errors = self.num_errors + 1;
                    self.fates = Ghost(self.fates@.push(RowFate::DecodeFailed));
                    self.reported = Ghost(self.reported@.push(e@));
                },
                ImportAction::Create(c) => {
                    self.pending = Some(ApplyKind::Create);
                    self.calls = Ghost(self.calls@.push(StoreCall { kind: ApplyKind::Create, circuit: c@ }));
                },
                ImportAction::Update(c) => {
                    self.pending = Some(ApplyKind::Update);
                    self.calls = Ghost(self.calls@.push(StoreCall { kind: ApplyKind::Update, circuit: c@ }));
                },
                ImportAction::Finish { .. } => {},
            }
            assert(forall|j: int| 0 <= j < prev.fates@.len() ==> self.fates@[j] == prev.fates@[j]);
            assert(forall|j: int| 0 <= j < prev.reported@.len() ==> self.reported@[j] == prev.reported@[j]);
            assert(self.calls@ == calls_after(prev.calls@, action));
            action
        } else {
            self.finished = true;
            let action = ImportAction::Finish {
                id: self.report_id.clone(),
                message: finish_message_text(self.num_errors),
            };
            assert(calls_after(self.calls@, action) == self.calls@);
            action
        }
    }

    /// Takes the outcome of the create or update that the run waits for.
    ///
    /// An accepted row counts as applied. A refused one counts as an error, and
    /// the store's message goes into the error entry that is returned. Either
    /// way the run is then ready for its next row.
    pub fn record_outcome(&mut self, outcome: Result<(), String>) -> (r: Option<CircuitImportReport>)
        requires
            old(self).wf(),
            old(self).pending() is Some,
        ensures
            final(self).wf(),
            final(self).report_id() == old(self).report_id(),
            final(self).file_name() == old(self).file_name(),
            final(self).rows() == old(self).rows(),
            final(self).steps_left() < old(self).steps_left(),
            final(self).taken() == old(self).taken(),
            final(self).calls() == old(self).calls(),
            final(self).awaits_row(),
            final(self).fates() == old(self).fates().push(
                applied_fate(old(self).pending()->0, outcome is Ok),
            ),
            outcome is Ok ==> r is None && final(self).reported() == old(self).reported(),
            outcome matches Err(m) ==> {
                &&& r matches Some(e)
                &&& is_error_entry(e@, m@, old(self).file_name())
                &&& final(self).reported() == old(self).reported().push(e@)
            },
    {
        proof {
            lemma_failures_plus_successes(self.fates@);
        }
        let kind = match self.pending {
            Some(k) => k,
            None => ApplyKind::Create,
        };
        self.pending = None;
        let ok = outcome.is_ok();
        let fate = Ghost(applied_fate(kind, ok));
        proof {
            lemma_push_counts(self.fates@, fate@);
        }
        let ghost prev = *old(self);
        self.fates = Ghost(self.fates@.push(fate@));
        assert(self.rows() == prev.rows());
        assert forall|i: int| 0 <= i < self.fates@.len() implies #[trigger] fate_fits(
            self.rows()[i],
            self.fates@[i],
        ) by {
            if i < prev.fates@.len() {
                assert(self.fates@[i] == prev.fates@[i]);
                assert(fate_fits(prev.rows()[i], prev.fates@[i]));
            }
        }
        match outcome {
            Ok(()) => {
                self.num_applied = self.num_applied + 1;
                assert(self.wf());
                None
            },
            Err(message) => {
                self.num_errors = self.num_errors + 1;
                let e = CircuitImportReport {
                    kind: ERROR_KIND.to_string(),
                    id: fresh_id(),
                    message,
                    file_name: copy_opt(&self.file_name),
                };
                let ghost entry = e@;
                self.reported = Ghost(self.reported@.push(entry));
                assert forall|j: int| 0 <= j < self.reported@.len() implies
                    #[trigger] self.reported@[j].kind == ERROR_KIND@
                    && self.reported@[j].file_name == self.file_name() by {
                    if j < prev.reported@.len() {
                        assert(self.reported@[j] == prev.reported@[j]);
                    } else {
                        assert(self.reported@[j] == entry);
                    }
                }
                assert(self.wf());
                Some(e)
            },
        }
    }
}

/// Every row of a finished run is accounted for: the error entries that it
/// handed out, one for each malformed or refused row, and the rows that the
/// record store accepted add up to the rows of the upload.
pub proof fn lemma_every_row_accounted(run: &ImportRun)
    requires
        run.wf(),
        run.is_finished(),
    ensures
        run.reported().len() == failures(run.fates()),
        run.reported().len() + successes(run.fates()) == run.rows().len(),
{
    lemma_failures_plus_successes(run.fates());
}

/// A settled row went the way its identifier says: a blank identifier to a
/// create and never an update, any other identifier to an update and never a
/// create, a malformed row to neither.
pub proof fn lemma_row_takes_its_path(run: &ImportRun, i: int)
    requires
        run.wf(),
        0 <= i < run.fates().len(),
    ensures
        fate_fits(run.rows()[i], run.fates()[i]),
        run.rows()[i] is Decoded && has_blank_id(run.rows()[i]) ==>
            run.fates()[i] is Created || run.fates()[i] is CreateFailed,
        run.rows()[i] is Decoded && !has_blank_id(run.rows()[i]) ==>
            run.fates()[i] is Updated || run.fates()[i] is UpdateFailed,
{
}

/// A finished run settled every row of the upload, each by the row alone, so
/// a malformed row does not keep the rows after it from being applied.
pub proof fn lemma_every_row_processed(run: &ImportRun)
    requires
        run.wf(),
        run.is_finished(),
    ensures
        run.fates().len() == run.rows().len(),
        forall|i: int| 0 <= i < run.rows().len() ==> #[trigger] fate_fits(run.rows()[i], run.fates()[i]),
{
}

/// Once the summary is handed out the run takes no further step, so the
/// summary is written once per run.
pub proof fn lemma_finish_is_last(run: &ImportRun)
    requires
        run.wf(),
        run.is_finished(),
    ensures
        !run.awaits_row(),
        run.pending() is None,
        run.steps_left() == 0,
{
}

/// The content type that an upload must declare.
pub const CSV_CONTENT_TYPE: &'static str = "text/csv";

/// Message of an opening entry while its run goes on.
pub const IN_PROGRESS_MESSAGE: &'static str = "In progress";

/// Reply to an upload whose run has been started.
pub const STARTED_MESSAGE: &'static str = "Successfully started report";

/// Screens the file part of an upload request: there must be one, and it must
/// be declared as CSV.
pub fn screen_part(part_found: bool, content_type: Option<&str>) -> (r: Result<(), RequestResponse<String>>)
    ensures
        !part_found ==> (r matches Err(e) && is_error_reply(e, STATUS_BAD_REQUEST, "Malformed request"@)),
        part_found && !(content_type matches Some(ct) && ct@ == CSV_CONTENT_TYPE@) ==> (r matches Err(e)
            && is_error_reply(e, STATUS_BAD_REQUEST, "No data field"@)),
        part_found && (content_type matches Some(ct) && ct@ == CSV_CONTENT_TYPE@) ==> r is Ok,
{
    if !part_found {
        return Err(RequestResponse::Error { message: "Malformed request".to_string(), code: STATUS_BAD_REQUEST });
    }
    let is_csv = match content_type {
        Some(ct) => ct.to_string() == CSV_CONTENT_TYPE.to_string(),
        None => false,
    };
    if is_csv {
        Ok(())
    } else {
        Err(RequestResponse::Error { message: "No data field".to_string(), code: STATUS_BAD_REQUEST })
    }
}

/// An accepted upload whose opening entry is yet to be written.
pub struct PendingImport {
    begin: CircuitImportReport,
    text: String,
}

impl PendingImport {
    /// The opening entry of the run.
    pub closed spec fn begin(&self) -> ReportView {
        self.begin@
    }

    /// The uploaded text.
    pub closed spec fn text(&self) -> Seq<char> {
        self.text@
    }

    /// The opening entry to write before the run may start.
    pub fn begin_entry(&self) -> (r: CircuitImportReport)
        ensures
            r@ == self.begin(),
    {
        self.begin.duplicate()
    }

    /// Starts the run once the opening entry has been written. If writing it
    /// failed, the reply is a server error with the store's message, no run
    /// is started and the upload is not read.
    pub fn launch(self, written: Result<(), String>) -> (r: (RequestResponse<String>, Option<ImportRun>))
        ensures
            written matches Err(m) ==> is_error_reply(r.0, STATUS_INTERNAL_SERVER_ERROR, m@) && r.1 is None,
            written is Ok ==> {
                &&& r.0 matches RequestResponse::Success { data, code }
                &&& data@ == STARTED_MESSAGE@
                &&& code == STATUS_OK
                &&& r.1 matches Some(run)
                &&& run.wf()
                &&& run.awaits_row()
                &&& run.report_id() == self.begin().id
                &&& run.file_name() == self.begin().file_name
                &&& run.rows() == decoded_rows(self.text())
                &&& run.fates().len() == 0
                &&& run.reported().len() == 0
            },
    {
        match written {
            Err(message) => (RequestResponse::Error { message, code: STATUS_INTERNAL_SERVER_ERROR }, None),
            Ok(()) => {
                let rows = decode_rows(self.text.as_str());
                let run = ImportRun::new(self.begin.id, self.begin.file_name, rows);
                (RequestResponse::Success { data: STARTED_MESSAGE.to_string(), code: STATUS_OK }, Some(run))
            },
        }
    }
}

/// Takes the body of a screened upload. An unreadable body is refused with its
/// message; otherwise the upload gets its opening entry: kind `FINISH_KIND`, a
/// fresh identifier, the message "In progress" and the upload's file name.
pub fn prepare_import(body: Result<String, String>, file_name: Option<String>) -> (r: Result<PendingImport, RequestResponse<String>>)
    ensures
        body matches Err(m) ==> (r matches Err(e) && is_error_reply(e, STATUS_BAD_REQUEST, m@)),
        body matches Ok(text) ==> (r matches Ok(p) && {
            &&& p.text() == text@
            &&& p.begin().kind == FINISH_KIND@
            &&& is_ulid_text(p.begin().id)
            &&& p.begin().message == IN_PROGRESS_MESSAGE@
            &&& p.begin().file_name == opt_view(file_name)
        }),
{
    match body {
        Err(message) => Err(RequestResponse::Error { message, code: STATUS_BAD_REQUEST }),
        Ok(text) => {
            let begin = CircuitImportReport {
                kind: FINISH_KIND.to_string(),
                id: fresh_id(),
                message: IN_PROGRESS_MESSAGE.to_string(),
                file_name,
            };
            Ok(PendingImport { begin, text })
        },
    }
}

/// The record table after the store calls, in order: a create adds a circuit
/// whose identifier is not yet held, an update replaces the circuits of an
/// identifier that is held; a refused call changes nothing.
pub open spec fn table_after(table: Seq<Seq<Seq<char>>>, calls: Seq<StoreCall>) -> Seq<Seq<Seq<char>>>
    decreases calls.len(),
{
    if calls.len() == 0 {
        table
    } else {
        let t = table_after(table, calls.drop_last());
        let c = calls.last();
        match c.kind {
            ApplyKind::Create => if holds_id(t, c.circuit[0]) { t } else { t.push(c.circuit) },
            ApplyKind::Update => if holds_id(t, c.circuit[0]) { replaced(t, c.circuit) } else { t },
        }
    }
}

/// The report log after the entries are written, in order: each is appended,
/// not yet seen, unless an entry with its identifier is already there.
pub open spec fn log_after_reports(log: Seq<StoredView>, entries: Seq<ReportView>) -> Seq<StoredView>
    decreases entries.len(),
{
    if entries.len() == 0 {
        log
    } else {
        let l = log_after_reports(log, entries.drop_last());
        let e = entries.last();
        if has_id(l, e.id) { l } else { l.push(StoredView { report: e, seen: false }) }
    }
}

/// The part of a sequence from index `from` on.
pub open spec fn since<A>(s: Seq<A>, from: nat) -> Seq<A> {
    s.subrange(from as int, s.len() as int)
}

/// Carries out an import run to its end against in-memory stores: each create
/// or update goes to `records`, each error entry and then the summary to `log`.
/// A refused report write is passed over, as it is on any store.
///
/// When it returns, the run is over with every row settled; `records` holds the
/// outcome of the creates and updates that the run handed out, in order; and
/// `log` holds the run's error entries, in order, after what it held before,
/// with the summary in every entry that bears the run's identifier.
pub fn run_to_end(run: &mut ImportRun, records: &mut CircuitTable, log: &mut ReportLog)
    requires
        old(run).wf(),
        old(run).awaits_row(),
    ensures
        final(run).wf(),
        final(run).is_finished(),
        final(run).report_id() == old(run).report_id(),
        final(run).rows() == old(run).rows(),
        final(run).fates().len() == final(run).rows().len(),
        final(run).reported().len() + successes(final(run).fates()) == final(run).rows().len(),
        old(run).calls().len() <= final(run).calls().len(),
        old(run).reported().len() <= final(run).reported().len(),
        final(records)@ == table_after(old(records)@, since(final(run).calls(), old(run).calls().len())),
        final(log)@ == finished(
            log_after_reports(old(log)@, since(final(run).reported(), old(run).reported().len())),
            old(run).report_id(),
            finish_message(failures(final(run).fates())),
        ),
        has_id(old(log)@, old(run).report_id()) ==> has_id(final(log)@, old(run).report_id()),
        forall|i: int| 0 <= i < final(log)@.len() && #[trigger] final(log)@[i].report.id == old(run).report_id()
            ==> final(log)@[i].report.message == finish_message(failures(final(run).fates())),
{
    let ghost id0 = run.report_id();
    let ghost rows0 = run.rows();
    let ghost log0 = log@;
    let ghost table0 = records@;
    let ghost c0 = run.calls().len();
    let ghost r0 = run.reported().len();
    while !run.finished()
        invariant
            run.wf(),
            run.pending() is None,
            run.report_id() == id0,
            run.rows() == rows0,
            c0 <= run.calls().len(),
            r0 <= run.reported().len(),
            records@ == table_after(table0, since(run.calls(), c0)),
            !run.is_finished() ==> log@ == log_after_reports(log0, since(run.reported(), r0)),
            run.is_finished() ==> log@ == finished(
                log_after_reports(log0, since(run.reported(), r0)),
                id0,
                finish_message(failures(run.fates())),
            ),
        decreases run.steps_left(),
    {
        let ghost calls_before = run.calls();
        let ghost reported_before = run.reported();
        match run.next_action() {
            ImportAction::Create(c) => {
                proof {
                    assert(since(run.calls(), c0).drop_last() =~= since(calls_before, c0));
                }
                let outcome = match records.create(c) {
                    Ok(_) => Ok(()),
                    Err(e) => Err(e.message()),
                };
                if let Some(entry) = run.record_outcome(outcome) {
                    proof {
                        assert(since(run.reported(), r0).drop_last() =~= since(reported_before, r0));
                    }
                    let _ = log.report(entry);
                }
            },
            ImportAction::Update(c) => {
                proof {
                    assert(since(run.calls(), c0).drop_last() =~= since(calls_before, c0));
                }
                let outcome = match records.update(c) {
                    Ok(_) => Ok(()),
                    Err(e) => Err(e.message()),
                };
                if let Some(entry) = run.record_outcome(outcome) {
                    proof {
                        assert(since(run.reported(), r0).drop_last() =~= since(reported_before, r0));
                    }
                    let _ = log.report(entry);
                }
            },
            ImportAction::Report(entry) => {
                proof {
                    assert(since(run.reported(), r0).drop_last() =~= since(reported_before, r0));
                }
                let _ = log.report(entry);
            },
            ImportAction::Finish { id, message } => {
                let _ = log.finish(id, message);
            },
        }
    }
    proof {
        lemma_every_row_accounted(run);
        let before = log_after_reports(log0, since(run.reported(), r0));
        if has_id(log0, id0) {
            lemma_reports_keep_ids(log0, since(run.reported(), r0), id0);
            let k = choose|k: int| 0 <= k < before.len() && #[trigger] before[k].report.id == id0;
            assert(log@[k].report.id == id0);
        }
    }
}

/// Writing entries never removes an identifier from the log.
pub proof fn lemma_reports_keep_ids(log: Seq<StoredView>, entries: Seq<ReportView>, id: Seq<char>)
    requires
        has_id(log, id),
    ensures
        has_id(log_after_reports(log, entries), id),
    decreases entries.len(),
{
    if entries.len() > 0 {
        lemma_reports_keep_ids(log, entries.drop_last(), id);
        let l = log_after_reports(log, entries.drop_last());
        let k = choose|k: int| 0 <= k < l.len() && #[trigger] l[k].report.id == id;
        let e = entries.last();
        if !has_id(l, e.id) {
            assert(l.push(StoredView { report: e, seen: false })[k].report.id == id);
        }
    }
}

} // verus!
