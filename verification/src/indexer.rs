//! The decisions taken while indexing files: which files can be skipped,
//! how batches are formed and counted, and what is stored for a file.

use vstd::prelude::*;
use crate::models::{BatchTally, MAX_ERRORS};

verus! {

broadcast use vstd::string::group_string_axioms;

/// Files are committed in transactions of this many.
pub const SCAN_BATCH_SIZE: usize = 100;

/// What the index holds for a file that is not deleted: its size, its
/// modification time text and its fingerprint.
pub struct StoredFileState {
    pub size_bytes: i64,
    pub modified_at: Option<String>,
    pub fingerprint: Option<String>,
}

/// Two optional texts with the same characters, or both absent.
pub open spec fn same_text(a: Option<String>, b: Option<String>) -> bool {
    match (a, b) {
        (Some(x), Some(y)) => x@ == y@,
        (None, None) => true,
        _ => false,
    }
}

fn same_optional_text(a: &Option<String>, b: &Option<String>) -> (r: bool)
    ensures
        r == same_text(*a, *b),
{
    match (a, b) {
        (Some(x), Some(y)) => crate::text::str_eq(x.as_str(), y.as_str()),
        (None, None) => true,
        _ => false,
    }
}

/// Whether a file can be skipped without reading it: the index holds it
/// with the same size and modification time.
pub fn unchanged_by_metadata(
    existing: &Option<StoredFileState>,
    size_bytes: u64,
    modified_at: &Option<String>,
) -> (r: bool)
    ensures
        r == (existing matches Some(e) && e.size_bytes == size_bytes as i64 && same_text(
            e.modified_at,
            *modified_at,
        )),
{
    match existing {
        Some(e) => e.size_bytes == size_bytes as i64 && same_optional_text(
            &e.modified_at,
            modified_at,
        ),
        None => false,
    }
}

/// Whether a file whose size or time changed still has the content the
/// index holds: its stored fingerprint equals the new one.
pub fn unchanged_by_fingerprint(existing: &Option<StoredFileState>, fingerprint: &str) -> (r:
    bool)
    ensures
        r == (existing matches Some(e) && e.fingerprint matches Some(f) && f@ == fingerprint@),
{
    match existing {
        Some(e) => match &e.fingerprint {
            Some(f) => crate::text::str_eq(f.as_str(), fingerprint),
            None => false,
        },
        None => false,
    }
}

/// Whether a file reported by the watcher is unchanged: the index holds it
/// with this fingerprint.
pub fn single_file_unchanged(existing_fingerprint: &Option<String>, fingerprint: &str) -> (r:
    bool)
    ensures
        r == (existing_fingerprint matches Some(f) && f@ == fingerprint@),
{
    match existing_fingerprint {
        Some(f) => crate::text::str_eq(f.as_str(), fingerprint),
        None => false,
    }
}

/// The content and parser status stored for a file: the extracted text
/// with `"ok"`, or no text with `"error"`.
pub fn content_for_index(extracted: Result<String, String>) -> (r: (String, &'static str))
    ensures
        extracted matches Ok(t) ==> r.0@ == t@ && r.1@ == "ok"@,
        extracted is Err ==> r.0@.len() == 0 && r.1@ == "error"@,
{
    match extracted {
        Ok(t) => (t, "ok"),
        Err(_) => (String::new(), "error"),
    }
}

/// Whether the id of an upserted file is the row id just inserted: the
/// statement changed rows and the file was not in the index before.
pub fn use_inserted_rowid(changes: u64, existed_before: bool) -> (r: bool)
    ensures
        r == (changes > 0 && !existed_before),
{
    changes > 0 && !existed_before
}

/// The message kept for a file whose content could not be extracted.
pub open spec fn failure_message(filename: Seq<char>, error: Seq<char>) -> Seq<char> {
    filename + ": "@ + error
}

impl BatchTally {
    /// An empty tally.
    pub fn new() -> (r: Self)
        ensures
            r.processed == 0,
            r.failed == 0,
            r.errors@.len() == 0,
    {
        BatchTally { processed: 0, failed: 0, errors: Vec::new() }
    }

    /// Counts a file as processed.
    pub fn record_processed(&mut self)
        requires
            old(self).processed < u64::MAX,
        ensures
            final(self).processed == old(self).processed + 1,
            final(self).failed == old(self).failed,
            final(self).errors@ == old(self).errors@,
    {
        self.processed = self.processed + 1;
    }

    /// Counts a failed extraction and keeps its message while fewer than
    /// `MAX_ERRORS` are kept.
    pub fn record_failure(&mut self, filename: &str, error: &str)
        requires
            old(self).failed < u64::MAX,
        ensures
            final(self).failed == old(self).failed + 1,
            final(self).processed == old(self).processed,
            old(self).errors@.len() < MAX_ERRORS ==> final(self).errors@.len() == old(
                self,
            ).errors@.len() + 1 && final(self).errors@.drop_last() == old(self).errors@
                && final(self).errors@.last()@ == failure_message(filename@, error@),
            old(self).errors@.len() >= MAX_ERRORS ==> final(self).errors@ == old(self).errors@,
    {
        self.failed = self.failed + 1;
        if self.errors.len() < MAX_ERRORS {
            let message = String::from_str(filename).concat(": ").concat(error);
            self.errors.push(message);
            assert(self.errors@.drop_last() =~= old(self).errors@);
        }
    }
}

/// The `k`-th batch of a scan over `total` files: `[100k, min(100k + 100,
/// total))`.
pub open spec fn batch_range(total: nat, k: nat) -> (nat, nat) {
    let start = k * 100;
    let end = if start + 100 <= total {
        start + 100
    } else {
        total
    };
    (start, end)
}

/// The number of batches for `total` files.
pub open spec fn batch_count(total: nat) -> nat {
    (total + 99) / 100
}

/// The index ranges of the batches a scan over `total` files commits, in
/// order.
pub fn scan_batches(total: usize) -> (r: Vec<(usize, usize)>)
    ensures
        r@.len() == batch_count(total as nat),
        forall|k: int|
            0 <= k < r@.len() ==> #[trigger] r@[k].0 == batch_range(total as nat, k as nat).0
                && r@[k].1 == batch_range(total as nat, k as nat).1,
{
    let mut out: Vec<(usize, usize)> = Vec::new();
    let mut start: usize = 0;
    while start < total
        invariant
            start <= total,
            start < total ==> start == out@.len() * 100,
            out@.len() * 100 >= start,
            out@.len() == 0 || (out@.len() - 1) * 100 < total,
            forall|k: int|
                0 <= k < out@.len() ==> #[trigger] out@[k].0 == batch_range(
                    total as nat,
                    k as nat,
                ).0 && out@[k].1 == batch_range(total as nat, k as nat).1,
        decreases total - start,
    {
        let end = if total - start >= SCAN_BATCH_SIZE {
            start + SCAN_BATCH_SIZE
        } else {
            total
        };
        let ghost n = out@.len();
        out.push((start, end));
        assert(out@.len() * 100 == n * 100 + 100) by (nonlinear_arith)
            requires
                out@.len() == n + 1,
        ;
        start = end;
    }
    proof {
        let n = out@.len();
        assert(batch_count(total as nat) == n) by (nonlinear_arith)
            requires
                n * 100 >= total,
                n == 0 || (n - 1) * 100 < total,
                batch_count(total as nat) == (total + 99) as nat / 100,
        {
        }
    }
    out
}

/// The batches of a scan cover every file exactly once and in order: each
/// batch starts where the one before ended, the first starts at 0, the
/// last ends at `total`, and each holds between 1 and 100 files.
pub proof fn batches_partition_files(total: nat, k: nat)
    requires
        k < batch_count(total),
    ensures
        batch_range(total, k).0 < batch_range(total, k).1 <= total,
        batch_range(total, k).1 - batch_range(total, k).0 <= SCAN_BATCH_SIZE,
        k == 0 ==> batch_range(total, k).0 == 0,
        k + 1 < batch_count(total) ==> batch_range(total, k + 1).0 == batch_range(total, k).1,
        k + 1 == batch_count(total) ==> batch_range(total, k).1 == total,
{
    assert(k * 100 < total) by (nonlinear_arith)
        requires
            k < (total + 99) / 100,
    {
    }
    assert((k + 1) * 100 == k * 100 + 100) by (nonlinear_arith);
    if k + 1 == batch_count(total) {
        assert(total <= (k + 1) * 100) by (nonlinear_arith)
            requires
                k + 1 == (total + 99) / 100,
        {
        }
    } else {
        assert((k + 1) * 100 < total) by (nonlinear_arith)
            requires
                k + 1 < (total + 99) / 100,
        {
        }
    }
}

} // verus!

verus! {

/// Where one file stands while a full scan handles it.
pub enum FileScan {
    /// Its stored row is to be looked up.
    Start,
    /// Size or time changed; its fingerprint is being computed.
    Looked { existed: bool, stored: Option<StoredFileState> },
    /// Its content changed; it is being extracted.
    Fingerprinted { existed: bool },
    /// Its row is being upserted.
    Storing { existed: bool },
    /// Its row id is being fetched.
    FindingId,
    /// Done with this file.
    Finished,
}

/// What the outside work for a file reported.
pub enum FileScanEvent {
    /// The stored row, if the index holds the file.
    Stored(Option<StoredFileState>),
    /// The fingerprint computed from disk (empty when it failed).
    Fingerprint(String),
    /// The extracted content, or why extraction failed.
    Extraction(Result<String, String>),
    /// How many rows the upsert changed, or why it failed.
    Upsert(Result<u64, String>),
    /// The file's row id, or why it could not be read.
    FileId(Result<i64, String>),
}

/// What to do next for a file.
pub enum FileScanAction {
    /// Record that the file was seen; it is done.
    MarkSeen,
    /// Compute the file's fingerprint.
    ComputeFingerprint,
    /// Store the new size and time; the file is done.
    RefreshMetadata,
    /// Extract the file's content.
    ExtractContent,
    /// Upsert the file's row with this content and parser status.
    Upsert { content: String, parser_status: &'static str },
    /// The row id is the one just inserted; replace the file's content
    /// entry; the file is done.
    UseInsertedRowId,
    /// Fetch the row id.
    LookUpFileId,
    /// Replace the file's content entry under the fetched id; the file is
    /// done.
    ReplaceContent(i64),
    /// Give up on the file; it is done.
    Abandon,
    /// The report does not fit where the file stands; nothing changes.
    Ignore,
}

/// The next state and action for a file after a report, given its size and
/// time text. (For an extraction report the action is `Upsert` with the
/// content and parser status; `FileScan::step` states it apart, as it
/// builds that content.)
pub open spec fn scan_transition(
    state: FileScan,
    event: FileScanEvent,
    size_bytes: u64,
    modified_at: Option<String>,
) -> (FileScan, FileScanAction) {
    match (state, event) {
        (FileScan::Start, FileScanEvent::Stored(existing)) => if existing matches Some(e)
            && e.size_bytes == size_bytes as i64 && same_text(e.modified_at, modified_at) {
            (FileScan::Finished, FileScanAction::MarkSeen)
        } else {
            (
                FileScan::Looked { existed: existing is Some, stored: existing },
                FileScanAction::ComputeFingerprint,
            )
        },
        (FileScan::Looked { existed, stored }, FileScanEvent::Fingerprint(fp)) => if stored matches Some(
            e,
        ) && e.fingerprint matches Some(f) && f@ == fp@ {
            (FileScan::Finished, FileScanAction::RefreshMetadata)
        } else {
            (FileScan::Fingerprinted { existed }, FileScanAction::ExtractContent)
        },
        (FileScan::Fingerprinted { existed }, FileScanEvent::Extraction(_)) => (
            FileScan::Storing { existed },
            FileScanAction::Ignore,
        ),
        (FileScan::Storing { existed }, FileScanEvent::Upsert(r)) => match r {
            Err(_) => (FileScan::Finished, FileScanAction::Abandon),
            Ok(changes) => if changes > 0 && !existed {
                (FileScan::Finished, FileScanAction::UseInsertedRowId)
            } else {
                (FileScan::FindingId, FileScanAction::LookUpFileId)
            },
        },
        (FileScan::FindingId, FileScanEvent::FileId(r)) => match r {
            Ok(id) => (FileScan::Finished, FileScanAction::ReplaceContent(id)),
            Err(_) => (FileScan::Finished, FileScanAction::Abandon),
        },
        (s, _) => (s, FileScanAction::Ignore),
    }
}

/// Whether a step is the extraction report of a file being extracted.
pub open spec fn is_extraction_step(state: FileScan, event: FileScanEvent) -> bool {
    state is Fingerprinted && event is Extraction
}

/// Whether a step finishes a file that was not finished before.
pub open spec fn newly_finished(before: FileScan, after: FileScan) -> bool {
    after is Finished && !(before is Finished)
}

/// Whether a step reports a failed extraction for a file being extracted.
pub open spec fn extraction_failed(state: FileScan, event: FileScanEvent) -> bool {
    is_extraction_step(state, event) && event->Extraction_0 is Err
}

/// A finished file stays finished: any further report is ignored, so a
/// file is never counted twice.
pub proof fn finished_file_stays_finished(
    event: FileScanEvent,
    size_bytes: u64,
    modified_at: Option<String>,
)
    ensures
        scan_transition(FileScan::Finished, event, size_bytes, modified_at).0 is Finished,
        scan_transition(FileScan::Finished, event, size_bytes, modified_at).1 is Ignore,
        !newly_finished(
            FileScan::Finished,
            scan_transition(FileScan::Finished, event, size_bytes, modified_at).0,
        ),
{
}

/// A file whose stored size and time match is finished at once: it is
/// only marked as seen, with no fingerprint and no extraction.
pub proof fn unchanged_file_is_only_marked_seen(
    stored: StoredFileState,
    size_bytes: u64,
    modified_at: Option<String>,
)
    requires
        stored.size_bytes == size_bytes as i64,
        same_text(stored.modified_at, modified_at),
    ensures
        scan_transition(FileScan::Start, FileScanEvent::Stored(Some(stored)), size_bytes, modified_at).0 is Finished,
        scan_transition(FileScan::Start, FileScanEvent::Stored(Some(stored)), size_bytes, modified_at).1 is MarkSeen,
{
}

impl FileScan {
    /// A file that has not been looked at yet.
    pub fn new() -> (r: Self)
        ensures
            r is Start,
    {
        FileScan::Start
    }

    /// Advances a file's scan by one report and counts it in the batch: a
    /// file is counted as processed exactly when it becomes finished, and a
    /// failed extraction is counted and its message kept.
    pub fn step(
        &mut self,
        event: FileScanEvent,
        size_bytes: u64,
        modified_at: &Option<String>,
        filename: &str,
        tally: &mut BatchTally,
    ) -> (action: FileScanAction)
        requires
            old(tally).processed < u64::MAX,
            old(tally).failed < u64::MAX,
        ensures
            ({
                let (next, act) = scan_transition(*old(self), event, size_bytes, *modified_at);
                &&& *final(self) == next
                &&& !is_extraction_step(*old(self), event) ==> action == act
            }),
            is_extraction_step(*old(self), event) ==> (event matches FileScanEvent::Extraction(r)
                && action matches FileScanAction::Upsert { content, parser_status } && (r matches Ok(t)
                ==> content@ == t@ && parser_status@ == "ok"@) && (r is Err ==> content@.len() == 0
                && parser_status@ == "error"@)),
            final(tally).processed == old(tally).processed + (if newly_finished(*old(self), *final(self)) {
                1int
            } else {
                0int
            }),
            extraction_failed(*old(self), event) ==> final(tally).failed == old(tally).failed + 1,
            !extraction_failed(*old(self), event) ==> final(tally).failed == old(tally).failed
                && final(tally).errors@ == old(tally).errors@,
            extraction_failed(*old(self), event) && old(tally).errors@.len() < MAX_ERRORS
                ==> final(tally).errors@.len() == old(tally).errors@.len() + 1
                && final(tally).errors@.drop_last() == old(tally).errors@
                && final(tally).errors@.last()@ == failure_message(filename@, event->Extraction_0->Err_0@),
            extraction_failed(*old(self), event) && old(tally).errors@.len() >= MAX_ERRORS
                ==> final(tally).errors@ == old(tally).errors@,
    {
        let mut state = FileScan::Finished;
        std::mem::swap(&mut state, self);
        let was_finished = match &state {
            FileScan::Finished => true,
            _ => false,
        };
        let (next, action) = match (state, event) {
            (FileScan::Start, FileScanEvent::Stored(existing)) => {
                if unchanged_by_metadata(&existing, size_bytes, modified_at) {
                    (FileScan::Finished, FileScanAction::MarkSeen)
                } else {
                    let existed = existing.is_some();
                    (FileScan::Looked { existed, stored: existing }, FileScanAction::ComputeFingerprint)
                }
            },
            (FileScan::Looked { existed, stored }, FileScanEvent::Fingerprint(fp)) => {
                if unchanged_by_fingerprint(&stored, fp.as_str()) {
                    (FileScan::Finished, FileScanAction::RefreshMetadata)
                } else {
                    (FileScan::Fingerprinted { existed }, FileScanAction::ExtractContent)
                }
            },
            (FileScan::Fingerprinted { existed }, FileScanEvent::Extraction(r)) => {
                match &r {
                    Err(e) => {
                        tally.record_failure(filename, e.as_str());
                    },
                    Ok(_) => {},
                }
                let (content, parser_status) = content_for_index(r);
                (FileScan::Storing { existed }, FileScanAction::Upsert { content, parser_status })
            },
            (FileScan::Storing { existed }, FileScanEvent::Upsert(r)) => match r {
                Err(_) => (FileScan::Finished, FileScanAction::Abandon),
                Ok(changes) => if use_inserted_rowid(changes, existed) {
                    (FileScan::Finished, FileScanAction::UseInsertedRowId)
                } else {
                    (FileScan::FindingId, FileScanAction::LookUpFileId)
                },
            },
            (FileScan::FindingId, FileScanEvent::FileId(r)) => match r {
                Ok(id) => (FileScan::Finished, FileScanAction::ReplaceContent(id)),
                Err(_) => (FileScan::Finished, FileScanAction::Abandon),
            },
            (s, _) => (s, FileScanAction::Ignore),
        };
        let now_finished = match &next {
            FileScan::Finished => true,
            _ => false,
        };
        if now_finished && !was_finished {
            tally.record_processed();
        }
        *self = next;
        action
    }
}

} // verus!

verus! {

/// Whether `event` is the report that a file in `state` is waiting for:
/// its stored row, its fingerprint, its extraction, its upsert, its id.
pub open spec fn awaits(state: FileScan, event: FileScanEvent) -> bool {
    match (state, event) {
        (FileScan::Start, FileScanEvent::Stored(_)) => true,
        (FileScan::Looked { .. }, FileScanEvent::Fingerprint(_)) => true,
        (FileScan::Fingerprinted { .. }, FileScanEvent::Extraction(_)) => true,
        (FileScan::Storing { .. }, FileScanEvent::Upsert(_)) => true,
        (FileScan::FindingId, FileScanEvent::FileId(_)) => true,
        _ => false,
    }
}

/// How many reports a file in `state` can still wait for.
pub open spec fn stage(state: FileScan) -> nat {
    match state {
        FileScan::Start => 5,
        FileScan::Looked { .. } => 4,
        FileScan::Fingerprinted { .. } => 3,
        FileScan::Storing { .. } => 2,
        FileScan::FindingId => 1,
        FileScan::Finished => 0,
    }
}

/// Whether each report is the one the file waits for at its turn.
pub open spec fn fed_as_asked(
    state: FileScan,
    events: Seq<FileScanEvent>,
    size_bytes: u64,
    modified_at: Option<String>,
) -> bool
    decreases events.len(),
{
    events.len() == 0 || (awaits(state, events[0]) && fed_as_asked(
        scan_transition(state, events[0], size_bytes, modified_at).0,
        events.drop_first(),
        size_bytes,
        modified_at,
    ))
}

/// Where a file stands after a run of reports.
pub open spec fn run_scan(
    state: FileScan,
    events: Seq<FileScanEvent>,
    size_bytes: u64,
    modified_at: Option<String>,
) -> FileScan
    decreases events.len(),
{
    if events.len() == 0 {
        state
    } else {
        run_scan(
            scan_transition(state, events[0], size_bytes, modified_at).0,
            events.drop_first(),
            size_bytes,
            modified_at,
        )
    }
}

/// How many steps of a run finish the file, that is, count it as processed.
pub open spec fn finish_count(
    state: FileScan,
    events: Seq<FileScanEvent>,
    size_bytes: u64,
    modified_at: Option<String>,
) -> nat
    decreases events.len(),
{
    if events.len() == 0 {
        0
    } else {
        let next = scan_transition(state, events[0], size_bytes, modified_at).0;
        (if newly_finished(state, next) {
            1nat
        } else {
            0nat
        }) + finish_count(next, events.drop_first(), size_bytes, modified_at)
    }
}

proof fn lemma_run_counts(
    state: FileScan,
    events: Seq<FileScanEvent>,
    size_bytes: u64,
    modified_at: Option<String>,
)
    requires
        fed_as_asked(state, events, size_bytes, modified_at),
    ensures
        events.len() <= stage(state),
        finish_count(state, events, size_bytes, modified_at) == if run_scan(
            state,
            events,
            size_bytes,
            modified_at,
        ) is Finished && !(state is Finished) {
            1nat
        } else {
            0nat
        },
        stage(run_scan(state, events, size_bytes, modified_at)) == 0 <==> run_scan(
            state,
            events,
            size_bytes,
            modified_at,
        ) is Finished,
    decreases events.len(),
{
    if events.len() > 0 {
        let next = scan_transition(state, events[0], size_bytes, modified_at).0;
        let rest = events.drop_first();
        lemma_run_counts(next, rest, size_bytes, modified_at);
        if next is Finished {
            if rest.len() > 0 {
                assert(!awaits(next, rest[0]));
            }
        }
    }
}

/// Every file of a scan is counted exactly once: fed the reports its
/// actions ask for, a file takes at most five reports, and it is counted
/// as processed once when it is finished and not at all before.
pub proof fn file_is_counted_once(
    events: Seq<FileScanEvent>,
    size_bytes: u64,
    modified_at: Option<String>,
)
    requires
        fed_as_asked(FileScan::Start, events, size_bytes, modified_at),
    ensures
        events.len() <= 5,
        finish_count(FileScan::Start, events, size_bytes, modified_at) == if run_scan(
            FileScan::Start,
            events,
            size_bytes,
            modified_at,
        ) is Finished {
            1nat
        } else {
            0nat
        },
{
    lemma_run_counts(FileScan::Start, events, size_bytes, modified_at);
}

/// A file that is not finished is always waiting for some report, so a
/// scan that feeds each file until nothing more is asked finishes it.
pub proof fn unfinished_file_awaits_a_report(state: FileScan)
    requires
        !(state is Finished),
    ensures
        exists|event: FileScanEvent| awaits(state, event),
{
    match state {
        FileScan::Start => {
            assert(awaits(state, FileScanEvent::Stored(None)));
        },
        FileScan::Looked { .. } => {
            assert(awaits(state, FileScanEvent::Fingerprint(arbitrary::<String>())));
        },
        FileScan::Fingerprinted { .. } => {
            assert(awaits(state, FileScanEvent::Extraction(Err(arbitrary::<String>()))));
        },
        FileScan::Storing { .. } => {
            assert(awaits(state, FileScanEvent::Upsert(Ok(0))));
        },
        FileScan::FindingId => {
            assert(awaits(state, FileScanEvent::FileId(Ok(0))));
        },
        FileScan::Finished => {},
    }
}

} // verus!
