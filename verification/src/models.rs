//! Records of indexed folders, exclusions and files, and the progress of
//! an indexing run.

use vstd::prelude::*;

verus! {

/// A folder chosen for indexing.
#[derive(Debug, Clone)]
pub struct IndexedRoot {
    pub id: i64,
    pub path: String,
    pub created_at: String,
}

/// A pattern that excludes paths from indexing.
#[derive(Debug, Clone)]
pub struct ExcludedPath {
    pub id: i64,
    pub pattern: String,
    pub created_at: String,
}

/// A file as the index stores it.
#[derive(Debug, Clone)]
pub struct FileRecord {
    pub id: i64,
    pub root_id: i64,
    pub path: String,
    pub filename: String,
    pub extension: Option<String>,
    pub size_bytes: i64,
    pub created_at_fs: Option<String>,
    pub modified_at_fs: Option<String>,
    pub fingerprint: Option<String>,
    pub parser_type: String,
    pub parser_status: String,
    pub is_deleted: bool,
    pub last_indexed_at: Option<String>,
    pub last_seen_at: Option<String>,
}

/// At most this many error messages are kept, per batch and per run.
pub const MAX_ERRORS: usize = 50;

/// The progress of an indexing run.
#[derive(Debug, Clone)]
pub struct IndexStatus {
    pub is_running: bool,
    pub total_files: u64,
    pub processed_files: u64,
    pub current_file: Option<String>,
    pub failed_files: u64,
    pub errors: Vec<String>,
}

impl Default for IndexStatus {
    fn default() -> (r: Self)
        ensures
            !r.is_running,
            r.total_files == 0,
            r.processed_files == 0,
            r.current_file is None,
            r.failed_files == 0,
            r.errors@.len() == 0,
    {
        IndexStatus {
            is_running: false,
            total_files: 0,
            processed_files: 0,
            current_file: None,
            failed_files: 0,
            errors: Vec::new(),
        }
    }
}

/// The counters and messages of one batch of files.
pub struct BatchTally {
    pub processed: u64,
    pub failed: u64,
    pub errors: Vec<String>,
}

/// `errors` followed by as many of `more` as fit under `MAX_ERRORS`.
pub open spec fn capped_errors(errors: Seq<String>, more: Seq<String>) -> Seq<String> {
    if errors.len() >= MAX_ERRORS {
        errors
    } else if errors.len() + more.len() <= MAX_ERRORS {
        errors + more
    } else {
        errors + more.take(MAX_ERRORS - errors.len())
    }
}

impl IndexStatus {
    /// Marks a run as started with all counters and messages cleared.
    pub fn begin_scan(&mut self)
        ensures
            final(self).is_running,
            final(self).total_files == 0,
            final(self).processed_files == 0,
            final(self).failed_files == 0,
            final(self).current_file is None,
            final(self).errors@.len() == 0,
    {
        self.is_running = true;
        self.total_files = 0;
        self.processed_files = 0;
        self.failed_files = 0;
        self.current_file = None;
        self.errors.clear();
    }

    /// Records how many files the run will process.
    pub fn set_total(&mut self, total: u64)
        ensures
            final(self).total_files == total,
            final(self).is_running == old(self).is_running,
            final(self).processed_files == old(self).processed_files,
            final(self).failed_files == old(self).failed_files,
            final(self).current_file == old(self).current_file,
            final(self).errors@ == old(self).errors@,
    {
        self.total_files = total;
    }

    /// Adds a finished batch: its counters, its messages while fewer than
    /// `MAX_ERRORS` are kept, and the name of its last file as the current
    /// file.
    pub fn apply_batch(&mut self, batch: BatchTally, last_filename: Option<String>)
        requires
            old(self).processed_files + batch.processed <= u64::MAX,
            old(self).failed_files + batch.failed <= u64::MAX,
        ensures
            final(self).processed_files == old(self).processed_files + batch.processed,
            final(self).failed_files == old(self).failed_files + batch.failed,
            final(self).current_file == last_filename,
            final(self).errors@ == capped_errors(old(self).errors@, batch.errors@),
            final(self).is_running == old(self).is_running,
            final(self).total_files == old(self).total_files,
    {
        self.processed_files = self.processed_files + batch.processed;
        self.failed_files = self.failed_files + batch.failed;
        self.current_file = last_filename;
        let ghost start = self.errors@;
        let ghost before = *self;
        let more = batch.errors;
        let mut i: usize = 0;
        while i < more.len()
            invariant
                i <= more@.len(),
                self.processed_files == before.processed_files,
                self.failed_files == before.failed_files,
                self.current_file == before.current_file,
                self.is_running == before.is_running,
                self.total_files == before.total_files,
                self.errors@ == capped_errors(start, more@.take(i as int)),
            decreases more.len() - i,
        {
            assert(more@.take(i + 1).drop_last() =~= more@.take(i as int));
            if self.errors.len() < MAX_ERRORS {
                self.errors.push(more[i].clone());
                assert(self.errors@ =~= capped_errors(start, more@.take(i + 1)));
            } else {
                assert(self.errors@ =~= capped_errors(start, more@.take(i + 1)));
            }
            i = i + 1;
        }
        assert(more@.take(more@.len() as int) =~= more@);
    }

    /// Marks the run as complete.
    pub fn finish_scan(&mut self)
        ensures
            !final(self).is_running,
            final(self).current_file is None,
            final(self).total_files == old(self).total_files,
            final(self).processed_files == old(self).processed_files,
            final(self).failed_files == old(self).failed_files,
            final(self).errors@ == old(self).errors@,
    {
        self.is_running = false;
        self.current_file = None;
    }
}

/// A copy of the progress of a run, as reported to the user interface.
pub fn get_status_snapshot(status: &IndexStatus) -> (r: IndexStatus)
    ensures
        r.is_running == status.is_running,
        r.total_files == status.total_files,
        r.processed_files == status.processed_files,
        r.current_file == status.current_file,
        r.failed_files == status.failed_files,
        r.errors@ == status.errors@,
{
    let mut errors: Vec<String> = Vec::new();
    let mut i: usize = 0;
    while i < status.errors.len()
        invariant
            i <= status.errors@.len(),
            errors@ == status.errors@.take(i as int),
        decreases status.errors.len() - i,
    {
        errors.push(status.errors[i].clone());
        i = i + 1;
        assert(errors@ =~= status.errors@.take(i as int));
    }
    assert(status.errors@.take(status.errors@.len() as int) =~= status.errors@);
    let current_file = match &status.current_file {
        Some(f) => Some(f.clone()),
        None => None,
    };
    IndexStatus {
        is_running: status.is_running,
        total_files: status.total_files,
        processed_files: status.processed_files,
        current_file,
        failed_files: status.failed_files,
        errors,
    }
}

/// The error kept list never grows past `MAX_ERRORS` once it is within it:
/// no number of batches, with any number of messages, pushes it over.
pub proof fn errors_stay_capped(errors: Seq<String>, more: Seq<String>)
    requires
        errors.len() <= MAX_ERRORS,
    ensures
        capped_errors(errors, more).len() <= MAX_ERRORS,
        capped_errors(errors, more).take(errors.len() as int) == errors,
{
    assert(capped_errors(errors, more).take(errors.len() as int) =~= errors);
}

} // verus!
