//! The bookkeeping of a compression run. The run hands out one job per
//! discovered file, in order, each with its progress update; the caller
//! compresses the file and reports the outcome; the run keeps the counts and
//! the errors, and stops handing out jobs once cancelled.

use vstd::prelude::*;
use crate::discovery::texts;
use crate::types::{
    display_name, display_name_of, percent_of, saturating_sum, CompressResult, CompressionConfig,
    ImageError, ProgressUpdate,
};

verus! {

/// How many of `s` are true.
pub open spec fn count_true(s: Seq<bool>) -> nat
    decreases s.len(),
{
    if s.len() == 0 {
        0
    } else {
        count_true(s.drop_last()) + if s.last() { 1nat } else { 0nat }
    }
}

proof fn lemma_count_true_bound(s: Seq<bool>, k: int)
    requires
        0 <= k <= s.len(),
        forall|i: int| k <= i < s.len() ==> !s[i],
    ensures
        count_true(s) <= k,
    decreases s.len(),
{
    if s.len() > 0 {
        if k == s.len() {
            lemma_count_true_bound(s.drop_last(), k - 1);
        } else {
            assert(forall|i: int| k <= i < s.len() - 1 ==> s.drop_last()[i] == s[i]);
            lemma_count_true_bound(s.drop_last(), k);
        }
    }
}

proof fn lemma_count_true_all(s: Seq<bool>)
    requires
        forall|i: int| 0 <= i < s.len() ==> s[i],
    ensures
        count_true(s) == s.len(),
    decreases s.len(),
{
    if s.len() > 0 {
        assert(forall|i: int| 0 <= i < s.len() - 1 ==> s.drop_last()[i] == s[i]);
        lemma_count_true_all(s.drop_last());
    }
}

proof fn lemma_count_true_set(s: Seq<bool>, i: int)
    requires
        0 <= i < s.len(),
        !s[i],
    ensures
        count_true(s.update(i, true)) == count_true(s) + 1,
        count_true(s) < s.len(),
    decreases s.len(),
{
    lemma_count_true_bound(s, s.len() as int);
    if i == s.len() - 1 {
        assert(s.update(i, true).drop_last() =~= s.drop_last());
        lemma_count_true_bound(s.drop_last(), s.len() - 1);
    } else {
        assert(s.update(i, true).drop_last() =~= s.drop_last().update(i, true));
        lemma_count_true_set(s.drop_last(), i);
    }
}

/// Files per chunk: `max(1, total / threads)`.
pub open spec fn chunk_size_of(total: nat, threads: nat) -> nat {
    if threads == 0 || total / threads == 0 {
        1
    } else {
        total / threads
    }
}

/// Files per chunk of a run over `total` files with `threads` workers.
pub fn chunk_size(total: usize, threads: usize) -> (r: usize)
    ensures
        r as nat == chunk_size_of(total as nat, threads as nat),
        r >= 1,
{
    if threads == 0 || total / threads == 0 {
        1
    } else {
        total / threads
    }
}

/// One file to compress, as the run hands it out.
#[derive(Clone, Debug)]
pub struct Job {
    /// 0-based position of the file among the discovered ones.
    pub index: usize,
    /// The chunk that the file falls in.
    pub chunk: usize,
    pub input: String,
    /// The update to deliver before the file is compressed.
    pub progress: ProgressUpdate,
}

/// The state of one run.
pub struct CompressionRun {
    files: Vec<String>,
    chunk_size: usize,
    dispatched: usize,
    settled: Vec<bool>,
    cancelled: bool,
    result: CompressResult,
}

pub open spec fn no_files_message() -> Seq<char> {
    "No valid image files found to compress"@
}

impl CompressionRun {
    /// The discovered files.
    pub closed spec fn files(&self) -> Seq<Seq<char>> {
        texts(self.files@)
    }

    /// How many jobs have been handed out.
    pub closed spec fn dispatched(&self) -> nat {
        self.dispatched as nat
    }

    /// Which files have had their outcome recorded.
    pub closed spec fn settled(&self) -> Seq<bool> {
        self.settled@
    }

    pub closed spec fn cancelled(&self) -> bool {
        self.cancelled
    }

    pub closed spec fn chunk(&self) -> nat {
        self.chunk_size as nat
    }

    /// The counts and errors so far.
    pub closed spec fn outcome(&self) -> CompressResult {
        self.result
    }

    pub closed spec fn wf(&self) -> bool {
        &&& self.files@.len() == self.result.total
        &&& self.settled@.len() == self.files@.len()
        &&& self.dispatched <= self.files@.len()
        &&& forall|i: int| self.dispatched <= i < self.settled@.len() ==> !self.settled@[i]
        &&& self.result.successful + self.result.failed == count_true(self.settled@)
        &&& self.result.errors@.len() == self.result.failed
        &&& self.chunk_size >= 1
    }

    /// Begins a run over the discovered `files`. Fails, before any work, on
    /// an invalid configuration or when no file was discovered.
    pub fn start(config: &CompressionConfig, files: Vec<String>) -> (r: Result<Self, String>)
        ensures
            match config.validation_error() {
                Some(e) => r is Err && r->Err_0@ == e,
                None => if files@.len() == 0 {
                    r is Err && r->Err_0@ == no_files_message()
                } else {
                    &&& r is Ok
                    &&& r->Ok_0.wf()
                    &&& r->Ok_0.files() == texts(files@)
                    &&& r->Ok_0.dispatched() == 0
                    &&& !r->Ok_0.cancelled()
                    &&& r->Ok_0.chunk() == chunk_size_of(files@.len(), config.thread_count as nat)
                    &&& r->Ok_0.outcome().total == files@.len()
                    &&& r->Ok_0.outcome().successful == 0
                    &&& r->Ok_0.outcome().failed == 0
                    &&& r->Ok_0.outcome().saved_bytes == 0
                    &&& r->Ok_0.outcome().errors@.len() == 0
                },
            },
    {
        match config.validate() {
            Err(e) => {
                return Err(e);
            },
            Ok(()) => {},
        }
        let total = files.len();
        if total == 0 {
            return Err(String::from_str("No valid image files found to compress"));
        }
        let mut settled: Vec<bool> = Vec::new();
        let mut i: usize = 0;
        while i < total
            invariant
                i <= total,
                settled@.len() == i,
                forall|j: int| 0 <= j < i ==> !settled@[j],
            decreases total - i,
        {
            settled.push(false);
            i += 1;
        }
        proof { lemma_count_true_bound(settled@, 0); }
        let mut result = CompressResult::new();
        result.total = total;
        let chunk_size = chunk_size(total, config.thread_count);
        Ok(CompressionRun { files, chunk_size, dispatched: 0, settled, cancelled: false, result })
    }

    /// Hands out the next file with its progress update, or None once every
    /// file has been handed out or the run was cancelled.
    pub fn next_job(&mut self) -> (r: Option<Job>)
        requires
            old(self).wf(),
        ensures
            final(self).wf(),
            final(self).files() == old(self).files(),
            final(self).settled() == old(self).settled(),
            final(self).cancelled() == old(self).cancelled(),
            final(self).outcome() == old(self).outcome(),
            final(self).chunk() == old(self).chunk(),
            old(self).cancelled() || old(self).dispatched() == old(self).files().len() ==> {
                &&& r is None
                &&& final(self).dispatched() == old(self).dispatched()
            },
            !(old(self).cancelled() || old(self).dispatched() == old(self).files().len()) ==> {
                let i = old(self).dispatched();
                let total = old(self).files().len();
                &&& r is Some
                &&& final(self).dispatched() == i + 1
                &&& r->0.index == i
                &&& r->0.chunk == i / old(self).chunk()
                &&& r->0.input@ == old(self).files()[i as int]
                &&& r->0.progress.current == i + 1
                &&& r->0.progress.total == total
                &&& r->0.progress.current_file@ == display_name(old(self).files()[i as int])
                &&& r->0.progress.percent as nat == percent_of(i + 1, total)
            },
    {
        if self.cancelled || self.dispatched == self.files.len() {
            return None;
        }
        let index = self.dispatched;
        let input = self.files[index].clone();
        let name = display_name_of(input.as_str());
        let progress = ProgressUpdate::new(index + 1, self.files.len(), name);
        self.dispatched = index + 1;
        Some(Job { index, chunk: index / self.chunk_size, input, progress })
    }

    /// The job `index` was handed out and has no outcome yet.
    pub open spec fn is_outstanding(&self, index: int) -> bool {
        0 <= index < self.dispatched() && !self.settled()[index]
    }

    /// Records that job `index` wrote a file of `compressed_size` bytes from
    /// one of `original_size` bytes. Does nothing, and says false, where the
    /// job is not outstanding.
    pub fn record_success(&mut self, index: usize, original_size: u64, compressed_size: u64) -> (r: bool)
        requires
            old(self).wf(),
        ensures
            final(self).wf(),
            r == old(self).is_outstanding(index as int),
            final(self).files() == old(self).files(),
            final(self).dispatched() == old(self).dispatched(),
            final(self).cancelled() == old(self).cancelled(),
            final(self).chunk() == old(self).chunk(),
            !r ==> final(self).settled() == old(self).settled() && final(self).outcome() == old(self).outcome(),
            r ==> {
                let saved = if original_size >= compressed_size { (original_size - compressed_size) as u64 } else { 0u64 };
                &&& final(self).settled() == old(self).settled().update(index as int, true)
                &&& final(self).outcome().successful == old(self).outcome().successful + 1
                &&& final(self).outcome().saved_bytes == saturating_sum(old(self).outcome().saved_bytes, saved)
                &&& final(self).outcome().failed == old(self).outcome().failed
                &&& final(self).outcome().errors@ == old(self).outcome().errors@
                &&& final(self).outcome().total == old(self).outcome().total
            },
    {
        if index >= self.dispatched || self.settled[index] {
            return false;
        }
        proof { lemma_count_true_set(self.settled@, index as int); }
        self.settled.set(index, true);
        let saved = if original_size >= compressed_size { original_size - compressed_size } else { 0 };
        self.result.add_success(saved);
        true
    }

    /// Records that job `index` failed with `message`. Does nothing, and
    /// says false, where the job is not outstanding.
    pub fn record_failure(&mut self, index: usize, message: String) -> (r: bool)
        requires
            old(self).wf(),
        ensures
            final(self).wf(),
            r == old(self).is_outstanding(index as int),
            final(self).files() == old(self).files(),
            final(self).dispatched() == old(self).dispatched(),
            final(self).cancelled() == old(self).cancelled(),
            final(self).chunk() == old(self).chunk(),
            !r ==> final(self).settled() == old(self).settled() && final(self).outcome() == old(self).outcome(),
            r ==> {
                let e = final(self).outcome().errors@.last();
                &&& final(self).settled() == old(self).settled().update(index as int, true)
                &&& final(self).outcome().failed == old(self).outcome().failed + 1
                &&& final(self).outcome().errors@.len() == old(self).outcome().errors@.len() + 1
                &&& final(self).outcome().errors@.drop_last() == old(self).outcome().errors@
                &&& e.path@ == old(self).files()[index as int]
                &&& e.filename@ == display_name(old(self).files()[index as int])
                &&& e.error == message
                &&& final(self).outcome().successful == old(self).outcome().successful
                &&& final(self).outcome().saved_bytes == old(self).outcome().saved_bytes
                &&& final(self).outcome().total == old(self).outcome().total
            },
    {
        if index >= self.dispatched || self.settled[index] {
            return false;
        }
        proof { lemma_count_true_set(self.settled@, index as int); }
        self.settled.set(index, true);
        let error = ImageError::new(self.files[index].clone(), message);
        self.result.add_error(error);
        proof {
            assert(self.result.errors@.drop_last() =~= old(self).result.errors@);
        }
        true
    }

    /// Stops the handing out of jobs; outcomes of jobs already handed out
    /// may still be recorded.
    pub fn cancel(&mut self)
        requires
            old(self).wf(),
        ensures
            final(self).wf(),
            final(self).cancelled(),
            final(self).files() == old(self).files(),
            final(self).dispatched() == old(self).dispatched(),
            final(self).settled() == old(self).settled(),
            final(self).outcome() == old(self).outcome(),
            final(self).chunk() == old(self).chunk(),
    {
        self.cancelled = true;
    }

    pub fn total(&self) -> (r: usize)
        requires
            self.wf(),
        ensures
            r == self.files().len(),
    {
        self.files.len()
    }

    pub fn is_cancelled(&self) -> (r: bool)
        ensures
            r == self.cancelled(),
    {
        self.cancelled
    }

    /// Ends the run and gives its result, with the time it took.
    pub fn finish(self, duration_ms: u128) -> (r: CompressResult)
        requires
            self.wf(),
        ensures
            r.total == self.files().len(),
            r.successful == self.outcome().successful,
            r.failed == self.outcome().failed,
            r.saved_bytes == self.outcome().saved_bytes,
            r.errors == self.outcome().errors,
            r.errors@.len() == r.failed,
            r.duration_ms == duration_ms,
    {
        let mut result = self.result;
        result.duration_ms = duration_ms;
        result
    }
}

/// In every run the total is the number of discovered files, and the
/// successes and failures together are the files whose outcome was recorded.
pub proof fn lemma_run_counts(run: CompressionRun)
    requires
        run.wf(),
    ensures
        run.outcome().total == run.files().len(),
        run.settled().len() == run.files().len(),
        run.outcome().successful + run.outcome().failed == count_true(run.settled()),
        run.outcome().errors@.len() == run.outcome().failed,
        run.outcome().successful + run.outcome().failed <= run.dispatched(),
        run.dispatched() <= run.files().len(),
{
    lemma_count_true_bound(run.settled(), run.dispatched() as int);
}

/// A run that handed out every job and recorded every outcome counts each
/// file once: `successful + failed` is the number of discovered files.
pub proof fn lemma_completed_run_accounts_for_all(run: CompressionRun)
    requires
        run.wf(),
        run.dispatched() == run.files().len(),
        forall|i: int| 0 <= i < run.settled().len() ==> run.settled()[i],
    ensures
        run.outcome().successful + run.outcome().failed == run.files().len(),
        run.outcome().total == run.files().len(),
{
    lemma_count_true_all(run.settled());
}

/// A run cancelled before it handed out every job keeps the full count of
/// discovered files as its total; its successes and failures are exactly
/// the files whose outcome was recorded, and stay below the total.
pub proof fn lemma_cancelled_run_is_partial(run: CompressionRun)
    requires
        run.wf(),
        run.cancelled(),
        run.dispatched() < run.files().len(),
    ensures
        run.outcome().total == run.files().len(),
        run.outcome().successful + run.outcome().failed == count_true(run.settled()),
        run.outcome().successful + run.outcome().failed < run.files().len(),
{
    lemma_count_true_bound(run.settled(), run.dispatched() as int);
}

/// What was found of one file once a whole folder was compressed.
#[derive(Clone, Copy, Debug)]
pub struct FolderFileOutcome {
    /// Size of the input in bytes.
    pub original_size: u64,
    /// The output file is there.
    pub output_exists: bool,
    /// Size of the output in bytes, where it could be read.
    pub compressed_size: Option<u64>,
}

/// Bytes saved on one file: none where the output size is unknown.
pub open spec fn folder_saved_of(o: FolderFileOutcome) -> u64 {
    let c = match o.compressed_size {
        Some(c) => c,
        None => o.original_size,
    };
    if o.original_size >= c {
        (o.original_size - c) as u64
    } else {
        0
    }
}

/// How many outputs are there.
pub open spec fn folder_successes(outs: Seq<FolderFileOutcome>) -> nat
    decreases outs.len(),
{
    if outs.len() == 0 {
        0
    } else {
        folder_successes(outs.drop_last()) + if outs.last().output_exists { 1nat } else { 0nat }
    }
}

/// Bytes saved over the outputs that are there, stopping at `u64::MAX`.
pub open spec fn folder_saved(outs: Seq<FolderFileOutcome>) -> u64
    decreases outs.len(),
{
    if outs.len() == 0 {
        0
    } else if outs.last().output_exists {
        saturating_sum(folder_saved(outs.drop_last()), folder_saved_of(outs.last()))
    } else {
        folder_saved(outs.drop_last())
    }
}

/// The inputs whose output is missing, in order.
pub open spec fn folder_missing(files: Seq<Seq<char>>, outs: Seq<FolderFileOutcome>) -> Seq<Seq<char>>
    decreases outs.len(),
{
    if outs.len() == 0 || files.len() == 0 {
        seq![]
    } else if outs.last().output_exists {
        folder_missing(files.drop_last(), outs.drop_last())
    } else {
        folder_missing(files.drop_last(), outs.drop_last()).push(files.last())
    }
}

pub open spec fn missing_output_message() -> Seq<char> {
    "Output file not found after compression"@
}

/// The paths of a sequence of errors.
pub open spec fn error_paths(es: Seq<ImageError>) -> Seq<Seq<char>> {
    es.map_values(|e: ImageError| e.path@)
}

/// Refuses a whole-folder run that found no image to compress.
pub fn folder_run_start(file_count: usize) -> (r: Result<(), String>)
    ensures
        file_count == 0 ==> r is Err && r->Err_0@ == "No valid image files found in folder"@,
        file_count > 0 ==> r is Ok,
{
    if file_count == 0 {
        Err(String::from_str("No valid image files found in folder"))
    } else {
        Ok(())
    }
}

/// The result of a whole-folder run: each file whose output is there is a
/// success, each other one a failure with its error.
pub fn tally_folder_run(files: &Vec<String>, outcomes: &Vec<FolderFileOutcome>, duration_ms: u128) -> (r: CompressResult)
    requires
        files@.len() == outcomes@.len(),
    ensures
        r.total == files@.len(),
        r.successful == folder_successes(outcomes@),
        r.successful + r.failed == r.total,
        r.errors@.len() == r.failed,
        r.saved_bytes == folder_saved(outcomes@),
        error_paths(r.errors@) == folder_missing(texts(files@), outcomes@),
        forall|j: int| 0 <= j < r.errors@.len() ==> {
            &&& (#[trigger] r.errors@[j]).error@ == missing_output_message()
            &&& r.errors@[j].filename@ == display_name(r.errors@[j].path@)
        },
        r.duration_ms == duration_ms,
{
    let mut result = CompressResult::new();
    result.total = files.len();
    result.duration_ms = duration_ms;
    let mut i: usize = 0;
    proof {
        assert(outcomes@.subrange(0, 0) =~= Seq::<FolderFileOutcome>::empty());
        assert(error_paths(result.errors@) =~= folder_missing(texts(files@).subrange(0, 0), outcomes@.subrange(0, 0)));
    }
    while i < files.len()
        invariant
            i <= files@.len(),
            files@.len() == outcomes@.len(),
            result.total == files@.len(),
            result.duration_ms == duration_ms,
            result.successful + result.failed == i,
            result.errors@.len() == result.failed,
            result.successful == folder_successes(outcomes@.subrange(0, i as int)),
            result.saved_bytes == folder_saved(outcomes@.subrange(0, i as int)),
            error_paths(result.errors@) == folder_missing(texts(files@).subrange(0, i as int), outcomes@.subrange(0, i as int)),
            forall|j: int| 0 <= j < result.errors@.len() ==> {
                &&& (#[trigger] result.errors@[j]).error@ == missing_output_message()
                &&& result.errors@[j].filename@ == display_name(result.errors@[j].path@)
            },
        decreases files.len() - i,
    {
        let o = outcomes[i];
        let ghost before = result.errors@;
        proof {
            assert(outcomes@.subrange(0, i + 1).drop_last() =~= outcomes@.subrange(0, i as int));
            assert(texts(files@).subrange(0, i + 1).drop_last() =~= texts(files@).subrange(0, i as int));
            assert(texts(files@).subrange(0, i + 1).last() == files@[i as int]@);
        }
        if o.output_exists {
            let compressed = match o.compressed_size {
                Some(c) => c,
                None => o.original_size,
            };
            let saved = if o.original_size >= compressed { o.original_size - compressed } else { 0 };
            result.add_success(saved);
        } else {
            let error = ImageError::new(files[i].clone(), String::from_str("Output file not found after compression"));
            result.add_error(error);
            proof {
                assert(error_paths(result.errors@) =~= error_paths(before).push(files@[i as int]@));
            }
        }
        i += 1;
    }
    proof {
        assert(outcomes@.subrange(0, files@.len() as int) =~= outcomes@);
        assert(texts(files@).subrange(0, files@.len() as int) =~= texts(files@));
    }
    result
}

} // verus!
