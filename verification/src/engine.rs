//! Cleaning many files, and the account of it.

use crate::config::{resolve_worker_count, Config};
use crate::ports::fs::FileSystem;
use crate::config::BinaryDetection;
use crate::outside::texts;
use crate::processor::{
    is_file_result, lemma_may_process, may_process, ProcessingResult, ResultView,
    WhitespaceProcessor,
};
use std::sync::Arc;
use std::time::Duration;
use vstd::prelude::*;

verus! {

/// Cleans the files of a list, each on its own: what goes wrong with one file
/// is told in the result of that file and touches no other.
pub struct ParallelEngine {
    processor: WhitespaceProcessor,
    threads: usize,
}

/// The account of a run in numbers.
#[derive(Debug)]
pub struct ProcessingSummary {
    /// How many files there were.
    pub files_processed: usize,
    /// How many had lines to clean, and no error.
    pub files_modified: usize,
    /// How many have an error.
    pub files_with_errors: usize,
    /// How long the run took, as the caller measured it.
    pub duration: Duration,
}

/// The result of each file of a run, by its path.
#[derive(Debug)]
pub struct ProcessingResults {
    pub file_results: Vec<(String, ProcessingResult)>,
}

/// Whether a result has an error.
pub open spec fn is_failed(result: ProcessingResult) -> bool {
    result.error is Some
}

/// Whether a result is of a file that had lines to clean, and has no error.
/// In a dry run such a file counts too: it would be cleaned.
pub open spec fn is_modified(result: ProcessingResult) -> bool {
    result.had_changes && result.error is None
}

/// Whether a result is of a file that had nothing to clean, and has no error.
pub open spec fn is_unchanged(result: ProcessingResult) -> bool {
    !result.had_changes && result.error is None
}

/// How many of `results` have an error.
pub open spec fn count_failed(results: Seq<ProcessingResult>) -> nat
    decreases results.len(),
{
    if results.len() == 0 {
        0
    } else {
        count_failed(results.drop_last()) + if is_failed(results.last()) {
            1nat
        } else {
            0nat
        }
    }
}

/// How many of `results` are of modified files.
pub open spec fn count_modified(results: Seq<ProcessingResult>) -> nat
    decreases results.len(),
{
    if results.len() == 0 {
        0
    } else {
        count_modified(results.drop_last()) + if is_modified(results.last()) {
            1nat
        } else {
            0nat
        }
    }
}

/// How many of `results` are of unchanged files.
pub open spec fn count_unchanged(results: Seq<ProcessingResult>) -> nat
    decreases results.len(),
{
    if results.len() == 0 {
        0
    } else {
        count_unchanged(results.drop_last()) + if is_unchanged(results.last()) {
            1nat
        } else {
            0nat
        }
    }
}

/// The results of a list of pairs, without the paths.
pub open spec fn results_of(pairs: Seq<(String, ProcessingResult)>) -> Seq<ProcessingResult> {
    pairs.map_values(|pair: (String, ProcessingResult)| pair.1)
}

/// The paths of a list of pairs, as texts.
pub open spec fn paths_of(pairs: Seq<(String, ProcessingResult)>) -> Seq<Seq<char>> {
    pairs.map_values(|pair: (String, ProcessingResult)| pair.0@)
}

/// The results of a list of pairs, as plain values.
pub open spec fn result_views(pairs: Seq<(String, ProcessingResult)>) -> Seq<ResultView> {
    pairs.map_values(|pair: (String, ProcessingResult)| pair.1@)
}

/// Whether `states` are the states of a file system through a run over
/// `paths` that gives `results`: one state before each file and one after the
/// last, each file cleaned as `may_process` says, from the state before it to
/// the state after it.
pub open spec fn run_states<F: FileSystem>(
    detection: BinaryDetection,
    states: Seq<F>,
    paths: Seq<Seq<char>>,
    dry_run: bool,
    results: Seq<ResultView>,
) -> bool {
    &&& states.len() == paths.len() + 1
    &&& results.len() == paths.len()
    &&& forall|i: int|
        0 <= i < paths.len() ==> may_process(
            detection,
            #[trigger] states[i],
            paths[i],
            dry_run,
            states[i + 1],
            results[i],
        )
}

/// Whether a run over `paths`, one file after the other, may give `results`
/// and turn the file system `before` into `after`.
pub open spec fn may_run<F: FileSystem>(
    detection: BinaryDetection,
    before: F,
    paths: Seq<Seq<char>>,
    dry_run: bool,
    after: F,
    results: Seq<ResultView>,
) -> bool {
    exists|states: Seq<F>| #[trigger]
        run_states(detection, states, paths, dry_run, results) && states[0] == before
            && states.last() == after
}

/// Every file of a run is of exactly one kind: failed, modified or unchanged.
/// So the three counts add up to the number of files.
pub proof fn lemma_counts_partition(results: Seq<ProcessingResult>)
    ensures
        count_failed(results) + count_modified(results) + count_unchanged(results)
            == results.len(),
        forall|i: int|
            0 <= i < results.len() ==> {
                let r = #[trigger] results[i];
                &&& is_failed(r) || is_modified(r) || is_unchanged(r)
                &&& !(is_failed(r) && is_modified(r))
                &&& !(is_failed(r) && is_unchanged(r))
                &&& !(is_modified(r) && is_unchanged(r))
            },
    decreases results.len(),
{
    if results.len() > 0 {
        lemma_counts_partition(results.drop_last());
    }
}

impl ProcessingResults {
    /// The results of a run from the paths and, in the same order, the result
    /// of each; nothing where the two lists differ in length.
    pub fn assemble(files: Vec<String>, results: Vec<ProcessingResult>) -> (all: Option<Self>)
        ensures
            all is Some <==> files@.len() == results@.len(),
            all matches Some(a) ==> a.file_results@.len() == files@.len() && forall|i: int|
                0 <= i < files@.len() ==> (#[trigger] a.file_results@[i]).0 == files@[i]
                    && a.file_results@[i].1 == results@[i],
    {
        if files.len() != results.len() {
            return None;
        }
        let ghost all_files = files@;
        let ghost all_results = results@;
        let mut files = files;
        let mut results = results;
        let mut reversed: Vec<(String, ProcessingResult)> = Vec::new();
        while files.len() > 0
            invariant
                files@.len() == results@.len(),
                files@ == all_files.take(files@.len() as int),
                results@ == all_results.take(results@.len() as int),
                all_files.len() == all_results.len(),
                reversed@.len() + files@.len() == all_files.len(),
                forall|k: int|
                    0 <= k < reversed@.len() ==> (#[trigger] reversed@[k]).0 == all_files[
                        all_files.len() - 1 - k
                    ] && reversed@[k].1 == all_results[all_files.len() - 1 - k],
            decreases files@.len(),
        {
            let file = files.pop().unwrap();
            let result = results.pop().unwrap();
            reversed.push((file, result));
        }
        let mut file_results: Vec<(String, ProcessingResult)> = Vec::new();
        while reversed.len() > 0
            invariant
                file_results@.len() + reversed@.len() == all_files.len(),
                all_files.len() == all_results.len(),
                forall|k: int|
                    0 <= k < reversed@.len() ==> (#[trigger] reversed@[k]).0 == all_files[
                        all_files.len() - 1 - k
                    ] && reversed@[k].1 == all_results[all_files.len() - 1 - k],
                forall|i: int|
                    0 <= i < file_results@.len() ==> (#[trigger] file_results@[i]).0
                        == all_files[i] && file_results@[i].1 == all_results[i],
            decreases reversed@.len(),
        {
            let pair = reversed.pop().unwrap();
            file_results.push(pair);
        }
        Some(ProcessingResults { file_results })
    }
}

impl ParallelEngine {
    /// The configuration that the engine goes by.
    pub closed spec fn config(&self) -> Config {
        self.processor.config()
    }

    /// The number of workers that the engine is made for.
    pub closed spec fn worker_count(&self) -> usize {
        self.threads
    }

    /// An engine that goes by `config`, for `num_threads` workers. Where no
    /// worker is asked for, the engine is made for as many as the machine
    /// reports cores.
    pub fn new(config: Arc<Config>, num_threads: usize) -> (engine: Self)
        ensures
            engine.config() == *config,
            engine.worker_count() >= 1,
            num_threads >= 1 ==> engine.worker_count() == num_threads,
    {
        ParallelEngine {
            processor: WhitespaceProcessor::new(config),
            threads: resolve_worker_count(num_threads),
        }
    }

    /// The number of workers that the engine is made for.
    pub fn threads(&self) -> (n: usize)
        ensures
            n == self.worker_count(),
            n >= 1,
    {
        proof {
            use_type_invariant(self);
        }
        self.threads
    }

    #[verifier::type_invariant]
    spec fn has_workers(self) -> bool {
        self.threads >= 1
    }

    /// Cleans the file at `path`: the work of one worker on one file.
    pub fn process_path<F: FileSystem>(&self, fs: &mut F, path: &str, dry_run: bool) -> (result:
        ProcessingResult)
        ensures
            may_process(
                self.config().binary_detection,
                *old(fs),
                path@,
                dry_run,
                *final(fs),
                result@,
            ),
            result.had_changes == (result.lines_modified@.len() > 0),
            dry_run || !result.had_changes ==> *final(fs) == *old(fs),
    {
        self.processor.process_file(fs, path, dry_run)
    }

    /// Cleans the files at `files`, one after the other. There is one result
    /// for each path, in the order of the paths; each file is cleaned as
    /// `may_process` says, with the file system as the files before it left
    /// it; and a dry run leaves the file system as it was.
    pub fn process_files_with_results<F: FileSystem>(
        &self,
        fs: &mut F,
        files: Vec<String>,
        dry_run: bool,
    ) -> (all: ProcessingResults)
        ensures
            paths_of(all.file_results@) == texts(files@),
            may_run(
                self.config().binary_detection,
                *old(fs),
                texts(files@),
                dry_run,
                *final(fs),
                result_views(all.file_results@),
            ),
            forall|i: int|
                0 <= i < all.file_results@.len() ==> {
                    let result = (#[trigger] all.file_results@[i]).1;
                    &&& result.had_changes == (result.lines_modified@.len() > 0)
                    &&& is_file_result(self.config().binary_detection, dry_run, result@)
                },
            dry_run ==> *final(fs) == *old(fs),
    {
        let mut file_results: Vec<(String, ProcessingResult)> = Vec::new();
        let mut i: usize = 0;
        let ghost detection = self.config().binary_detection;
        let ghost paths = texts(files@);
        let ghost mut states: Seq<F> = seq![*fs];
        while i < files.len()
            invariant
                i <= files.len(),
                file_results@.len() == i,
                detection == self.config().binary_detection,
                paths == texts(files@),
                forall|k: int| 0 <= k < i ==> (#[trigger] file_results@[k]).0@ == files@[k]@,
                forall|k: int|
                    0 <= k < i ==> {
                        let result = (#[trigger] file_results@[k]).1;
                        &&& result.had_changes == (result.lines_modified@.len() > 0)
                        &&& is_file_result(self.config().binary_detection, dry_run, result@)
                    },
                dry_run ==> *fs == *old(fs),
                states.len() == i + 1,
                states[0] == *old(fs),
                states.last() == *fs,
                forall|k: int|
                    0 <= k < i ==> may_process(
                        detection,
                        #[trigger] states[k],
                        paths[k],
                        dry_run,
                        states[k + 1],
                        result_views(file_results@)[k],
                    ),
            decreases files.len() - i,
        {
            let path = files[i].as_str();
            let ghost before = *fs;
            let ghost states_before = states;
            let ghost results_before = file_results@;
            let result = self.process_path(fs, path, dry_run);
            proof {
                lemma_may_process(detection, before, path@, dry_run, *fs, result@);
                states = states_before.push(*fs);
            }
            file_results.push((path.to_owned(), result));
            proof {
                assert forall|k: int| 0 <= k < i + 1 implies may_process(
                    detection,
                    #[trigger] states[k],
                    paths[k],
                    dry_run,
                    states[k + 1],
                    result_views(file_results@)[k],
                ) by {
                    if k < i {
                        assert(states[k] == states_before[k]);
                        assert(states[k + 1] == states_before[k + 1]);
                        assert(result_views(file_results@)[k] == result_views(results_before)[k]);
                    } else {
                        assert(states[k] == before);
                        assert(paths[k] == path@);
                    }
                }
            }
            i = i + 1;
        }
        proof {
            assert(paths_of(file_results@) =~= texts(files@));
            assert(run_states(detection, states, paths, dry_run, result_views(file_results@)));
        }
        ProcessingResults { file_results }
    }

    /// Counts the results of a run.
    pub fn aggregate_results(&self, results: &Vec<ProcessingResult>, duration: Duration) -> (summary:
        ProcessingSummary)
        ensures
            summary.files_processed == results@.len(),
            summary.files_with_errors == count_failed(results@),
            summary.files_modified == count_modified(results@),
            summary.files_processed - summary.files_with_errors - summary.files_modified
                == count_unchanged(results@),
            summary.duration == duration,
    {
        assert(held_results(results@) =~= results@);
        tally(results, duration)
    }

    /// Counts the results of a run, taken with their paths.
    pub fn summarize(&self, all: &ProcessingResults, duration: Duration) -> (summary:
        ProcessingSummary)
        ensures
            summary.files_processed == all.file_results@.len(),
            summary.files_with_errors == count_failed(results_of(all.file_results@)),
            summary.files_modified == count_modified(results_of(all.file_results@)),
            summary.files_processed - summary.files_with_errors - summary.files_modified
                == count_unchanged(results_of(all.file_results@)),
            summary.duration == duration,
    {
        assert(held_results(all.file_results@) =~= results_of(all.file_results@));
        tally(&all.file_results, duration)
    }
}

/// What holds the result of a file: the result itself, or the result with
/// the path of its file.
trait HoldsResult {
    /// The result that is held.
    spec fn held(&self) -> ProcessingResult;

    /// The result that is held.
    fn result(&self) -> (result: &ProcessingResult)
        ensures
            *result == self.held(),
    ;
}

impl HoldsResult for ProcessingResult {
    spec fn held(&self) -> ProcessingResult {
        *self
    }

    fn result(&self) -> (result: &ProcessingResult) {
        self
    }
}

impl HoldsResult for (String, ProcessingResult) {
    spec fn held(&self) -> ProcessingResult {
        self.1
    }

    fn result(&self) -> (result: &ProcessingResult) {
        &self.1
    }
}

/// The results that the items of a list hold.
spec fn held_results<T: HoldsResult>(items: Seq<T>) -> Seq<ProcessingResult> {
    items.map_values(|item: T| item.held())
}

/// Counts the results that the items of a list hold.
fn tally<T: HoldsResult>(items: &Vec<T>, duration: Duration) -> (summary: ProcessingSummary)
    ensures
        summary.files_processed == items@.len(),
        summary.files_with_errors == count_failed(held_results(items@)),
        summary.files_modified == count_modified(held_results(items@)),
        summary.files_processed - summary.files_with_errors - summary.files_modified
            == count_unchanged(held_results(items@)),
        summary.duration == duration,
{
    let mut files_modified: usize = 0;
    let mut files_with_errors: usize = 0;
    let mut i: usize = 0;
    let ghost results = held_results(items@);
    while i < items.len()
        invariant
            i <= items.len(),
            results == held_results(items@),
            files_with_errors == count_failed(results.take(i as int)),
            files_modified == count_modified(results.take(i as int)),
            files_with_errors + files_modified <= i,
        decreases items.len() - i,
    {
        assert(results.take(i + 1).drop_last() =~= results.take(i as int));
        let result = items[i].result();
        assert(results[i as int] == *result);
        if result.error.is_some() {
            files_with_errors = files_with_errors + 1;
        } else if result.had_changes {
            files_modified = files_modified + 1;
        }
        i = i + 1;
    }
    proof {
        assert(results.take(i as int) =~= results);
        lemma_counts_partition(results);
    }
    ProcessingSummary { files_processed: items.len(), files_modified, files_with_errors, duration }
}

} // verus!
