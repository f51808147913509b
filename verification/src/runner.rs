//! A run over directories: what is decided for each of them.

use crate::cli::Cli;
use crate::config::Config;
use crate::engine::{may_run, paths_of, result_views, ParallelEngine, ProcessingResults};
use crate::outside::{available_cpus, share_config, texts};
use crate::ports::fs::FileSystem;
use crate::processor::is_file_result;
use crate::report::{display_results, lines_view, shown, summary_of, Report};
use crate::walker::{excluded, may_collect, may_pass_size, picked_in_order, FileWalker};
use std::sync::Arc;
use vstd::prelude::*;

verus! {

/// What a run goes by: the configuration, and what the command line added.
#[derive(Debug)]
pub struct RuntimeConfig {
    /// The rules for files.
    pub file_config: Arc<Config>,
    /// The directories to clean.
    pub directories: Vec<String>,
    /// Whether directories below them are cleaned too.
    pub recursive: bool,
    /// Whether files are only reported.
    pub dry_run: bool,
    /// The number of workers asked for; zero leaves it to the machine.
    pub threads: usize,
}

/// Whether a directory that was named can be cleaned.
#[derive(Debug, Clone, Copy, PartialEq, Eq, Structural)]
pub enum TargetStatus {
    /// Nothing is there.
    Missing,
    /// Something is there, and it is no directory.
    NotADirectory,
    /// It is a directory.
    Ready,
}

/// The sums of a run over its directories.
#[derive(Debug, Clone, Copy, PartialEq, Eq, Structural)]
pub struct RunTotals {
    /// The files with lines to clean.
    pub files_with_changes: usize,
    /// The files that were cleaned, or, in a dry run, would be.
    pub files_modified: usize,
    /// The directories that were gone through.
    pub processed_dirs: usize,
}

/// What became of the files of one directory.
#[derive(Debug)]
pub struct DirectoryOutcome {
    /// The result of each eligible file.
    pub results: ProcessingResults,
    /// What is shown of them.
    pub report: Report,
}

impl DirectoryOutcome {
    /// What became of the files of one directory, from their results: the
    /// results with the report on them.
    pub fn from_results(results: ProcessingResults, dry_run: bool) -> (outcome: Self)
        ensures
            outcome.results == results,
            lines_view(outcome.report.lines@) == shown(results.file_results@),
            outcome.report.summary == summary_of(outcome.report.lines@.len() as usize, dry_run),
    {
        let report = display_results(&results.file_results, dry_run);
        DirectoryOutcome { results, report }
    }
}

/// The number of workers that a run asks for: what the command line gives
/// where the user set it, else what the configuration gives. The command line
/// counts as set where its number differs from the number of cores, which it
/// holds by default.
pub open spec fn chosen_threads(cli_threads: usize, cores: usize, config_threads: usize) -> usize {
    if cli_threads != cores {
        cli_threads
    } else {
        config_threads
    }
}

/// The directories of a run: those that were named, or the current directory
/// where none was.
pub open spec fn chosen_directories(named: Seq<Seq<char>>) -> Seq<Seq<char>> {
    if named.len() == 0 {
        seq!["."@]
    } else {
        named
    }
}

/// The status of a directory, from whether anything is at its path and
/// whether that is a directory.
pub open spec fn status_of(is_there: bool, is_dir: bool) -> TargetStatus {
    if !is_there {
        TargetStatus::Missing
    } else if !is_dir {
        TargetStatus::NotADirectory
    } else {
        TargetStatus::Ready
    }
}

/// Whether the file system may give the directory at `dir` the status
/// `status`: it is asked whether anything is there, and, where something is,
/// whether that is a directory.
pub open spec fn may_have_status<F: FileSystem>(fs: F, dir: Seq<char>, status: TargetStatus)
    -> bool {
    exists|is_there: bool|
        #[trigger] fs.may_tell_exists(dir, is_there) && if is_there {
            may_be_ready(fs, dir, status)
        } else {
            status == TargetStatus::Missing
        }
}

/// Whether the file system may give what is at `dir` the status `status`.
pub open spec fn may_be_ready<F: FileSystem>(fs: F, dir: Seq<char>, status: TargetStatus) -> bool {
    exists|is_dir: bool| #[trigger] fs.may_tell_dir(dir, is_dir) && status == status_of(true, is_dir)
}

/// A sum of two counts that stays at the largest number where it would pass
/// it.
pub open spec fn capped_sum(a: usize, b: usize) -> usize {
    if a + b > usize::MAX {
        usize::MAX
    } else {
        (a + b) as usize
    }
}

/// Adds two counts, staying at the largest number.
fn add_capped(a: usize, b: usize) -> (sum: usize)
    ensures
        sum == capped_sum(a, b),
{
    if b > usize::MAX - a {
        usize::MAX
    } else {
        a + b
    }
}

/// Copies a list of strings.
fn copy_list(items: &Vec<String>) -> (list: Vec<String>)
    ensures
        texts(list@) == texts(items@),
{
    let mut list: Vec<String> = Vec::new();
    let mut i: usize = 0;
    while i < items.len()
        invariant
            i <= items.len(),
            list@.len() == i,
            forall|j: int| 0 <= j < i ==> (#[trigger] list@[j])@ == items@[j]@,
        decreases items.len() - i,
    {
        list.push(items[i].as_str().to_owned());
        i = i + 1;
    }
    assert(texts(list@) =~= texts(items@));
    list
}

/// Chooses the number of workers of a run.
pub fn choose_threads(cli_threads: usize, cores: usize, config_threads: usize) -> (threads: usize)
    ensures
        threads == chosen_threads(cli_threads, cores, config_threads),
{
    if cli_threads != cores {
        cli_threads
    } else {
        config_threads
    }
}

/// Tells the status of a directory from what the file system answered.
pub fn classify_target(is_there: bool, is_dir: bool) -> (status: TargetStatus)
    ensures
        status == status_of(is_there, is_dir),
{
    if !is_there {
        TargetStatus::Missing
    } else if !is_dir {
        TargetStatus::NotADirectory
    } else {
        TargetStatus::Ready
    }
}

/// Asks the file system whether the directory at `dir` can be cleaned.
pub fn check_target<F: FileSystem>(fs: &F, dir: &str) -> (status: TargetStatus)
    ensures
        may_have_status(*fs, dir@, status),
{
    let is_there = fs.path_exists(dir);
    assert(fs.may_tell_exists(dir@, is_there));
    if !is_there {
        return classify_target(false, false);
    }
    let is_dir = fs.is_dir(dir);
    assert(fs.may_tell_dir(dir@, is_dir));
    let status = classify_target(true, is_dir);
    assert(may_be_ready(*fs, dir@, status));
    status
}

impl RuntimeConfig {
    /// What a run goes by, from the command line and the configuration. The
    /// number of workers is chosen with the number of cores that the machine
    /// reports: it is the number of the command line or that of the
    /// configuration.
    pub fn resolve(cli: &Cli, config: Arc<Config>) -> (runtime: Self)
        ensures
            *runtime.file_config == *config,
            texts(runtime.directories@) == chosen_directories(texts(cli.directories@)),
            runtime.recursive == cli.recursive,
            runtime.dry_run == cli.dry_run,
            exists|cores: usize|
                runtime.threads == #[trigger] chosen_threads(
                    cli.threads,
                    cores,
                    config.processing.threads,
                ),
    {
        let directories = if cli.directories.len() == 0 {
            let mut current: Vec<String> = Vec::new();
            current.push(".".to_owned());
            assert(texts(current@) =~= seq!["."@]);
            current
        } else {
            copy_list(&cli.directories)
        };
        let cores = available_cpus();
        let threads = choose_threads(cli.threads, cores, config.processing.threads);
        assert(threads == chosen_threads(cli.threads, cores, config.processing.threads));
        RuntimeConfig {
            file_config: config,
            directories,
            recursive: cli.recursive,
            dry_run: cli.dry_run,
            threads,
        }
    }
}

impl RunTotals {
    /// The sums before any directory.
    pub fn new() -> (totals: Self)
        ensures
            totals == (RunTotals { files_with_changes: 0, files_modified: 0, processed_dirs: 0 }),
    {
        RunTotals { files_with_changes: 0, files_modified: 0, processed_dirs: 0 }
    }

    /// Counts one directory that was gone through, with `files_with_changes`
    /// files that have lines to clean. A dry run counts them as modified too:
    /// they would be.
    pub fn record(&mut self, files_with_changes: usize)
        ensures
            final(self).files_with_changes == capped_sum(
                old(self).files_with_changes,
                files_with_changes,
            ),
            final(self).files_modified == capped_sum(old(self).files_modified, files_with_changes),
            final(self).processed_dirs == capped_sum(old(self).processed_dirs, 1),
    {
        self.files_with_changes = add_capped(self.files_with_changes, files_with_changes);
        self.files_modified = add_capped(self.files_modified, files_with_changes);
        self.processed_dirs = add_capped(self.processed_dirs, 1);
    }

    /// Whether no directory was gone through: there was nothing to do.
    pub fn nothing_processed(&self) -> (nothing: bool)
        ensures
            nothing == (self.processed_dirs == 0),
    {
        self.processed_dirs == 0
    }
}

/// Cleans the eligible files among `entries`, the paths that a walk of one
/// directory came by, one file after the other, and makes the report. The
/// files are collected as `may_collect` says, and cleaned as `may_run` says.
/// So, whatever the file system answers: the files that have a result are
/// some of the entries, in the order of the walk; none of them is excluded by
/// a pattern of the configuration, and each was shown to be within the
/// allowed size; and a dry run leaves the file system as it was.
pub fn process_directory<F: FileSystem>(
    entries: &Vec<String>,
    runtime_config: &RuntimeConfig,
    fs: &mut F,
) -> (outcome: DirectoryOutcome)
    ensures
        may_collect(
            *runtime_config.file_config,
            *old(fs),
            texts(entries@),
            paths_of(outcome.results.file_results@),
        ),
        may_run(
            runtime_config.file_config.binary_detection,
            *old(fs),
            paths_of(outcome.results.file_results@),
            runtime_config.dry_run,
            *final(fs),
            result_views(outcome.results.file_results@),
        ),
        picked_in_order(paths_of(outcome.results.file_results@), texts(entries@)),
        forall|k: int|
            0 <= k < outcome.results.file_results@.len() ==> {
                let pair = #[trigger] outcome.results.file_results@[k];
                &&& !excluded(*runtime_config.file_config, pair.0@)
                &&& may_pass_size(*runtime_config.file_config, *old(fs), pair.0@, true)
                &&& pair.1.had_changes == (pair.1.lines_modified@.len() > 0)
                &&& is_file_result(
                    runtime_config.file_config.binary_detection,
                    runtime_config.dry_run,
                    pair.1@,
                )
            },
        lines_view(outcome.report.lines@) == shown(outcome.results.file_results@),
        outcome.report.summary == summary_of(
            outcome.report.lines@.len() as usize,
            runtime_config.dry_run,
        ),
        runtime_config.dry_run ==> *final(fs) == *old(fs),
{
    let walker = FileWalker::new(share_config(&runtime_config.file_config), &*fs);
    let files = walker.collect_files(entries);
    let ghost chosen = files@;
    let engine = ParallelEngine::new(share_config(&runtime_config.file_config), runtime_config.threads);
    let results = engine.process_files_with_results(fs, files, runtime_config.dry_run);
    proof {
        assert forall|k: int| 0 <= k < results.file_results@.len() implies {
            let pair = #[trigger] results.file_results@[k];
            &&& !excluded(*runtime_config.file_config, pair.0@)
            &&& may_pass_size(*runtime_config.file_config, *old(fs), pair.0@, true)
        } by {
            assert(paths_of(results.file_results@)[k] == texts(chosen)[k]);
            assert(texts(chosen)[k] == chosen[k]@);
        }
    }
    DirectoryOutcome::from_results(results, runtime_config.dry_run)
}

} // verus!
