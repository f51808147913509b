//! Cleaning the content of one file.

use crate::config::{BinaryDetection, Config};
use crate::outside::text_of;
use crate::ports::fs::{bytes_read, write_error, FileSystem, FsError};
use crate::strings::{chars_of, string_of};
use crate::text::{as_ints, bytes_saved, clean, clean_chars, modified_lines};
use crate::text_laws::lemma_clean_byte_len;
use std::sync::Arc;
use vstd::prelude::*;
use vstd::utf8::{decode_utf8, encode_utf8, valid_utf8};

verus! {

/// Cleans content by the rules of a configuration.
pub struct WhitespaceProcessor {
    config: Arc<Config>,
}

/// What became of one file.
#[derive(Debug, Clone)]
pub struct ProcessingResult {
    /// The numbers of the lines that had blanks at their end, counted from
    /// one and ascending.
    pub lines_modified: Vec<usize>,
    /// Whether any line had.
    pub had_changes: bool,
    /// Why the file was not cleaned, or not written.
    pub error: Option<String>,
}

/// A result as plain values.
pub struct ResultView {
    pub lines_modified: Seq<int>,
    pub had_changes: bool,
    pub error: Option<Seq<char>>,
}

impl View for ProcessingResult {
    type V = ResultView;

    open spec fn view(&self) -> ResultView {
        ResultView {
            lines_modified: as_ints(self.lines_modified@),
            had_changes: self.had_changes,
            error: text_of(self.error),
        }
    }
}

/// What is to be done with a file once its bytes were asked for.
#[derive(Debug)]
pub enum FileStep {
    /// Nothing: this is the result.
    Done(ProcessingResult),
    /// The cleaned content is to be written to the file; the result depends
    /// on how that goes.
    Write { content: String, lines_modified: Vec<usize> },
}

/// A step as plain values.
pub enum StepView {
    Done(ResultView),
    Write { content: Seq<char>, lines_modified: Seq<int> },
}

impl View for FileStep {
    type V = StepView;

    open spec fn view(&self) -> StepView {
        match self {
            FileStep::Done(result) => StepView::Done(result@),
            FileStep::Write { content, lines_modified } => StepView::Write {
                content: content@,
                lines_modified: as_ints(lines_modified@),
            },
        }
    }
}

/// The result for a file that was not cleaned, with the reason.
pub open spec fn failure(reason: Seq<char>) -> ResultView {
    ResultView { lines_modified: Seq::empty(), had_changes: false, error: Some(reason) }
}

/// The result for a file that was cleaned, or would be: the lines with blanks
/// at their end, and no error.
pub open spec fn changes(lines: Seq<int>) -> ResultView {
    ResultView { lines_modified: lines, had_changes: lines.len() > 0, error: None }
}

/// Whether content counts as binary: zero bytes are looked for, and one is
/// among the first `sample_size` bytes.
pub open spec fn looks_binary(detection: BinaryDetection, content: Seq<u8>) -> bool {
    detection.check_null_bytes && exists|i: int|
        0 <= i < detection.sample_size && i < content.len() && #[trigger] content[i] == 0
}

/// What is to be done with a file, from what reading it gave: its bytes, or
/// nothing where it could not be read. A file that could not be read, that
/// counts as binary or that is no UTF-8 is left alone, with that reason. Of
/// the others, one without blanks at the end of a line is done; so is any in a
/// dry run, with its lines reported. The rest is to be written.
pub open spec fn examined(detection: BinaryDetection, read: Option<Seq<u8>>, dry_run: bool)
    -> StepView {
    match read {
        None => StepView::Done(failure("read failure"@)),
        Some(bytes) => if looks_binary(detection, bytes) {
            StepView::Done(failure("binary file detected"@))
        } else if !valid_utf8(bytes) {
            StepView::Done(failure("invalid encoding"@))
        } else {
            let text = decode_utf8(bytes);
            let lines = modified_lines(text);
            if lines.len() == 0 || dry_run {
                StepView::Done(changes(lines))
            } else {
                StepView::Write { content: clean(text), lines_modified: lines }
            }
        },
    }
}

/// The result for a file whose cleaned content was to be written: the lines
/// are reported either way, and where the writing failed the cause is given.
pub open spec fn concluded(lines: Seq<int>, write_error: Option<Seq<char>>) -> ResultView {
    ResultView {
        lines_modified: lines,
        had_changes: lines.len() > 0,
        error: match write_error {
            None => None,
            Some(cause) => Some("Failed to write file: "@ + cause),
        },
    }
}

/// The result for a file, from what reading it gave and, where its cleaned
/// content was written, from how the writing went.
pub open spec fn file_result(
    detection: BinaryDetection,
    read: Option<Seq<u8>>,
    dry_run: bool,
    write_error: Option<Seq<char>>,
) -> ResultView {
    match examined(detection, read, dry_run) {
        StepView::Done(result) => result,
        StepView::Write { content, lines_modified } => concluded(lines_modified, write_error),
    }
}

/// Whether `result` is what cleaning a file gives for some answers of the
/// file system: for bytes read or none, and, where the cleaned content was
/// written, for a writing that went well or failed with some cause.
pub open spec fn is_file_result(detection: BinaryDetection, dry_run: bool, result: ResultView)
    -> bool {
    exists|read: Option<Seq<u8>>, write_error: Option<Seq<char>>|
        result == #[trigger] file_result(detection, read, dry_run, write_error)
}

/// Whether writing the cleaned text `content` to the file at `path` may turn
/// the file system `before` into `after` and give `result`: the bytes of the
/// text are written, and the result tells the lines and how the writing went.
pub open spec fn may_write_back<F: FileSystem>(
    before: F,
    path: Seq<char>,
    content: Seq<char>,
    lines: Seq<int>,
    after: F,
    result: ResultView,
) -> bool {
    exists|error: Option<Seq<char>>|
        #[trigger] before.may_write(path, encode_utf8(content), &after, error) && result
            == concluded(lines, error)
}

/// Whether cleaning the file at `path` may give `result` and turn the file
/// system `before` into `after`, once reading the file gave `read`. Where
/// nothing is to be written, the file system stays as it is; else the bytes
/// of the cleaned text are written to the same path, and the result tells how
/// that went.
pub open spec fn may_follow<F: FileSystem>(
    detection: BinaryDetection,
    before: F,
    path: Seq<char>,
    read: Option<Seq<u8>>,
    dry_run: bool,
    after: F,
    result: ResultView,
) -> bool {
    match examined(detection, read, dry_run) {
        StepView::Done(done) => result == done && after == before,
        StepView::Write { content, lines_modified } => may_write_back(
            before,
            path,
            content,
            lines_modified,
            after,
            result,
        ),
    }
}

/// Whether cleaning the file at `path` may give `result` and turn the file
/// system `before` into `after`: the file is read, with an answer that the
/// file system may give, and what follows is what `may_follow` says.
pub open spec fn may_process<F: FileSystem>(
    detection: BinaryDetection,
    before: F,
    path: Seq<char>,
    dry_run: bool,
    after: F,
    result: ResultView,
) -> bool {
    exists|read: Option<Seq<u8>>|
        #[trigger] before.may_read(path, read) && may_follow(
            detection,
            before,
            path,
            read,
            dry_run,
            after,
            result,
        )
}

/// Cleaning a file in a dry run, or a file without lines to clean, leaves the
/// file system as it is; and a result tells of changes just when it names
/// lines.
pub proof fn lemma_may_process<F: FileSystem>(
    detection: BinaryDetection,
    before: F,
    path: Seq<char>,
    dry_run: bool,
    after: F,
    result: ResultView,
)
    requires
        may_process(detection, before, path, dry_run, after, result),
    ensures
        is_file_result(detection, dry_run, result),
        result.had_changes == (result.lines_modified.len() > 0),
        dry_run || !result.had_changes ==> after == before,
{
    let read = choose|read: Option<Seq<u8>>|
        #[trigger] before.may_read(path, read) && may_follow(
            detection,
            before,
            path,
            read,
            dry_run,
            after,
            result,
        );
    match examined(detection, read, dry_run) {
        StepView::Done(done) => {
            assert(result == file_result(detection, read, dry_run, None));
        },
        StepView::Write { content, lines_modified } => {
            let error = choose|error: Option<Seq<char>>|
                #[trigger] before.may_write(path, encode_utf8(content), &after, error) && result
                    == concluded(lines_modified, error);
            assert(result == file_result(detection, read, dry_run, error));
            assert(!dry_run && lines_modified.len() > 0);
        },
    }
}

impl ProcessingResult {
    /// The result for a file that was not cleaned.
    pub fn failed(reason: &str) -> (result: Self)
        ensures
            result@ == failure(reason@),
    {
        let result = ProcessingResult {
            lines_modified: Vec::new(),
            had_changes: false,
            error: Some(reason.to_owned()),
        };
        assert(result@.lines_modified =~= Seq::<int>::empty());
        result
    }

    /// The result for a file whose processing broke off for a cause that
    /// nothing else accounts for.
    pub fn fault(cause: &str) -> (result: Self)
        ensures
            result@ == failure("processing failed: "@ + cause@),
    {
        let result = ProcessingResult {
            lines_modified: Vec::new(),
            had_changes: false,
            error: Some(String::from_str("processing failed: ").concat(cause)),
        };
        assert(result@.lines_modified =~= Seq::<int>::empty());
        result
    }

    /// The result for a file with the given lines to clean.
    pub fn changed(lines_modified: Vec<usize>) -> (result: Self)
        ensures
            result@ == changes(as_ints(lines_modified@)),
    {
        let had_changes = lines_modified.len() > 0;
        ProcessingResult { lines_modified, had_changes, error: None }
    }
}

impl WhitespaceProcessor {
    /// The configuration that the processor goes by.
    pub closed spec fn config(&self) -> Config {
        *self.config
    }

    /// A processor that goes by `config`.
    pub fn new(config: Arc<Config>) -> (processor: Self)
        ensures
            processor.config() == *config,
    {
        WhitespaceProcessor { config }
    }

    /// Cleans `content`: returns the cleaned text, the numbers of the lines
    /// that had blanks at their end, and the number of bytes removed.
    pub fn process_content(&self, content: &str) -> (r: (String, Vec<usize>, usize))
        ensures
            r.0@ == clean(content@),
            as_ints(r.1@) == modified_lines(content@),
            r.2 == bytes_saved(content@),
    {
        let chars = chars_of(content);
        let (cleaned, modified) = clean_chars(&chars);
        let processed = string_of(&cleaned);
        proof {
            lemma_clean_byte_len(content@);
        }
        let saved = content.as_bytes().len() - processed.as_str().as_bytes().len();
        (processed, modified, saved)
    }

    /// Tells whether `content` counts as binary.
    pub fn is_binary_content(&self, content: &[u8]) -> (binary: bool)
        ensures
            binary == looks_binary(self.config().binary_detection, content@),
    {
        if !self.config.binary_detection.check_null_bytes {
            return false;
        }
        let sample_size = if self.config.binary_detection.sample_size < content.len() {
            self.config.binary_detection.sample_size
        } else {
            content.len()
        };
        let mut i: usize = 0;
        while i < sample_size
            invariant
                i <= sample_size <= content@.len(),
                sample_size <= self.config().binary_detection.sample_size,
                sample_size == self.config().binary_detection.sample_size || sample_size
                    == content@.len(),
                self.config().binary_detection.check_null_bytes,
                forall|j: int| 0 <= j < i ==> #[trigger] content@[j] != 0,
            decreases sample_size - i,
        {
            if content[i] == 0 {
                return true;
            }
            i = i + 1;
        }
        false
    }

    /// Decides what is to be done with a file, from what reading it gave.
    pub fn examine(&self, read: Result<Vec<u8>, FsError>, dry_run: bool) -> (step: FileStep)
        ensures
            step@ == examined(self.config().binary_detection, bytes_read(read), dry_run),
    {
        let bytes = match read {
            Ok(bytes) => bytes,
            Err(_) => {
                return FileStep::Done(ProcessingResult::failed("read failure"));
            },
        };
        if self.is_binary_content(bytes.as_slice()) {
            return FileStep::Done(ProcessingResult::failed("binary file detected"));
        }
        let text = match String::from_utf8(bytes) {
            Ok(text) => text,
            Err(_) => {
                return FileStep::Done(ProcessingResult::failed("invalid encoding"));
            },
        };
        let (content, lines_modified, _) = self.process_content(text.as_str());
        if lines_modified.len() == 0 || dry_run {
            FileStep::Done(ProcessingResult::changed(lines_modified))
        } else {
            FileStep::Write { content, lines_modified }
        }
    }

    /// The result for a file whose cleaned content was to be written, from
    /// how the writing went.
    pub fn conclude(lines_modified: Vec<usize>, written: Result<(), FsError>) -> (result:
        ProcessingResult)
        ensures
            result@ == concluded(as_ints(lines_modified@), write_error(written)),
    {
        let had_changes = lines_modified.len() > 0;
        let error = match written {
            Ok(_) => None,
            Err(e) => Some(String::from_str("Failed to write file: ").concat(e.message.as_str())),
        };
        ProcessingResult { lines_modified, had_changes, error }
    }

    /// Cleans the file at `path`: reads it, and writes the cleaned content
    /// back where a line had blanks at its end, unless this is a dry run.
    /// Nothing that goes wrong is passed on: the result tells it. Whatever
    /// the file system answers, result and file system are as `may_process`
    /// says for answers that it may give; so the file system is written to
    /// only outside a dry run, and only where lines are reported.
    pub fn process_file<F: FileSystem>(&self, fs: &mut F, path: &str, dry_run: bool) -> (result:
        ProcessingResult)
        ensures
            may_process(
                self.config().binary_detection,
                *old(fs),
                path@,
                dry_run,
                *final(fs),
                result@,
            ),
            result.had_changes == (result.lines_modified@.len() > 0),
            dry_run || !result.had_changes ==> *final(fs) == *old(fs),
    {
        let ghost before = *fs;
        let ghost detection = self.config().binary_detection;
        let read = fs.read(path);
        let ghost bytes = bytes_read(read);
        let step = self.examine(read, dry_run);
        let ghost planned = step@;
        let result = match step {
            FileStep::Done(result) => {
                assert(planned == StepView::Done(result@));
                assert(may_follow(detection, before, path@, bytes, dry_run, *fs, result@));
                result
            },
            FileStep::Write { content, lines_modified } => {
                assert(planned == (StepView::Write {
                    content: content@,
                    lines_modified: as_ints(lines_modified@),
                }));
                let written = fs.write(path, content.as_str().as_bytes());
                let ghost cause = write_error(written);
                let ghost lines = as_ints(lines_modified@);
                let result = Self::conclude(lines_modified, written);
                let ghost after = *fs;
                assert(examined(detection, bytes, dry_run) == planned);
                assert(result@ == concluded(lines, cause));
                assert(before.may_write(path@, encode_utf8(content@), &after, cause));
                assert(may_write_back(before, path@, content@, lines, after, result@));
                assert(may_follow(detection, before, path@, bytes, dry_run, after, result@));
                result
            },
        };
        proof {
            assert(may_follow(
                self.config().binary_detection,
                before,
                path@,
                bytes,
                dry_run,
                *fs,
                result@,
            ));
            lemma_may_process(
                self.config().binary_detection,
                before,
                path@,
                dry_run,
                *fs,
                result@,
            );
            assert(result@.lines_modified.len() == result.lines_modified@.len());
        }
        result
    }
}

} // verus!
