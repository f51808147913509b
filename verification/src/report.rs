//! What a run tells its user.

use crate::engine::is_modified;
use crate::processor::ProcessingResult;
use crate::strings::string_of;
use crate::text::as_ints;
use vstd::prelude::*;

verus! {

/// The char of a decimal digit.
pub open spec fn digit(d: int) -> char {
    if d == 0 {
        '0'
    } else if d == 1 {
        '1'
    } else if d == 2 {
        '2'
    } else if d == 3 {
        '3'
    } else if d == 4 {
        '4'
    } else if d == 5 {
        '5'
    } else if d == 6 {
        '6'
    } else if d == 7 {
        '7'
    } else if d == 8 {
        '8'
    } else {
        '9'
    }
}

/// A number in decimal digits, without leading zeros.
pub open spec fn decimal(n: int) -> Seq<char>
    decreases n,
{
    if n < 10 {
        seq![digit(n)]
    } else {
        decimal(n / 10).push(digit(n % 10))
    }
}

/// A run of consecutive numbers as text: the number itself where it is one
/// number, else its first and its last number with a hyphen between them.
pub open spec fn range_text(first: int, last: int) -> Seq<char> {
    if first == last {
        decimal(first)
    } else {
        decimal(first) + seq!['-'] + decimal(last)
    }
}

/// The runs of `lines` as text, with commas between them, where the run that
/// the first of `lines` belongs to began with `first`. A run goes on as long
/// as each number is one more than the number before it.
pub open spec fn ranges_text(lines: Seq<int>, first: int) -> Seq<char>
    decreases lines.len(),
{
    if lines.len() == 0 {
        Seq::empty()
    } else if lines.len() == 1 {
        range_text(first, lines[0])
    } else if lines[1] == lines[0] + 1 {
        ranges_text(lines.drop_first(), first)
    } else {
        range_text(first, lines[0]) + seq![','] + ranges_text(lines.drop_first(), lines[1])
    }
}

/// Line numbers as text: their runs in round brackets, or nothing where there
/// are no numbers.
pub open spec fn line_numbers_text(lines: Seq<int>) -> Seq<char> {
    if lines.len() == 0 {
        Seq::empty()
    } else {
        seq!['('] + ranges_text(lines, lines[0]) + seq![')']
    }
}

/// The char of the decimal digit `d`.
fn digit_char(d: usize) -> (c: char)
    requires
        d < 10,
    ensures
        c == digit(d as int),
{
    if d == 0 {
        '0'
    } else if d == 1 {
        '1'
    } else if d == 2 {
        '2'
    } else if d == 3 {
        '3'
    } else if d == 4 {
        '4'
    } else if d == 5 {
        '5'
    } else if d == 6 {
        '6'
    } else if d == 7 {
        '7'
    } else if d == 8 {
        '8'
    } else {
        '9'
    }
}

/// Appends `n` in decimal digits.
fn push_decimal(out: &mut Vec<char>, n: usize)
    ensures
        final(out)@ == old(out)@ + decimal(n as int),
    decreases n,
{
    if n >= 10 {
        push_decimal(out, n / 10);
    }
    out.push(digit_char(n % 10));
    assert(out@ =~= old(out)@ + decimal(n as int));
}

/// Appends a run of consecutive numbers.
fn push_range(out: &mut Vec<char>, first: usize, last: usize)
    ensures
        final(out)@ == old(out)@ + range_text(first as int, last as int),
{
    push_decimal(out, first);
    if first != last {
        out.push('-');
        push_decimal(out, last);
    }
    assert(out@ =~= old(out)@ + range_text(first as int, last as int));
}

/// Writes line numbers as their runs: `1, 2, 3, 5` gives `(1-3,5)`, and no
/// numbers give the empty string.
pub fn format_line_numbers(lines: &[usize]) -> (text: String)
    ensures
        text@ == line_numbers_text(as_ints(lines@)),
{
    if lines.len() == 0 {
        return String::new();
    }
    let ghost numbers = as_ints(lines@);
    let mut out: Vec<char> = Vec::new();
    out.push('(');
    let mut first: usize = lines[0];
    let mut i: usize = 0;
    assert(numbers.skip(0) =~= numbers);
    while i + 1 < lines.len()
        invariant
            i < lines.len(),
            numbers == as_ints(lines@),
            seq!['('] + ranges_text(numbers, numbers[0]) == out@ + ranges_text(
                numbers.skip(i as int),
                first as int,
            ),
        decreases lines.len() - i,
    {
        let last = lines[i];
        let next = lines[i + 1];
        let ghost rest = numbers.skip(i as int);
        assert(rest[0] == last && rest[1] == next);
        assert(rest.drop_first() =~= numbers.skip(i + 1));
        if !(last < usize::MAX && next == last + 1) {
            let ghost before = out@;
            push_range(&mut out, first, last);
            out.push(',');
            assert(before + (range_text(first as int, last as int) + seq![','] + ranges_text(
                rest.drop_first(),
                next as int,
            )) =~= out@ + ranges_text(rest.drop_first(), next as int));
            first = next;
        }
        i = i + 1;
    }
    let ghost before = out@;
    let ghost rest = numbers.skip(i as int);
    assert(rest.len() == 1 && rest[0] == lines@[i as int]);
    push_range(&mut out, first, lines[i]);
    out.push(')');
    assert(out@ =~= seq!['('] + ranges_text(numbers, numbers[0]) + seq![')']);
    string_of(&out)
}

/// One line of a report: a file that has lines to clean.
#[derive(Debug)]
pub struct ReportLine {
    /// The path of the file.
    pub path: String,
    /// The numbers of its lines, as text.
    pub line_info: String,
}

/// The last line of a report.
#[derive(Debug, Clone, Copy, PartialEq, Eq, Structural)]
pub enum ReportSummary {
    /// No file has lines to clean.
    NothingFound,
    /// This many files have lines to clean; it was a dry run, and they were
    /// left as they are.
    NotCleaned(usize),
    /// This many files have lines to clean, and were cleaned.
    Cleaned(usize),
}

/// What is shown of the files of one directory.
#[derive(Debug)]
pub struct Report {
    /// The files that have lines to clean and no error, in the order of the
    /// results.
    pub lines: Vec<ReportLine>,
    /// What is said of them together.
    pub summary: ReportSummary,
}

/// A report line as plain values: the path and the line numbers as text.
pub open spec fn shown_line(pair: (String, ProcessingResult)) -> (Seq<char>, Seq<char>) {
    (pair.0@, line_numbers_text(as_ints(pair.1.lines_modified@)))
}

/// The lines of the report on `results`: one for each result that has lines
/// to clean and no error, in their order.
pub open spec fn shown(results: Seq<(String, ProcessingResult)>) -> Seq<(Seq<char>, Seq<char>)>
    decreases results.len(),
{
    if results.len() == 0 {
        Seq::empty()
    } else if is_modified(results.last().1) {
        shown(results.drop_last()).push(shown_line(results.last()))
    } else {
        shown(results.drop_last())
    }
}

/// The last line of a report with `count` lines.
pub open spec fn summary_of(count: usize, is_dry_run: bool) -> ReportSummary {
    if count == 0 {
        ReportSummary::NothingFound
    } else if is_dry_run {
        ReportSummary::NotCleaned(count)
    } else {
        ReportSummary::Cleaned(count)
    }
}

/// The lines of a report as plain values.
pub open spec fn lines_view(lines: Seq<ReportLine>) -> Seq<(Seq<char>, Seq<char>)> {
    lines.map_values(|line: ReportLine| (line.path@, line.line_info@))
}

impl Report {
    /// The number of files with lines to clean.
    pub fn files_with_changes(&self) -> (count: usize)
        ensures
            count == self.lines@.len(),
    {
        self.lines.len()
    }
}

/// Makes the report on the results of one directory: a line for each file
/// that has lines to clean and no error, and a summary that says how many
/// there are and whether they were cleaned.
pub fn display_results(file_results: &Vec<(String, ProcessingResult)>, is_dry_run: bool) -> (report:
    Report)
    ensures
        lines_view(report.lines@) == shown(file_results@),
        report.summary == summary_of(report.lines@.len() as usize, is_dry_run),
{
    let mut lines: Vec<ReportLine> = Vec::new();
    let mut i: usize = 0;
    while i < file_results.len()
        invariant
            i <= file_results.len(),
            lines@.len() <= i,
            lines_view(lines@) == shown(file_results@.take(i as int)),
        decreases file_results.len() - i,
    {
        assert(file_results@.take(i + 1).drop_last() =~= file_results@.take(i as int));
        let pair = &file_results[i];
        if pair.1.had_changes && pair.1.error.is_none() {
            let line = ReportLine {
                path: pair.0.as_str().to_owned(),
                line_info: format_line_numbers(pair.1.lines_modified.as_slice()),
            };
            lines.push(line);
            assert(lines_view(lines@) =~= shown(file_results@.take(i + 1)));
        }
        i = i + 1;
    }
    assert(file_results@.take(i as int) =~= file_results@);
    let count = lines.len();
    let summary = if count == 0 {
        ReportSummary::NothingFound
    } else if is_dry_run {
        ReportSummary::NotCleaned(count)
    } else {
        ReportSummary::Cleaned(count)
    };
    Report { lines, summary }
}

} // verus!
