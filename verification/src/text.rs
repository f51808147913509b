//! The model of a text and of its cleaning.
//!
//! A text is a sequence of chars. A line break is a line feed, a carriage
//! return, or a carriage return directly followed by a line feed, which counts
//! as one break. The breaks cut the text into lines; a text that ends in a
//! break has an empty last line. A blank is a white space char that is no
//! line break. Cleaning removes every blank that only blanks separate from
//! the end of its line, and nothing else: line breaks stay as they are.

use crate::text_proofs::{
    lemma_clean_last_line, lemma_clean_line_step, lemma_line_len_is, lemma_shortened_push,
    lemma_trimmed_len_is,
};
use vstd::prelude::*;
use vstd::utf8::encode_utf8;

verus! {

/// Line feed or carriage return.
pub open spec fn is_line_break(c: char) -> bool {
    c == '\n' || c == '\r'
}

/// The chars with Unicode's `White_Space` property.
pub open spec fn is_whitespace(c: char) -> bool {
    let n = c as u32;
    ||| 0x09 <= n <= 0x0D
    ||| n == 0x20
    ||| n == 0x85
    ||| n == 0xA0
    ||| n == 0x1680
    ||| 0x2000 <= n <= 0x200A
    ||| n == 0x2028
    ||| n == 0x2029
    ||| n == 0x202F
    ||| n == 0x205F
    ||| n == 0x3000
}

/// White space that is no line break: what cleaning may remove.
pub open spec fn is_blank(c: char) -> bool {
    is_whitespace(c) && !is_line_break(c)
}

/// Whether `text` holds nothing but blanks before its first line break, or
/// before its end where it has no break.
pub open spec fn blank_to_line_end(text: Seq<char>) -> bool
    decreases text.len(),
{
    text.len() == 0 || is_line_break(text[0]) || (is_blank(text[0]) && blank_to_line_end(
        text.drop_first(),
    ))
}

/// The cleaned text: `text` without the blanks that stand at the end of a line.
pub open spec fn clean(text: Seq<char>) -> Seq<char>
    decreases text.len(),
{
    if text.len() == 0 {
        text
    } else if is_blank(text[0]) && blank_to_line_end(text.drop_first()) {
        clean(text.drop_first())
    } else {
        seq![text[0]] + clean(text.drop_first())
    }
}

/// The number of chars before the first line break of `text`.
pub open spec fn line_len(text: Seq<char>) -> nat
    decreases text.len(),
{
    if text.len() == 0 || is_line_break(text[0]) {
        0
    } else {
        1 + line_len(text.drop_first())
    }
}

/// The length of the line break that starts at `at`: two for a carriage
/// return followed by a line feed, else one.
pub open spec fn break_len(text: Seq<char>, at: int) -> nat {
    if text[at] == '\r' && at + 1 < text.len() && text[at + 1] == '\n' {
        2
    } else {
        1
    }
}

/// The lines of `text`, without their line breaks.
pub open spec fn lines_of(text: Seq<char>) -> Seq<Seq<char>>
    decreases text.len(),
{
    let n = line_len(text) as int;
    if n >= text.len() {
        seq![text]
    } else {
        seq![text.take(n)] + lines_of(text.skip(n + break_len(text, n)))
    }
}

/// The length of `line` without the blanks at its end.
pub open spec fn trimmed_len(line: Seq<char>) -> nat
    decreases line.len(),
{
    if line.len() > 0 && is_blank(line.last()) {
        trimmed_len(line.drop_last())
    } else {
        line.len()
    }
}

/// The numbers, counted from one and ascending, of the lines among `lines`
/// that are longer than their trimmed form.
pub open spec fn shortened(lines: Seq<Seq<char>>) -> Seq<int>
    decreases lines.len(),
{
    if lines.len() == 0 {
        Seq::empty()
    } else if trimmed_len(lines.last()) < lines.last().len() {
        shortened(lines.drop_last()).push(lines.len() as int)
    } else {
        shortened(lines.drop_last())
    }
}

/// The numbers of the lines of `text` that cleaning makes shorter.
pub open spec fn modified_lines(text: Seq<char>) -> Seq<int> {
    shortened(lines_of(text))
}

/// `text` without its blanks: the line breaks and all other chars, in their
/// order.
pub open spec fn without_blanks(text: Seq<char>) -> Seq<char>
    decreases text.len(),
{
    if text.len() == 0 {
        text
    } else if is_blank(text[0]) {
        without_blanks(text.drop_first())
    } else {
        seq![text[0]] + without_blanks(text.drop_first())
    }
}

/// Whether `text` ends in a line break.
pub open spec fn ends_with_break(text: Seq<char>) -> bool {
    text.len() > 0 && is_line_break(text.last())
}

/// Whether the last line of `text` follows a line break and holds blanks and
/// nothing else: cleaning then removes that line, and the cleaned text ends in
/// the break before it.
pub open spec fn ends_in_blank_line(text: Seq<char>) -> bool {
    &&& lines_of(text).len() > 1
    &&& lines_of(text).last().len() > 0
    &&& trimmed_len(lines_of(text).last()) == 0
}

/// Whether `text` has a carriage return at `i` and a line feed at `j` with
/// blanks, at least one, and nothing else between them.
pub open spec fn blanks_part_breaks(text: Seq<char>, i: int, j: int) -> bool {
    &&& 0 <= i
    &&& i + 1 < j < text.len()
    &&& text[i] == '\r'
    &&& text[j] == '\n'
    &&& forall|m: int| i < m < j ==> is_blank(#[trigger] text[m])
}

/// Whether somewhere in `text` only blanks part a carriage return from a later
/// line feed: cleaning removes the blanks, and the two line breaks, with the
/// line between them, become one.
pub open spec fn has_blanks_in_break_pair(text: Seq<char>) -> bool {
    exists|i: int, j: int| blanks_part_breaks(text, i, j)
}

/// The length of `text` in bytes of UTF-8.
pub open spec fn byte_len(text: Seq<char>) -> nat {
    encode_utf8(text).len()
}

/// The bytes that cleaning takes from `text`.
pub open spec fn bytes_saved(text: Seq<char>) -> int {
    byte_len(text) - byte_len(clean(text))
}

/// Line numbers as mathematical integers.
pub open spec fn as_ints(numbers: Seq<usize>) -> Seq<int> {
    numbers.map_values(|n: usize| n as int)
}

/// Tells whether `c` is a line feed or a carriage return.
pub fn is_line_break_char(c: char) -> (b: bool)
    ensures
        b == is_line_break(c),
{
    c == '\n' || c == '\r'
}

/// Tells whether `c` has Unicode's `White_Space` property.
pub fn is_whitespace_char(c: char) -> (b: bool)
    ensures
        b == is_whitespace(c),
{
    let n: u32 = c as u32;
    (0x09 <= n && n <= 0x0D) || n == 0x20 || n == 0x85 || n == 0xA0 || n == 0x1680 || (0x2000 <= n
        && n <= 0x200A) || n == 0x2028 || n == 0x2029 || n == 0x202F || n == 0x205F || n == 0x3000
}

/// Tells whether `c` is white space that cleaning may remove.
pub fn is_blank_char(c: char) -> (b: bool)
    ensures
        b == is_blank(c),
{
    is_whitespace_char(c) && !is_line_break_char(c)
}

/// The position where the line that starts at `from` ends: that of its line
/// break, or the length of the text.
fn line_end(text: &Vec<char>, from: usize) -> (end: usize)
    requires
        from <= text.len(),
    ensures
        from <= end <= text.len(),
        end - from == line_len(text@.skip(from as int)),
{
    let mut end: usize = from;
    while end < text.len() && !is_line_break_char(text[end])
        invariant
            from <= end <= text.len(),
            forall|j: int| from <= j < end ==> !is_line_break(#[trigger] text@[j]),
        decreases text.len() - end,
    {
        end = end + 1;
    }
    proof {
        lemma_line_len_is(text@.skip(from as int), end - from);
    }
    end
}

/// The position where the blanks at the end of the line from `from` to `end`
/// begin.
fn trimmed_end(text: &Vec<char>, from: usize, end: usize) -> (keep: usize)
    requires
        from <= end <= text.len(),
    ensures
        from <= keep <= end,
        keep - from == trimmed_len(text@.subrange(from as int, end as int)),
{
    let mut keep: usize = end;
    while keep > from && is_blank_char(text[keep - 1])
        invariant
            from <= keep <= end <= text.len(),
            forall|j: int| keep <= j < end ==> is_blank(#[trigger] text@[j]),
        decreases keep,
    {
        keep = keep - 1;
    }
    proof {
        lemma_trimmed_len_is(text@.subrange(from as int, end as int), keep - from);
    }
    keep
}

/// Appends the chars of `text` from `from` to `to` to `out`.
fn append_range(out: &mut Vec<char>, text: &Vec<char>, from: usize, to: usize)
    requires
        from <= to <= text.len(),
    ensures
        final(out)@ == old(out)@ + text@.subrange(from as int, to as int),
{
    let mut at: usize = from;
    while at < to
        invariant
            from <= at <= to <= text.len(),
            out@ == old(out)@ + text@.subrange(from as int, at as int),
        decreases to - at,
    {
        out.push(text[at]);
        at = at + 1;
        assert(text@.subrange(from as int, at as int) =~= text@.subrange(
            from as int,
            at as int - 1,
        ).push(text@[at as int - 1]));
    }
}

/// Cleans `text`: returns the cleaned text and the numbers of the lines that
/// became shorter.
pub fn clean_chars(text: &Vec<char>) -> (r: (Vec<char>, Vec<usize>))
    ensures
        r.0@ == clean(text@),
        as_ints(r.1@) == modified_lines(text@),
{
    let n = text.len();
    let mut out: Vec<char> = Vec::new();
    let mut modified: Vec<usize> = Vec::new();
    let mut start: usize = 0;
    let mut done: usize = 0;
    let mut finished = false;
    let ghost mut done_lines: Seq<Seq<char>> = Seq::empty();
    proof {
        assert(text@.skip(0) =~= text@);
        assert(as_ints(modified@) =~= shortened(done_lines));
    }
    while !finished
        invariant
            n == text.len(),
            start <= n,
            !finished ==> done == done_lines.len() && done <= start,
            !finished ==> clean(text@) == out@ + clean(text@.skip(start as int)),
            !finished ==> lines_of(text@) == done_lines + lines_of(text@.skip(start as int)),
            finished ==> clean(text@) == out@,
            finished ==> lines_of(text@) == done_lines,
            as_ints(modified@) == shortened(done_lines),
        decreases n - start + (if finished { 0int } else { 1int }),
    {
        let end = line_end(text, start);
        let keep = trimmed_end(text, start, end);
        let ghost line = text@.subrange(start as int, end as int);
        let ghost out_before = out@;
        let ghost lines_before = done_lines;
        append_range(&mut out, text, start, keep);
        if keep < end {
            modified.push(done + 1);
        }
        proof {
            done_lines = lines_before.push(line);
            lemma_shortened_push(lines_before, line);
            assert(as_ints(modified@) =~= shortened(done_lines));
        }
        if end == n {
            finished = true;
            proof {
                lemma_clean_last_line(text@, start as int, keep as int);
                assert(lines_of(text@) =~= done_lines);
            }
        } else {
            let step: usize = if text[end] == '\r' && end + 1 < n && text[end + 1] == '\n' {
                2
            } else {
                1
            };
            proof {
                lemma_clean_line_step(text@, start as int, keep as int, end as int, step as int);
            }
            append_range(&mut out, text, end, end + step);
            proof {
                assert(lines_of(text@) =~= done_lines + lines_of(text@.skip(end + step)));
                assert(clean(text@) =~= out@ + clean(text@.skip(end + step)));
            }
            start = end + step;
            done = done + 1;
        }
    }
    (out, modified)
}

} // verus!
