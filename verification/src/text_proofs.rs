//! Facts about the model of a text that the cleaning code rests on.

use crate::text::{
    blank_to_line_end, break_len, byte_len, clean, is_blank, is_line_break, line_len, lines_of,
    modified_lines, shortened, trimmed_len,
};
use vstd::prelude::*;
use vstd::utf8::{encode_scalar, encode_utf8};

verus! {

/// The first line of a text is no longer than the text.
pub proof fn lemma_line_len_bound(text: Seq<char>)
    ensures
        line_len(text) <= text.len(),
        line_len(text) < text.len() ==> is_line_break(text[line_len(text) as int]),
        forall|j: int| 0 <= j < line_len(text) ==> !is_line_break(#[trigger] text[j]),
    decreases text.len(),
{
    if text.len() == 0 || is_line_break(text[0]) {
    } else {
        let tail = text.drop_first();
        lemma_line_len_bound(tail);
        assert forall|j: int| 0 <= j < line_len(text) implies !is_line_break(
            #[trigger] text[j],
        ) by {
            if j > 0 {
                assert(text[j] == tail[j - 1]);
            }
        }
    }
}

/// A position that no line break precedes, and where the text ends or a line
/// break stands, is the end of the first line.
pub proof fn lemma_line_len_is(text: Seq<char>, end: int)
    requires
        0 <= end <= text.len(),
        forall|j: int| 0 <= j < end ==> !is_line_break(#[trigger] text[j]),
        end == text.len() || is_line_break(text[end]),
    ensures
        line_len(text) == end,
    decreases text.len(),
{
    if end == 0 {
    } else {
        let tail = text.drop_first();
        assert(!is_line_break(text[0]));
        assert forall|j: int| 0 <= j < end - 1 implies !is_line_break(#[trigger] tail[j]) by {
            assert(tail[j] == text[j + 1]);
        }
        lemma_line_len_is(tail, end - 1);
    }
}

/// A position after which the line holds only blanks, and which is the start
/// of the line or follows a char that is no blank, is the trimmed length.
pub proof fn lemma_trimmed_len_is(line: Seq<char>, keep: int)
    requires
        0 <= keep <= line.len(),
        forall|j: int| keep <= j < line.len() ==> is_blank(#[trigger] line[j]),
        keep == 0 || !is_blank(line[keep - 1]),
    ensures
        trimmed_len(line) == keep,
    decreases line.len(),
{
    if line.len() > 0 && is_blank(line.last()) {
        assert(keep < line.len());
        lemma_trimmed_len_is(line.drop_last(), keep);
    } else if line.len() > 0 {
        assert(!is_blank(line[line.len() - 1]));
    }
}

/// What the trimmed length says of the chars of a line.
pub proof fn lemma_trimmed_len_bound(line: Seq<char>)
    ensures
        trimmed_len(line) <= line.len(),
        forall|j: int| trimmed_len(line) <= j < line.len() ==> is_blank(#[trigger] line[j]),
        trimmed_len(line) > 0 ==> !is_blank(line[trimmed_len(line) - 1]),
    decreases line.len(),
{
    if line.len() > 0 && is_blank(line.last()) {
        let front = line.drop_last();
        lemma_trimmed_len_bound(front);
        assert forall|j: int| trimmed_len(line) <= j < line.len() implies is_blank(
            #[trigger] line[j],
        ) by {
            if j < front.len() {
                assert(line[j] == front[j]);
            }
        }
        if trimmed_len(line) > 0 {
            assert(line[trimmed_len(line) - 1] == front[trimmed_len(front) - 1]);
        }
    }
}

/// The trimmed length of a line with one more char in front.
pub proof fn lemma_trimmed_len_prepend(c: char, line: Seq<char>)
    ensures
        trimmed_len(seq![c] + line) == if trimmed_len(line) > 0 {
            1 + trimmed_len(line)
        } else if is_blank(c) {
            0
        } else {
            1nat
        },
{
    let whole = seq![c] + line;
    let k = trimmed_len(line);
    lemma_trimmed_len_bound(line);
    let keep: int = if k > 0 {
        1 + k as int
    } else if is_blank(c) {
        0
    } else {
        1
    };
    assert forall|j: int| keep <= j < whole.len() implies is_blank(#[trigger] whole[j]) by {
        if j > 0 {
            assert(whole[j] == line[j - 1]);
        }
    }
    if k > 0 {
        assert(whole[keep - 1] == line[k - 1]);
    }
    lemma_trimmed_len_is(whole, keep);
}

/// Only blanks stand before the end of the first line just where trimming
/// leaves nothing of that line.
pub proof fn lemma_blank_to_line_end(text: Seq<char>)
    ensures
        blank_to_line_end(text) <==> trimmed_len(text.take(line_len(text) as int)) == 0,
    decreases text.len(),
{
    lemma_line_len_bound(text);
    if text.len() == 0 || is_line_break(text[0]) {
        assert(text.take(0).len() == 0);
    } else {
        let tail = text.drop_first();
        lemma_line_len_bound(tail);
        lemma_blank_to_line_end(tail);
        let rest = tail.take(line_len(tail) as int);
        assert(text.take(line_len(text) as int) =~= seq![text[0]] + rest);
        lemma_trimmed_len_prepend(text[0], rest);
    }
}

/// Cleaning a text trims its first line and cleans what follows that line.
pub proof fn lemma_clean_first_line(text: Seq<char>)
    ensures
        line_len(text) <= text.len(),
        trimmed_len(text.take(line_len(text) as int)) <= line_len(text),
        clean(text) == text.take(trimmed_len(text.take(line_len(text) as int)) as int) + clean(
            text.skip(line_len(text) as int),
        ),
    decreases text.len(),
{
    lemma_line_len_bound(text);
    let n = line_len(text) as int;
    lemma_trimmed_len_bound(text.take(n));
    if text.len() == 0 || is_line_break(text[0]) {
        assert(text.take(0).len() == 0);
        assert(text.skip(0) =~= text);
        assert(text.take(0) + clean(text) =~= clean(text));
    } else {
        let tail = text.drop_first();
        lemma_line_len_bound(tail);
        lemma_clean_first_line(tail);
        lemma_blank_to_line_end(tail);
        let rest = tail.take(n - 1);
        let k = trimmed_len(rest) as int;
        assert(text.take(n) =~= seq![text[0]] + rest);
        lemma_trimmed_len_prepend(text[0], rest);
        assert(text.skip(n) =~= tail.skip(n - 1));
        if is_blank(text[0]) && blank_to_line_end(tail) {
            assert(k == 0);
            assert(tail.take(0) =~= text.take(0));
        } else {
            assert(trimmed_len(text.take(n)) == 1 + k);
            assert(text.take(1 + k) =~= seq![text[0]] + tail.take(k));
            assert(seq![text[0]] + (tail.take(k) + clean(tail.skip(n - 1))) =~= (seq![text[0]]
                + tail.take(k)) + clean(tail.skip(n - 1)));
        }
    }
}

/// Cleaning keeps a line break at the front of a text.
pub proof fn lemma_clean_at_break(text: Seq<char>)
    requires
        text.len() > 0,
        is_line_break(text[0]),
    ensures
        clean(text) == seq![text[0]] + clean(text.drop_first()),
{
}

/// One step of cleaning line by line, at a line that a break ends: the line
/// from `start` to `end` is trimmed to end at `keep`, its break of `step` chars
/// is kept, and what follows is cleaned in its turn.
pub proof fn lemma_clean_line_step(text: Seq<char>, start: int, keep: int, end: int, step: int)
    requires
        0 <= start <= keep <= end < text.len(),
        end - start == line_len(text.skip(start)),
        keep - start == trimmed_len(text.subrange(start, end)),
        step == break_len(text, end),
    ensures
        end + step <= text.len(),
        clean(text.skip(start)) == text.subrange(start, keep) + text.subrange(end, end + step)
            + clean(text.skip(end + step)),
        lines_of(text.skip(start)) == seq![text.subrange(start, end)] + lines_of(
            text.skip(end + step),
        ),
{
    let rest = text.skip(start);
    let after_line = text.skip(end);
    lemma_line_len_bound(rest);
    lemma_clean_first_line(rest);
    assert(rest.take(end - start) =~= text.subrange(start, end));
    assert(rest.take(keep - start) =~= text.subrange(start, keep));
    assert(rest.skip(end - start) =~= after_line);
    assert(rest[end - start] == text[end]);
    assert(step == break_len(rest, end - start));
    assert(rest.skip(end - start + step) =~= text.skip(end + step));
    lemma_clean_at_break(after_line);
    assert(after_line.drop_first() =~= text.skip(end + 1));
    if step == 2 {
        lemma_clean_at_break(text.skip(end + 1));
        assert(text.skip(end + 1).drop_first() =~= text.skip(end + 2));
    }
    assert(clean(after_line) =~= text.subrange(end, end + step) + clean(text.skip(end + step)));
    assert(clean(rest) =~= text.subrange(start, keep) + text.subrange(end, end + step) + clean(
        text.skip(end + step),
    ));
}

/// The last step of cleaning line by line, at the line that the end of the
/// text ends.
pub proof fn lemma_clean_last_line(text: Seq<char>, start: int, keep: int)
    requires
        0 <= start <= keep <= text.len(),
        text.len() - start == line_len(text.skip(start)),
        keep - start == trimmed_len(text.subrange(start, text.len() as int)),
    ensures
        clean(text.skip(start)) == text.subrange(start, keep),
        lines_of(text.skip(start)) == seq![text.subrange(start, text.len() as int)],
{
    let rest = text.skip(start);
    lemma_clean_first_line(rest);
    assert(rest.take(rest.len() as int) =~= rest);
    assert(rest =~= text.subrange(start, text.len() as int));
    assert(rest.take(keep - start) =~= text.subrange(start, keep));
    assert(rest.skip(rest.len() as int).len() == 0);
    assert(clean(rest) =~= text.subrange(start, keep));
}

/// The numbers of the shortened lines, once one more line is counted.
pub proof fn lemma_shortened_push(lines: Seq<Seq<char>>, line: Seq<char>)
    ensures
        shortened(lines.push(line)) == if trimmed_len(line) < line.len() {
            shortened(lines).push(lines.len() as int + 1)
        } else {
            shortened(lines)
        },
{
    assert(lines.push(line).drop_last() =~= lines);
}

} // verus!
