//! What holds of cleaning, for every text.

use crate::text::{
    blank_to_line_end, blanks_part_breaks, break_len, byte_len, clean, ends_in_blank_line,
    ends_with_break,
    has_blanks_in_break_pair, is_blank, is_line_break, line_len, lines_of, modified_lines,
    shortened, trimmed_len, without_blanks,
};
use crate::text_proofs::{
    lemma_clean_at_break, lemma_clean_first_line, lemma_clean_last_line, lemma_clean_line_step,
    lemma_line_len_bound, lemma_line_len_is, lemma_trimmed_len_bound, lemma_trimmed_len_is,
};
use vstd::prelude::*;
use vstd::utf8::encode_utf8;

verus! {

/// Cleaning never makes a text longer.
pub proof fn lemma_clean_len(text: Seq<char>)
    ensures
        clean(text).len() <= text.len(),
    decreases text.len(),
{
    if text.len() > 0 {
        lemma_clean_len(text.drop_first());
    }
}

/// Cleaning never makes a text longer in bytes.
pub proof fn lemma_clean_byte_len(text: Seq<char>)
    ensures
        byte_len(clean(text)) <= byte_len(text),
    decreases text.len(),
{
    if text.len() > 0 {
        let tail = text.drop_first();
        lemma_clean_byte_len(tail);
        if !(is_blank(text[0]) && blank_to_line_end(tail)) {
            assert(clean(text).drop_first() =~= clean(tail));
        }
    }
}

/// Cleaning removes blanks and nothing else: every line break and every other
/// char of the text stays, in its order. So no line break is added, removed
/// or changed.
pub proof fn lemma_clean_removes_blanks_only(text: Seq<char>)
    ensures
        without_blanks(clean(text)) == without_blanks(text),
    decreases text.len(),
{
    if text.len() > 0 {
        let tail = text.drop_first();
        lemma_clean_removes_blanks_only(tail);
        if !(is_blank(text[0]) && blank_to_line_end(tail)) {
            assert(clean(text).drop_first() =~= clean(tail));
        }
    }
}

/// Cleaning does not change whether only blanks stand before the end of the
/// first line.
pub proof fn lemma_clean_keeps_blank_to_line_end(text: Seq<char>)
    ensures
        blank_to_line_end(clean(text)) <==> blank_to_line_end(text),
    decreases text.len(),
{
    if text.len() > 0 {
        let tail = text.drop_first();
        lemma_clean_keeps_blank_to_line_end(tail);
        if !(is_blank(text[0]) && blank_to_line_end(tail)) {
            assert(clean(text).drop_first() =~= clean(tail));
        }
    }
}

/// Cleaning a cleaned text changes nothing.
pub proof fn lemma_clean_twice(text: Seq<char>)
    ensures
        clean(clean(text)) == clean(text),
    decreases text.len(),
{
    if text.len() > 0 {
        let tail = text.drop_first();
        lemma_clean_twice(tail);
        lemma_clean_keeps_blank_to_line_end(tail);
        if !(is_blank(text[0]) && blank_to_line_end(tail)) {
            assert(clean(text).drop_first() =~= clean(tail));
        }
    }
}

/// What the numbers of the shortened lines are: a number is among them just
/// when it is the number of a line that is longer than its trimmed form, and
/// they ascend.
pub proof fn lemma_shortened_exact(lines: Seq<Seq<char>>)
    ensures
        forall|k: int|
            shortened(lines).contains(k) <==> 1 <= k <= lines.len() && trimmed_len(
                #[trigger] lines[k - 1],
            ) < lines[k - 1].len(),
        forall|i: int, j: int|
            0 <= i < j < shortened(lines).len() ==> shortened(lines)[i] < shortened(lines)[j],
        forall|i: int|
            0 <= i < shortened(lines).len() ==> 1 <= #[trigger] shortened(lines)[i] <= lines.len(),
    decreases lines.len(),
{
    if lines.len() > 0 {
        let front = lines.drop_last();
        lemma_shortened_exact(front);
        let n = lines.len() as int;
        let before = shortened(front);
        let all = shortened(lines);
        assert forall|k: int|
            all.contains(k) <==> 1 <= k <= lines.len() && trimmed_len(#[trigger] lines[k - 1])
                < lines[k - 1].len() by {
            if 1 <= k < n {
                assert(lines[k - 1] == front[k - 1]);
            }
            if trimmed_len(lines.last()) < lines.last().len() {
                assert(all =~= before.push(n));
                if before.contains(k) {
                    let i = choose|i: int| 0 <= i < before.len() && before[i] == k;
                    assert(all[i] == k);
                }
                if k == n {
                    assert(all[before.len() as int] == n);
                }
                if all.contains(k) {
                    let i = choose|i: int| 0 <= i < all.len() && all[i] == k;
                    if i < before.len() {
                        assert(before[i] == k);
                    }
                }
            } else {
                if all.contains(k) {
                    let i = choose|i: int| 0 <= i < before.len() && before[i] == k;
                    assert(1 <= before[i] <= front.len());
                }
            }
        }
    }
}

/// In a text that cleaning leaves as it is, no line ends in a blank.
pub proof fn lemma_clean_text_lines(text: Seq<char>)
    requires
        clean(text) == text,
    ensures
        forall|i: int|
            0 <= i < lines_of(text).len() ==> trimmed_len(#[trigger] lines_of(text)[i])
                == lines_of(text)[i].len(),
    decreases text.len(),
{
    let n = line_len(text) as int;
    let first = text.take(n);
    let kept = trimmed_len(first) as int;
    lemma_line_len_bound(text);
    lemma_clean_first_line(text);
    lemma_clean_len(text.skip(n));
    assert(kept == n && clean(text.skip(n)) == text.skip(n)) by {
        assert(text.len() == kept + clean(text.skip(n)).len());
        assert(text.skip(n) =~= (text.take(kept) + clean(text.skip(n))).skip(n));
    }
    if n < text.len() {
        let step = break_len(text, n) as int;
        let rest = text.skip(n + step);
        lemma_clean_at_break(text.skip(n));
        assert(text.skip(n).drop_first() =~= text.skip(n + 1));
        lemma_clean_len(text.skip(n + 1));
        assert(clean(text.skip(n + 1)) == text.skip(n + 1)) by {
            assert(text.skip(n + 1) =~= (seq![text[n]] + clean(text.skip(n + 1))).skip(1));
        }
        if step == 2 {
            lemma_clean_at_break(text.skip(n + 1));
            assert(text.skip(n + 1).drop_first() =~= text.skip(n + 2));
            lemma_clean_len(text.skip(n + 2));
            assert(clean(text.skip(n + 2)) == text.skip(n + 2)) by {
                assert(text.skip(n + 2) =~= (seq![text[n + 1]] + clean(text.skip(n + 2))).skip(
                    1,
                ));
            }
        }
        lemma_clean_text_lines(rest);
        assert forall|i: int| 0 <= i < lines_of(text).len() implies trimmed_len(
            #[trigger] lines_of(text)[i],
        ) == lines_of(text)[i].len() by {
            if i > 0 {
                assert(lines_of(text)[i] == lines_of(rest)[i - 1]);
            }
        }
    } else {
        assert(first =~= text);
    }
}

/// Cleaning twice gives what cleaning once gives, and the second cleaning
/// finds no line to shorten.
pub proof fn lemma_cleaning_is_idempotent(text: Seq<char>)
    ensures
        clean(clean(text)) == clean(text),
        modified_lines(clean(text)) == Seq::<int>::empty(),
{
    let once = clean(text);
    lemma_clean_twice(text);
    lemma_clean_text_lines(once);
    lemma_shortened_exact(lines_of(once));
    let found = shortened(lines_of(once));
    if found.len() > 0 {
        let k = found[0];
        assert(found.contains(k));
        assert(trimmed_len(lines_of(once)[k - 1]) == lines_of(once)[k - 1].len());
    }
    assert(found =~= Seq::<int>::empty());
}

/// The numbers of the modified lines are exact: a number is among them just
/// when the line of that number is longer than its trimmed form. They stand
/// in ascending order, each once.
pub proof fn lemma_modified_lines_exact(text: Seq<char>)
    ensures
        forall|k: int|
            modified_lines(text).contains(k) <==> 1 <= k <= lines_of(text).len() && trimmed_len(
                #[trigger] lines_of(text)[k - 1],
            ) < lines_of(text)[k - 1].len(),
        forall|i: int, j: int|
            0 <= i < j < modified_lines(text).len() ==> modified_lines(text)[i] < modified_lines(
                text,
            )[j],
{
    lemma_shortened_exact(lines_of(text));
}

/// How a text and its cleaned form end, told from the last line of the text.
pub proof fn lemma_last_line(text: Seq<char>)
    ensures
        lines_of(text).len() >= 1,
        lines_of(text).len() > 1 ==> clean(text).len() > 0,
        ends_with_break(text) <==> lines_of(text).len() > 1 && lines_of(text).last().len() == 0,
        ends_with_break(clean(text)) <==> lines_of(text).len() > 1 && trimmed_len(
            lines_of(text).last(),
        ) == 0,
        ends_with_break(text) ==> clean(text).len() > 0 && clean(text).last() == text.last(),
    decreases text.len(),
{
    let n = line_len(text) as int;
    let first = text.take(n);
    let kept = trimmed_len(first) as int;
    lemma_line_len_bound(text);
    lemma_trimmed_len_bound(first);
    assert(text.skip(0) =~= text);
    if n < text.len() {
        let step = break_len(text, n) as int;
        let rest = text.skip(n + step);
        let cleaned_rest = clean(rest);
        lemma_clean_line_step(text, 0, kept, n, step);
        lemma_last_line(rest);
        lemma_line_len_bound(rest);
        let lines = lines_of(text);
        assert(lines.last() == lines_of(rest).last());
        assert(is_line_break(text[n + step - 1]));
        if lines_of(rest).len() == 1 {
            let m = line_len(rest) as int;
            if m < rest.len() {
                lemma_last_line(rest.skip(m + break_len(rest, m)));
            }
            assert(lines_of(rest) =~= seq![rest]);
            assert(rest.skip(0) =~= rest);
            assert(rest.subrange(0, rest.len() as int) =~= rest);
            lemma_trimmed_len_bound(rest);
            lemma_clean_last_line(rest, 0, trimmed_len(rest) as int);
        }
        if rest.len() > 0 {
            assert(text.last() == rest.last());
        }
        if cleaned_rest.len() > 0 {
            assert(clean(text).last() == cleaned_rest.last());
        } else {
            assert(clean(text).last() == text[n + step - 1]);
        }
    } else {
        assert(first =~= text);
        lemma_clean_last_line(text, 0, kept);
        if kept > 0 {
            assert(clean(text).last() == text[kept - 1]);
        }
    }
}

/// Cleaning keeps the end of a text: unless the last line of the text follows
/// a line break and holds blanks only, the cleaned text ends in a line break
/// just when the text does, and then in the same one.
pub proof fn lemma_final_break_kept(text: Seq<char>)
    requires
        !ends_in_blank_line(text),
    ensures
        ends_with_break(clean(text)) <==> ends_with_break(text),
        ends_with_break(text) ==> clean(text).last() == text.last(),
{
    lemma_last_line(text);
}

/// Where the last line of a text follows a line break and holds blanks only,
/// the cleaned text ends in that line break, and the text does not end in one.
pub proof fn lemma_final_blank_line_removed(text: Seq<char>)
    requires
        ends_in_blank_line(text),
    ensures
        ends_with_break(clean(text)),
        !ends_with_break(text),
{
    lemma_last_line(text);
}

/// After a carriage return that no line feed follows directly, the cleaned
/// rest of a text does not begin with a line feed, unless only blanks part the
/// two in the text.
proof fn lemma_no_line_feed_in_front(text: Seq<char>, at: int)
    requires
        0 <= at < text.len(),
        text[at] == '\r',
        at + 1 < text.len() ==> text[at + 1] != '\n',
        !has_blanks_in_break_pair(text),
    ensures
        clean(text.skip(at + 1)).len() > 0 ==> clean(text.skip(at + 1))[0] != '\n',
{
    let rest = text.skip(at + 1);
    let m = line_len(rest) as int;
    let line = rest.take(m);
    let kept = trimmed_len(line) as int;
    lemma_line_len_bound(rest);
    lemma_trimmed_len_bound(line);
    lemma_clean_first_line(rest);
    if clean(rest).len() > 0 {
        if kept > 0 {
            assert(clean(rest)[0] == rest[0]);
        } else if m < rest.len() {
            lemma_clean_at_break(rest.skip(m));
            assert(clean(rest)[0] == rest[m]);
            if rest[m] == '\n' {
                assert(m > 0);
                assert forall|k: int| at < k < at + 1 + m implies is_blank(#[trigger] text[k]) by {
                    assert(text[k] == line[k - at - 1]);
                }
                assert(blanks_part_breaks(text, at, at + 1 + m));
            }
        } else {
            assert(rest.skip(m).len() == 0);
        }
    }
}

/// Cleaning keeps the number of lines, unless somewhere in the text only
/// blanks part a carriage return from a later line feed.
pub proof fn lemma_line_count_kept(text: Seq<char>)
    requires
        !has_blanks_in_break_pair(text),
    ensures
        lines_of(clean(text)).len() == lines_of(text).len(),
    decreases text.len(),
{
    let n = line_len(text) as int;
    let first = text.take(n);
    let kept = trimmed_len(first) as int;
    let cleaned = clean(text);
    lemma_line_len_bound(text);
    lemma_trimmed_len_bound(first);
    assert(text.skip(0) =~= text);
    if n < text.len() {
        let step = break_len(text, n) as int;
        let rest = text.skip(n + step);
        lemma_clean_line_step(text, 0, kept, n, step);
        assert(cleaned.len() == kept + step + clean(rest).len());
        assert forall|j: int| 0 <= j < kept implies !is_line_break(#[trigger] cleaned[j]) by {
            assert(cleaned[j] == text[j]);
        }
        assert(cleaned[kept] == text[n]);
        lemma_line_len_is(cleaned, kept);
        if step == 2 {
            assert(cleaned[kept + 1] == text[n + 1]);
        } else if text[n] == '\r' {
            lemma_no_line_feed_in_front(text, n);
            if clean(rest).len() > 0 {
                assert(cleaned[kept + 1] == clean(rest)[0]);
            }
        }
        assert(break_len(cleaned, kept) == step);
        assert(cleaned.skip(kept + step) =~= clean(rest));
        assert(!has_blanks_in_break_pair(rest)) by {
            if has_blanks_in_break_pair(rest) {
                let (i, j) = choose|i: int, j: int| blanks_part_breaks(rest, i, j);
                assert forall|m: int| i + n + step < m < j + n + step implies is_blank(
                    #[trigger] text[m],
                ) by {
                    assert(text[m] == rest[m - n - step]);
                }
                assert(blanks_part_breaks(text, i + n + step, j + n + step));
            }
        }
        lemma_line_count_kept(rest);
    } else {
        assert(first =~= text);
        lemma_clean_last_line(text, 0, kept);
        assert forall|j: int| 0 <= j < cleaned.len() implies !is_line_break(
            #[trigger] cleaned[j],
        ) by {
            assert(cleaned[j] == text[j]);
        }
        lemma_line_len_is(cleaned, cleaned.len() as int);
    }
}

/// Cleaning never adds a line; and where only blanks part a carriage return
/// from a later line feed, the cleaned text has fewer lines than the text.
pub proof fn lemma_line_count_lost(text: Seq<char>)
    ensures
        lines_of(clean(text)).len() <= lines_of(text).len(),
        has_blanks_in_break_pair(text) ==> lines_of(clean(text)).len() < lines_of(text).len(),
    decreases text.len(),
{
    let n = line_len(text) as int;
    let first = text.take(n);
    let kept = trimmed_len(first) as int;
    let cleaned = clean(text);
    lemma_line_len_bound(text);
    lemma_trimmed_len_bound(first);
    assert(text.skip(0) =~= text);
    if n < text.len() {
        let step = break_len(text, n) as int;
        let rest = text.skip(n + step);
        lemma_clean_line_step(text, 0, kept, n, step);
        assert(cleaned.len() == kept + step + clean(rest).len());
        assert forall|j: int| 0 <= j < kept implies !is_line_break(#[trigger] cleaned[j]) by {
            assert(cleaned[j] == text[j]);
        }
        assert(cleaned[kept] == text[n]);
        lemma_line_len_is(cleaned, kept);
        lemma_line_count_lost(rest);
        if step == 2 {
            assert(cleaned[kept + 1] == text[n + 1]);
        }
        if clean(rest).len() > 0 {
            assert(cleaned[kept + step] == clean(rest)[0]);
        }
        if break_len(cleaned, kept) == step {
            assert(cleaned.skip(kept + step) =~= clean(rest));
            if has_blanks_in_break_pair(text) && !has_blanks_in_break_pair(rest) {
                let (i, j) = choose|i: int, j: int| blanks_part_breaks(text, i, j);
                if i >= n + step {
                    assert forall|m: int| i - n - step < m < j - n - step implies is_blank(
                        #[trigger] rest[m],
                    ) by {
                        assert(rest[m] == text[m + n + step]);
                    }
                    assert(blanks_part_breaks(rest, i - n - step, j - n - step));
                } else {
                    assert(i >= n) by {
                        if i < n {
                            assert(!is_line_break(text[i]));
                        }
                    }
                    assert(is_blank(text[i + 1]));
                    assert(i == n && step == 1);
                    // the blanks after the carriage return are the whole first
                    // line of the rest, and a line feed ends it
                    let m = j - n - 1;
                    assert forall|k: int| 0 <= k < m implies !is_line_break(#[trigger] rest[k]) by {
                        assert(rest[k] == text[k + n + 1]);
                        assert(is_blank(text[k + n + 1]));
                    }
                    assert(rest[m] == text[j]);
                    lemma_line_len_is(rest, m);
                    let line = rest.take(m);
                    assert forall|k: int| 0 <= k < line.len() implies is_blank(
                        #[trigger] line[k],
                    ) by {
                        assert(line[k] == text[k + n + 1]);
                    }
                    lemma_trimmed_len_is(line, 0);
                    lemma_clean_first_line(rest);
                    lemma_clean_at_break(rest.skip(m));
                    assert(clean(rest)[0] == '\n');
                    assert(false);
                }
            }
        } else {
            // a lone carriage return and the line feed in front of the cleaned
            // rest have become one line break
            assert(step == 1 && text[n] == '\r');
            assert(clean(rest).len() > 0 && clean(rest)[0] == '\n');
            let m = line_len(rest) as int;
            let line = rest.take(m);
            lemma_line_len_bound(rest);
            lemma_trimmed_len_bound(line);
            lemma_clean_first_line(rest);
            assert(trimmed_len(line) == 0) by {
                if trimmed_len(line) > 0 {
                    assert(clean(rest)[0] == rest[0]);
                    assert(rest[0] == text[n + 1]);
                }
            }
            assert(m < rest.len()) by {
                if m >= rest.len() {
                    assert(rest.skip(m).len() == 0);
                }
            }
            lemma_clean_at_break(rest.skip(m));
            assert(rest[m] == '\n');
            assert(break_len(rest, m) == 1);
            let rest2 = rest.skip(m + 1);
            assert(rest.skip(m).drop_first() =~= rest2);
            assert(clean(rest) =~= seq!['\n'] + clean(rest2));
            assert(cleaned.skip(kept + 2) =~= clean(rest2));
            lemma_line_count_lost(rest2);
            assert(lines_of(rest).len() == 1 + lines_of(rest2).len());
        }
    } else {
        assert(first =~= text);
        lemma_clean_last_line(text, 0, kept);
        assert forall|j: int| 0 <= j < cleaned.len() implies !is_line_break(
            #[trigger] cleaned[j],
        ) by {
            assert(cleaned[j] == text[j]);
        }
        lemma_line_len_is(cleaned, cleaned.len() as int);
        if has_blanks_in_break_pair(text) {
            let (i, j) = choose|i: int, j: int| blanks_part_breaks(text, i, j);
            assert(!is_line_break(text[i]));
        }
    }
}

} // verus!
