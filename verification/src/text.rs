//! The lines of a text, and the record of a whole text.

use crate::counts::{lemma_total_concat, total, Counts, FileInfo};
use crate::scan::{
    is_space, lemma_word_count_bounded, lemma_word_count_push, line_counts, word_count,
    word_starts,
};
use vstd::prelude::*;

verus! {

/// The index of the first line feed of `s`, or the length of `s` if it has
/// none.
pub open spec fn first_newline(s: Seq<char>) -> nat
    decreases s.len(),
{
    if s.len() == 0 || s[0] == '\n' {
        0
    } else {
        1 + first_newline(s.drop_first())
    }
}

/// A line without the carriage return that stood before its line feed.
pub open spec fn strip_cr(line: Seq<char>) -> Seq<char> {
    if line.len() > 0 && line.last() == '\r' {
        line.drop_last()
    } else {
        line
    }
}

/// The lines of a text. A line ends with a line feed, or with a carriage
/// return and a line feed; the terminator is not part of the line. What
/// follows the last line feed is a line of its own unless it is empty.
pub open spec fn lines_of(text: Seq<char>) -> Seq<Seq<char>>
    decreases text.len(),
{
    if text.len() == 0 {
        Seq::empty()
    } else {
        let n = first_newline(text) as int;
        if n >= text.len() {
            seq![text]
        } else {
            seq![strip_cr(text.take(n))] + lines_of(text.skip(n + 1))
        }
    }
}

/// The records of a sequence of lines, line by line.
pub open spec fn records_of(lines: Seq<Seq<char>>) -> Seq<Counts> {
    Seq::new(lines.len(), |i: int| line_counts(lines[i]))
}

/// The record of a text: the sum of the records of its lines.
pub open spec fn text_counts(text: Seq<char>) -> Counts {
    total(records_of(lines_of(text)))
}

/// The number of line feeds in a text.
pub open spec fn newlines(text: Seq<char>) -> nat {
    text.to_multiset().count('\n')
}

/// `first_newline` is within the sequence, stands on a line feed unless it
/// is the length, and no line feed comes before it.
pub proof fn lemma_first_newline(s: Seq<char>)
    ensures
        first_newline(s) <= s.len(),
        first_newline(s) < s.len() ==> s[first_newline(s) as int] == '\n',
        forall|j: int| 0 <= j < first_newline(s) ==> s[j] != '\n',
    decreases s.len(),
{
    if s.len() == 0 || s[0] == '\n' {
    } else {
        let r = s.drop_first();
        lemma_first_newline(r);
        assert forall|j: int| 0 <= j < first_newline(s) implies s[j] != '\n' by {
            if j > 0 {
                assert(s[j] == r[j - 1]);
            }
        }
    }
}

proof fn lemma_first_newline_at(s: Seq<char>, n: int)
    requires
        0 <= n <= s.len(),
        n < s.len() ==> s[n] == '\n',
        forall|j: int| 0 <= j < n ==> s[j] != '\n',
    ensures
        first_newline(s) == n,
{
    lemma_first_newline(s);
}

proof fn lemma_total_single(r: Counts)
    ensures
        total(seq![r]) == r,
{
    assert(seq![r].drop_last() =~= Seq::<Counts>::empty());
    assert(total(seq![r]) == total(seq![r].drop_last()).plus(seq![r].last()));
}

proof fn lemma_text_counts_empty(s: Seq<char>)
    requires
        s.len() == 0,
    ensures
        text_counts(s) == Counts::zero(),
{
    assert(records_of(lines_of(s)) =~= Seq::<Counts>::empty());
}

proof fn lemma_text_counts_last_line(s: Seq<char>)
    requires
        s.len() > 0,
        forall|j: int| 0 <= j < s.len() ==> s[j] != '\n',
    ensures
        text_counts(s) == line_counts(s),
{
    lemma_first_newline_at(s, s.len() as int);
    assert(records_of(lines_of(s)) =~= seq![line_counts(s)]);
    lemma_total_single(line_counts(s));
}

proof fn lemma_text_counts_first_line(s: Seq<char>, n: int)
    requires
        0 <= n < s.len(),
        s[n] == '\n',
        forall|j: int| 0 <= j < n ==> s[j] != '\n',
    ensures
        text_counts(s) == line_counts(strip_cr(s.take(n))).plus(text_counts(s.skip(n + 1))),
{
    lemma_first_newline_at(s, n);
    let first = line_counts(strip_cr(s.take(n)));
    let rest = lines_of(s.skip(n + 1));
    assert(lines_of(s) == seq![strip_cr(s.take(n))] + rest);
    assert(records_of(lines_of(s)) =~= seq![first] + records_of(rest));
    lemma_total_concat(seq![first], records_of(rest));
    lemma_total_single(first);
}

proof fn lemma_word_count_empty(s: Seq<char>)
    requires
        s.len() == 0,
    ensures
        word_count(s) == 0,
{
    assert(word_starts(s) =~= Set::empty());
}

proof fn lemma_word_count_strip_cr(line: Seq<char>)
    ensures
        word_count(strip_cr(line)) == word_count(line),
{
    if line.len() > 0 && line.last() == '\r' {
        assert(line =~= line.drop_last().push('\r'));
        lemma_word_count_push(line.drop_last(), '\r');
    }
}

/// A line with a character that is not whitespace has a word.
pub proof fn lemma_visible_line_has_word(line: Seq<char>, i: int)
    requires
        0 <= i < line.len(),
        !is_space(line[i]),
    ensures
        word_count(line) > 0,
    decreases i,
{
    if i > 0 && !is_space(line[i - 1]) {
        lemma_visible_line_has_word(line, i - 1);
    } else {
        lemma_word_count_bounded(line);
        assert(word_starts(line).contains(i));
    }
}

proof fn lemma_visible_at(text: Seq<char>, i: int)
    requires
        0 <= i < text.len(),
        !is_space(text[i]),
    ensures
        text_counts(text).lines > 0,
        text_counts(text).words > 0,
        text_counts(text).chars > 0,
    decreases text.len(),
{
    let n = first_newline(text) as int;
    lemma_first_newline(text);
    if n >= text.len() {
        lemma_text_counts_last_line(text);
        lemma_visible_line_has_word(text, i);
    } else {
        lemma_text_counts_first_line(text, n);
        if i < n {
            let line = strip_cr(text.take(n));
            assert(line[i] == text[i]);
            lemma_visible_line_has_word(line, i);
        } else {
            let rest = text.skip(n + 1);
            assert(rest[i - n - 1] == text[i]);
            lemma_visible_at(rest, i - n - 1);
        }
    }
}

/// After the scan of a text with at least one character that is not
/// whitespace, all three tallies are above zero.
pub proof fn lemma_visible_text_counts(text: Seq<char>)
    requires
        exists|i: int| 0 <= i < text.len() && !is_space(text[i]),
    ensures
        text_counts(text).lines > 0,
        text_counts(text).words > 0,
        text_counts(text).chars > 0,
{
    let i = choose|i: int| 0 <= i < text.len() && !is_space(text[i]);
    lemma_visible_at(text, i);
}

/// A text has as many lines as it has line feeds, and one more if it does
/// not end with a line feed and is not empty.
pub proof fn lemma_line_tally(text: Seq<char>)
    ensures
        text_counts(text).lines == newlines(text) + if text.len() > 0 && text.last() != '\n' {
            1nat
        } else {
            0nat
        },
    decreases text.len(),
{
    broadcast use vstd::seq_lib::group_to_multiset_ensures;

    let n = first_newline(text) as int;
    lemma_first_newline(text);
    if text.len() == 0 {
        lemma_text_counts_empty(text);
    } else if n >= text.len() {
        lemma_text_counts_last_line(text);
        assert(!text.contains('\n'));
    } else {
        let head = text.take(n);
        let rest = text.skip(n + 1);
        lemma_text_counts_first_line(text, n);
        lemma_line_tally(rest);
        assert(!head.contains('\n'));
        assert(text =~= head.push('\n') + rest);
        vstd::seq_lib::lemma_multiset_commutative(head.push('\n'), rest);
        if rest.len() > 0 {
            assert(text.last() == rest.last());
        }
    }
}

impl FileInfo {
    /// The record of a text held in memory: the sum of the records of its
    /// lines. A last line without a terminator is counted like the others,
    /// with one character more than it holds.
    pub fn from_text(text: &str) -> (info: FileInfo)
        requires
            text@.len() < usize::MAX,
        ensures
            info@ == text_counts(text@),
            info.lines == newlines(text@) + if text@.len() > 0 && text@.last() != '\n' {
                1nat
            } else {
                0nat
            },
            (exists|i: int| 0 <= i < text@.len() && !is_space(text@[i])) ==> info.lines > 0
                && info.words > 0 && info.chars > 0,
    {
        proof {
            lemma_line_tally(text@);
            if exists|i: int| 0 <= i < text@.len() && !is_space(text@[i]) {
                lemma_visible_text_counts(text@);
            }
        }
        let mut lines: usize = 0;
        let mut words: usize = 0;
        let mut chars: usize = 0;
        let mut in_word = false;
        let mut pending_cr = false;
        let mut open = false;
        let ghost mut seen: int = 0;
        let ghost mut start: int = 0;
        let ghost mut done = Counts::zero();
        proof {
            assert(text@.skip(0) =~= text@);
            lemma_word_count_empty(text@.subrange(0, 0));
        }
        let all = text.chars();
        for c in it: all
            invariant
                it.seq() == text@,
                seen == it.index(),
                text@.len() < usize::MAX,
                0 <= start <= seen,
                forall|j: int| start <= j < seen ==> text@[j] != '\n',
                done.plus(text_counts(text@.skip(start))) == text_counts(text@),
                done.lines <= start,
                done.words <= start,
                done.chars <= start,
                lines == done.lines,
                words == done.words + word_count(text@.subrange(start, seen)),
                chars + (if pending_cr { 1int } else { 0int }) == done.chars + (seen - start),
                open == (seen > start),
                in_word == (seen > start && !is_space(text@[seen - 1])),
                pending_cr == (seen > start && text@[seen - 1] == '\r'),
        {
            let ghost k = seen;
            let ghost cur = text@.subrange(start, k);
            proof {
                lemma_word_count_bounded(cur);
            }
            if c == '\n' {
                proof {
                    let rest = text@.skip(start);
                    assert(rest.take(k - start) =~= cur);
                    assert(rest.skip(k - start + 1) =~= text@.skip(k + 1));
                    lemma_text_counts_first_line(rest, k - start);
                    lemma_word_count_strip_cr(cur);
                    lemma_word_count_bounded(strip_cr(cur));
                    lemma_word_count_empty(text@.subrange(k + 1, k + 1));
                    done = done.plus(line_counts(strip_cr(cur)));
                    start = k + 1;
                }
                lines = lines + 1;
                chars = chars + 1;
                in_word = false;
                pending_cr = false;
                open = false;
            } else {
                proof {
                    assert(text@.subrange(start, k + 1) =~= cur.push(c));
                    lemma_word_count_push(cur, c);
                    lemma_word_count_bounded(cur.push(c));
                }
                if pending_cr {
                    chars = chars + 1;
                }
                pending_cr = c == '\r';
                if !pending_cr {
                    chars = chars + 1;
                }
                let visible = !c.is_whitespace();
                if visible && !in_word {
                    words = words + 1;
                }
                in_word = visible;
                open = true;
            }
            proof {
                seen = seen + 1;
            }
        }
        let ghost rest = text@.skip(start);
        proof {
            assert(seen == text@.len());
            assert(rest =~= text@.subrange(start, text@.len() as int));
            if open {
                lemma_text_counts_last_line(rest);
            } else {
                lemma_text_counts_empty(rest);
                lemma_word_count_empty(rest);
            }
        }
        if open {
            if pending_cr {
                chars = chars + 1;
            }
            lines = lines + 1;
            chars = chars + 1;
        }
        FileInfo { lines, words, chars }
    }
}

} // verus!
