//! Scanning a line: which characters separate words, the words of a line,
//! and the record of a line.

use crate::counts::{Counts, FileInfo};
use vstd::prelude::*;
use vstd::set_lib::*;
use vstd::string::StringSliceAdditionalSpecFns;
use vstd::utf8::*;

verus! {

/// Whether `c` has the Unicode property White_Space, as the standard
/// library's `char::is_whitespace` reports it.
pub uninterp spec fn white_space(c: char) -> bool;

/// Whether `c` separates words. Line feed and carriage return are named
/// because the splitting of a text into lines rests on them; every other
/// character is classified by its White_Space property.
pub open spec fn is_space(c: char) -> bool {
    c == '\n' || c == '\r' || white_space(c)
}

/// Taken on trust of the standard library: `char::is_whitespace` tells
/// whether a character has the White_Space property of the Unicode Character
/// Database, and line feed (U+000A) and carriage return (U+000D) have it.
pub assume_specification[ char::is_whitespace ](c: char) -> (b: bool)
    ensures
        b == (c == '\n' || c == '\r' || white_space(c)),
;

/// A word starts at index `i` of `s`: the character there is not whitespace,
/// and it is the first of `s` or follows whitespace.
pub open spec fn starts_word(s: Seq<char>, i: int) -> bool {
    &&& 0 <= i < s.len()
    &&& !is_space(s[i])
    &&& (i == 0 || is_space(s[i - 1]))
}

/// The indices of `s` at which a word starts.
pub open spec fn word_starts(s: Seq<char>) -> Set<int> {
    Set::new(|i: int| starts_word(s, i))
}

/// The number of words of `s`: of its maximal runs of characters that are
/// not whitespace.
pub open spec fn word_count(s: Seq<char>) -> nat {
    word_starts(s).len()
}

/// The record of one line, given without its terminator: one line, its
/// words, and its characters with one more for the terminator.
pub open spec fn line_counts(line: Seq<char>) -> Counts {
    Counts { lines: 1, words: word_count(line), chars: line.len() + 1 }
}

/// Words start at finitely many indices, all within the sequence: there are
/// no more words than characters.
pub proof fn lemma_word_count_bounded(s: Seq<char>)
    ensures
        word_starts(s).finite(),
        word_count(s) <= s.len(),
{
    lemma_int_range(0, s.len() as int);
    lemma_len_subset(word_starts(s), set_int_range(0, s.len() as int));
}

/// One more character adds a word exactly when a word starts with it.
pub proof fn lemma_word_count_push(s: Seq<char>, c: char)
    ensures
        word_count(s.push(c)) == word_count(s) + if starts_word(s.push(c), s.len() as int) {
            1nat
        } else {
            0nat
        },
{
    let t = s.push(c);
    let n = s.len() as int;
    lemma_word_count_bounded(s);
    assert forall|i: int| i != n implies (starts_word(t, i) <==> starts_word(s, i)) by {
        if 0 <= i < n {
            assert(t[i] == s[i]);
            if i > 0 {
                assert(t[i - 1] == s[i - 1]);
            }
        }
    }
    if starts_word(t, n) {
        assert(word_starts(t) =~= word_starts(s).insert(n));
    } else {
        assert(word_starts(t) =~= word_starts(s));
    }
}

/// A text has no more characters than its UTF-8 encoding has bytes.
pub proof fn lemma_chars_within_bytes(s: Seq<char>)
    ensures
        s.len() <= encode_utf8(s).len(),
    decreases s.len(),
{
    if s.len() > 0 {
        lemma_chars_within_bytes(s.drop_first());
    }
}

/// Counts the words of a line: its maximal runs of characters that are not
/// whitespace.
pub fn count_words(line: &str) -> (n: usize)
    ensures
        n == word_count(line@),
{
    let byte_len = line.as_bytes().len();
    proof {
        lemma_chars_within_bytes(line@);
        assert(line@.len() <= byte_len);
        assert(word_starts(line@.take(0)) =~= Set::empty());
    }
    let mut n: usize = 0;
    let mut in_word = false;
    let chars = line.chars();
    for c in it: chars
        invariant
            it.seq() == line@,
            line@.len() <= usize::MAX,
            n == word_count(line@.take(it.index())),
            n <= it.index(),
            in_word == (it.index() > 0 && !is_space(line@[it.index() - 1])),
    {
        proof {
            let k = it.index();
            assert(line@.take(k + 1) =~= line@.take(k).push(c));
            lemma_word_count_push(line@.take(k), c);
        }
        let visible = !c.is_whitespace();
        if visible && !in_word {
            n = n + 1;
        }
        in_word = visible;
    }
    assert(line@.take(line@.len() as int) =~= line@);
    n
}

impl FileInfo {
    /// The record of one line, given without its terminator: one line, its
    /// words, and its characters with one more for the terminator, whether
    /// or not the line had one.
    pub fn of_line(line: &str) -> (info: FileInfo)
        requires
            line@.len() < usize::MAX,
        ensures
            info@ == line_counts(line@),
    {
        FileInfo { lines: 1, words: count_words(line), chars: line.unicode_len() + 1 }
    }
}

} // verus!
