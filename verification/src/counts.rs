//! The counter record: three tallies, their field-wise sum, and the laws of
//! that sum.

use vstd::prelude::*;
use vstd::seq_lib::*;

verus! {

/// The tallies of one input, or of several inputs taken together.
#[derive(Debug, Clone, Copy, PartialEq, Eq, Structural)]
pub struct FileInfo {
    pub lines: usize,
    pub words: usize,
    pub chars: usize,
}

/// The tallies as unbounded naturals: what a `FileInfo` stands for.
pub struct Counts {
    pub lines: nat,
    pub words: nat,
    pub chars: nat,
}

impl Counts {
    /// The record of an input of which nothing has been read.
    pub open spec fn zero() -> Counts {
        Counts { lines: 0, words: 0, chars: 0 }
    }

    /// Field-wise sum.
    pub open spec fn plus(self, other: Counts) -> Counts {
        Counts {
            lines: self.lines + other.lines,
            words: self.words + other.words,
            chars: self.chars + other.chars,
        }
    }

    /// Each tally can be held in a `usize`.
    pub open spec fn fits(self) -> bool {
        &&& self.lines <= usize::MAX
        &&& self.words <= usize::MAX
        &&& self.chars <= usize::MAX
    }

    /// No tally of `self` exceeds the same tally of `other`.
    pub open spec fn le(self, other: Counts) -> bool {
        &&& self.lines <= other.lines
        &&& self.words <= other.words
        &&& self.chars <= other.chars
    }
}

/// The sum of a sequence of records, taken from the left.
pub open spec fn total(records: Seq<Counts>) -> Counts
    decreases records.len(),
{
    if records.len() == 0 {
        Counts::zero()
    } else {
        total(records.drop_last()).plus(records.last())
    }
}

impl View for FileInfo {
    type V = Counts;

    open spec fn view(&self) -> Counts {
        Counts { lines: self.lines as nat, words: self.words as nat, chars: self.chars as nat }
    }
}

impl Default for FileInfo {
    /// A fresh record: all three tallies zero.
    fn default() -> (info: FileInfo)
        ensures
            info@ == Counts::zero(),
    {
        FileInfo { lines: 0, words: 0, chars: 0 }
    }
}

impl FileInfo {
    /// Whether `rhs` can be added to `self` with every sum still in range.
    pub fn can_add(&self, rhs: &FileInfo) -> (ok: bool)
        ensures
            ok == self@.plus(rhs@).fits(),
    {
        rhs.lines <= usize::MAX - self.lines && rhs.words <= usize::MAX - self.words && rhs.chars
            <= usize::MAX - self.chars
    }

    /// Adds `rhs` to `self`, field by field.
    pub fn add_assign(&mut self, rhs: FileInfo)
        requires
            old(self)@.plus(rhs@).fits(),
        ensures
            final(self)@ == old(self)@.plus(rhs@),
    {
        self.lines = self.lines + rhs.lines;
        self.words = self.words + rhs.words;
        self.chars = self.chars + rhs.chars;
    }
}

/// Adding the zero record, on either side, changes nothing.
pub proof fn lemma_zero_is_identity(r: Counts)
    ensures
        Counts::zero().plus(r) == r,
        r.plus(Counts::zero()) == r,
{
}

/// The sum of two records does not depend on their order.
pub proof fn lemma_plus_commutative(a: Counts, b: Counts)
    ensures
        a.plus(b) == b.plus(a),
{
}

/// The sum of three records does not depend on how they are grouped.
pub proof fn lemma_plus_associative(a: Counts, b: Counts, c: Counts)
    ensures
        a.plus(b).plus(c) == a.plus(b.plus(c)),
{
}

/// Adding a record lowers no tally.
pub proof fn lemma_plus_grows(a: Counts, b: Counts)
    ensures
        a.le(a.plus(b)),
{
}

/// The sum of one sequence after another is the sum of their sums.
pub proof fn lemma_total_concat(a: Seq<Counts>, b: Seq<Counts>)
    ensures
        total(a + b) == total(a).plus(total(b)),
    decreases b.len(),
{
    if b.len() == 0 {
        assert(a + b =~= a);
    } else {
        assert((a + b).drop_last() =~= a + b.drop_last());
        lemma_total_concat(a, b.drop_last());
    }
}

/// A sum grows with every record added: the sum of a prefix is at most the
/// sum of the whole.
pub proof fn lemma_total_prefix_le(records: Seq<Counts>, n: int)
    requires
        0 <= n <= records.len(),
    ensures
        total(records.take(n)).le(total(records)),
    decreases records.len() - n,
{
    if n == records.len() {
        assert(records.take(n) =~= records);
    } else {
        lemma_total_prefix_le(records, n + 1);
        assert(records.take(n + 1).drop_last() =~= records.take(n));
    }
}

spec fn plus_fn() -> spec_fn(Counts, Counts) -> Counts {
    |acc: Counts, r: Counts| acc.plus(r)
}

proof fn lemma_total_is_fold(records: Seq<Counts>)
    ensures
        total(records) == records.fold_left(Counts::zero(), plus_fn()),
    decreases records.len(),
{
    if records.len() > 0 {
        lemma_total_is_fold(records.drop_last());
    }
}

/// The sum of a sequence of records is the same in whatever order the
/// records are taken: two sequences that hold the same records, each as
/// often as the other, have the same sum.
pub proof fn lemma_total_any_order(a: Seq<Counts>, b: Seq<Counts>)
    requires
        a.to_multiset() == b.to_multiset(),
    ensures
        total(a) == total(b),
{
    lemma_total_is_fold(a);
    lemma_total_is_fold(b);
    assert(commutative_foldl(plus_fn())) by {
        assert forall|x: Counts, y: Counts, v: Counts| #[trigger]
            plus_fn()(plus_fn()(v, x), y) == plus_fn()(plus_fn()(v, y), x) by {
            assert(v.plus(x).plus(y) == v.plus(y).plus(x));
        }
    }
    lemma_fold_left_permutation(a, b, plus_fn(), Counts::zero());
}

} // verus!
