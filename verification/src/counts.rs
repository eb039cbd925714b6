//! The repetitions that are still owed, kept per glyph.

use vstd::prelude::*;

verus! {

/// One entry: a glyph and the repetitions it is still owed.
pub type Entry = (Seq<char>, nat);

/// The first position at or after `i` whose glyph is `text`, or the number
/// of entries if there is none.
pub open spec fn entry_position(entries: Seq<Entry>, text: Seq<char>, i: int) -> int
    decreases entries.len() - i,
{
    if 0 <= i < entries.len() && entries[i].0 != text {
        entry_position(entries, text, i + 1)
    } else {
        i
    }
}

/// The repetitions owed to a glyph, if it has an entry.
pub open spec fn count_of(entries: Seq<Entry>, text: Seq<char>) -> Option<nat> {
    let i = entry_position(entries, text, 0);
    if 0 <= i < entries.len() {
        Some(entries[i].1)
    } else {
        None
    }
}

/// The entries with the count of `text` set to `count`: its entry is
/// replaced where it stands, or a new one is added at the end.
pub open spec fn with_count(entries: Seq<Entry>, text: Seq<char>, count: nat) -> Seq<Entry> {
    let i = entry_position(entries, text, 0);
    if 0 <= i < entries.len() {
        entries.update(i, (text, count))
    } else {
        entries.push((text, count))
    }
}

/// The sum of all counts.
pub open spec fn total_of(entries: Seq<Entry>) -> nat
    decreases entries.len(),
{
    if entries.len() == 0 {
        0
    } else {
        total_of(entries.drop_last()) + entries.last().1
    }
}

/// Every count is zero.
pub open spec fn all_zero(entries: Seq<Entry>) -> bool {
    forall|i: int| 0 <= i < entries.len() ==> (#[trigger] entries[i]).1 == 0
}

/// No glyph has two entries.
pub open spec fn distinct_keys(entries: Seq<Entry>) -> bool {
    forall|i: int, j: int|
        0 <= i < j < entries.len() ==> (#[trigger] entries[i]).0 != (#[trigger] entries[j]).0
}

/// Where the first entry of a glyph stands: at a position that holds the
/// glyph, behind positions that do not.
pub proof fn lemma_entry_position(entries: Seq<Entry>, text: Seq<char>, i: int)
    requires
        0 <= i <= entries.len(),
    ensures
        i <= entry_position(entries, text, i) <= entries.len(),
        entry_position(entries, text, i) < entries.len() ==> entries[entry_position(
            entries,
            text,
            i,
        )].0 == text,
        forall|j: int| i <= j < entry_position(entries, text, i) ==> (#[trigger] entries[j]).0 != text,
    decreases entries.len() - i,
{
    if i < entries.len() && entries[i].0 != text {
        lemma_entry_position(entries, text, i + 1);
    }
}

/// Setting a count keeps the glyphs distinct.
pub proof fn lemma_with_count_distinct(entries: Seq<Entry>, text: Seq<char>, count: nat)
    requires
        distinct_keys(entries),
    ensures
        distinct_keys(with_count(entries, text, count)),
{
    lemma_entry_position(entries, text, 0);
}

/// After setting a count, the glyph has that count and every other glyph
/// has the count it had.
pub proof fn lemma_with_count_lookup(
    entries: Seq<Entry>,
    text: Seq<char>,
    count: nat,
    other: Seq<char>,
)
    ensures
        count_of(with_count(entries, text, count), other) == if other == text {
            Some(count)
        } else {
            count_of(entries, other)
        },
{
    let after = with_count(entries, text, count);
    let i = entry_position(entries, text, 0);
    lemma_entry_position(entries, text, 0);
    lemma_entry_position(entries, other, 0);
    lemma_entry_position(after, other, 0);
    let a = entry_position(entries, other, 0);
    let b = entry_position(after, other, 0);
    if i < entries.len() {
        if a < b && a < entries.len() {
            assert(after[a].0 != other);
        }
    } else {
        if a < entries.len() {
            if a < b {
                assert(after[a].0 != other);
            }
        } else {
            if other == text {
                if b > entries.len() {
                    assert(after[entries.len() as int].0 != other);
                }
            }
        }
    }
}

/// Changing one count changes the sum by the same amount.
pub proof fn lemma_total_update(entries: Seq<Entry>, i: int, entry: Entry)
    requires
        0 <= i < entries.len(),
    ensures
        total_of(entries.update(i, entry)) + entries[i].1 == total_of(entries) + entry.1,
    decreases entries.len(),
{
    let after = entries.update(i, entry);
    if i == entries.len() - 1 {
        assert(after.drop_last() =~= entries.drop_last());
    } else {
        assert(after.drop_last() =~= entries.drop_last().update(i, entry));
        lemma_total_update(entries.drop_last(), i, entry);
    }
}

/// The sum is zero exactly when every count is zero.
pub proof fn lemma_total_zero(entries: Seq<Entry>)
    ensures
        total_of(entries) == 0 <==> all_zero(entries),
    decreases entries.len(),
{
    if entries.len() > 0 {
        lemma_total_zero(entries.drop_last());
        if total_of(entries) == 0 {
            assert forall|i: int| 0 <= i < entries.len() implies (#[trigger] entries[i]).1
                == 0 by {
                if i < entries.len() - 1 {
                    assert(entries.drop_last()[i] == entries[i]);
                }
            }
        }
    }
}

/// The repetitions still owed, one entry per glyph, in the order in which
/// the glyphs were first entered.
#[derive(Debug, Clone)]
pub struct PracticeCounts {
    /// Glyph and count, one pair per glyph.
    pub entries: Vec<(String, usize)>,
}

impl View for PracticeCounts {
    type V = Seq<Entry>;

    open spec fn view(&self) -> Seq<Entry> {
        Seq::new(self.entries@.len(), |i: int| (self.entries@[i].0@, self.entries@[i].1 as nat))
    }
}

impl PracticeCounts {
    /// No glyph has two entries.
    pub open spec fn well_formed(&self) -> bool {
        distinct_keys(self@)
    }

    /// A table without entries.
    pub fn new() -> (r: PracticeCounts)
        ensures
            r@ == Seq::<Entry>::empty(),
            r.well_formed(),
    {
        let r = PracticeCounts { entries: Vec::new() };
        r
    }

    /// The number of entries.
    pub fn len(&self) -> (r: usize)
        ensures
            r == self@.len(),
    {
        self.entries.len()
    }

    /// Where the entry of a glyph stands, if it has one.
    pub fn find(&self, text: &String) -> (r: Option<usize>)
        ensures
            match r {
                Some(i) => i == entry_position(self@, text@, 0) && i < self@.len(),
                None => entry_position(self@, text@, 0) >= self@.len(),
            },
    {
        let mut i: usize = 0;
        while i < self.entries.len()
            invariant
                i <= self.entries.len(),
                entry_position(self@, text@, 0) == entry_position(self@, text@, i as int),
            decreases self.entries.len() - i,
        {
            if self.entries[i].0 == *text {
                return Some(i);
            }
            i = i + 1;
        }
        None
    }

    /// The repetitions owed to a glyph, if it has an entry.
    pub fn get(&self, text: &String) -> (r: Option<usize>)
        ensures
            match r {
                Some(c) => count_of(self@, text@) == Some(c as nat),
                None => count_of(self@, text@) is None,
            },
    {
        match self.find(text) {
            Some(i) => Some(self.entries[i].1),
            None => None,
        }
    }

    /// Sets the count of a glyph, adding an entry if it has none.
    pub fn insert(&mut self, text: String, count: usize)
        ensures
            final(self)@ == with_count(old(self)@, text@, count as nat),
            old(self).well_formed() ==> final(self).well_formed(),
    {
        let ghost before = self@;
        match self.find(&text) {
            Some(i) => {
                self.entries.set(i, (text, count));
            },
            None => {
                self.entries.push((text, count));
            },
        }
        assert(self@ =~= with_count(before, text@, count as nat));
        proof {
            if distinct_keys(before) {
                lemma_with_count_distinct(before, text@, count as nat);
            }
        }
    }

    /// Sets the count of the entry at position `i`.
    pub fn change(&mut self, i: usize, count: usize)
        requires
            i < old(self)@.len(),
        ensures
            final(self)@ == old(self)@.update(i as int, (old(self)@[i as int].0, count as nat)),
    {
        let text = self.entries[i].0.clone();
        self.entries.set(i, (text, count));
    }

    /// Whether every count is zero.
    pub fn is_finished(&self) -> (r: bool)
        ensures
            r == all_zero(self@),
    {
        let mut i: usize = 0;
        while i < self.entries.len()
            invariant
                i <= self.entries.len(),
                forall|j: int| 0 <= j < i ==> (#[trigger] self@[j]).1 == 0,
            decreases self.entries.len() - i,
        {
            if self.entries[i].1 != 0 {
                assert(self@[i as int].1 != 0);
                return false;
            }
            i = i + 1;
        }
        true
    }

    /// The sum of all counts. It always fits: a vector holds at most
    /// `usize::MAX` entries of at most `usize::MAX` each.
    pub fn outstanding(&self) -> (r: u128)
        ensures
            r == total_of(self@),
    {
        let mut sum: u128 = 0;
        let mut i: usize = 0;
        while i < self.entries.len()
            invariant
                i <= self.entries.len(),
                sum == total_of(self@.take(i as int)),
                sum <= i * usize::MAX,
            decreases self.entries.len() - i,
        {
            assert(self@.take(i + 1).drop_last() =~= self@.take(i as int));
            assert(i * usize::MAX + usize::MAX <= u128::MAX) by (nonlinear_arith)
                requires
                    i < usize::MAX,
                    usize::MAX <= u64::MAX,
            ;
            sum = sum + self.entries[i].1 as u128;
            i = i + 1;
        }
        assert(self@.take(self.entries.len() as int) =~= self@);
        sum
    }
}

} // verus!
