//! Choosing the radical to present next.

use vstd::prelude::*;
use crate::config::{GameConfig, PracticeOrder};
use crate::order::{arrangement, identity_order, is_permutation, rearranged, stable_order};
use crate::random::{random_in, shuffle};
use crate::state::{push_recent, texts_view, GameState, GameView, RECENT_CAPACITY};

verus! {

/// The smallest recency window.
pub const MIN_WINDOW: usize = 3;

/// The largest recency window.
pub const MAX_WINDOW: usize = 6;

impl GameView {
    /// The glyph is among the `window` newest of the history.
    pub open spec fn recently_shown(self, text: Seq<char>, window: nat) -> bool {
        exists|k: int| 0 <= k < self.recent.len() && k < window && #[trigger] self.recent[k] == text
    }

    /// The radical at position `i` is due and was not shown recently.
    pub open spec fn is_eligible(self, i: int, window: nat) -> bool {
        self.is_due(i) && !self.recently_shown(self.radicals[i].text, window)
    }

    /// The first place at or after `x` in `candidates` that names an
    /// eligible radical, or the length of `candidates` if there is none.
    pub open spec fn first_eligible(self, candidates: Seq<usize>, window: nat, x: int) -> int
        decreases candidates.len() - x,
    {
        if 0 <= x < candidates.len() && !self.is_eligible(candidates[x] as int, window) {
            self.first_eligible(candidates, window, x + 1)
        } else {
            x
        }
    }

    /// The first position at or after `i` whose radical is due, or the
    /// length of the catalog if there is none.
    pub open spec fn first_due(self, i: int) -> int
        decreases self.radicals.len() - i,
    {
        if 0 <= i < self.radicals.len() && !self.is_due(i) {
            self.first_due(i + 1)
        } else {
            i
        }
    }

    /// The position to present next: the first candidate that is eligible;
    /// if no candidate is, the first radical of the catalog that is due;
    /// if none is due, nothing.
    pub open spec fn next_position(self, candidates: Seq<usize>, window: nat) -> Option<int> {
        let x = self.first_eligible(candidates, window, 0);
        let i = self.first_due(0);
        if 0 <= x < candidates.len() {
            Some(candidates[x] as int)
        } else if 0 <= i < self.radicals.len() {
            Some(i)
        } else {
            None
        }
    }

    /// The session after the next radical was chosen: its glyph enters the
    /// history and it becomes the current radical. Where nothing can be
    /// chosen the session stays as it is.
    pub open spec fn advanced(self, candidates: Seq<usize>, window: nat) -> GameView {
        match self.next_position(candidates, window) {
            Some(i) => GameView {
                current: i as nat,
                recent: push_recent(self.recent, self.radicals[i].text),
                ..self
            },
            None => self,
        }
    }

    /// The candidate lists that an order mode allows: the catalog order
    /// for the two modes the catalog was sorted by, descending frequency
    /// with ties in catalog order, or any shuffle.
    pub open spec fn allows(self, order: PracticeOrder, candidates: Seq<usize>) -> bool {
        match order {
            PracticeOrder::Alphabetical | PracticeOrder::Keyboard => candidates == identity_order(
                self.radicals.len(),
            ),
            PracticeOrder::Frequency => candidates == arrangement(
                self.radicals,
                PracticeOrder::Frequency,
            ),
            PracticeOrder::Random => is_permutation(candidates, self.radicals.len()),
        }
    }
}

/// Where the first eligible candidate stands: at a place that names an
/// eligible radical, behind places that do not.
pub proof fn lemma_first_eligible(s: GameView, candidates: Seq<usize>, window: nat, x: int)
    requires
        0 <= x <= candidates.len(),
    ensures
        x <= s.first_eligible(candidates, window, x) <= candidates.len(),
        s.first_eligible(candidates, window, x) < candidates.len() ==> s.is_eligible(
            candidates[s.first_eligible(candidates, window, x)] as int,
            window,
        ),
        forall|y: int|
            x <= y < s.first_eligible(candidates, window, x) ==> !s.is_eligible(
                (#[trigger] candidates[y]) as int,
                window,
            ),
    decreases candidates.len() - x,
{
    if x < candidates.len() && !s.is_eligible(candidates[x] as int, window) {
        lemma_first_eligible(s, candidates, window, x + 1);
    }
}

/// Where the first due radical stands: at a position that is due, behind
/// positions that are not.
pub proof fn lemma_first_due(s: GameView, i: int)
    requires
        0 <= i <= s.radicals.len(),
    ensures
        i <= s.first_due(i) <= s.radicals.len(),
        s.first_due(i) < s.radicals.len() ==> s.is_due(s.first_due(i)),
        forall|j: int| i <= j < s.first_due(i) ==> !#[trigger] s.is_due(j),
    decreases s.radicals.len() - i,
{
    if i < s.radicals.len() && !s.is_due(i) {
        lemma_first_due(s, i + 1);
    }
}

/// A radical is chosen exactly when some radical is due, and the chosen
/// radical is itself due: one whose count is zero is never chosen.
pub proof fn lemma_next_position_is_due(s: GameView, candidates: Seq<usize>, window: nat)
    ensures
        s.next_position(candidates, window) is Some <==> exists|i: int| s.is_due(i),
        s.next_position(candidates, window) matches Some(i) ==> s.is_due(i),
{
    lemma_first_eligible(s, candidates, window, 0);
    lemma_first_due(s, 0);
}

/// Choosing the next radical keeps a well-formed session well formed.
pub proof fn lemma_advanced_well_formed(s: GameView, candidates: Seq<usize>, window: nat)
    requires
        s.well_formed(),
    ensures
        s.advanced(candidates, window).well_formed(),
{
    lemma_next_position_is_due(s, candidates, window);
    let after = s.advanced(candidates, window);
    assert forall|i: int| 0 <= i < after.radicals.len() implies (#[trigger] after.owed(i)) is Some by {
        assert(s.owed(i) is Some);
    }
}

impl GameState {
    /// Whether the radical at position `i` exists and is owed a repetition.
    pub fn is_due_at(&self, i: usize) -> (r: bool)
        ensures
            r == self@.is_due(i as int),
    {
        if i < self.radicals.len() {
            match self.remaining_practice.get(&self.radicals[i].text) {
                Some(c) => c > 0,
                None => false,
            }
        } else {
            false
        }
    }

    /// Whether a glyph is among the `window` newest of the history.
    pub fn shown_recently(&self, text: &String, window: usize) -> (r: bool)
        ensures
            r == self@.recently_shown(text@, window as nat),
    {
        let mut k: usize = 0;
        while k < self.recent_radicals.len() && k < window
            invariant
                k <= self.recent_radicals.len(),
                forall|j: int| 0 <= j < k ==> #[trigger] self@.recent[j] != text@,
            decreases self.recent_radicals.len() - k,
        {
            assert(self@.recent[k as int] == self.recent_radicals@[k as int]@);
            if self.recent_radicals[k] == *text {
                return true;
            }
            k = k + 1;
        }
        false
    }

    /// Chooses the next radical from a list of candidate positions and a
    /// recency window, as `advanced` says. Returns whether one was chosen.
    pub fn select_next(&mut self, candidates: &Vec<usize>, window: usize) -> (r: bool)
        ensures
            r == old(self)@.next_position(candidates@, window as nat) is Some,
            final(self)@ == old(self)@.advanced(candidates@, window as nat),
            final(self).radicals == old(self).radicals,
            r <==> exists|i: int| old(self)@.is_due(i),
            r ==> old(self)@.is_due(final(self)@.current as int),
            old(self)@.well_formed() ==> final(self)@.well_formed(),
    {
        let ghost before = self@;
        proof {
            lemma_next_position_is_due(before, candidates@, window as nat);
            if before.well_formed() {
                lemma_advanced_well_formed(before, candidates@, window as nat);
            }
            lemma_first_due(before, 0);
            lemma_first_eligible(before, candidates@, window as nat, 0);
        }
        let mut chosen: Option<usize> = None;
        let mut x: usize = 0;
        while x < candidates.len()
            invariant_except_break
                x <= candidates.len(),
                chosen is None,
                before.first_eligible(candidates@, window as nat, 0) == before.first_eligible(
                    candidates@,
                    window as nat,
                    x as int,
                ),
            invariant
                self@ == before,
            ensures
                match chosen {
                    Some(i) => before.next_position(candidates@, window as nat) == Some(i as int),
                    None => before.first_eligible(candidates@, window as nat, 0)
                        >= candidates@.len(),
                },
            decreases candidates.len() - x,
        {
            let i = candidates[x];
            if self.is_due_at(i) && !self.shown_recently(&self.radicals[i].text, window) {
                chosen = Some(i);
                break;
            }
            x = x + 1;
        }
        if chosen.is_none() {
            let mut i: usize = 0;
            while i < self.radicals.len()
                invariant_except_break
                    i <= self.radicals.len(),
                    chosen is None,
                    before.first_due(0) == before.first_due(i as int),
                invariant
                    self@ == before,
                ensures
                    match chosen {
                        Some(j) => before.first_due(0) == j && j < before.radicals.len(),
                        None => before.first_due(0) >= before.radicals.len(),
                    },
                decreases self.radicals.len() - i,
            {
                if self.is_due_at(i) {
                    chosen = Some(i);
                    break;
                }
                i = i + 1;
            }
        }
        match chosen {
            Some(i) => {
                let text = self.radicals[i].text.clone();
                self.recent_radicals.insert(0, text);
                if self.recent_radicals.len() > RECENT_CAPACITY {
                    self.recent_radicals.pop();
                }
                self.current_radical = i;
                assert(texts_view(self.recent_radicals@) =~= push_recent(
                    before.recent,
                    before.radicals[i as int].text,
                ));
                true
            },
            None => {
                false
            },
        }
    }

    /// The positions `0..n` in their own order.
    pub fn catalog_order(&self) -> (r: Vec<usize>)
        ensures
            r@ == identity_order(self@.radicals.len()),
    {
        let mut out: Vec<usize> = Vec::new();
        let mut i: usize = 0;
        while i < self.radicals.len()
            invariant
                i <= self.radicals.len(),
                out@.len() == i,
                forall|j: int| 0 <= j < i ==> #[trigger] out@[j] == j,
            decreases self.radicals.len() - i,
        {
            out.push(i);
            i = i + 1;
        }
        out
    }

    /// Moves on to the next radical. The candidates come in the order the
    /// configuration asks for, the recency window is drawn between three
    /// and six, and the choice is made as `advanced` says. Returns
    /// whether a radical was chosen, which is the case exactly when some
    /// radical is still owed a repetition.
    pub fn next_radical(&mut self, config: &GameConfig) -> (r: bool)
        ensures
            exists|candidates: Seq<usize>, window: nat|
                {
                    &&& old(self)@.allows(config.order, candidates)
                    &&& MIN_WINDOW <= window <= MAX_WINDOW
                    &&& final(self)@ == #[trigger] old(self)@.advanced(candidates, window)
                },
            final(self).radicals == old(self).radicals,
            r <==> exists|i: int| old(self)@.is_due(i),
            r ==> old(self)@.is_due(final(self)@.current as int),
            !r ==> final(self)@ == old(self)@,
            old(self)@.well_formed() ==> final(self)@.well_formed(),
    {
        let ghost before = self@;
        let candidates = match config.order {
            PracticeOrder::Frequency => stable_order(&self.radicals, PracticeOrder::Frequency),
            PracticeOrder::Random => {
                let mut shuffled = self.catalog_order();
                let ghost plain = shuffled@;
                shuffle(&mut shuffled);
                proof {
                    let p = choose|p: Seq<usize>|
                        is_permutation(p, plain.len()) && shuffled@ == #[trigger] rearranged(
                            plain,
                            p,
                        );
                    assert(shuffled@ =~= p);
                }
                shuffled
            },
            _ => self.catalog_order(),
        };
        let window = random_in(MIN_WINDOW, MAX_WINDOW + 1);
        let chosen = self.select_next(&candidates, window);
        proof {
            lemma_next_position_is_due(before, candidates@, window as nat);
        }
        chosen
    }
}

} // verus!
