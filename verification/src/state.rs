//! The state of one practice session and what can be read off it.

use vstd::prelude::*;
use crate::config::{GameConfig, PracticeOrder};
use crate::counts::{all_zero, count_of, distinct_keys, total_of, with_count, Entry};
use crate::counts::{lemma_entry_position, lemma_with_count_distinct, lemma_with_count_lookup};
use crate::counts::PracticeCounts;
use crate::order::{arrangement, is_permutation, is_stable_order, pick, rearranged};
use crate::order::{lemma_alphabetical_is_sorted, sorted_by_code, stable_order};
use crate::radical::{catalog_view, Radical, RadicalView};
use crate::random::shuffle;

verus! {

/// How many glyphs the recent history keeps.
pub const RECENT_CAPACITY: usize = 6;

/// One practice session.
#[derive(Debug, Clone)]
pub struct GameState {
    /// The catalog, in presentation order.
    pub radicals: Vec<Radical>,
    /// Position of the radical that is being drilled.
    pub current_radical: usize,
    /// Repetitions still owed, per glyph.
    pub remaining_practice: PracticeCounts,
    /// Number of correct answers.
    pub correct_count: usize,
    /// Number of wrong answers.
    pub wrong_count: usize,
    /// Number of answers.
    pub total_practice: usize,
    /// The message of the last evaluation.
    pub last_error: Option<String>,
    /// The glyphs presented most recently, newest first.
    pub recent_radicals: Vec<String>,
    /// First key of the radical that was answered last.
    pub last_big_code: Option<String>,
}

/// A session as plain values.
pub struct GameView {
    pub radicals: Seq<RadicalView>,
    pub current: nat,
    pub remaining: Seq<Entry>,
    pub correct: nat,
    pub wrong: nat,
    pub total: nat,
    pub last_error: Option<Seq<char>>,
    pub recent: Seq<Seq<char>>,
    pub last_big_code: Option<Seq<char>>,
}

/// What an optional string stands for.
pub open spec fn option_view(s: Option<String>) -> Option<Seq<char>> {
    match s {
        Some(t) => Some(t@),
        None => None,
    }
}

/// What a list of strings stands for.
pub open spec fn texts_view(v: Seq<String>) -> Seq<Seq<char>> {
    Seq::new(v.len(), |i: int| v[i]@)
}

impl View for GameState {
    type V = GameView;

    open spec fn view(&self) -> GameView {
        GameView {
            radicals: catalog_view(self.radicals@),
            current: self.current_radical as nat,
            remaining: self.remaining_practice@,
            correct: self.correct_count as nat,
            wrong: self.wrong_count as nat,
            total: self.total_practice as nat,
            last_error: option_view(self.last_error),
            recent: texts_view(self.recent_radicals@),
            last_big_code: option_view(self.last_big_code),
        }
    }
}

/// The history after `text` was presented: newest first, and once six
/// glyphs are kept the oldest leaves for each one that comes.
pub open spec fn push_recent(recent: Seq<Seq<char>>, text: Seq<char>) -> Seq<Seq<char>> {
    if recent.len() < RECENT_CAPACITY {
        seq![text] + recent
    } else {
        seq![text] + recent.drop_last()
    }
}

/// The counts a session starts with: every glyph of the catalog owes
/// `minimum` repetitions, and a glyph that occurs twice has one entry.
pub open spec fn initial_counts(catalog: Seq<RadicalView>, minimum: nat) -> Seq<Entry>
    decreases catalog.len(),
{
    if catalog.len() == 0 {
        Seq::empty()
    } else {
        with_count(initial_counts(catalog.drop_last(), minimum), catalog.last().text, minimum)
    }
}

/// The session that starts on a catalog.
pub open spec fn started(catalog: Seq<RadicalView>, minimum: nat) -> GameView {
    GameView {
        radicals: catalog,
        current: 0,
        remaining: initial_counts(catalog, minimum),
        correct: 0,
        wrong: 0,
        total: 0,
        last_error: None,
        recent: Seq::empty(),
        last_big_code: None,
    }
}

impl GameView {
    /// The repetitions owed to the radical at position `i`.
    pub open spec fn owed(self, i: int) -> Option<nat> {
        count_of(self.remaining, self.radicals[i].text)
    }

    /// The radical at position `i` exists and is owed at least one
    /// repetition.
    pub open spec fn is_due(self, i: int) -> bool {
        &&& 0 <= i < self.radicals.len()
        &&& self.owed(i) matches Some(c) && c > 0
    }

    /// Every count is zero.
    pub open spec fn is_complete(self) -> bool {
        all_zero(self.remaining)
    }

    /// Some radical of the catalog shows the glyph.
    pub open spec fn shows(self, text: Seq<char>) -> bool {
        exists|i: int| 0 <= i < self.radicals.len() && (#[trigger] self.radicals[i]).text == text
    }

    /// What a session keeps true from its start: the history holds at most
    /// six glyphs, no glyph has two counts, every radical of the catalog
    /// has a count, every count belongs to a glyph of the catalog, and the
    /// current position lies in the catalog unless the catalog is empty.
    pub open spec fn well_formed(self) -> bool {
        &&& self.recent.len() <= RECENT_CAPACITY
        &&& distinct_keys(self.remaining)
        &&& forall|i: int| 0 <= i < self.radicals.len() ==> (#[trigger] self.owed(i)) is Some
        &&& forall|k: int|
            0 <= k < self.remaining.len() ==> self.shows((#[trigger] self.remaining[k]).0)
        &&& self.radicals.len() == 0 || self.current < self.radicals.len()
    }
}

/// The history never grows beyond six glyphs.
pub proof fn lemma_push_recent_bounded(recent: Seq<Seq<char>>, text: Seq<char>)
    requires
        recent.len() <= RECENT_CAPACITY,
    ensures
        push_recent(recent, text).len() <= RECENT_CAPACITY,
        push_recent(recent, text).len() >= 1,
        push_recent(recent, text)[0] == text,
{
}

/// At the start every radical of the catalog is owed the minimum, and no
/// glyph has two counts.
pub proof fn lemma_initial_counts(catalog: Seq<RadicalView>, minimum: nat)
    ensures
        distinct_keys(initial_counts(catalog, minimum)),
        forall|i: int|
            0 <= i < catalog.len() ==> count_of(
                initial_counts(catalog, minimum),
                (#[trigger] catalog[i]).text,
            ) == Some(minimum),
        forall|k: int|
            0 <= k < initial_counts(catalog, minimum).len() ==> (#[trigger] initial_counts(
                catalog,
                minimum,
            )[k]).1 == minimum,
        forall|k: int|
            0 <= k < initial_counts(catalog, minimum).len() ==> exists|i: int|
                0 <= i < catalog.len() && (#[trigger] catalog[i]).text == (
                #[trigger] initial_counts(catalog, minimum)[k]).0,
    decreases catalog.len(),
{
    if catalog.len() > 0 {
        let head = catalog.drop_last();
        let before = initial_counts(head, minimum);
        let after = initial_counts(catalog, minimum);
        lemma_initial_counts(head, minimum);
        lemma_with_count_distinct(before, catalog.last().text, minimum);
        assert forall|i: int| 0 <= i < catalog.len() implies count_of(
            after,
            (#[trigger] catalog[i]).text,
        ) == Some(minimum) by {
            lemma_with_count_lookup(before, catalog.last().text, minimum, catalog[i].text);
            if i < head.len() {
                assert(head[i] == catalog[i]);
            }
        }
        lemma_entry_position(before, catalog.last().text, 0);
        assert forall|k: int| 0 <= k < after.len() implies exists|i: int|
            0 <= i < catalog.len() && (#[trigger] catalog[i]).text == (#[trigger] after[k]).0 by {
            if !(after[k].0 == catalog.last().text) {
                let i = choose|i: int|
                    0 <= i < head.len() && (#[trigger] head[i]).text == before[k].0;
            }
        }
    }
}

/// The session that starts on a catalog is well formed.
pub proof fn lemma_started_well_formed(catalog: Seq<RadicalView>, minimum: nat)
    ensures
        started(catalog, minimum).well_formed(),
{
    lemma_initial_counts(catalog, minimum);
    let s = started(catalog, minimum);
    assert forall|i: int| 0 <= i < s.radicals.len() implies (#[trigger] s.owed(i)) is Some by {}
    assert forall|k: int| 0 <= k < s.remaining.len() implies s.shows(
        (#[trigger] s.remaining[k]).0,
    ) by {
        let i = choose|i: int|
            0 <= i < catalog.len() && (#[trigger] catalog[i]).text == s.remaining[k].0;
    }
}

impl GameState {
    /// Starts a session on a catalog that already stands in presentation
    /// order.
    pub fn with_catalog(radicals: Vec<Radical>, min_practice_count: usize) -> (r: GameState)
        ensures
            r.radicals == radicals,
            r@ == started(catalog_view(radicals@), min_practice_count as nat),
            r@.well_formed(),
    {
        let ghost catalog = catalog_view(radicals@);
        let mut remaining = PracticeCounts::new();
        let mut i: usize = 0;
        while i < radicals.len()
            invariant
                i <= radicals.len(),
                catalog == catalog_view(radicals@),
                remaining@ == initial_counts(catalog.take(i as int), min_practice_count as nat),
            decreases radicals.len() - i,
        {
            assert(catalog.take(i + 1).drop_last() =~= catalog.take(i as int));
            remaining.insert(radicals[i].text.clone(), min_practice_count);
            i = i + 1;
        }
        assert(catalog.take(radicals.len() as int) =~= catalog);
        let state = GameState {
            radicals,
            current_radical: 0,
            remaining_practice: remaining,
            correct_count: 0,
            wrong_count: 0,
            total_practice: 0,
            last_error: None,
            recent_radicals: Vec::with_capacity(RECENT_CAPACITY),
            last_big_code: None,
        };
        proof {
            assert(state@.recent =~= Seq::<Seq<char>>::empty());
            lemma_started_well_formed(catalog, min_practice_count as nat);
        }
        state
    }

    /// Rebuilds a session from the values that were saved of it. The
    /// message and the remembered key are not saved, so they are absent.
    pub fn from_saved(
        radicals: Vec<Radical>,
        current_radical: usize,
        remaining_practice: PracticeCounts,
        correct_count: usize,
        wrong_count: usize,
        total_practice: usize,
        recent_radicals: Vec<String>,
    ) -> (r: GameState)
        ensures
            r.radicals == radicals,
            r.current_radical == current_radical,
            r.remaining_practice == remaining_practice,
            r.correct_count == correct_count,
            r.wrong_count == wrong_count,
            r.total_practice == total_practice,
            r.recent_radicals == recent_radicals,
            r.last_error is None,
            r.last_big_code is None,
    {
        GameState {
            radicals,
            current_radical,
            remaining_practice,
            correct_count,
            wrong_count,
            total_practice,
            last_error: None,
            recent_radicals,
            last_big_code: None,
        }
    }

    /// Puts a catalog in presentation order: the stable order of the
    /// configured rule, or a shuffle.
    pub fn arrange(radicals: Vec<Radical>, order: PracticeOrder) -> (r: Vec<Radical>)
        ensures
            order != PracticeOrder::Random ==> is_stable_order(
                arrangement(catalog_view(radicals@), order),
                catalog_view(radicals@),
                radicals@.len(),
                order,
            ) && r@ == rearranged(radicals@, arrangement(catalog_view(radicals@), order)),
            exists|p: Seq<usize>|
                is_permutation(p, radicals@.len()) && r@ == #[trigger] rearranged(radicals@, p),
            order == PracticeOrder::Alphabetical ==> sorted_by_code(catalog_view(r@)),
    {
        match order {
            PracticeOrder::Random => {
                let mut shuffled = radicals;
                shuffle(&mut shuffled);
                shuffled
            },
            _ => {
                let p = stable_order(&radicals, order);
                let out = pick(&radicals, &p);
                proof {
                    let catalog = catalog_view(radicals@);
                    if order == PracticeOrder::Alphabetical {
                        lemma_alphabetical_is_sorted(catalog, p@);
                    }
                }
                out
            },
        }
    }

    /// Starts a session: arranges the catalog as the configuration asks and
    /// gives every glyph the configured number of repetitions.
    pub fn new(radicals: Vec<Radical>, config: &GameConfig) -> (r: GameState)
        ensures
            config.order != PracticeOrder::Random ==> is_stable_order(
                arrangement(catalog_view(radicals@), config.order),
                catalog_view(radicals@),
                radicals@.len(),
                config.order,
            ) && r.radicals@ == rearranged(
                radicals@,
                arrangement(catalog_view(radicals@), config.order),
            ),
            exists|p: Seq<usize>|
                is_permutation(p, radicals@.len()) && r.radicals@ == #[trigger] rearranged(
                    radicals@,
                    p,
                ),
            config.order == PracticeOrder::Alphabetical ==> sorted_by_code(r@.radicals),
            r@ == started(catalog_view(r.radicals@), config.min_practice_count as nat),
            r@.well_formed(),
    {
        let arranged = GameState::arrange(radicals, config.order);
        GameState::with_catalog(arranged, config.min_practice_count)
    }

    /// The radical that is being drilled, if the current position lies in
    /// the catalog.
    pub fn current_radical(&self) -> (r: Option<&Radical>)
        ensures
            match r {
                Some(radical) => self.current_radical < self.radicals@.len() && *radical
                    == self.radicals@[self.current_radical as int],
                None => self.current_radical >= self.radicals@.len(),
            },
    {
        if self.current_radical < self.radicals.len() {
            Some(&self.radicals[self.current_radical])
        } else {
            None
        }
    }

    /// Whether the session is over: every count is zero.
    pub fn is_game_over(&self) -> (r: bool)
        ensures
            r == self@.is_complete(),
    {
        self.remaining_practice.is_finished()
    }

    /// The answers given so far, and the answers the session will have
    /// taken once every count is worked off: the first plus the sum of all
    /// counts.
    pub fn progress(&self) -> (r: (usize, usize))
        requires
            self@.correct + self@.wrong + total_of(self@.remaining) <= usize::MAX,
        ensures
            r.0 == self@.correct + self@.wrong,
            r.1 == self@.correct + self@.wrong + total_of(self@.remaining),
    {
        let outstanding = self.remaining_practice.outstanding();
        let completed = self.correct_count + self.wrong_count;
        (completed, completed + outstanding as usize)
    }
}

} // verus!
