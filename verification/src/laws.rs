//! What holds of every session, whatever is answered and however the
//! next radical is chosen.

use vstd::prelude::*;
use crate::config::PracticeMode;
use crate::counts::{count_of, entry_position, total_of, Entry};
use crate::counts::{lemma_entry_position, lemma_total_update};
use crate::evaluate::{adjusted, lemma_evaluated_well_formed, next_count};
use crate::radical::RadicalView;
use crate::schedule::{lemma_advanced_well_formed, lemma_next_position_is_due};
use crate::state::{lemma_started_well_formed, started, GameView, RECENT_CAPACITY};

verus! {

/// One step of a session.
pub enum Move {
    /// An answer is taken.
    Answer { input: Seq<char>, mode: PracticeMode, penalty: nat },
    /// The next radical is chosen from a list of candidates with a recency
    /// window.
    Advance { candidates: Seq<usize>, window: nat },
}

/// The session after one step.
pub open spec fn after_move(s: GameView, m: Move) -> GameView {
    match m {
        Move::Answer { input, mode, penalty } => s.evaluated(input, mode, penalty),
        Move::Advance { candidates, window } => s.advanced(candidates, window),
    }
}

/// The session after a run of steps.
pub open spec fn after_moves(s: GameView, moves: Seq<Move>) -> GameView
    decreases moves.len(),
{
    if moves.len() == 0 {
        s
    } else {
        after_move(after_moves(s, moves.drop_last()), moves.last())
    }
}

/// A session that starts on a catalog is well formed after every run of
/// answers and choices.
pub proof fn lemma_session_stays_well_formed(
    catalog: Seq<RadicalView>,
    minimum: nat,
    moves: Seq<Move>,
)
    ensures
        after_moves(started(catalog, minimum), moves).well_formed(),
    decreases moves.len(),
{
    if moves.len() == 0 {
        lemma_started_well_formed(catalog, minimum);
    } else {
        lemma_session_stays_well_formed(catalog, minimum, moves.drop_last());
        let before = after_moves(started(catalog, minimum), moves.drop_last());
        match moves.last() {
            Move::Answer { input, mode, penalty } => {
                lemma_evaluated_well_formed(before, input, mode, penalty);
            },
            Move::Advance { candidates, window } => {
                lemma_advanced_well_formed(before, candidates, window);
            },
        }
    }
}

/// However long a session runs, its history never holds more than six
/// glyphs.
pub proof fn lemma_history_stays_bounded(
    catalog: Seq<RadicalView>,
    minimum: nat,
    moves: Seq<Move>,
)
    ensures
        after_moves(started(catalog, minimum), moves).recent.len() <= RECENT_CAPACITY,
{
    lemma_session_stays_well_formed(catalog, minimum, moves);
}

/// No step changes the catalog.
pub proof fn lemma_catalog_is_kept(s: GameView, moves: Seq<Move>)
    ensures
        after_moves(s, moves).radicals == s.radicals,
    decreases moves.len(),
{
    if moves.len() > 0 {
        lemma_catalog_is_kept(s, moves.drop_last());
    }
}

/// A well-formed session is complete exactly when no radical is due, so
/// that choosing the next radical fails exactly when the session is over.
pub proof fn lemma_complete_iff_nothing_due(s: GameView, candidates: Seq<usize>, window: nat)
    requires
        s.well_formed(),
    ensures
        s.is_complete() <==> forall|i: int| !s.is_due(i),
        s.is_complete() <==> s.next_position(candidates, window) is None,
{
    lemma_next_position_is_due(s, candidates, window);
    if s.is_complete() {
        assert forall|i: int| !s.is_due(i) by {
            if 0 <= i < s.radicals.len() {
                lemma_entry_position(s.remaining, s.radicals[i].text, 0);
            }
        }
    }
    if forall|i: int| !s.is_due(i) {
        assert forall|k: int| 0 <= k < s.remaining.len() implies (#[trigger] s.remaining[k]).1
            == 0 by {
            let text = s.remaining[k].0;
            let i = choose|i: int|
                0 <= i < s.radicals.len() && (#[trigger] s.radicals[i]).text == text;
            lemma_entry_position(s.remaining, text, 0);
            assert(!s.is_due(i));
        }
    }
}

/// An answer changes the sum of all counts by what it changes the count
/// of the answered glyph.
pub proof fn lemma_adjusted_total(entries: Seq<Entry>, text: Seq<char>, correct: bool, penalty: nat)
    ensures
        match count_of(entries, text) {
            Some(c) => total_of(adjusted(entries, text, correct, penalty)) + c == total_of(entries)
                + next_count(c, correct, penalty),
            None => adjusted(entries, text, correct, penalty) == entries,
        },
{
    lemma_entry_position(entries, text, 0);
    let i = entry_position(entries, text, 0);
    if i < entries.len() {
        let c = entries[i].1;
        lemma_total_update(entries, i, (text, next_count(c, correct, penalty)));
    }
}

/// The answers that a session expects in all. A correct answer to a
/// glyph that is owed a repetition leaves the number as it is; a wrong
/// answer raises it by one and by the penalty.
pub open spec fn expected_answers(s: GameView) -> nat {
    s.correct + s.wrong + total_of(s.remaining)
}

/// How a recorded answer moves the number of answers that a session
/// expects.
pub proof fn lemma_answer_moves_expectation(
    s: GameView,
    correct: bool,
    message: Seq<char>,
    penalty: nat,
)
    requires
        s.radicals.len() > 0,
        s.owed(s.judged_position()) is Some,
    ensures
        expected_answers(s.recorded(correct, message, penalty)) == if !correct {
            expected_answers(s) + 1 + penalty
        } else if s.owed(s.judged_position())->0 > 0 {
            expected_answers(s)
        } else {
            expected_answers(s) + 1
        },
{
    lemma_adjusted_total(s.remaining, s.radicals[s.judged_position()].text, correct, penalty);
}

} // verus!
