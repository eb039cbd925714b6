//! Recording an answer: counters, history and the repetitions owed.

use vstd::prelude::*;
use vstd::string::StringExecFns;
use crate::config::{GameConfig, PracticeMode};
use crate::counts::{count_of, distinct_keys, with_count, Entry};
use crate::counts::{lemma_entry_position, lemma_with_count_distinct, lemma_with_count_lookup};
use crate::feedback::{empty_catalog_message, empty_input_message};
use crate::state::{push_recent, texts_view, GameState, GameView, RECENT_CAPACITY};
use crate::text::{chars_of, trim_chars, trimmed};

verus! {

/// The count that follows `count` after an answer: one less, but never
/// below zero, for a correct answer; `penalty` more for a wrong one.
pub open spec fn next_count(count: nat, correct: bool, penalty: nat) -> nat {
    if correct {
        if count > 0 {
            (count - 1) as nat
        } else {
            0
        }
    } else {
        count + penalty
    }
}

/// The counts after an answer to the glyph `text`. A glyph without a count
/// gets none.
pub open spec fn adjusted(entries: Seq<Entry>, text: Seq<char>, correct: bool, penalty: nat) -> Seq<
    Entry,
> {
    match count_of(entries, text) {
        Some(c) => with_count(entries, text, next_count(c, correct, penalty)),
        None => entries,
    }
}

impl GameView {
    /// An answer judged `correct` can be recorded without a counter or a
    /// count leaving `usize`: the number of answers can grow by one, and
    /// so can the counter that the answer moves; for a wrong answer the
    /// count of the judged radical can take the penalty. On an empty
    /// catalog nothing is counted, so there is always room.
    pub open spec fn has_room_for(self, correct: bool, penalty: nat) -> bool {
        self.radicals.len() > 0 ==> {
            &&& self.total < usize::MAX
            &&& correct ==> self.correct < usize::MAX
            &&& !correct ==> self.wrong < usize::MAX
            &&& !correct ==> match self.owed(self.judged_position()) {
                Some(c) => c + penalty <= usize::MAX,
                None => true,
            }
        }
    }

    /// An answer can be taken: it is empty once trimmed, so that nothing is
    /// counted, or there is room to record it as it is judged.
    pub open spec fn has_room(self, input: Seq<char>, mode: PracticeMode, penalty: nat) -> bool {
        trimmed(input).len() > 0 ==> self.has_room_for(self.accepts(input, mode), penalty)
    }

    /// The session after an answer was judged: the message is left, and
    /// the answer is recorded against the judged radical, which is the
    /// current one, or the last of the catalog where the current position
    /// lies beyond it. The first key of that radical is remembered, its
    /// glyph enters the history, the counters move and the count of the
    /// glyph is adjusted. The current position stays as it is. On an empty
    /// catalog only the message changes.
    pub open spec fn recorded(self, correct: bool, message: Seq<char>, penalty: nat) -> GameView {
        if self.radicals.len() == 0 {
            GameView { last_error: Some(message), ..self }
        } else {
            let radical = self.radicals[self.judged_position()];
            GameView {
                radicals: self.radicals,
                current: self.current,
                remaining: adjusted(self.remaining, radical.text, correct, penalty),
                correct: if correct {
                    self.correct + 1
                } else {
                    self.correct
                },
                wrong: if correct {
                    self.wrong
                } else {
                    self.wrong + 1
                },
                total: self.total + 1,
                last_error: Some(message),
                recent: push_recent(self.recent, radical.text),
                last_big_code: Some(radical.big_code),
            }
        }
    }

    /// The session after an answer.
    ///
    /// An answer that is empty once trimmed changes nothing but the
    /// message. Any other answer is judged against the judged radical and
    /// recorded with its message.
    pub open spec fn evaluated(self, input: Seq<char>, mode: PracticeMode, penalty: nat) -> GameView {
        if trimmed(input).len() == 0 {
            GameView { last_error: Some(empty_input_message()), ..self }
        } else {
            self.recorded(self.accepts(input, mode), self.message_for(input, mode), penalty)
        }
    }
}

/// Adjusting a count keeps the glyphs distinct and gives no glyph a count
/// that had none, nor takes one away.
pub proof fn lemma_adjusted_keeps_keys(
    entries: Seq<Entry>,
    text: Seq<char>,
    correct: bool,
    penalty: nat,
    other: Seq<char>,
)
    ensures
        distinct_keys(entries) ==> distinct_keys(adjusted(entries, text, correct, penalty)),
        count_of(adjusted(entries, text, correct, penalty), other) is Some <==> count_of(
            entries,
            other,
        ) is Some,
        adjusted(entries, text, correct, penalty).len() == entries.len(),
        forall|k: int|
            0 <= k < entries.len() ==> (#[trigger] adjusted(entries, text, correct, penalty)[k]).0
                == entries[k].0,
{
    lemma_entry_position(entries, text, 0);
    match count_of(entries, text) {
        Some(c) => {
            let n = next_count(c, correct, penalty);
            if distinct_keys(entries) {
                lemma_with_count_distinct(entries, text, n);
            }
            lemma_with_count_lookup(entries, text, n, other);
        },
        None => {},
    }
}

/// Recording an answer keeps a well-formed session well formed.
pub proof fn lemma_recorded_well_formed(
    s: GameView,
    correct: bool,
    message: Seq<char>,
    penalty: nat,
)
    requires
        s.well_formed(),
    ensures
        s.recorded(correct, message, penalty).well_formed(),
{
    let after = s.recorded(correct, message, penalty);
    if s.radicals.len() > 0 {
        let radical = s.radicals[s.judged_position()];
        lemma_adjusted_keeps_keys(s.remaining, radical.text, correct, penalty, radical.text);
        assert forall|i: int| 0 <= i < after.radicals.len() implies (#[trigger] after.owed(
            i,
        )) is Some by {
            assert(s.owed(i) is Some);
            lemma_adjusted_keeps_keys(
                s.remaining,
                radical.text,
                correct,
                penalty,
                s.radicals[i].text,
            );
        }
    }
}

/// An answer keeps a well-formed session well formed.
pub proof fn lemma_evaluated_well_formed(
    s: GameView,
    input: Seq<char>,
    mode: PracticeMode,
    penalty: nat,
)
    requires
        s.well_formed(),
    ensures
        s.evaluated(input, mode, penalty).well_formed(),
{
    let after = s.evaluated(input, mode, penalty);
    if trimmed(input).len() > 0 {
        lemma_recorded_well_formed(
            s,
            s.accepts(input, mode),
            s.message_for(input, mode),
            penalty,
        );
    } else {
        assert forall|i: int| 0 <= i < after.radicals.len() implies (#[trigger] after.owed(
            i,
        )) is Some by {
            assert(s.owed(i) is Some);
        }
    }
}

/// An answer never lets the history grow beyond six glyphs, whatever the
/// answer and whatever else the session holds.
pub proof fn lemma_evaluated_history_bounded(
    s: GameView,
    input: Seq<char>,
    mode: PracticeMode,
    penalty: nat,
)
    requires
        s.recent.len() <= RECENT_CAPACITY,
    ensures
        s.evaluated(input, mode, penalty).recent.len() <= RECENT_CAPACITY,
{
}

/// An answer that is empty once trimmed is never correct and changes
/// neither the counters, the counts, the history nor the current position;
/// given again, it leaves the session exactly as the first time. There is
/// always room for it.
pub proof fn lemma_empty_answer_changes_nothing(
    s: GameView,
    input: Seq<char>,
    mode: PracticeMode,
    penalty: nat,
)
    requires
        trimmed(input).len() == 0,
    ensures
        s.has_room(input, mode, penalty),
        !s.accepts(input, mode),
        s.evaluated(input, mode, penalty).correct == s.correct,
        s.evaluated(input, mode, penalty).wrong == s.wrong,
        s.evaluated(input, mode, penalty).total == s.total,
        s.evaluated(input, mode, penalty).recent == s.recent,
        s.evaluated(input, mode, penalty).remaining == s.remaining,
        s.evaluated(input, mode, penalty).current == s.current,
        s.evaluated(input, mode, penalty).radicals == s.radicals,
        s.evaluated(input, mode, penalty).last_big_code == s.last_big_code,
        s.evaluated(input, mode, penalty).evaluated(input, mode, penalty) == s.evaluated(
            input,
            mode,
            penalty,
        ),
{
}

/// On an empty catalog there is always room for an answer, no answer is
/// correct, and an answer that is not empty changes nothing but the
/// message, which says that there is nothing to practise.
pub proof fn lemma_empty_catalog_changes_nothing(
    s: GameView,
    input: Seq<char>,
    mode: PracticeMode,
    penalty: nat,
)
    requires
        s.radicals.len() == 0,
        trimmed(input).len() > 0,
    ensures
        s.has_room(input, mode, penalty),
        !s.accepts(input, mode),
        s.evaluated(input, mode, penalty) == (GameView {
            last_error: Some(empty_catalog_message()),
            ..s
        }),
{
}

/// A wrong answer adds the penalty to the count of the judged radical,
/// and a correct one takes one repetition off it, stopping at zero. Every
/// other glyph keeps its count.
pub proof fn lemma_answer_moves_count(
    s: GameView,
    correct: bool,
    message: Seq<char>,
    penalty: nat,
    other: Seq<char>,
)
    requires
        s.radicals.len() > 0,
        s.owed(s.judged_position()) is Some,
    ensures
        s.recorded(correct, message, penalty).owed(s.judged_position()) == Some(
            next_count(s.owed(s.judged_position())->0, correct, penalty),
        ),
        other != s.radicals[s.judged_position()].text ==> count_of(
            s.recorded(correct, message, penalty).remaining,
            other,
        ) == count_of(s.remaining, other),
{
    let text = s.radicals[s.judged_position()].text;
    let c = s.owed(s.judged_position())->0;
    let n = next_count(c, correct, penalty);
    lemma_with_count_lookup(s.remaining, text, n, text);
    lemma_with_count_lookup(s.remaining, text, n, other);
}

/// Every recorded answer counts once: as correct or as wrong.
pub proof fn lemma_answer_is_counted(s: GameView, correct: bool, message: Seq<char>, penalty: nat)
    requires
        s.radicals.len() > 0,
    ensures
        s.recorded(correct, message, penalty).total == s.total + 1,
        s.recorded(correct, message, penalty).correct + s.recorded(
            correct,
            message,
            penalty,
        ).wrong == s.correct + s.wrong + 1,
        s.recorded(correct, message, penalty).correct >= s.correct,
        s.recorded(correct, message, penalty).wrong >= s.wrong,
        s.recorded(correct, message, penalty).recent[0] == s.radicals[s.judged_position()].text,
{
}

impl GameState {
    /// The position that an answer is judged against, on a catalog that
    /// is not empty.
    pub fn judged_index(&self) -> (r: usize)
        requires
            self@.radicals.len() > 0,
        ensures
            r == self@.judged_position(),
            r < self@.radicals.len(),
    {
        if self.current_radical < self.radicals.len() {
            self.current_radical
        } else {
            self.radicals.len() - 1
        }
    }

    /// Whether `record_answer` has room for an answer judged `is_correct`.
    pub fn can_record_as(&self, is_correct: bool, penalty: usize) -> (r: bool)
        ensures
            r == self@.has_room_for(is_correct, penalty as nat),
    {
        if self.radicals.len() == 0 {
            return true;
        }
        if self.total_practice == usize::MAX {
            return false;
        }
        if is_correct {
            self.correct_count < usize::MAX
        } else if self.wrong_count == usize::MAX {
            false
        } else {
            match self.remaining_practice.get(&self.radicals[self.judged_index()].text) {
                Some(c) => c <= usize::MAX - penalty,
                None => true,
            }
        }
    }

    /// Whether `check_input` has room for an answer.
    pub fn can_record(&self, input: &str, config: &GameConfig) -> (r: bool)
        ensures
            r == self@.has_room(input@, config.practice_mode, config.penalty as nat),
    {
        let typed = trim_chars(&chars_of(input));
        if typed.len() == 0 {
            return true;
        }
        let (is_correct, _message) = self.check_input_core(input, config);
        self.can_record_as(is_correct, config.penalty)
    }

    /// Records an answer that was judged: leaves the message in
    /// `last_error` and moves history, counters and counts as `recorded`
    /// says.
    pub fn record_answer(&mut self, is_correct: bool, message: String, penalty: usize)
        requires
            old(self)@.has_room_for(is_correct, penalty as nat),
        ensures
            final(self)@ == old(self)@.recorded(is_correct, message@, penalty as nat),
            final(self).radicals == old(self).radicals,
            old(self)@.well_formed() ==> final(self)@.well_formed(),
    {
        let ghost before = self@;
        let ghost after = before.recorded(is_correct, message@, penalty as nat);
        proof {
            if before.well_formed() {
                lemma_recorded_well_formed(before, is_correct, message@, penalty as nat);
            }
        }
        self.last_error = Some(message);
        if self.radicals.len() == 0 {
            return;
        }
        let position = self.judged_index();
        let text = self.radicals[position].text.clone();
        self.last_big_code = Some(self.radicals[position].big_code.clone());
        self.recent_radicals.insert(0, text.clone());
        if self.recent_radicals.len() > RECENT_CAPACITY {
            self.recent_radicals.pop();
        }
        assert(texts_view(self.recent_radicals@) =~= after.recent);
        proof {
            lemma_entry_position(before.remaining, text@, 0);
        }
        match self.remaining_practice.find(&text) {
            Some(i) => {
                let count = self.remaining_practice.entries[i].1;
                let changed = if is_correct {
                    if count > 0 {
                        count - 1
                    } else {
                        0
                    }
                } else {
                    count + penalty
                };
                self.remaining_practice.change(i, changed);
            },
            None => {},
        }
        if is_correct {
            self.correct_count = self.correct_count + 1;
        } else {
            self.wrong_count = self.wrong_count + 1;
        }
        self.total_practice = self.total_practice + 1;
    }

    /// Takes an answer to the current radical: judges it, leaves the
    /// message in `last_error`, and records it as `evaluated` says.
    /// Returns whether the answer was correct.
    pub fn check_input(&mut self, input: &str, config: &GameConfig) -> (r: bool)
        requires
            old(self)@.has_room(input@, config.practice_mode, config.penalty as nat),
        ensures
            r == old(self)@.accepts(input@, config.practice_mode),
            final(self)@ == old(self)@.evaluated(
                input@,
                config.practice_mode,
                config.penalty as nat,
            ),
            final(self).radicals == old(self).radicals,
            old(self)@.well_formed() ==> final(self)@.well_formed(),
            old(self)@.recent.len() <= RECENT_CAPACITY ==> final(self)@.recent.len()
                <= RECENT_CAPACITY,
    {
        let ghost before = self@;
        proof {
            if before.well_formed() {
                lemma_evaluated_well_formed(
                    before,
                    input@,
                    config.practice_mode,
                    config.penalty as nat,
                );
            }
        }
        let typed = trim_chars(&chars_of(input));
        if typed.len() == 0 {
            self.last_error = Some(String::from_str("输入不能为空"));
            return false;
        }
        let (is_correct, message) = self.check_input_core(input, config);
        match message {
            Some(text) => self.record_answer(is_correct, text, config.penalty),
            None => {},
        }
        is_correct
    }

    /// Takes an answer where there is room to record it, as `check_input`
    /// does, and otherwise leaves the session as it is and gives nothing.
    pub fn try_check_input(&mut self, input: &str, config: &GameConfig) -> (r: Option<bool>)
        ensures
            match r {
                Some(correct) => {
                    &&& old(self)@.has_room(input@, config.practice_mode, config.penalty as nat)
                    &&& correct == old(self)@.accepts(input@, config.practice_mode)
                    &&& final(self)@ == old(self)@.evaluated(
                        input@,
                        config.practice_mode,
                        config.penalty as nat,
                    )
                },
                None => {
                    &&& !old(self)@.has_room(input@, config.practice_mode, config.penalty as nat)
                    &&& final(self)@ == old(self)@
                },
            },
            final(self).radicals == old(self).radicals,
            old(self)@.well_formed() ==> final(self)@.well_formed(),
            old(self)@.recent.len() <= RECENT_CAPACITY ==> final(self)@.recent.len()
                <= RECENT_CAPACITY,
    {
        if self.can_record(input, config) {
            Some(self.check_input(input, config))
        } else {
            None
        }
    }
}

} // verus!
