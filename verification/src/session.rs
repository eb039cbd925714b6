//! What a key press does to a running session.

use vstd::prelude::*;
use crate::config::{ConfigView, GameConfig, PracticeMode};
use crate::schedule::{MAX_WINDOW, MIN_WINDOW};
use crate::state::{GameState, GameView};

verus! {

/// A key press, as far as the session tells keys apart.
#[derive(Debug, Clone, Copy, PartialEq, Eq, Structural)]
pub enum Key {
    /// A character to type.
    Char(char),
    /// Delete the last typed character.
    Backspace,
    /// Submit the typed answer.
    Enter,
    /// Leave the session.
    Escape,
    /// The quit chord of the platform.
    Quit,
    /// Any other key.
    Other,
}

/// What the caller does after a key press.
#[derive(Debug, Clone, Copy, PartialEq, Eq, Structural)]
pub enum Step {
    /// Go on with the session.
    Continue,
    /// Every repetition is worked off: congratulate and end.
    Finished,
    /// The learner asked to leave.
    Quit,
}

impl GameView {
    /// A key can be taken. Only Enter on an answer that is not empty
    /// submits one, and then there must be room to record it.
    pub open spec fn can_take(
        self,
        answer: Seq<char>,
        key: Key,
        mode: PracticeMode,
        penalty: nat,
    ) -> bool {
        key == Key::Enter && answer.len() > 0 ==> self.has_room(answer, mode, penalty)
    }

    /// What a key press does. `after`, `typed` and `step` are the session,
    /// the answer and the step that follow from the session `self` and
    /// the answer `answer`.
    ///
    /// A character is appended to the answer and Backspace removes its
    /// last one. Enter on an answer that is not empty submits it and
    /// clears it: a correct answer moves the session on to the next
    /// radical, and ends it when none is left and every count is zero; a
    /// wrong one leaves the session on the current radical. Escape and
    /// the quit chord leave the session untouched.
    pub open spec fn pressed(
        self,
        answer: Seq<char>,
        key: Key,
        config: ConfigView,
        after: GameView,
        typed: Seq<char>,
        step: Step,
    ) -> bool {
        match key {
            Key::Char(c) => {
                &&& typed == answer.push(c)
                &&& after == self
                &&& step == Step::Continue
            },
            Key::Backspace => {
                &&& typed == if answer.len() > 0 {
                    answer.drop_last()
                } else {
                    answer
                }
                &&& after == self
                &&& step == Step::Continue
            },
            Key::Escape | Key::Quit => {
                &&& typed == answer
                &&& after == self
                &&& step == Step::Quit
            },
            Key::Other => {
                &&& typed == answer
                &&& after == self
                &&& step == Step::Continue
            },
            Key::Enter => if answer.len() == 0 {
                &&& typed == answer
                &&& after == self
                &&& step == Step::Continue
            } else {
                let judged = self.evaluated(answer, config.practice_mode, config.penalty);
                &&& typed == Seq::<char>::empty()
                &&& if self.accepts(answer, config.practice_mode) {
                    &&& exists|candidates: Seq<usize>, window: nat|
                        {
                            &&& judged.allows(config.order, candidates)
                            &&& MIN_WINDOW <= window <= MAX_WINDOW
                            &&& after == #[trigger] judged.advanced(candidates, window)
                        }
                    &&& step == if (forall|i: int| !judged.is_due(i)) && judged.is_complete() {
                        Step::Finished
                    } else {
                        Step::Continue
                    }
                } else {
                    &&& after == judged.after_miss()
                    &&& step == Step::Continue
                }
            },
        }
    }

    /// The session after a rejected answer: it stays as it was judged,
    /// except that the message goes when there is no current radical.
    pub open spec fn after_miss(self) -> GameView {
        if self.current < self.radicals.len() {
            self
        } else {
            GameView { last_error: None, ..self }
        }
    }
}

impl GameState {
    /// Whether `handle_key` can take a key.
    pub fn can_handle(&self, answer: &String, key: Key, config: &GameConfig) -> (r: bool)
        ensures
            r == self@.can_take(answer@, key, config.practice_mode, config.penalty as nat),
    {
        match key {
            Key::Enter => answer.as_str().is_empty() || self.can_record(answer.as_str(), config),
            _ => true,
        }
    }

    /// Applies one key press where it can be taken, as `handle_key` does,
    /// and otherwise leaves session and answer as they are and gives
    /// nothing.
    pub fn try_handle_key(&mut self, answer: &mut String, key: Key, config: &GameConfig) -> (r:
        Option<Step>)
        ensures
            match r {
                Some(step) => {
                    &&& old(self)@.can_take(
                        old(answer)@,
                        key,
                        config.practice_mode,
                        config.penalty as nat,
                    )
                    &&& old(self)@.pressed(
                        old(answer)@,
                        key,
                        config@,
                        final(self)@,
                        final(answer)@,
                        step,
                    )
                },
                None => {
                    &&& !old(self)@.can_take(
                        old(answer)@,
                        key,
                        config.practice_mode,
                        config.penalty as nat,
                    )
                    &&& final(self)@ == old(self)@
                    &&& final(answer)@ == old(answer)@
                },
            },
            final(self).radicals == old(self).radicals,
            old(self)@.well_formed() ==> final(self)@.well_formed(),
    {
        if self.can_handle(answer, key, config) {
            Some(self.handle_key(answer, key, config))
        } else {
            None
        }
    }

    /// Applies one key press to the session and to the answer that is
    /// being typed.
    ///
    /// A character is appended to the answer and Backspace removes its
    /// last one. Enter on an answer that is not empty submits it and
    /// clears it: a correct answer moves the session on to the next
    /// radical, and ends it when none is left and every count is zero; a
    /// wrong one leaves the session on the current radical. Escape and
    /// the quit chord leave the session untouched.
    pub fn handle_key(&mut self, answer: &mut String, key: Key, config: &GameConfig) -> (r: Step)
        requires
            old(self)@.can_take(old(answer)@, key, config.practice_mode, config.penalty as nat),
        ensures
            final(self).radicals == old(self).radicals,
            old(self)@.well_formed() ==> final(self)@.well_formed(),
            old(self)@.pressed(
                old(answer)@,
                key,
                config@,
                final(self)@,
                final(answer)@,
                r,
            ),
    {
        match key {
            Key::Char(c) => {
                answer.push(c);
                Step::Continue
            },
            Key::Backspace => {
                answer.pop();
                Step::Continue
            },
            Key::Escape | Key::Quit => Step::Quit,
            Key::Other => Step::Continue,
            Key::Enter => {
                if answer.as_str().is_empty() {
                    return Step::Continue;
                }
                let is_correct = self.check_input(answer.as_str(), config);
                answer.clear();
                if is_correct {
                    let more = self.next_radical(config);
                    if !more && self.is_game_over() {
                        Step::Finished
                    } else {
                        Step::Continue
                    }
                } else {
                    if self.current_radical >= self.radicals.len() {
                        self.last_error = None;
                    }
                    Step::Continue
                }
            },
        }
    }
}

} // verus!
