//! Session configuration.

use vstd::prelude::*;
use vstd::string::StringExecFns;

verus! {

/// What the learner has to type for a radical.
#[derive(Debug, Clone, Copy, PartialEq, Eq, Structural)]
pub enum PracticeMode {
    /// Only the first key of the code.
    BigCode,
    /// The full code.
    DualCode,
}

/// The order in which the catalog is presented.
#[derive(Debug, Clone, Copy, PartialEq, Eq, Structural)]
pub enum PracticeOrder {
    /// Ascending by code.
    Alphabetical,
    /// Descending by usage frequency.
    Frequency,
    /// By the keyboard position of the first key, then by code.
    Keyboard,
    /// Shuffled.
    Random,
}

/// How the screen is dressed.
#[derive(Debug, Clone, Copy, PartialEq, Eq, Structural)]
pub enum GameMode {
    /// The ordinary layout.
    Normal,
    /// Borders hidden and empty areas filled with random characters.
    Pretend,
}

/// The settings of one session.
#[derive(Debug, Clone)]
pub struct GameConfig {
    /// Path of the code table.
    pub radical_file: String,
    /// Path of the frequency table.
    pub frequency_file: String,
    /// Repetitions added for a wrong answer.
    pub penalty: usize,
    /// Repetitions every radical starts with (1 to 5).
    pub min_practice_count: usize,
    /// What has to be typed.
    pub practice_mode: PracticeMode,
    /// Presentation order.
    pub order: PracticeOrder,
    /// Screen dressing.
    pub mode: GameMode,
    /// Set when the settings menu was left without confirming.
    pub cancelled: bool,
}

/// The settings as plain values.
pub struct ConfigView {
    pub radical_file: Seq<char>,
    pub frequency_file: Seq<char>,
    pub penalty: nat,
    pub min_practice_count: nat,
    pub practice_mode: PracticeMode,
    pub order: PracticeOrder,
    pub mode: GameMode,
    pub cancelled: bool,
}

impl View for GameConfig {
    type V = ConfigView;

    open spec fn view(&self) -> ConfigView {
        ConfigView {
            radical_file: self.radical_file@,
            frequency_file: self.frequency_file@,
            penalty: self.penalty as nat,
            min_practice_count: self.min_practice_count as nat,
            practice_mode: self.practice_mode,
            order: self.order,
            mode: self.mode,
            cancelled: self.cancelled,
        }
    }
}

/// The largest penalty the settings offer.
pub const MAX_PENALTY: usize = 10;

/// The largest number of starting repetitions the settings offer.
pub const MAX_MIN_PRACTICE: usize = 5;

impl ConfigView {
    /// The penalty and the starting repetitions lie in the ranges that the
    /// settings offer.
    pub open spec fn in_range(self) -> bool {
        &&& 1 <= self.penalty <= MAX_PENALTY
        &&& 1 <= self.min_practice_count <= MAX_MIN_PRACTICE
    }
}

/// The settings a session starts from.
pub open spec fn default_settings() -> ConfigView {
    ConfigView {
        radical_file: "res/yujoy-3.8.0.txt"@,
        frequency_file: "res/counts.txt"@,
        penalty: 4,
        min_practice_count: 2,
        practice_mode: PracticeMode::DualCode,
        order: PracticeOrder::Random,
        mode: GameMode::Normal,
        cancelled: false,
    }
}

impl GameConfig {
    /// The settings a session starts from.
    pub fn standard() -> (r: GameConfig)
        ensures
            r@ == default_settings(),
            r@.in_range(),
    {
        GameConfig {
            radical_file: String::from_str("res/yujoy-3.8.0.txt"),
            frequency_file: String::from_str("res/counts.txt"),
            penalty: 4,
            min_practice_count: 2,
            practice_mode: PracticeMode::DualCode,
            order: PracticeOrder::Random,
            mode: GameMode::Normal,
            cancelled: false,
        }
    }
}

} // verus!
