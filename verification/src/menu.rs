//! The settings menu as a state machine: what each key does to the
//! settings that are being edited.

use vstd::prelude::*;
use vstd::string::StringExecFns;
use crate::config::{ConfigView, GameConfig, GameMode, PracticeMode, PracticeOrder};
use crate::config::{default_settings, MAX_MIN_PRACTICE, MAX_PENALTY};
use crate::state::texts_view;
use crate::text::{chars_of, string_of, trim_chars, trimmed};

verus! {

/// A key press, as far as the menu tells keys apart.
#[derive(Debug, Clone, Copy, PartialEq, Eq, Structural)]
pub enum MenuKey {
    Up,
    Down,
    Left,
    Right,
    Enter,
    Escape,
    Char(char),
    Backspace,
    Other,
}

/// What the caller does after a key press.
#[derive(Debug, Clone, Copy, PartialEq, Eq, Structural)]
pub enum MenuStep {
    /// Show the menu again and wait for the next key.
    Continue,
    /// The settings were confirmed.
    Confirmed,
    /// The menu was left without confirming.
    Cancelled,
}

/// Whether a path is being typed, and which.
#[derive(Debug, Clone, Copy, PartialEq, Eq, Structural)]
pub enum Typing {
    /// The menu is browsed.
    Nothing,
    /// The path of the code table is being typed.
    RadicalFile,
    /// The path of the frequency table is being typed.
    FrequencyFile,
}

/// The number of the last menu line; the lines are, from zero: code table,
/// frequency table, penalty, starting repetitions, practice mode, order,
/// screen dressing.
pub const LAST_LINE: usize = 6;

/// The last choice of both file lists: it stands for a path typed by hand.
pub open spec fn manual_entry() -> Seq<char> {
    "按右方向键手动输入→"@
}

/// The code tables on offer, and the entry for a typed path.
pub open spec fn radical_files() -> Seq<Seq<char>> {
    seq![
        "res/yujoy-3.8.0.txt"@,
        "res/yulight-3.8.0.txt"@,
        "res/yustar-3.8.0.txt"@,
        "res/yujoy-3.6.0.txt"@,
        "res/yusm-3.9.0-20250522.txt"@,
        manual_entry(),
    ]
}

/// The frequency tables on offer, and the entry for a typed path.
pub open spec fn frequency_files() -> Seq<Seq<char>> {
    seq!["res/counts.txt"@, "res/counts-3.6.0.txt"@, manual_entry()]
}

/// The first position at or after `i` where `files` holds `name`, or the
/// length of `files` if there is none.
pub open spec fn choice_from(files: Seq<Seq<char>>, name: Seq<char>, i: int) -> int
    decreases files.len() - i,
{
    if 0 <= i < files.len() && files[i] != name {
        choice_from(files, name, i + 1)
    } else {
        i
    }
}

/// The choice that a path stands for: its place in the list, or the last
/// entry for a path that the list does not hold.
pub open spec fn choice_of(files: Seq<Seq<char>>, name: Seq<char>) -> int {
    let i = choice_from(files, name, 0);
    if i < files.len() {
        i
    } else {
        files.len() - 1
    }
}

/// The path one choice to the left; from the first choice the list wraps
/// to its last entry.
pub open spec fn choice_left(files: Seq<Seq<char>>, name: Seq<char>) -> Seq<char> {
    let i = choice_of(files, name);
    if i > 0 {
        files[i - 1]
    } else {
        files[files.len() - 1]
    }
}

/// The path one choice to the right, or nothing at the last entry, where
/// typing starts.
pub open spec fn choice_right(files: Seq<Seq<char>>, name: Seq<char>) -> Option<Seq<char>> {
    let i = choice_of(files, name);
    if i < files.len() - 1 {
        Some(files[i + 1])
    } else {
        None
    }
}

/// One step down in a range that starts at one.
pub open spec fn lowered(n: nat) -> nat {
    if n > 1 {
        (n - 1) as nat
    } else {
        n
    }
}

/// One step up in a range that ends at `top`.
pub open spec fn raised(n: nat, top: nat) -> nat {
    if n < top {
        n + 1
    } else {
        n
    }
}

/// The order one step to the left.
pub open spec fn order_left(order: PracticeOrder) -> PracticeOrder {
    match order {
        PracticeOrder::Alphabetical => PracticeOrder::Alphabetical,
        PracticeOrder::Frequency => PracticeOrder::Alphabetical,
        PracticeOrder::Keyboard => PracticeOrder::Frequency,
        PracticeOrder::Random => PracticeOrder::Keyboard,
    }
}

/// The order one step to the right.
pub open spec fn order_right(order: PracticeOrder) -> PracticeOrder {
    match order {
        PracticeOrder::Alphabetical => PracticeOrder::Frequency,
        PracticeOrder::Frequency => PracticeOrder::Keyboard,
        PracticeOrder::Keyboard => PracticeOrder::Random,
        PracticeOrder::Random => PracticeOrder::Random,
    }
}

/// The menu as plain values.
pub struct MenuView {
    pub selected: nat,
    pub config: ConfigView,
    pub typing: Typing,
    pub input: Seq<char>,
}

impl MenuView {
    /// The settings after Left on the selected line.
    pub open spec fn moved_left(self) -> ConfigView {
        let c = self.config;
        if self.selected == 0 {
            ConfigView { radical_file: choice_left(radical_files(), c.radical_file), ..c }
        } else if self.selected == 1 {
            ConfigView { frequency_file: choice_left(frequency_files(), c.frequency_file), ..c }
        } else if self.selected == 2 {
            ConfigView { penalty: lowered(c.penalty), ..c }
        } else if self.selected == 3 {
            ConfigView { min_practice_count: lowered(c.min_practice_count), ..c }
        } else if self.selected == 4 {
            ConfigView { practice_mode: PracticeMode::BigCode, ..c }
        } else if self.selected == 5 {
            ConfigView { order: order_left(c.order), ..c }
        } else if self.selected == 6 {
            ConfigView { mode: GameMode::Normal, ..c }
        } else {
            c
        }
    }

    /// The menu after Right on the selected line.
    pub open spec fn moved_right(self) -> MenuView {
        let c = self.config;
        if self.selected == 0 {
            match choice_right(radical_files(), c.radical_file) {
                Some(f) => MenuView { config: ConfigView { radical_file: f, ..c }, ..self },
                None => MenuView { typing: Typing::RadicalFile, input: Seq::empty(), ..self },
            }
        } else if self.selected == 1 {
            match choice_right(frequency_files(), c.frequency_file) {
                Some(f) => MenuView { config: ConfigView { frequency_file: f, ..c }, ..self },
                None => MenuView { typing: Typing::FrequencyFile, input: Seq::empty(), ..self },
            }
        } else if self.selected == 2 {
            MenuView { config: ConfigView { penalty: raised(c.penalty, MAX_PENALTY as nat), ..c }, ..self }
        } else if self.selected == 3 {
            MenuView {
                config: ConfigView {
                    min_practice_count: raised(c.min_practice_count, MAX_MIN_PRACTICE as nat),
                    ..c
                },
                ..self
            }
        } else if self.selected == 4 {
            MenuView { config: ConfigView { practice_mode: PracticeMode::DualCode, ..c }, ..self }
        } else if self.selected == 5 {
            MenuView { config: ConfigView { order: order_right(c.order), ..c }, ..self }
        } else if self.selected == 6 {
            MenuView { config: ConfigView { mode: GameMode::Pretend, ..c }, ..self }
        } else {
            self
        }
    }

    /// The settings with a path put where it is being typed for.
    pub open spec fn with_path(self, path: Seq<char>) -> ConfigView {
        match self.typing {
            Typing::RadicalFile => ConfigView { radical_file: path, ..self.config },
            Typing::FrequencyFile => ConfigView { frequency_file: path, ..self.config },
            Typing::Nothing => self.config,
        }
    }

    /// The path that Escape falls back to while typing: the last table of
    /// the list.
    pub open spec fn fallback_path(self) -> Seq<char> {
        match self.typing {
            Typing::FrequencyFile => frequency_files()[frequency_files().len() - 2],
            _ => radical_files()[radical_files().len() - 2],
        }
    }

    /// The menu after a key press while a path is being typed.
    pub open spec fn typed(self, key: MenuKey) -> MenuView {
        match key {
            MenuKey::Char(c) => MenuView { input: self.input.push(c), ..self },
            MenuKey::Backspace => if self.input.len() > 0 {
                MenuView { input: self.input.drop_last(), ..self }
            } else {
                self
            },
            MenuKey::Enter => if self.input.len() > 0 {
                MenuView {
                    config: self.with_path(trimmed(self.input)),
                    typing: Typing::Nothing,
                    ..self
                }
            } else {
                self
            },
            MenuKey::Escape => MenuView {
                config: self.with_path(self.fallback_path()),
                typing: Typing::Nothing,
                ..self
            },
            _ => self,
        }
    }

    /// The menu after a key press while it is browsed.
    pub open spec fn browsed(self, key: MenuKey) -> MenuView {
        match key {
            MenuKey::Up => if self.selected > 0 {
                MenuView { selected: (self.selected - 1) as nat, ..self }
            } else {
                self
            },
            MenuKey::Down => MenuView { selected: raised(self.selected, LAST_LINE as nat), ..self },
            MenuKey::Left => MenuView { config: self.moved_left(), ..self },
            MenuKey::Right => self.moved_right(),
            MenuKey::Escape => MenuView {
                config: ConfigView { cancelled: true, ..self.config },
                ..self
            },
            _ => self,
        }
    }

    /// The menu after a key press.
    pub open spec fn after(self, key: MenuKey) -> MenuView {
        if self.typing == Typing::Nothing {
            self.browsed(key)
        } else {
            self.typed(key)
        }
    }

    /// What a key press asks of the caller: Enter confirms and Escape
    /// cancels while the menu is browsed; every other key goes on.
    pub open spec fn outcome(self, key: MenuKey) -> MenuStep {
        if self.typing == Typing::Nothing && key == MenuKey::Enter {
            MenuStep::Confirmed
        } else if self.typing == Typing::Nothing && key == MenuKey::Escape {
            MenuStep::Cancelled
        } else {
            MenuStep::Continue
        }
    }

    /// The selected line exists and the settings lie in their ranges.
    pub open spec fn well_formed(self) -> bool {
        &&& self.selected <= LAST_LINE
        &&& self.config.in_range()
    }
}

/// The menu a session opens with.
pub open spec fn opening_menu() -> MenuView {
    MenuView { selected: 0, config: default_settings(), typing: Typing::Nothing, input: Seq::empty() }
}

/// No key takes the selection off the menu or a setting out of its range.
pub proof fn lemma_after_well_formed(menu: MenuView, key: MenuKey)
    requires
        menu.well_formed(),
    ensures
        menu.after(key).well_formed(),
{
}

/// The settings menu.
pub struct SettingsMenu {
    selected: usize,
    config: GameConfig,
    typing: Typing,
    input: String,
}

impl View for SettingsMenu {
    type V = MenuView;

    closed spec fn view(&self) -> MenuView {
        MenuView {
            selected: self.selected as nat,
            config: self.config@,
            typing: self.typing,
            input: self.input@,
        }
    }
}

/// The code tables on offer.
fn radical_file_choices() -> (r: Vec<String>)
    ensures
        texts_view(r@) == radical_files(),
{
    let mut files: Vec<String> = Vec::new();
    files.push(String::from_str("res/yujoy-3.8.0.txt"));
    files.push(String::from_str("res/yulight-3.8.0.txt"));
    files.push(String::from_str("res/yustar-3.8.0.txt"));
    files.push(String::from_str("res/yujoy-3.6.0.txt"));
    files.push(String::from_str("res/yusm-3.9.0-20250522.txt"));
    files.push(String::from_str("按右方向键手动输入→"));
    files
}

/// The frequency tables on offer.
fn frequency_file_choices() -> (r: Vec<String>)
    ensures
        texts_view(r@) == frequency_files(),
{
    let mut files: Vec<String> = Vec::new();
    files.push(String::from_str("res/counts.txt"));
    files.push(String::from_str("res/counts-3.6.0.txt"));
    files.push(String::from_str("按右方向键手动输入→"));
    files
}

/// Finds the choice that a path stands for.
fn find_choice(files: &Vec<String>, name: &String) -> (r: usize)
    requires
        files@.len() > 0,
    ensures
        r == choice_of(texts_view(files@), name@),
        r < files@.len(),
{
    let ghost list = texts_view(files@);
    let mut i: usize = 0;
    while i < files.len()
        invariant
            i <= files.len(),
            list == texts_view(files@),
            choice_from(list, name@, 0) == choice_from(list, name@, i as int),
        decreases files.len() - i,
    {
        if files[i] == *name {
            return i;
        }
        i = i + 1;
    }
    files.len() - 1
}

/// The path one choice to the left.
fn path_left(files: &Vec<String>, name: &String) -> (r: String)
    requires
        files@.len() > 0,
    ensures
        r@ == choice_left(texts_view(files@), name@),
{
    let i = find_choice(files, name);
    if i > 0 {
        files[i - 1].clone()
    } else {
        files[files.len() - 1].clone()
    }
}

/// The path one choice to the right, if there is one.
fn path_right(files: &Vec<String>, name: &String) -> (r: Option<String>)
    requires
        files@.len() > 0,
    ensures
        match r {
            Some(f) => choice_right(texts_view(files@), name@) == Some(f@),
            None => choice_right(texts_view(files@), name@) is None,
        },
{
    let i = find_choice(files, name);
    if i < files.len() - 1 {
        Some(files[i + 1].clone())
    } else {
        None
    }
}

impl SettingsMenu {
    /// The menu a session opens with: first line selected, standard
    /// settings, nothing being typed.
    pub fn new() -> (r: SettingsMenu)
        ensures
            r@ == opening_menu(),
            r@.well_formed(),
    {
        SettingsMenu {
            selected: 0,
            config: GameConfig::standard(),
            typing: Typing::Nothing,
            input: String::new(),
        }
    }

    /// The number of the selected line.
    pub fn selected(&self) -> (r: usize)
        ensures
            r == self@.selected,
    {
        self.selected
    }

    /// The settings as they stand.
    pub fn config(&self) -> (r: &GameConfig)
        ensures
            r@ == self@.config,
    {
        &self.config
    }

    /// Which path is being typed, if any.
    pub fn typing(&self) -> (r: Typing)
        ensures
            r == self@.typing,
    {
        self.typing
    }

    /// What has been typed of a path.
    pub fn input(&self) -> (r: &String)
        ensures
            r@ == self@.input,
    {
        &self.input
    }

    /// Hands the settings out.
    pub fn into_config(self) -> (r: GameConfig)
        ensures
            r@ == self@.config,
    {
        self.config
    }

    /// Applies one key press, as `after` says, and tells the caller how to
    /// go on, as `outcome` says.
    pub fn handle_key(&mut self, key: MenuKey) -> (r: MenuStep)
        ensures
            final(self)@ == old(self)@.after(key),
            r == old(self)@.outcome(key),
            old(self)@.well_formed() ==> final(self)@.well_formed(),
    {
        match self.typing {
            Typing::Nothing => self.browse(key),
            _ => {
                self.type_path(key);
                MenuStep::Continue
            },
        }
    }

    /// Puts a path where it was typed for and ends the typing.
    fn set_path(&mut self, path: String)
        requires
            old(self)@.typing != Typing::Nothing,
        ensures
            final(self)@ == (MenuView {
                config: old(self)@.with_path(path@),
                typing: Typing::Nothing,
                ..old(self)@
            }),
    {
        match self.typing {
            Typing::FrequencyFile => {
                self.config.frequency_file = path;
            },
            _ => {
                self.config.radical_file = path;
            },
        }
        self.typing = Typing::Nothing;
    }

    /// Applies a key press while a path is being typed.
    fn type_path(&mut self, key: MenuKey)
        requires
            old(self)@.typing != Typing::Nothing,
        ensures
            final(self)@ == old(self)@.typed(key),
    {
        match key {
            MenuKey::Char(c) => {
                self.input.push(c);
            },
            MenuKey::Backspace => {
                self.input.pop();
            },
            MenuKey::Enter => {
                if !self.input.as_str().is_empty() {
                    let path = string_of(&trim_chars(&chars_of(self.input.as_str())));
                    self.set_path(path);
                }
            },
            MenuKey::Escape => {
                let path = match self.typing {
                    Typing::FrequencyFile => {
                        let files = frequency_file_choices();
                        files[1].clone()
                    },
                    _ => {
                        let files = radical_file_choices();
                        files[4].clone()
                    },
                };
                self.set_path(path);
            },
            _ => {},
        }
    }

    /// Applies a key press while the menu is browsed.
    fn browse(&mut self, key: MenuKey) -> (r: MenuStep)
        requires
            old(self)@.typing == Typing::Nothing,
        ensures
            final(self)@ == old(self)@.browsed(key),
            r == old(self)@.outcome(key),
    {
        match key {
            MenuKey::Up => {
                if self.selected > 0 {
                    self.selected = self.selected - 1;
                }
                MenuStep::Continue
            },
            MenuKey::Down => {
                if self.selected < LAST_LINE {
                    self.selected = self.selected + 1;
                }
                MenuStep::Continue
            },
            MenuKey::Left => {
                self.move_left();
                MenuStep::Continue
            },
            MenuKey::Right => {
                self.move_right();
                MenuStep::Continue
            },
            MenuKey::Enter => MenuStep::Confirmed,
            MenuKey::Escape => {
                self.config.cancelled = true;
                MenuStep::Cancelled
            },
            _ => MenuStep::Continue,
        }
    }

    /// Applies Left to the selected line.
    fn move_left(&mut self)
        ensures
            final(self)@ == (MenuView { config: old(self)@.moved_left(), ..old(self)@ }),
    {
        if self.selected == 0 {
            let files = radical_file_choices();
            self.config.radical_file = path_left(&files, &self.config.radical_file);
        } else if self.selected == 1 {
            let files = frequency_file_choices();
            self.config.frequency_file = path_left(&files, &self.config.frequency_file);
        } else if self.selected == 2 {
            if self.config.penalty > 1 {
                self.config.penalty = self.config.penalty - 1;
            }
        } else if self.selected == 3 {
            if self.config.min_practice_count > 1 {
                self.config.min_practice_count = self.config.min_practice_count - 1;
            }
        } else if self.selected == 4 {
            self.config.practice_mode = PracticeMode::BigCode;
        } else if self.selected == 5 {
            self.config.order = match self.config.order {
                PracticeOrder::Alphabetical => PracticeOrder::Alphabetical,
                PracticeOrder::Frequency => PracticeOrder::Alphabetical,
                PracticeOrder::Keyboard => PracticeOrder::Frequency,
                PracticeOrder::Random => PracticeOrder::Keyboard,
            };
        } else if self.selected == 6 {
            self.config.mode = GameMode::Normal;
        }
    }

    /// Applies Right to the selected line.
    fn move_right(&mut self)
        ensures
            final(self)@ == old(self)@.moved_right(),
    {
        if self.selected == 0 {
            let files = radical_file_choices();
            match path_right(&files, &self.config.radical_file) {
                Some(f) => {
                    self.config.radical_file = f;
                },
                None => {
                    self.typing = Typing::RadicalFile;
                    self.input = String::new();
                },
            }
        } else if self.selected == 1 {
            let files = frequency_file_choices();
            match path_right(&files, &self.config.frequency_file) {
                Some(f) => {
                    self.config.frequency_file = f;
                },
                None => {
                    self.typing = Typing::FrequencyFile;
                    self.input = String::new();
                },
            }
        } else if self.selected == 2 {
            if self.config.penalty < MAX_PENALTY {
                self.config.penalty = self.config.penalty + 1;
            }
        } else if self.selected == 3 {
            if self.config.min_practice_count < MAX_MIN_PRACTICE {
                self.config.min_practice_count = self.config.min_practice_count + 1;
            }
        } else if self.selected == 4 {
            self.config.practice_mode = PracticeMode::DualCode;
        } else if self.selected == 5 {
            self.config.order = match self.config.order {
                PracticeOrder::Alphabetical => PracticeOrder::Frequency,
                PracticeOrder::Frequency => PracticeOrder::Keyboard,
                PracticeOrder::Keyboard => PracticeOrder::Random,
                PracticeOrder::Random => PracticeOrder::Random,
            };
        } else if self.selected == 6 {
            self.config.mode = GameMode::Pretend;
        }
    }
}

} // verus!
