//! The conversion form as a state machine: three editable paths, a
//! confirm and a cancel button, and what each key does to them.

use vstd::prelude::*;
use vstd::string::StringExecFns;
use crate::convert::{utf8_len, utf8_width, width_of};
use crate::dictionary::byte_length;
use crate::text::{chars_of, string_of};

verus! {

/// A key press, as far as the form tells keys apart.
#[derive(Debug, Clone, Copy, PartialEq, Eq, Structural)]
pub enum FormKey {
    Up,
    Down,
    Left,
    Right,
    Enter,
    Escape,
    Char(char),
    Backspace,
    Other,
}

/// What the caller does after a key press.
#[derive(Debug, Clone, Copy, PartialEq, Eq, Structural)]
pub enum FormStep {
    /// Show the form again and wait for the next key.
    Continue,
    /// Run the conversion with the three paths, then leave.
    Convert,
    /// Leave without converting.
    Leave,
}

/// What the keys go to.
#[derive(Debug, Clone, Copy, PartialEq, Eq, Structural)]
pub enum Focus {
    /// The path of the dictionary.
    Source,
    /// The path of the code table to write.
    CodeTarget,
    /// The path of the frequency table to write.
    CountTarget,
    /// The confirm button.
    Confirm,
    /// The cancel button.
    Cancel,
}

/// A line of text with a cursor as plain values. The cursor counts bytes
/// of the text in UTF-8.
pub struct FieldView {
    pub text: Seq<char>,
    pub cursor: nat,
}

/// The number of characters that the bytes before `pos` make up, counted
/// on from character `k`; nothing where `pos` falls inside a character or
/// behind the text.
pub open spec fn index_at(text: Seq<char>, pos: int, k: int) -> Option<int>
    decreases text.len() - k,
{
    if pos == 0 {
        Some(k)
    } else if pos < 0 || k < 0 || k >= text.len() {
        None
    } else {
        index_at(text, pos - utf8_width(text[k]), k + 1)
    }
}

/// The character that starts at byte `pos`, as its number; nothing where
/// no character starts or ends there.
pub open spec fn char_index(text: Seq<char>, pos: int) -> Option<int> {
    index_at(text, pos, 0)
}

impl FieldView {
    /// The field with the cursor behind the text.
    pub open spec fn at_end(self) -> FieldView {
        FieldView { cursor: utf8_len(self.text), ..self }
    }

    /// The field with the cursor one byte to the left, if it can go there.
    pub open spec fn stepped_left(self) -> FieldView {
        if self.cursor > 0 {
            FieldView { cursor: (self.cursor - 1) as nat, ..self }
        } else {
            self
        }
    }

    /// The field with the cursor one byte to the right, if it can go
    /// there.
    pub open spec fn stepped_right(self) -> FieldView {
        if self.cursor < utf8_len(self.text) {
            FieldView { cursor: self.cursor + 1, ..self }
        } else {
            self
        }
    }

    /// A character can be typed: the cursor stands between characters,
    /// and the longer text still has a length in `usize`.
    pub open spec fn can_type(self) -> bool {
        &&& char_index(self.text, self.cursor as int) is Some
        &&& utf8_len(self.text) + 4 <= usize::MAX
    }

    /// The field after a character was typed: it enters at the cursor,
    /// and the cursor moves on by one byte.
    pub open spec fn typed(self, c: char) -> FieldView {
        FieldView {
            text: self.text.insert(char_index(self.text, self.cursor as int)->0, c),
            cursor: self.cursor + 1,
        }
    }

    /// Backspace can be taken: the cursor stands at the start, or a
    /// character starts one byte before it.
    pub open spec fn can_erase(self) -> bool {
        self.cursor > 0 ==> (char_index(self.text, self.cursor - 1) matches Some(k) && k
            < self.text.len())
    }

    /// The field after Backspace: the character that starts one byte
    /// before the cursor goes, and the cursor moves back by one byte.
    pub open spec fn erased(self) -> FieldView {
        if self.cursor > 0 {
            FieldView {
                text: self.text.remove(char_index(self.text, self.cursor - 1)->0),
                cursor: (self.cursor - 1) as nat,
            }
        } else {
            self
        }
    }

    /// The length of the text in bytes fits in `usize`.
    pub open spec fn fits(self) -> bool {
        utf8_len(self.text) <= usize::MAX
    }
}

/// The form as plain values.
pub struct FormView {
    pub source: FieldView,
    pub code_target: FieldView,
    pub count_target: FieldView,
    pub focus: Focus,
}

impl FormView {
    /// The field that has the focus; the last field while a button has
    /// it.
    pub open spec fn focused(self) -> FieldView {
        match self.focus {
            Focus::Source => self.source,
            Focus::CodeTarget => self.code_target,
            _ => self.count_target,
        }
    }

    /// The form with the focused field replaced; unchanged while a button
    /// has the focus.
    pub open spec fn with_focused(self, field: FieldView) -> FormView {
        match self.focus {
            Focus::Source => FormView { source: field, ..self },
            Focus::CodeTarget => FormView { code_target: field, ..self },
            Focus::CountTarget => FormView { count_target: field, ..self },
            _ => self,
        }
    }

    /// A button has the focus.
    pub open spec fn on_button(self) -> bool {
        self.focus == Focus::Confirm || self.focus == Focus::Cancel
    }

    /// The key can be taken without a cursor or a text leaving what a
    /// string can hold.
    pub open spec fn can_take(self, key: FormKey) -> bool {
        match key {
            FormKey::Up => self.focused().fits(),
            FormKey::Down => self.on_button() || self.focused().fits(),
            FormKey::Right => self.on_button() || self.focused().cursor < usize::MAX,
            FormKey::Char(c) => self.on_button() || self.focused().can_type(),
            FormKey::Backspace => self.on_button() || self.focused().can_erase(),
            _ => true,
        }
    }

    /// The form after a key press.
    pub open spec fn after(self, key: FormKey) -> FormView {
        match key {
            FormKey::Up => match self.focus {
                Focus::Source => self.with_focused(self.source.at_end()),
                Focus::CodeTarget => FormView {
                    code_target: self.code_target.at_end(),
                    focus: Focus::Source,
                    ..self
                },
                Focus::CountTarget => FormView {
                    count_target: self.count_target.at_end(),
                    focus: Focus::CodeTarget,
                    ..self
                },
                _ => FormView {
                    count_target: self.count_target.at_end(),
                    focus: Focus::CountTarget,
                    ..self
                },
            },
            FormKey::Down => match self.focus {
                Focus::Source => FormView {
                    source: self.source.at_end(),
                    focus: Focus::CodeTarget,
                    ..self
                },
                Focus::CodeTarget => FormView {
                    code_target: self.code_target.at_end(),
                    focus: Focus::CountTarget,
                    ..self
                },
                Focus::CountTarget => FormView {
                    count_target: self.count_target.at_end(),
                    focus: Focus::Confirm,
                    ..self
                },
                _ => FormView { focus: Focus::Cancel, ..self },
            },
            FormKey::Left => if self.on_button() {
                FormView { focus: Focus::Confirm, ..self }
            } else {
                self.with_focused(self.focused().stepped_left())
            },
            FormKey::Right => if self.on_button() {
                FormView { focus: Focus::Cancel, ..self }
            } else {
                self.with_focused(self.focused().stepped_right())
            },
            FormKey::Char(c) => self.with_focused(self.focused().typed(c)),
            FormKey::Backspace => self.with_focused(self.focused().erased()),
            _ => self,
        }
    }

    /// What a key press asks of the caller: Enter on the confirm button
    /// converts, Enter on the cancel button and Escape leave, and every
    /// other key goes on.
    pub open spec fn outcome(self, key: FormKey) -> FormStep {
        if key == FormKey::Escape {
            FormStep::Leave
        } else if key == FormKey::Enter && self.focus == Focus::Confirm {
            FormStep::Convert
        } else if key == FormKey::Enter && self.focus == Focus::Cancel {
            FormStep::Leave
        } else {
            FormStep::Continue
        }
    }
}

/// The form as it opens: the standard paths, each cursor behind its
/// text, the first path focused.
pub open spec fn opening_form() -> FormView {
    FormView {
        source: (FieldView { text: "./yustar_chaifen.dict.yaml"@, cursor: 0 }).at_end(),
        code_target: (FieldView { text: "res/yucode-custom.txt"@, cursor: 0 }).at_end(),
        count_target: (FieldView { text: "res/counts-custom.txt"@, cursor: 0 }).at_end(),
        focus: Focus::Source,
    }
}

/// A line of text with a cursor. The cursor counts bytes.
#[derive(Debug, Clone)]
pub struct FormField {
    /// The text.
    pub text: String,
    /// The byte the cursor stands before.
    pub cursor: usize,
}

impl View for FormField {
    type V = FieldView;

    open spec fn view(&self) -> FieldView {
        FieldView { text: self.text@, cursor: self.cursor as nat }
    }
}

/// Finds the character that starts at byte `pos`.
pub fn find_char_index(text: &Vec<char>, pos: usize) -> (r: Option<usize>)
    ensures
        match r {
            Some(k) => char_index(text@, pos as int) == Some(k as int) && k <= text@.len(),
            None => char_index(text@, pos as int) is None,
        },
{
    let mut left: usize = pos;
    let mut k: usize = 0;
    while left > 0 && k < text.len()
        invariant
            k <= text.len(),
            char_index(text@, pos as int) == index_at(text@, left as int, k as int),
        decreases text.len() - k,
    {
        let w = width_of(text[k]);
        if w > left {
            proof {
                let rest = left - w;
                assert(index_at(text@, rest, k + 1) is None);
            }
            return None;
        }
        left = left - w;
        k = k + 1;
    }
    if left == 0 {
        Some(k)
    } else {
        None
    }
}

impl FormField {
    /// A field with the cursor behind its text.
    pub fn new(text: &str) -> (r: FormField)
        requires
            utf8_len(text@) <= usize::MAX,
        ensures
            r@ == (FieldView { text: text@, cursor: 0 }).at_end(),
    {
        let length = byte_length(&chars_of(text));
        FormField { text: String::from_str(text), cursor: length as usize }
    }

    /// Whether a character can be typed.
    pub fn can_type(&self) -> (r: bool)
        ensures
            r == self@.can_type(),
    {
        let chars = chars_of(self.text.as_str());
        find_char_index(&chars, self.cursor).is_some() && byte_length(&chars) <= (usize::MAX
            - 4) as u128
    }

    /// Whether Backspace can be taken.
    pub fn can_erase(&self) -> (r: bool)
        ensures
            r == self@.can_erase(),
    {
        if self.cursor == 0 {
            return true;
        }
        let chars = chars_of(self.text.as_str());
        match find_char_index(&chars, self.cursor - 1) {
            Some(k) => k < chars.len(),
            None => false,
        }
    }

    /// Whether the length of the text in bytes fits in `usize`.
    pub fn fits(&self) -> (r: bool)
        ensures
            r == self@.fits(),
    {
        byte_length(&chars_of(self.text.as_str())) <= usize::MAX as u128
    }

    /// Puts the cursor behind the text.
    pub fn go_to_end(&mut self)
        requires
            old(self)@.fits(),
        ensures
            final(self)@ == old(self)@.at_end(),
    {
        self.cursor = byte_length(&chars_of(self.text.as_str())) as usize;
    }

    /// Moves the cursor one byte to the left, if it can go there.
    pub fn step_left(&mut self)
        ensures
            final(self)@ == old(self)@.stepped_left(),
    {
        if self.cursor > 0 {
            self.cursor = self.cursor - 1;
        }
    }

    /// Moves the cursor one byte to the right, if it can go there.
    pub fn step_right(&mut self)
        requires
            old(self)@.cursor < usize::MAX,
        ensures
            final(self)@ == old(self)@.stepped_right(),
    {
        if (self.cursor as u128) < byte_length(&chars_of(self.text.as_str())) {
            self.cursor = self.cursor + 1;
        }
    }

    /// Types a character at the cursor.
    pub fn type_char(&mut self, c: char)
        requires
            old(self)@.can_type(),
        ensures
            final(self)@ == old(self)@.typed(c),
    {
        let mut chars = chars_of(self.text.as_str());
        proof {
            lemma_index_at_bounds(chars@, self.cursor as int, 0);
        }
        match find_char_index(&chars, self.cursor) {
            Some(k) => {
                chars.insert(k, c);
                self.text = string_of(&chars);
                self.cursor = self.cursor + 1;
            },
            None => {},
        }
    }

    /// Takes Backspace at the cursor.
    pub fn erase(&mut self)
        requires
            old(self)@.can_erase(),
        ensures
            final(self)@ == old(self)@.erased(),
    {
        if self.cursor > 0 {
            let mut chars = chars_of(self.text.as_str());
            match find_char_index(&chars, self.cursor - 1) {
                Some(k) => {
                    chars.remove(k);
                    self.text = string_of(&chars);
                    self.cursor = self.cursor - 1;
                },
                None => {},
            }
        }
    }
}

/// A byte at which a character starts or ends lies within the text.
pub proof fn lemma_index_at_bounds(text: Seq<char>, pos: int, k: int)
    requires
        0 <= k <= text.len(),
        index_at(text, pos, k) is Some,
    ensures
        k <= index_at(text, pos, k)->0 <= text.len(),
        0 <= pos,
        pos + utf8_len(text.take(k)) <= utf8_len(text),
    decreases text.len() - k,
{
    if pos == 0 {
        crate::dictionary::lemma_utf8_len_take(text, k);
    } else {
        assert(text.take(k + 1).drop_last() =~= text.take(k));
        lemma_index_at_bounds(text, pos - utf8_width(text[k]), k + 1);
    }
}

/// The conversion form.
#[derive(Debug, Clone)]
pub struct ConversionForm {
    /// The path of the dictionary.
    pub source: FormField,
    /// The path of the code table to write.
    pub code_target: FormField,
    /// The path of the frequency table to write.
    pub count_target: FormField,
    /// What the keys go to.
    pub focus: Focus,
}

impl View for ConversionForm {
    type V = FormView;

    open spec fn view(&self) -> FormView {
        FormView {
            source: self.source@,
            code_target: self.code_target@,
            count_target: self.count_target@,
            focus: self.focus,
        }
    }
}

/// Every character of an ASCII text takes one byte.
pub proof fn lemma_ascii_len(s: Seq<char>)
    requires
        forall|i: int| 0 <= i < s.len() ==> #[trigger] s[i] <= '\u{7f}',
    ensures
        utf8_len(s) == s.len(),
    decreases s.len(),
{
    if s.len() > 0 {
        lemma_ascii_len(s.drop_last());
    }
}

impl ConversionForm {
    /// The form as it opens.
    pub fn new() -> (r: ConversionForm)
        ensures
            r@ == opening_form(),
    {
        proof {
            reveal_strlit("./yustar_chaifen.dict.yaml");
            reveal_strlit("res/yucode-custom.txt");
            reveal_strlit("res/counts-custom.txt");
            lemma_ascii_len("./yustar_chaifen.dict.yaml"@);
            lemma_ascii_len("res/yucode-custom.txt"@);
            lemma_ascii_len("res/counts-custom.txt"@);
        }
        ConversionForm {
            source: FormField::new("./yustar_chaifen.dict.yaml"),
            code_target: FormField::new("res/yucode-custom.txt"),
            count_target: FormField::new("res/counts-custom.txt"),
            focus: Focus::Source,
        }
    }

    /// Whether `handle_key` can take a key.
    pub fn can_handle(&self, key: FormKey) -> (r: bool)
        ensures
            r == self@.can_take(key),
    {
        let button = match self.focus {
            Focus::Confirm | Focus::Cancel => true,
            _ => false,
        };
        let field = match self.focus {
            Focus::Source => &self.source,
            Focus::CodeTarget => &self.code_target,
            _ => &self.count_target,
        };
        match key {
            FormKey::Up => field.fits(),
            FormKey::Down => button || field.fits(),
            FormKey::Right => button || field.cursor < usize::MAX,
            FormKey::Char(_c) => button || field.can_type(),
            FormKey::Backspace => button || field.can_erase(),
            _ => true,
        }
    }

    /// Applies one key press, as `after` says, and tells the caller how to
    /// go on, as `outcome` says.
    pub fn handle_key(&mut self, key: FormKey) -> (r: FormStep)
        requires
            old(self)@.can_take(key),
        ensures
            final(self)@ == old(self)@.after(key),
            r == old(self)@.outcome(key),
    {
        match key {
            FormKey::Up => {
                match self.focus {
                    Focus::Source => {
                        self.source.go_to_end();
                    },
                    Focus::CodeTarget => {
                        self.code_target.go_to_end();
                        self.focus = Focus::Source;
                    },
                    Focus::CountTarget => {
                        self.count_target.go_to_end();
                        self.focus = Focus::CodeTarget;
                    },
                    _ => {
                        self.count_target.go_to_end();
                        self.focus = Focus::CountTarget;
                    },
                }
                FormStep::Continue
            },
            FormKey::Down => {
                match self.focus {
                    Focus::Source => {
                        self.source.go_to_end();
                        self.focus = Focus::CodeTarget;
                    },
                    Focus::CodeTarget => {
                        self.code_target.go_to_end();
                        self.focus = Focus::CountTarget;
                    },
                    Focus::CountTarget => {
                        self.count_target.go_to_end();
                        self.focus = Focus::Confirm;
                    },
                    _ => {
                        self.focus = Focus::Cancel;
                    },
                }
                FormStep::Continue
            },
            FormKey::Left => {
                match self.focus {
                    Focus::Source => self.source.step_left(),
                    Focus::CodeTarget => self.code_target.step_left(),
                    Focus::CountTarget => self.count_target.step_left(),
                    _ => {
                        self.focus = Focus::Confirm;
                    },
                }
                FormStep::Continue
            },
            FormKey::Right => {
                match self.focus {
                    Focus::Source => self.source.step_right(),
                    Focus::CodeTarget => self.code_target.step_right(),
                    Focus::CountTarget => self.count_target.step_right(),
                    _ => {
                        self.focus = Focus::Cancel;
                    },
                }
                FormStep::Continue
            },
            FormKey::Char(c) => {
                match self.focus {
                    Focus::Source => self.source.type_char(c),
                    Focus::CodeTarget => self.code_target.type_char(c),
                    Focus::CountTarget => self.count_target.type_char(c),
                    _ => {},
                }
                FormStep::Continue
            },
            FormKey::Backspace => {
                match self.focus {
                    Focus::Source => self.source.erase(),
                    Focus::CodeTarget => self.code_target.erase(),
                    Focus::CountTarget => self.count_target.erase(),
                    _ => {},
                }
                FormStep::Continue
            },
            FormKey::Enter => match self.focus {
                Focus::Confirm => FormStep::Convert,
                Focus::Cancel => FormStep::Leave,
                _ => FormStep::Continue,
            },
            FormKey::Escape => FormStep::Leave,
            FormKey::Other => FormStep::Continue,
        }
    }
}

} // verus!
