//! Judging an answer and wording the feedback for it.

use vstd::prelude::*;
use vstd::string::StringExecFns;
use crate::config::{GameConfig, PracticeMode, PracticeOrder};
use crate::number::{decimal, decimal_padded, push_decimal, push_decimal_padded};
use crate::order::{arrangement, is_stable_order, stable_order};
use crate::radical::{Radical, RadicalView};
use crate::state::{GameState, GameView};
use crate::text::{chars_of, lowercase, string_of, to_lower, to_upper, trim_chars, trimmed, uppercase};

verus! {

/// The message for an answer that is empty once trimmed.
pub open spec fn empty_input_message() -> Seq<char> {
    "输入不能为空"@
}

/// The message for an answer given while the catalog is empty.
pub open spec fn empty_catalog_message() -> Seq<char> {
    "没有可练习的字根"@
}

/// The sum of all frequencies of a catalog.
pub open spec fn total_frequency(catalog: Seq<RadicalView>) -> nat
    decreases catalog.len(),
{
    if catalog.len() == 0 {
        0
    } else {
        total_frequency(catalog.drop_last()) + catalog.last().frequency
    }
}

/// The share `frequency / total` in ten-thousandths of a per-mille,
/// rounded to the nearest whole number, halves upwards; zero when the
/// total is zero.
pub open spec fn per_mille_e4(frequency: nat, total: nat) -> nat {
    if total == 0 {
        0
    } else {
        let scaled = frequency * 10_000_000;
        if 2 * (scaled % total) >= total {
            scaled / total + 1
        } else {
            scaled / total
        }
    }
}

/// A number of ten-thousandths written with four decimal places.
pub open spec fn four_places(value: nat) -> Seq<char> {
    decimal(value / 10_000) + seq!['.'] + decimal_padded(value % 10_000, 4)
}

/// The first position at or after `x` in the order `p` whose radical shows
/// `text`, or the length of `p` if there is none.
pub open spec fn first_showing(
    catalog: Seq<RadicalView>,
    p: Seq<usize>,
    text: Seq<char>,
    x: int,
) -> int
    decreases p.len() - x,
{
    if 0 <= x < p.len() && catalog[p[x] as int].text != text {
        first_showing(catalog, p, text, x + 1)
    } else {
        x
    }
}

/// The rank of a glyph by frequency: its place, counted from one, in the
/// catalog sorted by descending frequency with ties in catalog order; zero
/// for a glyph the catalog does not hold.
pub open spec fn frequency_rank(catalog: Seq<RadicalView>, text: Seq<char>) -> nat {
    let p = arrangement(catalog, PracticeOrder::Frequency);
    let x = first_showing(catalog, p, text, 0);
    if 0 <= x < p.len() {
        (x + 1) as nat
    } else {
        0
    }
}

/// The code as the feedback shows it: first key in upper case, the rest in
/// lower case.
pub open spec fn shown_code(radical: RadicalView) -> Seq<char> {
    uppercase(radical.big_code) + lowercase(radical.small_code)
}

/// The feedback for an answer to `radical`.
pub open spec fn feedback(correct: bool, radical: RadicalView, share: nat, rank: nat) -> Seq<
    char,
> {
    "【"@ + (if correct {
        "正确"@
    } else {
        "错误"@
    }) + "】“"@ + radical.text + "”的编码是:"@ + shown_code(radical) + "，使用频率为:"@ + decimal(
        radical.frequency,
    ) + "("@ + four_places(share) + "‰)，排在第"@ + decimal(rank) + "位"@
}

/// What the answer is compared with.
pub open spec fn expected_code(radical: RadicalView, mode: PracticeMode) -> Seq<char> {
    match mode {
        PracticeMode::BigCode => radical.big_code,
        PracticeMode::DualCode => radical.code,
    }
}

/// Whether an answer matches a radical: trimmed, and compared without
/// regard to case.
pub open spec fn matches_code(input: Seq<char>, radical: RadicalView, mode: PracticeMode) -> bool {
    lowercase(trimmed(input)) == lowercase(expected_code(radical, mode))
}

impl GameView {
    /// The position that an answer is judged against: the current one, or
    /// the last of the catalog when the current one lies beyond it.
    pub open spec fn judged_position(self) -> int {
        if self.current < self.radicals.len() {
            self.current as int
        } else {
            self.radicals.len() - 1
        }
    }

    /// Whether an answer counts as correct.
    pub open spec fn accepts(self, input: Seq<char>, mode: PracticeMode) -> bool {
        &&& self.radicals.len() > 0
        &&& trimmed(input).len() > 0
        &&& matches_code(input, self.radicals[self.judged_position()], mode)
    }

    /// The message for an answer.
    pub open spec fn message_for(self, input: Seq<char>, mode: PracticeMode) -> Seq<char> {
        if self.radicals.len() == 0 {
            empty_catalog_message()
        } else if trimmed(input).len() == 0 {
            empty_input_message()
        } else {
            let radical = self.radicals[self.judged_position()];
            feedback(
                self.accepts(input, mode),
                radical,
                per_mille_e4(radical.frequency, total_frequency(self.radicals)),
                frequency_rank(self.radicals, radical.text),
            )
        }
    }
}

/// Appends a run of characters to a string.
fn append_chars(out: &mut String, chars: &Vec<char>)
    ensures
        final(out)@ == old(out)@ + chars@,
{
    let piece = string_of(chars);
    out.append(piece.as_str());
}

/// Words the feedback for an answer.
pub fn feedback_message(correct: bool, radical: &Radical, share: u128, rank: usize) -> (r: String)
    ensures
        r@ == feedback(correct, radical@, share as nat, rank as nat),
{
    let mut out = String::from_str("【");
    if correct {
        out.append("正确");
    } else {
        out.append("错误");
    }
    out.append("】“");
    out.append(radical.text.as_str());
    out.append("”的编码是:");
    let upper = to_upper(radical.big_code.as_str());
    out.append(upper.as_str());
    let lower = to_lower(radical.small_code.as_str());
    out.append(lower.as_str());
    assert(out@ == "【"@ + (if correct {
        "正确"@
    } else {
        "错误"@
    }) + "】“"@ + radical@.text + "”的编码是:"@ + shown_code(radical@)) by {
        assert(out@ =~= "【"@ + (if correct {
            "正确"@
        } else {
            "错误"@
        }) + "】“"@ + radical@.text + "”的编码是:"@ + shown_code(radical@));
    }
    out.append("，使用频率为:");
    let mut digits: Vec<char> = Vec::new();
    push_decimal(&mut digits, radical.frequency as u128);
    append_chars(&mut out, &digits);
    out.append("(");
    let mut places: Vec<char> = Vec::new();
    push_decimal(&mut places, share / 10_000);
    places.push('.');
    push_decimal_padded(&mut places, share % 10_000, 4);
    append_chars(&mut out, &places);
    out.append("‰)，排在第");
    let mut place: Vec<char> = Vec::new();
    push_decimal(&mut place, rank as u128);
    append_chars(&mut out, &place);
    out.append("位");
    out
}

impl GameState {
    /// The sum of all frequencies. It always fits: a vector holds at most
    /// `usize::MAX` radicals with frequencies of at most `usize::MAX`.
    pub fn frequency_total(&self) -> (r: u128)
        ensures
            r == total_frequency(self@.radicals),
    {
        let ghost catalog = self@.radicals;
        let mut sum: u128 = 0;
        let mut i: usize = 0;
        while i < self.radicals.len()
            invariant
                i <= self.radicals.len(),
                catalog == self@.radicals,
                sum == total_frequency(catalog.take(i as int)),
                sum <= i * usize::MAX,
            decreases self.radicals.len() - i,
        {
            assert(catalog.take(i + 1).drop_last() =~= catalog.take(i as int));
            assert(i * usize::MAX + usize::MAX <= u128::MAX) by (nonlinear_arith)
                requires
                    i < usize::MAX,
                    usize::MAX <= u64::MAX,
            ;
            sum = sum + self.radicals[i].frequency as u128;
            i = i + 1;
        }
        assert(catalog.take(self.radicals.len() as int) =~= catalog);
        sum
    }

    /// The rank of a glyph by frequency.
    pub fn rank_of(&self, text: &String) -> (r: usize)
        ensures
            r == frequency_rank(self@.radicals, text@),
    {
        let p = stable_order(&self.radicals, PracticeOrder::Frequency);
        let ghost catalog = self@.radicals;
        let mut x: usize = 0;
        while x < p.len()
            invariant
                x <= p.len(),
                catalog == self@.radicals,
                p@ == arrangement(catalog, PracticeOrder::Frequency),
                is_stable_order(p@, catalog, catalog.len(), PracticeOrder::Frequency),
                first_showing(catalog, p@, text@, 0) == first_showing(catalog, p@, text@, x as int),
            decreases p.len() - x,
        {
            if self.radicals[p[x]].text == *text {
                return x + 1;
            }
            x = x + 1;
        }
        0
    }

    /// The statistics that the feedback quotes for a radical: its
    /// frequency, its share of all frequencies in ten-thousandths of a
    /// per-mille, and its rank by frequency.
    pub fn get_frequency_stats(&self, radical: &Radical) -> (r: (usize, u128, usize))
        ensures
            r.0 == radical@.frequency,
            r.1 == per_mille_e4(radical@.frequency, total_frequency(self@.radicals)),
            r.2 == frequency_rank(self@.radicals, radical@.text),
    {
        let total = self.frequency_total();
        let share: u128 = if total == 0 {
            0
        } else {
            let scaled: u128 = radical.frequency as u128 * 10_000_000;
            let quotient = scaled / total;
            let rest = scaled % total;
            if rest >= total - rest {
                quotient + 1
            } else {
                quotient
            }
        };
        (radical.frequency, share, self.rank_of(&radical.text))
    }

    /// Judges an answer against the current radical without changing the
    /// session: whether it is correct, and the message to show.
    pub fn check_input_core(&self, input: &str, config: &GameConfig) -> (r: (bool, Option<String>))
        ensures
            r.0 == self@.accepts(input@, config.practice_mode),
            r.1 matches Some(message) && message@ == self@.message_for(
                input@,
                config.practice_mode,
            ),
    {
        if self.radicals.len() == 0 {
            return (false, Some(String::from_str("没有可练习的字根")));
        }
        let position = if self.current_radical < self.radicals.len() {
            self.current_radical
        } else {
            self.radicals.len() - 1
        };
        let radical = &self.radicals[position];
        let typed = trim_chars(&chars_of(input));
        if typed.len() == 0 {
            return (false, Some(String::from_str("输入不能为空")));
        }
        let answer = to_lower(string_of(&typed).as_str());
        let is_correct = match config.practice_mode {
            PracticeMode::BigCode => answer == to_lower(radical.big_code.as_str()),
            PracticeMode::DualCode => answer == to_lower(radical.code.as_str()),
        };
        let (_count, share, rank) = self.get_frequency_stats(radical);
        (is_correct, Some(feedback_message(is_correct, radical, share, rank)))
    }
}

} // verus!
