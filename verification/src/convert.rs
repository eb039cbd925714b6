//! Reading the decomposition and the code column of a dictionary entry:
//! the radicals a glyph is made of, and the code of each.

use vstd::prelude::*;
use crate::state::texts_view;
use crate::text::{chars_of, string_of};

verus! {

/// What `char::is_uppercase` answers for a character (the Unicode
/// `Uppercase` property).
pub uninterp spec fn upper_case(c: char) -> bool;

/// What `char::is_lowercase` answers for a character (the Unicode
/// `Lowercase` property).
pub uninterp spec fn lower_case(c: char) -> bool;

/// `char::is_uppercase`; the contract only names its answer.
#[verifier::external_body]
pub(crate) fn is_upper_case(c: char) -> (r: bool)
    ensures
        r == upper_case(c),
{
    c.is_uppercase()
}

/// `char::is_lowercase`; the contract only names its answer.
#[verifier::external_body]
pub(crate) fn is_lower_case(c: char) -> (r: bool)
    ensures
        r == lower_case(c),
{
    c.is_lowercase()
}

/// A number is a Unicode scalar value: a code point that is no surrogate.
pub open spec fn is_scalar_value(i: int) -> bool {
    0 <= i <= 0xD7FF || 0xE000 <= i <= 0x10FFFF
}

/// `char::from_u32` gives the character with the given code point, or
/// nothing for a number that is no scalar value.
pub assume_specification[ char::from_u32 ](i: u32) -> (r: Option<char>)
    ensures
        is_scalar_value(i as int) ==> r == Some(i as char),
        !is_scalar_value(i as int) ==> r is None,
;

/// The progress of a scan: the tokens that are complete, the token that
/// is being gathered, and whether the scan stands inside a token.
pub struct Scan {
    pub done: Seq<Seq<char>>,
    pub current: Seq<char>,
    pub inside: bool,
}

/// A scan that has read nothing.
pub open spec fn scan_start() -> Scan {
    Scan { done: Seq::empty(), current: Seq::empty(), inside: false }
}

/// One step of reading a decomposition. An opening brace starts a named
/// radical afresh; a closing brace completes the one that was started;
/// between braces characters are gathered; outside them every character
/// is a radical of its own.
pub open spec fn radical_step(scan: Scan, c: char) -> Scan {
    if c == '{' {
        Scan { done: scan.done, current: seq![c], inside: true }
    } else if c == '}' {
        if scan.current.len() > 0 {
            Scan { done: scan.done.push(scan.current.push(c)), current: Seq::empty(), inside: false }
        } else {
            Scan { inside: false, ..scan }
        }
    } else if scan.inside {
        Scan { current: scan.current.push(c), ..scan }
    } else {
        Scan { done: scan.done.push(seq![c]), ..scan }
    }
}

/// The scan after a whole decomposition was read.
pub open spec fn radical_scan(s: Seq<char>) -> Scan
    decreases s.len(),
{
    if s.len() == 0 {
        scan_start()
    } else {
        radical_step(radical_scan(s.drop_last()), s.last())
    }
}

/// The radicals of a decomposition: single characters, and names in
/// braces with their braces. A name that is never closed is dropped.
pub open spec fn radical_tokens(s: Seq<char>) -> Seq<Seq<char>> {
    radical_scan(s).done
}

/// The lower-case form of an ASCII capital; any other character itself.
pub open spec fn ascii_lower(c: char) -> char {
    if 'A' <= c <= 'Z' {
        ((c as int) + 32) as char
    } else {
        c
    }
}

/// How far the circled letters stand above the plain ones.
pub const CIRCLED_OFFSET: u32 = 9327;

/// A lower-case letter as it enters a code: an ASCII letter as it is,
/// any other character moved down by the circled-letter offset.
pub open spec fn code_letter(c: char) -> char {
    if c <= '\u{7f}' {
        c
    } else {
        ((c as int) - CIRCLED_OFFSET) as char
    }
}

/// A lower-case letter can enter a code: moved down it is still a
/// character.
pub open spec fn can_enter_code(c: char) -> bool {
    c <= '\u{7f}' || is_scalar_value((c as int) - CIRCLED_OFFSET)
}

/// What a character is to a code column.
#[derive(Debug, Clone, Copy, PartialEq, Eq, Structural)]
pub enum LetterCase {
    /// An upper-case character: it starts a code.
    Upper,
    /// A lower-case character: it continues a code.
    Lower,
    /// Any other character: it ends a code.
    Other,
}

/// What a character is to a code column: upper case, else lower case,
/// else neither.
pub open spec fn case_of(c: char) -> LetterCase {
    if upper_case(c) {
        LetterCase::Upper
    } else if lower_case(c) {
        LetterCase::Lower
    } else {
        LetterCase::Other
    }
}

/// What each character of a column is.
pub open spec fn cases_of(s: Seq<char>) -> Seq<LetterCase> {
    Seq::new(s.len(), |i: int| case_of(s[i]))
}

/// One step of reading a code column. An upper-case character starts a
/// code, lower-case ones continue it, and anything else ends it.
pub open spec fn code_step(scan: Scan, c: char, case: LetterCase) -> Scan {
    if case == LetterCase::Upper {
        Scan {
            done: if scan.current.len() > 0 {
                scan.done.push(scan.current)
            } else {
                scan.done
            },
            current: seq![ascii_lower(c)],
            inside: true,
        }
    } else if case == LetterCase::Lower && scan.inside {
        Scan { current: scan.current.push(code_letter(c)), ..scan }
    } else if scan.current.len() > 0 {
        Scan { done: scan.done.push(scan.current), current: Seq::empty(), inside: false }
    } else {
        scan
    }
}

/// The scan after a whole code column was read, given what each of its
/// characters is.
pub open spec fn code_scan_with(s: Seq<char>, cases: Seq<LetterCase>) -> Scan
    decreases s.len(),
{
    if s.len() == 0 || cases.len() != s.len() {
        scan_start()
    } else {
        code_step(code_scan_with(s.drop_last(), cases.drop_last()), s.last(), cases.last())
    }
}

/// Every letter that continues a code in `s` can enter it, given what
/// each character is.
pub open spec fn scan_defined_with(s: Seq<char>, cases: Seq<LetterCase>) -> bool
    decreases s.len(),
{
    if s.len() == 0 || cases.len() != s.len() {
        true
    } else {
        let before = code_scan_with(s.drop_last(), cases.drop_last());
        &&& scan_defined_with(s.drop_last(), cases.drop_last())
        &&& cases.last() == LetterCase::Lower && before.inside ==> can_enter_code(s.last())
    }
}

/// The codes of a column, in full, given what each character is.
pub open spec fn full_codes_with(s: Seq<char>, cases: Seq<LetterCase>) -> Seq<Seq<char>> {
    let scan = code_scan_with(s, cases);
    if scan.current.len() > 0 {
        scan.done.push(scan.current)
    } else {
        scan.done
    }
}

/// The scan after a whole code column was read.
pub open spec fn code_scan(s: Seq<char>) -> Scan {
    code_scan_with(s, cases_of(s))
}

/// Every letter that continues a code in `s` can enter it.
pub open spec fn code_scan_defined(s: Seq<char>) -> bool {
    scan_defined_with(s, cases_of(s))
}

/// The codes of a column, in full.
pub open spec fn full_codes(s: Seq<char>) -> Seq<Seq<char>> {
    full_codes_with(s, cases_of(s))
}

/// The number of bytes a character takes in UTF-8.
pub open spec fn utf8_width(c: char) -> nat {
    if c <= '\u{7f}' {
        1
    } else if c <= '\u{7ff}' {
        2
    } else if c <= '\u{ffff}' {
        3
    } else {
        4
    }
}

/// The number of bytes a text takes in UTF-8.
pub open spec fn utf8_len(s: Seq<char>) -> nat
    decreases s.len(),
{
    if s.len() == 0 {
        0
    } else {
        utf8_len(s.drop_last()) + utf8_width(s.last())
    }
}

/// A code of more than two bytes can be cut after its second byte: a
/// character ends there.
pub open spec fn can_cut(code: Seq<char>) -> bool {
    utf8_len(code) > 2 ==> utf8_width(code[0]) == 2 || (utf8_width(code[0]) == 1 && utf8_width(
        code[1],
    ) == 1)
}

/// A code cut to its first two bytes.
pub open spec fn cut(code: Seq<char>) -> Seq<char> {
    if utf8_len(code) <= 2 {
        code
    } else if utf8_width(code[0]) == 2 {
        code.take(1)
    } else {
        code.take(2)
    }
}

/// The codes of a column as they are used: in full for the scheme that
/// keeps long codes, cut to two bytes otherwise.
pub open spec fn code_tokens(s: Seq<char>, keep_long: bool) -> Seq<Seq<char>> {
    let codes = full_codes(s);
    if keep_long {
        codes
    } else {
        Seq::new(codes.len(), |i: int| cut(codes[i]))
    }
}

/// A column can be read: every letter can enter its code, and every code
/// that has to be cut can be.
pub open spec fn codes_readable(s: Seq<char>, keep_long: bool) -> bool {
    &&& code_scan_defined(s)
    &&& !keep_long ==> forall|i: int|
        0 <= i < full_codes(s).len() ==> can_cut(#[trigger] full_codes(s)[i])
}

/// What a vector of character vectors stands for.
pub open spec fn tokens_view(v: Seq<Vec<char>>) -> Seq<Seq<char>> {
    Seq::new(v.len(), |i: int| v[i]@)
}

/// The strings made of the given tokens.
fn strings_of(tokens: &Vec<Vec<char>>) -> (r: Vec<String>)
    ensures
        texts_view(r@) == tokens_view(tokens@),
{
    let mut out: Vec<String> = Vec::new();
    let mut i: usize = 0;
    while i < tokens.len()
        invariant
            i <= tokens.len(),
            out@.len() == i,
            forall|j: int| 0 <= j < i ==> (#[trigger] out@[j])@ == tokens@[j]@,
        decreases tokens.len() - i,
    {
        out.push(string_of(&tokens[i]));
        i = i + 1;
    }
    out
}

/// A copy of a character vector.
fn copy_chars(v: &Vec<char>) -> (r: Vec<char>)
    ensures
        r@ == v@,
{
    let mut out: Vec<char> = Vec::new();
    let mut i: usize = 0;
    while i < v.len()
        invariant
            i <= v.len(),
            out@ == v@.take(i as int),
        decreases v.len() - i,
    {
        out.push(v[i]);
        i = i + 1;
    }
    out
}

/// Splits a decomposition into its radicals.
pub fn extract_radicals(radicals: &str) -> (r: Vec<String>)
    ensures
        texts_view(r@) == radical_tokens(radicals@),
{
    let s = chars_of(radicals);
    let mut done: Vec<Vec<char>> = Vec::new();
    let mut current: Vec<char> = Vec::new();
    let mut inside = false;
    let mut i: usize = 0;
    assert(tokens_view(done@) =~= Seq::<Seq<char>>::empty());
    while i < s.len()
        invariant
            i <= s.len(),
            radical_scan(s@.take(i as int)) == (Scan {
                done: tokens_view(done@),
                current: current@,
                inside,
            }),
        decreases s.len() - i,
    {
        let c = s[i];
        let ghost before = tokens_view(done@);
        proof {
            assert(s@.take(i + 1).drop_last() =~= s@.take(i as int));
        }
        if c == '{' {
            inside = true;
            current = Vec::new();
            current.push(c);
        } else if c == '}' {
            inside = false;
            if current.len() > 0 {
                current.push(c);
                done.push(current);
                current = Vec::new();
                assert(tokens_view(done@) =~= before.push(done@.last()@));
            }
        } else if inside {
            current.push(c);
        } else {
            let mut single: Vec<char> = Vec::new();
            single.push(c);
            done.push(single);
            assert(tokens_view(done@) =~= before.push(seq![c]));
        }
        i = i + 1;
    }
    assert(s@.take(s.len() as int) =~= s@);
    strings_of(&done)
}

/// The lower-case form of an ASCII capital; any other character itself.
pub fn to_ascii_lower(c: char) -> (r: char)
    ensures
        r == ascii_lower(c),
{
    if c >= 'A' && c <= 'Z' {
        ((c as u8) + 32) as char
    } else {
        c
    }
}

/// The code point of a character.
pub fn code_point_of(c: char) -> (r: u32)
    ensures
        r as int == c as int,
        is_scalar_value(r as int),
{
    c as u32
}

/// The number of bytes a character takes in UTF-8.
pub fn width_of(c: char) -> (r: usize)
    ensures
        r == utf8_width(c),
{
    if c <= '\u{7f}' {
        1
    } else if c <= '\u{7ff}' {
        2
    } else if c <= '\u{ffff}' {
        3
    } else {
        4
    }
}

/// A text takes at least one byte per character.
pub proof fn lemma_utf8_len_at_least(s: Seq<char>)
    ensures
        utf8_len(s) >= s.len(),
    decreases s.len(),
{
    if s.len() > 0 {
        lemma_utf8_len_at_least(s.drop_last());
    }
}

/// The bytes of a text of at most two characters.
pub proof fn lemma_utf8_len_short(s: Seq<char>)
    ensures
        s.len() == 0 ==> utf8_len(s) == 0,
        s.len() == 1 ==> utf8_len(s) == utf8_width(s[0]),
        s.len() == 2 ==> utf8_len(s) == utf8_width(s[0]) + utf8_width(s[1]),
        s.len() >= 3 ==> utf8_len(s) >= 3,
{
    lemma_utf8_len_at_least(s);
    if s.len() == 1 {
        assert(utf8_len(s.drop_last()) == 0);
    }
    if s.len() == 2 {
        let t = s.drop_last();
        assert(utf8_len(t.drop_last()) == 0);
        assert(utf8_len(t) == utf8_width(s[0]));
    }
}

/// Whether a text takes at most two bytes.
fn fits_two_bytes(code: &Vec<char>) -> (r: bool)
    ensures
        r == (utf8_len(code@) <= 2),
{
    proof {
        lemma_utf8_len_short(code@);
    }
    if code.len() == 0 {
        true
    } else if code.len() == 1 {
        width_of(code[0]) <= 2
    } else if code.len() == 2 {
        width_of(code[0]) + width_of(code[1]) <= 2
    } else {
        false
    }
}

/// Whether a code can be cut after its second byte.
fn cuttable(code: &Vec<char>) -> (r: bool)
    ensures
        r == can_cut(code@),
{
    if fits_two_bytes(code) {
        true
    } else {
        proof {
            lemma_utf8_len_short(code@);
        }
        if width_of(code[0]) == 2 {
            true
        } else if code.len() >= 2 {
            width_of(code[0]) == 1 && width_of(code[1]) == 1
        } else {
            false
        }
    }
}

/// Cuts a code to its first two bytes.
fn cut_code(code: &Vec<char>) -> (r: Vec<char>)
    requires
        can_cut(code@),
    ensures
        r@ == cut(code@),
{
    if fits_two_bytes(code) {
        copy_chars(code)
    } else {
        proof {
            lemma_utf8_len_short(code@);
        }
        let mut out: Vec<char> = Vec::new();
        out.push(code[0]);
        if !(width_of(code[0]) == 2) {
            out.push(code[1]);
        }
        out
    }
}

/// Tells what a character is to a code column.
pub fn classify(c: char) -> (r: LetterCase)
    ensures
        r == case_of(c),
{
    if is_upper_case(c) {
        LetterCase::Upper
    } else if is_lower_case(c) {
        LetterCase::Lower
    } else {
        LetterCase::Other
    }
}

/// Tells what each character of a column is.
pub fn classify_all(s: &Vec<char>) -> (r: Vec<LetterCase>)
    ensures
        r@ == cases_of(s@),
{
    let mut cases: Vec<LetterCase> = Vec::new();
    let mut i: usize = 0;
    while i < s.len()
        invariant
            i <= s.len(),
            cases@.len() == i,
            forall|j: int| 0 <= j < i ==> #[trigger] cases@[j] == case_of(s@[j]),
        decreases s.len() - i,
    {
        cases.push(classify(s[i]));
        i = i + 1;
    }
    cases
}

/// Reads a code column into its full codes, given what each of its
/// characters is, or reports that a letter cannot enter its code.
pub fn scan_with_cases(s: &Vec<char>, cases: &Vec<LetterCase>) -> (r: Option<Vec<Vec<char>>>)
    requires
        cases@.len() == s@.len(),
    ensures
        match r {
            Some(codes) => scan_defined_with(s@, cases@) && tokens_view(codes@) == full_codes_with(
                s@,
                cases@,
            ),
            None => !scan_defined_with(s@, cases@),
        },
{
    let mut done: Vec<Vec<char>> = Vec::new();
    let mut current: Vec<char> = Vec::new();
    let mut inside = false;
    let mut i: usize = 0;
    assert(tokens_view(done@) =~= Seq::<Seq<char>>::empty());
    while i < s.len()
        invariant
            i <= s.len(),
            cases@.len() == s@.len(),
            scan_defined_with(s@.take(i as int), cases@.take(i as int)),
            code_scan_with(s@.take(i as int), cases@.take(i as int)) == (Scan {
                done: tokens_view(done@),
                current: current@,
                inside,
            }),
        decreases s.len() - i,
    {
        let c = s[i];
        let case = cases[i];
        let ghost before = tokens_view(done@);
        proof {
            assert(s@.take(i + 1).drop_last() =~= s@.take(i as int));
            assert(cases@.take(i + 1).drop_last() =~= cases@.take(i as int));
        }
        if case == LetterCase::Upper {
            if current.len() > 0 {
                done.push(current);
                assert(tokens_view(done@) =~= before.push(done@.last()@));
            }
            current = Vec::new();
            current.push(to_ascii_lower(c));
            inside = true;
        } else if case == LetterCase::Lower && inside {
            if c <= '\u{7f}' {
                current.push(c);
            } else {
                let code_point = code_point_of(c);
                let moved = if code_point >= CIRCLED_OFFSET {
                    char::from_u32(code_point - CIRCLED_OFFSET)
                } else {
                    None
                };
                match moved {
                    Some(letter) => {
                        current.push(letter);
                    },
                    None => {
                        proof {
                            lemma_scan_undefined_extends(s@, cases@, i + 1);
                        }
                        return None;
                    },
                }
            }
        } else if current.len() > 0 {
            done.push(current);
            assert(tokens_view(done@) =~= before.push(done@.last()@));
            current = Vec::new();
            inside = false;
        }
        i = i + 1;
    }
    assert(s@.take(s.len() as int) =~= s@);
    assert(cases@.take(s.len() as int) =~= cases@);
    if current.len() > 0 {
        done.push(current);
    }
    Some(done)
}

/// Reads a code column into its full codes, or reports that a letter
/// cannot enter its code.
fn scan_codes(s: &Vec<char>) -> (r: Option<Vec<Vec<char>>>)
    ensures
        match r {
            Some(codes) => code_scan_defined(s@) && tokens_view(codes@) == full_codes(s@),
            None => !code_scan_defined(s@),
        },
{
    let cases = classify_all(s);
    scan_with_cases(s, &cases)
}

/// Once a prefix of a column cannot be read, the column cannot.
pub proof fn lemma_scan_undefined_extends(s: Seq<char>, cases: Seq<LetterCase>, k: int)
    requires
        0 <= k <= s.len(),
        cases.len() == s.len(),
        !scan_defined_with(s.take(k), cases.take(k)),
    ensures
        !scan_defined_with(s, cases),
    decreases s.len(),
{
    if k == s.len() {
        assert(s.take(k) =~= s);
        assert(cases.take(k) =~= cases);
    } else {
        assert(s.drop_last().take(k) =~= s.take(k));
        assert(cases.drop_last().take(k) =~= cases.take(k));
        lemma_scan_undefined_extends(s.drop_last(), cases.drop_last(), k);
    }
}

/// Whether a code column can be read.
pub fn can_extract_codes(codes: &str, is_sun_moon: bool) -> (r: bool)
    ensures
        r == codes_readable(codes@, is_sun_moon),
{
    let s = chars_of(codes);
    match scan_codes(&s) {
        None => false,
        Some(found) => {
            if is_sun_moon {
                return true;
            }
            let mut i: usize = 0;
            while i < found.len()
                invariant
                    i <= found.len(),
                    !is_sun_moon,
                    code_scan_defined(codes@),
                    tokens_view(found@) == full_codes(codes@),
                    forall|j: int| 0 <= j < i ==> can_cut(#[trigger] full_codes(codes@)[j]),
                decreases found.len() - i,
            {
                if !cuttable(&found[i]) {
                    assert(!can_cut(full_codes(codes@)[i as int]));
                    return false;
                }
                i = i + 1;
            }
            true
        },
    }
}

/// Splits a code column into its codes. `is_sun_moon` names the scheme
/// that keeps codes in full; every other scheme cuts them to two bytes.
pub fn extract_codes(codes: &str, is_sun_moon: bool) -> (r: Vec<String>)
    requires
        codes_readable(codes@, is_sun_moon),
    ensures
        texts_view(r@) == code_tokens(codes@, is_sun_moon),
{
    let s = chars_of(codes);
    let found = match scan_codes(&s) {
        Some(found) => found,
        None => Vec::new(),
    };
    if is_sun_moon {
        return strings_of(&found);
    }
    let mut out: Vec<Vec<char>> = Vec::new();
    let mut i: usize = 0;
    while i < found.len()
        invariant
            i <= found.len(),
            tokens_view(found@) == full_codes(codes@),
            codes_readable(codes@, false),
            out@.len() == i,
            forall|j: int| 0 <= j < i ==> (#[trigger] out@[j])@ == cut(full_codes(codes@)[j]),
        decreases found.len() - i,
    {
        assert(can_cut(full_codes(codes@)[i as int]));
        out.push(cut_code(&found[i]));
        i = i + 1;
    }
    strings_of(&out)
}

/// Splits a code column into its codes where it can be read, and gives
/// nothing where it cannot.
pub fn try_extract_codes(codes: &str, is_sun_moon: bool) -> (r: Option<Vec<String>>)
    ensures
        match r {
            Some(found) => codes_readable(codes@, is_sun_moon) && texts_view(found@)
                == code_tokens(codes@, is_sun_moon),
            None => !codes_readable(codes@, is_sun_moon),
        },
{
    if can_extract_codes(codes, is_sun_moon) {
        Some(extract_codes(codes, is_sun_moon))
    } else {
        None
    }
}

} // verus!
