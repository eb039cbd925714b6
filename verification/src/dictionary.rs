//! Reading a decomposition dictionary: which radicals occur how often,
//! and which code each radical has.

use vstd::prelude::*;
use vstd::string::StringExecFns;
use crate::convert::{can_extract_codes, code_tokens, codes_readable, extract_codes};
use crate::convert::{extract_radicals, radical_tokens, utf8_len, utf8_width, width_of};
use crate::counts::{count_of, lemma_entry_position, with_count, Entry};
use crate::counts::PracticeCounts;
use crate::config::PracticeOrder;
use crate::number::{decimal, push_decimal};
use crate::order::{arrangement, rearranged};
use crate::radical::{catalog_view, radical_of, Radical, RadicalView};
use crate::state::{texts_view, GameState};
use crate::table::{find_line_end, line_end};
use crate::text::{find_char, has_prefix, lemma_position_from, position_from, slice_of};
use crate::text::{chars_of, starts_with, string_of};
use crate::text::{trim_chars, trimmed};

verus! {

/// Where the search for the bracketed part of an entry starts: at the
/// first tab, or, in a line without one, behind its first two bytes.
/// There is no such place where the second byte ends no character.
pub open spec fn search_start(line: Seq<char>) -> Option<int> {
    let tab = position_from(line, '\t', 0);
    if tab < line.len() {
        Some(tab)
    } else if line.len() >= 1 && utf8_width(line[0]) == 2 {
        Some(1)
    } else if line.len() >= 2 && utf8_width(line[0]) == 1 && utf8_width(line[1]) == 1 {
        Some(2)
    } else {
        None
    }
}

/// What a line holds between its brackets.
pub enum Bracketed {
    /// The line cannot be read: it has no place to start from, or its
    /// closing bracket stands before its opening one.
    Unreadable,
    /// The line lacks a bracket and holds no entry.
    Absent,
    /// The text between the first opening and the first closing bracket.
    Content(Seq<char>),
}

/// The bracketed part of a line.
pub open spec fn bracketed(line: Seq<char>) -> Bracketed {
    match search_start(line) {
        None => Bracketed::Unreadable,
        Some(start) => {
            let open = position_from(line, '[', start);
            let close = position_from(line, ']', start);
            if open >= line.len() || close >= line.len() {
                Bracketed::Absent
            } else if close < open {
                Bracketed::Unreadable
            } else {
                Bracketed::Content(line.subrange(open + 1, close))
            }
        },
    }
}

/// The text holds the letters `CJK` in a row.
pub open spec fn mentions_cjk(content: Seq<char>) -> bool {
    exists|i: int|
        0 <= i && i + 3 <= content.len() && #[trigger] content[i] == 'C' && content[i + 1] == 'J'
            && content[i + 2] == 'K'
}

/// One entry of the dictionary as plain values.
pub struct EntryView {
    pub radicals: Seq<Seq<char>>,
    pub codes: Seq<Seq<char>>,
    pub counting: bool,
}

/// What the bracketed part of a line says.
pub enum Parsed {
    /// The code column cannot be read.
    Unreadable,
    /// There is no second field, or the decomposition is empty.
    Absent,
    /// The radicals of the first field, the codes of the second, and
    /// whether the glyph counts towards the frequencies.
    Entry(EntryView),
}

/// Reads the bracketed part of a line: fields are separated by commas,
/// the first is the decomposition and the second the code column.
pub open spec fn parsed(content: Seq<char>, keep_long: bool) -> Parsed {
    let first = position_from(content, ',', 0);
    let second = position_from(content, ',', first + 1);
    let radicals = trimmed(content.take(first));
    let codes = trimmed(content.subrange(first + 1, second));
    if first >= content.len() || radicals.len() == 0 {
        Parsed::Absent
    } else if !codes_readable(codes, keep_long) {
        Parsed::Unreadable
    } else {
        Parsed::Entry(
            EntryView {
                radicals: radical_tokens(radicals),
                codes: code_tokens(codes, keep_long),
                counting: mentions_cjk(content),
            },
        )
    }
}

/// One entry of the dictionary.
#[derive(Debug, Clone)]
pub struct DictionaryEntry {
    /// The radicals of the glyph.
    pub radicals: Vec<String>,
    /// The codes of the radicals.
    pub codes: Vec<String>,
    /// Whether the glyph counts towards the frequencies.
    pub counting: bool,
}

impl View for DictionaryEntry {
    type V = EntryView;

    open spec fn view(&self) -> EntryView {
        EntryView {
            radicals: texts_view(self.radicals@),
            codes: texts_view(self.codes@),
            counting: self.counting,
        }
    }
}

/// Finds where the search for the brackets starts.
pub fn find_search_start(line: &Vec<char>) -> (r: Option<usize>)
    ensures
        match r {
            Some(start) => search_start(line@) == Some(start as int) && start <= line@.len(),
            None => search_start(line@) is None,
        },
{
    let tab = find_char(line, '\t', 0);
    if tab < line.len() {
        Some(tab)
    } else if line.len() >= 1 && width_of(line[0]) == 2 {
        Some(1)
    } else if line.len() >= 2 && width_of(line[0]) == 1 && width_of(line[1]) == 1 {
        Some(2)
    } else {
        None
    }
}

/// Whether a text holds the letters `CJK` in a row.
pub fn has_cjk(content: &Vec<char>) -> (r: bool)
    ensures
        r == mentions_cjk(content@),
{
    if content.len() < 3 {
        return false;
    }
    let last = content.len() - 3;
    let mut i: usize = 0;
    while i <= last
        invariant
            i <= last + 1,
            last + 3 == content.len(),
            forall|j: int|
                0 <= j < i ==> !(#[trigger] content@[j] == 'C' && content@[j + 1] == 'J'
                    && content@[j + 2] == 'K'),
        decreases last + 1 - i,
    {
        if content[i] == 'C' && content[i + 1] == 'J' && content[i + 2] == 'K' {
            return true;
        }
        i = i + 1;
    }
    false
}

/// The outcome of reading something that may be absent or unreadable.
pub enum Reading<T> {
    /// It cannot be read.
    Unreadable,
    /// There is nothing to read.
    Absent,
    /// What was read.
    Found(T),
}

/// Finds the bracketed part of a line.
pub fn find_bracketed(line: &Vec<char>) -> (r: Reading<Vec<char>>)
    ensures
        match r {
            Reading::Unreadable => bracketed(line@) is Unreadable,
            Reading::Absent => bracketed(line@) is Absent,
            Reading::Found(content) => bracketed(line@) == Bracketed::Content(content@),
        },
{
    match find_search_start(line) {
        None => Reading::Unreadable,
        Some(start) => {
            let open = find_char(line, '[', start);
            let close = find_char(line, ']', start);
            if open >= line.len() || close >= line.len() {
                Reading::Absent
            } else if close < open {
                Reading::Unreadable
            } else {
                proof {
                    lemma_position_from(line@, '[', start as int);
                    lemma_position_from(line@, ']', start as int);
                }
                Reading::Found(slice_of(line, open + 1, close))
            }
        },
    }
}

/// Reads the bracketed part of a line.
pub fn parse_content(content: &Vec<char>, keep_long: bool) -> (r: Reading<DictionaryEntry>)
    ensures
        match r {
            Reading::Unreadable => parsed(content@, keep_long) is Unreadable,
            Reading::Absent => parsed(content@, keep_long) is Absent,
            Reading::Found(entry) => parsed(content@, keep_long) == Parsed::Entry(entry@),
        },
{
    let first = find_char(content, ',', 0);
    if first >= content.len() {
        return Reading::Absent;
    }
    let second = find_char(content, ',', first + 1);
    let head = slice_of(content, 0, first);
    let radicals = string_of(&trim_chars(&head));
    let codes = string_of(&trim_chars(&slice_of(content, first + 1, second)));
    if radicals.as_str().is_empty() {
        return Reading::Absent;
    }
    if !can_extract_codes(codes.as_str(), keep_long) {
        return Reading::Unreadable;
    }
    Reading::Found(
        DictionaryEntry {
            radicals: extract_radicals(radicals.as_str()),
            codes: extract_codes(codes.as_str(), keep_long),
            counting: has_cjk(content),
        },
    )
}

/// A radical with its code.
pub type CodeEntry = (Seq<char>, Seq<char>);

/// The first position at or after `i` whose radical is `radical`, or the
/// number of entries if there is none.
pub open spec fn code_position(codes: Seq<CodeEntry>, radical: Seq<char>, i: int) -> int
    decreases codes.len() - i,
{
    if 0 <= i < codes.len() && codes[i].0 != radical {
        code_position(codes, radical, i + 1)
    } else {
        i
    }
}

/// The codes with the code of `radical` set: its entry is replaced where
/// it stands, or a new one is added at the end.
pub open spec fn with_code(codes: Seq<CodeEntry>, radical: Seq<char>, code: Seq<char>) -> Seq<
    CodeEntry,
> {
    let i = code_position(codes, radical, 0);
    if 0 <= i < codes.len() {
        codes.update(i, (radical, code))
    } else {
        codes.push((radical, code))
    }
}

/// The radical whose code a second radical shares.
pub open spec fn shared_from() -> Seq<char> {
    "{横日}"@
}

/// The radical that takes the code of `shared_from`.
pub open spec fn shared_to() -> Seq<char> {
    "{曾中}"@
}

/// A code is kept for a radical that has none yet, or only one of fewer
/// bytes.
pub open spec fn improves(codes: Seq<CodeEntry>, radical: Seq<char>, code: Seq<char>) -> bool {
    let i = code_position(codes, radical, 0);
    !(0 <= i < codes.len()) || utf8_len(codes[i].1) < utf8_len(code)
}

/// The codes after a radical was seen with a code: the code is kept where
/// it improves on what is known, and then shared where it is to be.
pub open spec fn noted(codes: Seq<CodeEntry>, radical: Seq<char>, code: Seq<char>) -> Seq<
    CodeEntry,
> {
    if improves(codes, radical, code) {
        let kept = with_code(codes, radical, code);
        if radical == shared_from() {
            with_code(kept, shared_to(), code)
        } else {
            kept
        }
    } else {
        codes
    }
}

/// The counts with one more occurrence of `radical`.
pub open spec fn bumped(counts: Seq<Entry>, radical: Seq<char>) -> Seq<Entry> {
    match count_of(counts, radical) {
        Some(c) => with_count(counts, radical, c + 1),
        None => with_count(counts, radical, 1),
    }
}

/// The counts with one more occurrence of each of `radicals`.
pub open spec fn counted(counts: Seq<Entry>, radicals: Seq<Seq<char>>) -> Seq<Entry>
    decreases radicals.len(),
{
    if radicals.len() == 0 {
        counts
    } else {
        bumped(counted(counts, radicals.drop_last()), radicals.last())
    }
}

/// No count has left the range of `u32`.
pub open spec fn counts_fit(counts: Seq<Entry>) -> bool {
    forall|i: int| 0 <= i < counts.len() ==> (#[trigger] counts[i]).1 <= u32::MAX
}

/// What has been gathered from the lines read so far.
pub struct Gathered {
    /// Whether the line of dots that opens the entries was passed.
    pub processing: bool,
    /// Whether the dictionary names the scheme that keeps codes in full.
    pub keep_long: bool,
    /// The code of each radical.
    pub codes: Seq<CodeEntry>,
    /// How often each radical occurs.
    pub counts: Seq<Entry>,
}

/// Nothing gathered yet.
pub open spec fn nothing_gathered() -> Gathered {
    Gathered { processing: false, keep_long: false, codes: Seq::empty(), counts: Seq::empty() }
}

/// What an entry adds. An entry whose radicals and codes differ in number
/// adds nothing. Otherwise every radical is counted where the glyph
/// counts, and a glyph of at most three radicals gives the code of its
/// last one.
pub open spec fn with_entry(g: Gathered, e: EntryView) -> Gathered {
    let n = e.radicals.len() as int;
    if n != e.codes.len() {
        g
    } else {
        Gathered {
            counts: if e.counting {
                counted(g.counts, e.radicals)
            } else {
                g.counts
            },
            codes: if 0 < n < 4 {
                noted(g.codes, e.radicals[n - 1], e.codes[n - 1])
            } else {
                g.codes
            },
            ..g
        }
    }
}

/// A line is passed over: it is empty or a comment.
pub open spec fn is_passed_over(line: Seq<char>) -> bool {
    line.len() == 0 || line[0] == '#'
}

/// A comment names the scheme that keeps codes in full.
pub open spec fn names_long_scheme(line: Seq<char>) -> bool {
    has_prefix(line, "# 日月"@) || has_prefix(line, "# 宇浩日月"@)
}

/// A line opens the entries: it begins with three dots.
pub open spec fn opens_entries(line: Seq<char>) -> bool {
    has_prefix(line, "..."@)
}

/// What one line adds to what was gathered, or nothing where the line
/// cannot be read or a count leaves the range of `u32`.
pub open spec fn with_line(g: Gathered, raw: Seq<char>) -> Option<Gathered> {
    let line = trimmed(raw);
    if is_passed_over(line) {
        Some(Gathered { keep_long: g.keep_long || names_long_scheme(line), ..g })
    } else if !g.processing {
        Some(Gathered { processing: opens_entries(line), ..g })
    } else {
        match bracketed(line) {
            Bracketed::Unreadable => None,
            Bracketed::Absent => Some(g),
            Bracketed::Content(content) => match parsed(content, g.keep_long) {
                Parsed::Unreadable => None,
                Parsed::Absent => Some(g),
                Parsed::Entry(e) => if counts_fit(with_entry(g, e).counts) {
                    Some(with_entry(g, e))
                } else {
                    None
                },
            },
        }
    }
}

/// What the lines from position `i` on add to what was gathered.
pub open spec fn gathered_from(s: Seq<char>, i: int, g: Gathered) -> Option<Gathered>
    decreases s.len() - i,
{
    if i < 0 || i >= s.len() {
        Some(g)
    } else {
        let e = line_end(s, i);
        match with_line(g, s.subrange(i, e)) {
            None => None,
            Some(next) => if i <= e < s.len() {
                gathered_from(s, e + 1, next)
            } else {
                Some(next)
            },
        }
    }
}

/// What a whole dictionary gives, or nothing where it cannot be read.
pub open spec fn gathered(s: Seq<char>) -> Option<Gathered> {
    gathered_from(s, 0, nothing_gathered())
}

/// Counting an occurrence lowers no count and drops no entry.
pub proof fn lemma_bumped_grows(counts: Seq<Entry>, radical: Seq<char>)
    ensures
        bumped(counts, radical).len() >= counts.len(),
        forall|i: int|
            0 <= i < counts.len() ==> (#[trigger] bumped(counts, radical)[i]).1 >= counts[i].1,
{
    lemma_entry_position(counts, radical, 0);
}

/// Counting more occurrences lowers no count and drops no entry.
pub proof fn lemma_counted_grows(counts: Seq<Entry>, radicals: Seq<Seq<char>>, k: int)
    requires
        0 <= k <= radicals.len(),
    ensures
        counted(counts, radicals).len() >= counted(counts, radicals.take(k)).len(),
        forall|i: int|
            0 <= i < counted(counts, radicals.take(k)).len() ==> (#[trigger] counted(
                counts,
                radicals,
            )[i]).1 >= counted(counts, radicals.take(k))[i].1,
    decreases radicals.len(),
{
    if k == radicals.len() {
        assert(radicals.take(k) =~= radicals);
    } else {
        let head = radicals.drop_last();
        assert(head.take(k) =~= radicals.take(k));
        lemma_counted_grows(counts, head, k);
        lemma_bumped_grows(counted(counts, head), radicals.last());
    }
}

/// What a vector of radicals with their codes stands for.
pub open spec fn codes_view(v: Seq<(String, String)>) -> Seq<CodeEntry> {
    Seq::new(v.len(), |i: int| (v[i].0@, v[i].1@))
}

/// What is gathered while a dictionary is read.
#[derive(Debug, Clone)]
pub struct Extraction {
    /// Whether the line of dots that opens the entries was passed.
    pub processing: bool,
    /// Whether the dictionary names the scheme that keeps codes in full.
    pub keep_long: bool,
    /// The code of each radical, in the order the radicals were first met.
    pub codes: Vec<(String, String)>,
    /// How often each radical occurs.
    pub counts: PracticeCounts,
}

impl View for Extraction {
    type V = Gathered;

    open spec fn view(&self) -> Gathered {
        Gathered {
            processing: self.processing,
            keep_long: self.keep_long,
            codes: codes_view(self.codes@),
            counts: self.counts@,
        }
    }
}

/// A prefix of a text takes no more bytes than the text.
pub proof fn lemma_utf8_len_take(s: Seq<char>, k: int)
    requires
        0 <= k <= s.len(),
    ensures
        utf8_len(s.take(k)) <= utf8_len(s),
    decreases s.len(),
{
    if k == s.len() {
        assert(s.take(k) =~= s);
    } else {
        assert(s.drop_last().take(k) =~= s.take(k));
        lemma_utf8_len_take(s.drop_last(), k);
    }
}

/// The number of bytes a text takes in UTF-8. It always fits: a vector
/// holds at most `usize::MAX` characters of at most four bytes.
pub fn byte_length(s: &Vec<char>) -> (r: u128)
    ensures
        r == utf8_len(s@),
{
    let mut sum: u128 = 0;
    let mut i: usize = 0;
    while i < s.len()
        invariant
            i <= s.len(),
            sum == utf8_len(s@.take(i as int)),
            sum <= 4 * i,
        decreases s.len() - i,
    {
        assert(s@.take(i + 1).drop_last() =~= s@.take(i as int));
        sum = sum + width_of(s[i]) as u128;
        i = i + 1;
    }
    assert(s@.take(s.len() as int) =~= s@);
    sum
}

/// Finds the entry of a radical among the codes.
fn find_code(codes: &Vec<(String, String)>, radical: &String) -> (r: Option<usize>)
    ensures
        match r {
            Some(i) => i == code_position(codes_view(codes@), radical@, 0) && i < codes@.len(),
            None => code_position(codes_view(codes@), radical@, 0) >= codes@.len(),
        },
{
    let ghost list = codes_view(codes@);
    let mut i: usize = 0;
    while i < codes.len()
        invariant
            i <= codes.len(),
            list == codes_view(codes@),
            code_position(list, radical@, 0) == code_position(list, radical@, i as int),
        decreases codes.len() - i,
    {
        if codes[i].0 == *radical {
            return Some(i);
        }
        i = i + 1;
    }
    None
}

/// Sets the code of a radical.
fn set_code(codes: &mut Vec<(String, String)>, radical: String, code: String)
    ensures
        codes_view(final(codes)@) == with_code(codes_view(old(codes)@), radical@, code@),
{
    match find_code(codes, &radical) {
        Some(i) => {
            codes.set(i, (radical, code));
        },
        None => {
            codes.push((radical, code));
        },
    }
}

/// Takes note of a radical seen with a code.
pub fn note_code(codes: &mut Vec<(String, String)>, radical: &String, code: &String)
    ensures
        codes_view(final(codes)@) == noted(codes_view(old(codes)@), radical@, code@),
{
    let better = match find_code(codes, radical) {
        Some(i) => {
            byte_length(&chars_of(codes[i].1.as_str())) < byte_length(&chars_of(code.as_str()))
        },
        None => true,
    };
    if better {
        set_code(codes, radical.clone(), code.clone());
        if *radical == String::from_str("{横日}") {
            set_code(codes, String::from_str("{曾中}"), code.clone());
        }
    }
}

/// Counts one occurrence of each radical. Returns whether every count
/// stayed in the range of `u32`; where one did not, the counts are left
/// as far as they were counted.
pub fn count_radicals(counts: &mut PracticeCounts, radicals: &Vec<String>) -> (r: bool)
    requires
        counts_fit(old(counts)@),
    ensures
        r == counts_fit(counted(old(counts)@, texts_view(radicals@))),
        r ==> final(counts)@ == counted(old(counts)@, texts_view(radicals@)),
{
    let ghost start = counts@;
    let ghost all = texts_view(radicals@);
    let mut k: usize = 0;
    while k < radicals.len()
        invariant
            k <= radicals.len(),
            all == texts_view(radicals@),
            start == old(counts)@,
            counts@ == counted(start, all.take(k as int)),
            counts_fit(counts@),
        decreases radicals.len() - k,
    {
        let ghost before = counts@;
        proof {
            assert(all.take(k + 1).drop_last() =~= all.take(k as int));
            lemma_entry_position(before, radicals@[k as int]@, 0);
        }
        match counts.find(&radicals[k]) {
            Some(i) => {
                let c = counts.entries[i].1;
                if c >= 0xFFFF_FFFF {
                    proof {
                        lemma_counted_grows(start, all, k + 1);
                        assert(counted(start, all)[i as int].1 > u32::MAX);
                    }
                    return false;
                }
                counts.change(i, c + 1);
            },
            None => {
                counts.insert(radicals[k].clone(), 1);
            },
        }
        k = k + 1;
    }
    assert(all.take(radicals.len() as int) =~= all);
    true
}

impl Extraction {
    /// Nothing gathered yet.
    pub fn new() -> (r: Extraction)
        ensures
            r@ == nothing_gathered(),
            counts_fit(r@.counts),
    {
        let r = Extraction {
            processing: false,
            keep_long: false,
            codes: Vec::new(),
            counts: PracticeCounts::new(),
        };
        assert(codes_view(r.codes@) =~= Seq::<CodeEntry>::empty());
        r
    }

    /// Adds what an entry gives. Returns whether every count stayed in
    /// the range of `u32`.
    pub fn add_entry(&mut self, entry: &DictionaryEntry) -> (r: bool)
        requires
            counts_fit(old(self)@.counts),
        ensures
            r == counts_fit(with_entry(old(self)@, entry@).counts),
            r ==> final(self)@ == with_entry(old(self)@, entry@),
    {
        let n = entry.radicals.len();
        if n != entry.codes.len() {
            return true;
        }
        if entry.counting {
            if !count_radicals(&mut self.counts, &entry.radicals) {
                return false;
            }
        }
        if 0 < n && n < 4 {
            note_code(&mut self.codes, &entry.radicals[n - 1], &entry.codes[n - 1]);
        }
        true
    }

    /// Adds what a line gives. Returns whether the line could be read
    /// and every count stayed in the range of `u32`.
    pub fn add_line(&mut self, raw: &Vec<char>) -> (r: bool)
        requires
            counts_fit(old(self)@.counts),
        ensures
            r == with_line(old(self)@, raw@) is Some,
            r ==> final(self)@ == with_line(old(self)@, raw@)->0 && counts_fit(final(self)@.counts),
    {
        let line = trim_chars(raw);
        if line.len() == 0 || line[0] == '#' {
            if starts_with(&line, &chars_of("# 日月")) || starts_with(&line, &chars_of("# 宇浩日月")) {
                self.keep_long = true;
            }
            return true;
        }
        if !self.processing {
            if starts_with(&line, &chars_of("...")) {
                self.processing = true;
            }
            return true;
        }
        match find_bracketed(&line) {
            Reading::Unreadable => false,
            Reading::Absent => true,
            Reading::Found(content) => match parse_content(&content, self.keep_long) {
                Reading::Unreadable => false,
                Reading::Absent => true,
                Reading::Found(entry) => self.add_entry(&entry),
            },
        }
    }

    /// Reads a whole dictionary, or gives nothing where a line cannot be
    /// read or a count leaves the range of `u32`.
    pub fn read(content: &str) -> (r: Option<Extraction>)
        ensures
            match r {
                Some(found) => gathered(content@) == Some(found@),
                None => gathered(content@) is None,
            },
    {
        let s = chars_of(content);
        let mut state = Extraction::new();
        let mut i: usize = 0;
        while i < s.len()
            invariant
                s@ == content@,
                counts_fit(state@.counts),
                gathered(s@) == gathered_from(s@, i as int, state@),
            decreases s.len() - i,
        {
            let e = find_line_end(&s, i);
            let line = slice_of(&s, i, e);
            if !state.add_line(&line) {
                return None;
            }
            if e == s.len() {
                return Some(state);
            }
            i = e + 1;
        }
        Some(state)
    }
}

/// The codes as rows of a code table: code first, radical second.
pub open spec fn code_rows(codes: Seq<CodeEntry>) -> Seq<RadicalView> {
    Seq::new(codes.len(), |i: int| radical_of(codes[i].1, codes[i].0, 0))
}

/// The counts as rows of a frequency table.
pub open spec fn count_rows(counts: Seq<Entry>) -> Seq<RadicalView> {
    Seq::new(counts.len(), |i: int| radical_of(Seq::empty(), counts[i].0, counts[i].1))
}

/// Rows in the stable order of a rule.
pub open spec fn sorted_rows(rows: Seq<RadicalView>, order: PracticeOrder) -> Seq<RadicalView> {
    rearranged(rows, arrangement(rows, order))
}

/// One line of a code table.
pub open spec fn code_line(row: RadicalView) -> Seq<char> {
    trimmed(row.code) + seq![' '] + trimmed(row.text) + seq!['\n']
}

/// One line of a frequency table.
pub open spec fn count_line(row: RadicalView) -> Seq<char> {
    trimmed(row.text) + seq![' '] + decimal(row.frequency) + seq!['\n']
}

/// The text of a code table.
pub open spec fn code_table(rows: Seq<RadicalView>) -> Seq<char>
    decreases rows.len(),
{
    if rows.len() == 0 {
        Seq::empty()
    } else {
        code_table(rows.drop_last()) + code_line(rows.last())
    }
}

/// The text of a frequency table.
pub open spec fn count_table(rows: Seq<RadicalView>) -> Seq<char>
    decreases rows.len(),
{
    if rows.len() == 0 {
        Seq::empty()
    } else {
        count_table(rows.drop_last()) + count_line(rows.last())
    }
}

/// The two tables that a dictionary gives.
#[derive(Debug, Clone)]
pub struct Converted {
    /// The code table: code and radical, ascending by code.
    pub code_table: String,
    /// The frequency table: radical and count, descending by count.
    pub count_table: String,
}

/// Appends the characters of `piece` to `out`.
fn push_all(out: &mut Vec<char>, piece: &Vec<char>)
    ensures
        final(out)@ == old(out)@ + piece@,
{
    let mut i: usize = 0;
    while i < piece.len()
        invariant
            i <= piece.len(),
            out@ == old(out)@ + piece@.take(i as int),
        decreases piece.len() - i,
    {
        out.push(piece[i]);
        i = i + 1;
    }
}

/// Writes a code table.
pub fn write_code_table(rows: &Vec<Radical>) -> (r: String)
    ensures
        r@ == code_table(catalog_view(rows@)),
{
    let ghost all = catalog_view(rows@);
    let mut out: Vec<char> = Vec::new();
    let mut i: usize = 0;
    while i < rows.len()
        invariant
            i <= rows.len(),
            all == catalog_view(rows@),
            out@ == code_table(all.take(i as int)),
        decreases rows.len() - i,
    {
        assert(all.take(i + 1).drop_last() =~= all.take(i as int));
        push_all(&mut out, &trim_chars(&chars_of(rows[i].code.as_str())));
        out.push(' ');
        push_all(&mut out, &trim_chars(&chars_of(rows[i].text.as_str())));
        out.push('\n');
        i = i + 1;
    }
    assert(all.take(rows.len() as int) =~= all);
    string_of(&out)
}

/// Writes a frequency table.
pub fn write_count_table(rows: &Vec<Radical>) -> (r: String)
    ensures
        r@ == count_table(catalog_view(rows@)),
{
    let ghost all = catalog_view(rows@);
    let mut out: Vec<char> = Vec::new();
    let mut i: usize = 0;
    while i < rows.len()
        invariant
            i <= rows.len(),
            all == catalog_view(rows@),
            out@ == count_table(all.take(i as int)),
        decreases rows.len() - i,
    {
        assert(all.take(i + 1).drop_last() =~= all.take(i as int));
        push_all(&mut out, &trim_chars(&chars_of(rows[i].text.as_str())));
        out.push(' ');
        push_decimal(&mut out, rows[i].frequency as u128);
        out.push('\n');
        i = i + 1;
    }
    assert(all.take(rows.len() as int) =~= all);
    string_of(&out)
}

impl Extraction {
    /// The codes as rows, in the order the radicals were first met.
    pub fn code_rows(&self) -> (r: Vec<Radical>)
        ensures
            catalog_view(r@) == code_rows(self@.codes),
    {
        let mut rows: Vec<Radical> = Vec::new();
        let mut i: usize = 0;
        while i < self.codes.len()
            invariant
                i <= self.codes.len(),
                rows@.len() == i,
                forall|j: int| 0 <= j < i ==> (#[trigger] rows@[j])@ == code_rows(self@.codes)[j],
            decreases self.codes.len() - i,
        {
            let row = Radical::from_code(
                &chars_of(self.codes[i].1.as_str()),
                &chars_of(self.codes[i].0.as_str()),
                0,
            );
            rows.push(row);
            i = i + 1;
        }
        rows
    }

    /// The counts as rows, in the order the radicals were first met.
    pub fn count_rows(&self) -> (r: Vec<Radical>)
        ensures
            catalog_view(r@) == count_rows(self@.counts),
    {
        let mut rows: Vec<Radical> = Vec::new();
        let mut i: usize = 0;
        while i < self.counts.entries.len()
            invariant
                i <= self.counts.entries.len(),
                rows@.len() == i,
                forall|j: int| 0 <= j < i ==> (#[trigger] rows@[j])@ == count_rows(self@.counts)[j],
            decreases self.counts.entries.len() - i,
        {
            assert(self@.counts[i as int] == (
                self.counts.entries@[i as int].0@,
                self.counts.entries@[i as int].1 as nat,
            ));
            let row = Radical::from_code(
                &Vec::new(),
                &chars_of(self.counts.entries[i].0.as_str()),
                self.counts.entries[i].1,
            );
            rows.push(row);
            i = i + 1;
        }
        rows
    }
}

/// Turns a decomposition dictionary into a code table, ascending by
/// code, and a frequency table, descending by count; radicals that tie
/// stand in the order in which they were first met. Gives nothing where
/// the dictionary cannot be read.
pub fn convert_radicals(content: &str) -> (r: Option<Converted>)
    ensures
        match r {
            Some(tables) => {
                &&& gathered(content@) matches Some(g)
                &&& tables.code_table@ == code_table(
                    sorted_rows(code_rows(g.codes), PracticeOrder::Alphabetical),
                )
                &&& tables.count_table@ == count_table(
                    sorted_rows(count_rows(g.counts), PracticeOrder::Frequency),
                )
            },
            None => gathered(content@) is None,
        },
{
    match Extraction::read(content) {
        None => None,
        Some(found) => {
            let codes = found.code_rows();
            let counts = found.count_rows();
            let by_code = GameState::arrange(codes, PracticeOrder::Alphabetical);
            let by_count = GameState::arrange(counts, PracticeOrder::Frequency);
            proof {
                assert(catalog_view(by_code@) =~= sorted_rows(
                    code_rows(found@.codes),
                    PracticeOrder::Alphabetical,
                ));
                assert(catalog_view(by_count@) =~= sorted_rows(
                    count_rows(found@.counts),
                    PracticeOrder::Frequency,
                ));
            }
            Some(
                Converted {
                    code_table: write_code_table(&by_code),
                    count_table: write_count_table(&by_count),
                },
            )
        },
    }
}

} // verus!
