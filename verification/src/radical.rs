//! Radicals and the loading of a catalog from its two text tables.

use vstd::prelude::*;
use crate::number::{parse_count, parsed_count};
use crate::table::{read_rows, rows_view, table_rows};
use crate::text::string_of;

verus! {

/// One drill unit: a glyph with the key sequence that produces it.
#[derive(Debug, Clone)]
pub struct Radical {
    /// The full key sequence.
    pub code: String,
    /// The glyph that is shown.
    pub text: String,
    /// How often the glyph is used.
    pub frequency: usize,
    /// The first key of `code`.
    pub big_code: String,
    /// The keys of `code` after the first.
    pub small_code: String,
}

/// A radical as plain values.
pub struct RadicalView {
    pub code: Seq<char>,
    pub text: Seq<char>,
    pub frequency: nat,
    pub big_code: Seq<char>,
    pub small_code: Seq<char>,
}

impl View for Radical {
    type V = RadicalView;

    open spec fn view(&self) -> RadicalView {
        RadicalView {
            code: self.code@,
            text: self.text@,
            frequency: self.frequency as nat,
            big_code: self.big_code@,
            small_code: self.small_code@,
        }
    }
}

impl RadicalView {
    /// The code is the first key followed by the remaining keys, and the
    /// first key is a single character unless the code is empty.
    pub open spec fn well_formed(self) -> bool {
        &&& self.code == self.big_code + self.small_code
        &&& self.code.len() > 0 ==> self.big_code.len() == 1
    }

    /// The same radical with another frequency.
    pub open spec fn with_frequency(self, frequency: nat) -> RadicalView {
        RadicalView { frequency, ..self }
    }
}

/// The radical that a code and a glyph make.
pub open spec fn radical_of(code: Seq<char>, text: Seq<char>, frequency: nat) -> RadicalView {
    RadicalView {
        code,
        text,
        frequency,
        big_code: if code.len() > 0 {
            code.take(1)
        } else {
            Seq::empty()
        },
        small_code: if code.len() > 0 {
            code.skip(1)
        } else {
            Seq::empty()
        },
    }
}

/// A catalog as plain values.
pub open spec fn catalog_view(radicals: Seq<Radical>) -> Seq<RadicalView> {
    Seq::new(radicals.len(), |i: int| radicals[i]@)
}

/// The catalog that a code table describes: one radical per row, code
/// first, glyph second, every frequency zero.
pub open spec fn code_catalog(content: Seq<char>) -> Seq<RadicalView> {
    let rows = table_rows(content);
    Seq::new(rows.len(), |i: int| radical_of(rows[i].0, rows[i].1, 0))
}

/// One entry of a frequency table.
pub type FrequencyEntry = (Seq<char>, nat);

/// The entries that a frequency table describes: glyph first, count
/// second, an unreadable count standing for zero.
pub open spec fn frequency_entries(content: Seq<char>) -> Seq<FrequencyEntry> {
    let rows = table_rows(content);
    Seq::new(rows.len(), |i: int| (rows[i].0, parsed_count(rows[i].1)))
}

/// What a vector of parsed frequency entries stands for.
pub open spec fn entries_view(v: Seq<(String, usize)>) -> Seq<FrequencyEntry> {
    Seq::new(v.len(), |i: int| (v[i].0@, v[i].1 as nat))
}

/// The frequency that the last entry for `text` gives, if there is one.
pub open spec fn last_frequency(entries: Seq<FrequencyEntry>, text: Seq<char>) -> Option<nat>
    decreases entries.len(),
{
    if entries.len() == 0 {
        None
    } else if entries.last().0 == text {
        Some(entries.last().1)
    } else {
        last_frequency(entries.drop_last(), text)
    }
}

/// A radical with the frequency that the table has for its glyph; without
/// an entry the radical stays as it is.
pub open spec fn with_table_frequency(r: RadicalView, entries: Seq<FrequencyEntry>) -> RadicalView {
    match last_frequency(entries, r.text) {
        Some(f) => r.with_frequency(f),
        None => r,
    }
}

/// A catalog with the frequencies of a table merged in.
pub open spec fn merged(catalog: Seq<RadicalView>, entries: Seq<FrequencyEntry>) -> Seq<
    RadicalView,
> {
    Seq::new(catalog.len(), |i: int| with_table_frequency(catalog[i], entries))
}

/// A radical built by `radical_of` is well formed.
pub proof fn lemma_radical_of_well_formed(code: Seq<char>, text: Seq<char>, frequency: nat)
    ensures
        radical_of(code, text, frequency).well_formed(),
{
    if code.len() > 0 {
        assert(code =~= code.take(1) + code.skip(1));
    } else {
        assert(code =~= Seq::<char>::empty() + Seq::<char>::empty());
    }
}

impl Radical {
    /// Builds a radical from its code and glyph.
    pub fn from_code(code: &Vec<char>, text: &Vec<char>, frequency: usize) -> (r: Radical)
        ensures
            r@ == radical_of(code@, text@, frequency as nat),
            r@.well_formed(),
    {
        let mut big: Vec<char> = Vec::new();
        let mut small: Vec<char> = Vec::new();
        let mut i: usize = 0;
        while i < code.len()
            invariant
                i <= code.len(),
                i == 0 ==> big@ == Seq::<char>::empty() && small@ == Seq::<char>::empty(),
                i > 0 ==> big@ == code@.take(1) && small@ == code@.subrange(1, i as int),
            decreases code.len() - i,
        {
            if i == 0 {
                big.push(code[0]);
            } else {
                small.push(code[i]);
            }
            i = i + 1;
        }
        proof {
            lemma_radical_of_well_formed(code@, text@, frequency as nat);
        }
        Radical {
            code: string_of(code),
            text: string_of(text),
            frequency,
            big_code: string_of(&big),
            small_code: string_of(&small),
        }
    }

    /// A copy that equals this radical field by field.
    pub fn copy(&self) -> (r: Radical)
        ensures
            r == *self,
    {
        Radical {
            code: self.code.clone(),
            text: self.text.clone(),
            frequency: self.frequency,
            big_code: self.big_code.clone(),
            small_code: self.small_code.clone(),
        }
    }

    /// Reads a code table.
    pub fn load_code_data(content: &str) -> (r: Vec<Radical>)
        ensures
            catalog_view(r@) == code_catalog(content@),
    {
        let rows = read_rows(content);
        let mut out: Vec<Radical> = Vec::new();
        let mut i: usize = 0;
        while i < rows.len()
            invariant
                i <= rows.len(),
                rows_view(rows@) == table_rows(content@),
                out@.len() == i,
                forall|j: int| 0 <= j < i ==> (#[trigger] out@[j])@ == code_catalog(content@)[j],
            decreases rows.len() - i,
        {
            let radical = Radical::from_code(&rows[i].0, &rows[i].1, 0);
            out.push(radical);
            i = i + 1;
        }
        out
    }

    /// Reads a frequency table.
    pub fn load_frequency_data(content: &str) -> (r: Vec<(String, usize)>)
        ensures
            entries_view(r@) == frequency_entries(content@),
    {
        let rows = read_rows(content);
        let mut out: Vec<(String, usize)> = Vec::new();
        let mut i: usize = 0;
        while i < rows.len()
            invariant
                i <= rows.len(),
                rows_view(rows@) == table_rows(content@),
                out@.len() == i,
                forall|j: int|
                    0 <= j < i ==> ((#[trigger] out@[j]).0@, out@[j].1 as nat)
                        == frequency_entries(content@)[j],
            decreases rows.len() - i,
        {
            let text = string_of(&rows[i].0);
            let count = parse_count(&rows[i].1);
            out.push((text, count));
            i = i + 1;
        }
        out
    }

    /// Looks a glyph up in a frequency table; the last entry wins.
    pub fn find_frequency(entries: &Vec<(String, usize)>, text: &String) -> (r: Option<usize>)
        ensures
            match r {
                Some(f) => last_frequency(entries_view(entries@), text@) == Some(f as nat),
                None => last_frequency(entries_view(entries@), text@) is None,
            },
    {
        let ghost all = entries_view(entries@);
        let mut i: usize = entries.len();
        assert(all.take(i as int) =~= all);
        while i > 0
            invariant
                i <= entries.len(),
                all == entries_view(entries@),
                last_frequency(all, text@) == last_frequency(all.take(i as int), text@),
            decreases i,
        {
            i = i - 1;
            assert(all.take(i + 1).drop_last() =~= all.take(i as int));
            if entries[i].0 == *text {
                return Some(entries[i].1);
            }
        }
        None
    }

    /// Builds the catalog from the contents of the frequency table and of
    /// the code table: every row of the code table becomes a radical, and
    /// each radical takes the frequency that the frequency table has for
    /// its glyph, or zero.
    pub fn load_from_files(counts: &str, codes: &str) -> (r: Vec<Radical>)
        ensures
            catalog_view(r@) == merged(code_catalog(codes@), frequency_entries(counts@)),
    {
        let entries = Radical::load_frequency_data(counts);
        let mut radicals = Radical::load_code_data(codes);
        let ghost before = catalog_view(radicals@);
        let ghost table = entries_view(entries@);
        let mut i: usize = 0;
        while i < radicals.len()
            invariant
                i <= radicals.len(),
                radicals@.len() == before.len(),
                table == entries_view(entries@),
                forall|j: int| 0 <= j < i ==> (#[trigger] radicals@[j])@ == with_table_frequency(before[j], table),
                forall|j: int| i <= j < before.len() ==> (#[trigger] radicals@[j])@ == before[j],
            decreases radicals.len() - i,
        {
            match Radical::find_frequency(&entries, &radicals[i].text) {
                Some(f) => {
                    let mut updated = radicals[i].copy();
                    updated.frequency = f;
                    radicals.set(i, updated);
                },
                None => {},
            }
            i = i + 1;
        }
        radicals
    }
}

} // verus!
