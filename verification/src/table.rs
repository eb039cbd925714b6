//! The two-column text tables that the catalog is read from: one row per
//! line, fields separated by whitespace, only the first two fields used.

use vstd::prelude::*;
use crate::text::{chars_of, slice_of, split_two, two_fields};

verus! {

/// One row: the first and the second field of a line.
pub type Row = (Seq<char>, Seq<char>);

/// The position of the first line feed at or after `i`, or the length of
/// `s` if there is none.
pub open spec fn line_end(s: Seq<char>, i: int) -> int
    decreases s.len() - i,
{
    if 0 <= i < s.len() && s[i] != '\n' {
        line_end(s, i + 1)
    } else {
        i
    }
}

/// The rows of the lines that start at position `i` or later. A line with
/// fewer than two fields gives no row.
pub open spec fn table_rows_from(s: Seq<char>, i: int) -> Seq<Row>
    decreases s.len() - i,
{
    if i < 0 || i >= s.len() {
        Seq::empty()
    } else {
        let e = line_end(s, i);
        let rest = if i <= e < s.len() {
            table_rows_from(s, e + 1)
        } else {
            Seq::empty()
        };
        match two_fields(s.subrange(i, e)) {
            Some(row) => seq![row] + rest,
            None => rest,
        }
    }
}

/// The rows of a table, in the order of its lines.
pub open spec fn table_rows(s: Seq<char>) -> Seq<Row> {
    table_rows_from(s, 0)
}

/// What a vector of parsed rows stands for.
pub open spec fn rows_view(v: Seq<(Vec<char>, Vec<char>)>) -> Seq<Row> {
    Seq::new(v.len(), |i: int| (v[i].0@, v[i].1@))
}

/// Computes `line_end` on a character vector.
pub fn find_line_end(s: &Vec<char>, from: usize) -> (r: usize)
    requires
        from <= s.len(),
    ensures
        r == line_end(s@, from as int),
        from <= r <= s.len(),
{
    let mut i: usize = from;
    while i < s.len() && s[i] != '\n'
        invariant
            from <= i <= s.len(),
            line_end(s@, from as int) == line_end(s@, i as int),
        decreases s.len() - i,
    {
        i = i + 1;
    }
    i
}

/// Parses a table into its rows.
pub fn read_rows(content: &str) -> (r: Vec<(Vec<char>, Vec<char>)>)
    ensures
        rows_view(r@) == table_rows(content@),
{
    let s = chars_of(content);
    let mut out: Vec<(Vec<char>, Vec<char>)> = Vec::new();
    let mut i: usize = 0;
    while i < s.len()
        invariant
            s@ == content@,
            table_rows(s@) == rows_view(out@) + table_rows_from(s@, i as int),
        decreases s.len() - i,
    {
        let e = find_line_end(&s, i);
        let line = slice_of(&s, i, e);
        let ghost before = rows_view(out@);
        match split_two(&line) {
            Some(row) => {
                let ghost rv = (row.0@, row.1@);
                out.push(row);
                assert(before + (seq![rv] + table_rows_from(s@, e + 1)) =~= before.push(rv)
                    + table_rows_from(s@, e + 1));
            },
            None => {},
        }
        if e == s.len() {
            return out;
        }
        i = e + 1;
    }
    out
}

} // verus!
