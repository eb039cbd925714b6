//! Random filler text for the screen dressing that hides the trainer.

use vstd::prelude::*;
use crate::random::{chance, random_in};
use crate::state::GameState;
use crate::text::{chars_of, string_of};

verus! {

/// The characters the filler is drawn from.
pub open spec fn filler_alphabet() -> Seq<char> {
    "abcdefghijklmnopqrstuvwxyzABCDEFGHIJKLMNOPQRSTUVWXYZ0123456789"@
}

/// A filler line holds 30 to 49 characters of the alphabet.
pub open spec fn is_filler_line(line: Seq<char>) -> bool {
    &&& 30 <= line.len() < 50
    &&& forall|i: int| 0 <= i < line.len() ==> filler_alphabet().contains(#[trigger] line[i])
}

/// The lines, each ended by a line feed and, where its gap is set,
/// followed by an empty line.
pub open spec fn filler_block(lines: Seq<Seq<char>>, gaps: Seq<bool>) -> Seq<char>
    decreases lines.len(),
{
    if lines.len() == 0 || gaps.len() != lines.len() {
        Seq::empty()
    } else {
        filler_block(lines.drop_last(), gaps.drop_last()) + lines.last() + seq!['\n'] + (if gaps.last() {
            seq!['\n']
        } else {
            Seq::empty()
        })
    }
}

/// A block of lines followed by one more line without a line feed.
pub open spec fn filler_text(lines: Seq<Seq<char>>, gaps: Seq<bool>, last: Seq<char>) -> Seq<char> {
    filler_block(lines, gaps) + last
}

/// The shape of every filler text: 20 to 29 filler lines, some of them
/// followed by an empty line, and one more filler line without a line
/// feed at the end.
pub open spec fn is_filler(text: Seq<char>) -> bool {
    exists|lines: Seq<Seq<char>>, gaps: Seq<bool>, last: Seq<char>|
        {
            &&& 20 <= lines.len() < 30
            &&& gaps.len() == lines.len()
            &&& forall|k: int| 0 <= k < lines.len() ==> is_filler_line(#[trigger] lines[k])
            &&& is_filler_line(last)
            &&& text == #[trigger] filler_text(lines, gaps, last)
        }
}

/// Appends one filler line of a drawn length to `out` and returns what
/// was appended.
fn push_filler_line(out: &mut Vec<char>, alphabet: &Vec<char>) -> (line: Ghost<Seq<char>>)
    requires
        alphabet@ == filler_alphabet(),
        alphabet@.len() == 62,
    ensures
        final(out)@ == old(out)@ + line@,
        is_filler_line(line@),
{
    let length = random_in(30, 50);
    let ghost mut line: Seq<char> = Seq::empty();
    let mut i: usize = 0;
    while i < length
        invariant
            i <= length,
            alphabet@ == filler_alphabet(),
            alphabet@.len() == 62,
            line.len() == i,
            out@ == old(out)@ + line,
            forall|j: int| 0 <= j < line.len() ==> filler_alphabet().contains(#[trigger] line[j]),
        decreases length - i,
    {
        let c = alphabet[random_in(0, alphabet.len())];
        out.push(c);
        proof {
            line = line.push(c);
        }
        i = i + 1;
    }
    Ghost(line)
}

impl GameState {
    /// Draws a filler text.
    pub fn generate_pretend_chars(&self) -> (r: String)
        ensures
            is_filler(r@),
    {
        let alphabet = chars_of("abcdefghijklmnopqrstuvwxyzABCDEFGHIJKLMNOPQRSTUVWXYZ0123456789");
        proof {
            reveal_strlit("abcdefghijklmnopqrstuvwxyzABCDEFGHIJKLMNOPQRSTUVWXYZ0123456789");
        }
        let mut out: Vec<char> = Vec::new();
        let line_count = random_in(20, 30);
        let ghost mut lines: Seq<Seq<char>> = Seq::empty();
        let ghost mut gaps: Seq<bool> = Seq::empty();
        let mut n: usize = 0;
        while n < line_count
            invariant
                n <= line_count,
                alphabet@ == filler_alphabet(),
                alphabet@.len() == 62,
                lines.len() == n,
                gaps.len() == n,
                forall|k: int| 0 <= k < lines.len() ==> is_filler_line(#[trigger] lines[k]),
                out@ == filler_block(lines, gaps),
            decreases line_count - n,
        {
            let line = push_filler_line(&mut out, &alphabet);
            out.push('\n');
            let gap = chance(1, 10);
            if gap {
                out.push('\n');
            }
            proof {
                let grown = lines.push(line@);
                let marked = gaps.push(gap);
                assert(grown.drop_last() =~= lines);
                assert(marked.drop_last() =~= gaps);
                lines = grown;
                gaps = marked;
            }
            n = n + 1;
        }
        let last = push_filler_line(&mut out, &alphabet);
        proof {
            assert(out@ == filler_text(lines, gaps, last@));
        }
        string_of(&out)
    }
}

} // verus!
