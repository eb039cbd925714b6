//! The ordering policy: which radical stands before which, and the stable
//! arrangement of a catalog under that rule.

use vstd::prelude::*;
use crate::config::PracticeOrder;
use crate::radical::{catalog_view, Radical, RadicalView};
use crate::text::{char_lowercase, char_to_lower, lex_le, position_from, str_lt};
use crate::text::{lemma_lex_asymmetric, lemma_lex_le_transitive};

verus! {

/// The keys in row-major keyboard order, home row first.
pub open spec fn keyboard_row() -> Seq<char> {
    "asdfghjklqwertyuiopzxcvbnm"@
}

/// The first character of a text, or NUL for an empty text.
pub open spec fn head_or_nul(s: Seq<char>) -> char {
    if s.len() > 0 {
        s[0]
    } else {
        '\0'
    }
}

/// The key that decides where a code sorts on the keyboard: the first
/// character that lowercasing the first character of the code yields. An
/// empty code, or a lowercasing that yields nothing, stands for NUL.
pub open spec fn first_key(code: Seq<char>) -> char {
    head_or_nul(char_lowercase(head_or_nul(code)))
}

/// The place of a key on the keyboard; 26, behind every key, for a
/// character that is no key.
pub open spec fn key_rank(key: char) -> int {
    position_from(keyboard_row(), key, 0)
}

/// The place of a code's first key on the keyboard.
pub open spec fn keyboard_rank(code: Seq<char>) -> int {
    key_rank(first_key(code))
}

/// `a` may stand before `b`: the order puts `a` first or leaves the two
/// tied.
pub open spec fn may_precede(order: PracticeOrder, a: RadicalView, b: RadicalView) -> bool {
    match order {
        PracticeOrder::Alphabetical => lex_le(a.code, b.code),
        PracticeOrder::Frequency => a.frequency >= b.frequency,
        PracticeOrder::Keyboard => {
            let ka = keyboard_rank(a.code);
            let kb = keyboard_rank(b.code);
            ka < kb || (ka == kb && lex_le(a.code, b.code))
        },
        PracticeOrder::Random => true,
    }
}

/// Of any two radicals, one may precede the other.
pub proof fn lemma_may_precede_total(order: PracticeOrder, a: RadicalView, b: RadicalView)
    ensures
        may_precede(order, a, b) || may_precede(order, b, a),
{
    lemma_lex_asymmetric(a.code, b.code);
}

/// `may_precede` is transitive.
pub proof fn lemma_may_precede_transitive(
    order: PracticeOrder,
    a: RadicalView,
    b: RadicalView,
    c: RadicalView,
)
    requires
        may_precede(order, a, b),
        may_precede(order, b, c),
    ensures
        may_precede(order, a, c),
{
    match order {
        PracticeOrder::Alphabetical => {
            lemma_lex_le_transitive(a.code, b.code, c.code);
        },
        PracticeOrder::Keyboard => {
            if keyboard_rank(a.code) == keyboard_rank(b.code) && keyboard_rank(b.code)
                == keyboard_rank(c.code) {
                lemma_lex_le_transitive(a.code, b.code, c.code);
            }
        },
        _ => {},
    }
}

/// Computes `key_rank` for a key.
pub fn rank_of_key(key: char) -> (r: usize)
    ensures
        r == key_rank(key),
        r <= 26,
{
    let row = "asdfghjklqwertyuiopzxcvbnm";
    proof {
        reveal_strlit("asdfghjklqwertyuiopzxcvbnm");
    }
    let mut i: usize = 0;
    while i < 26 && row.get_char(i) != key
        invariant
            i <= 26,
            row@ == keyboard_row(),
            row@.len() == 26,
            position_from(row@, key, 0) == position_from(row@, key, i as int),
        decreases 26 - i,
    {
        i = i + 1;
    }
    i
}

/// Computes `keyboard_rank` for a code.
pub fn rank_on_keyboard(code: &str) -> (r: usize)
    ensures
        r == keyboard_rank(code@),
        r <= 26,
{
    let first = if code.unicode_len() > 0 {
        code.get_char(0)
    } else {
        '\0'
    };
    let lowered = char_to_lower(first);
    let key = if lowered.len() > 0 {
        lowered[0]
    } else {
        '\0'
    };
    rank_of_key(key)
}

/// Decides `may_precede` for two radicals.
pub fn stands_before(order: PracticeOrder, a: &Radical, b: &Radical) -> (r: bool)
    ensures
        r == may_precede(order, a@, b@),
{
    match order {
        PracticeOrder::Alphabetical => !str_lt(b.code.as_str(), a.code.as_str()),
        PracticeOrder::Frequency => a.frequency >= b.frequency,
        PracticeOrder::Keyboard => {
            let ka = rank_on_keyboard(a.code.as_str());
            let kb = rank_on_keyboard(b.code.as_str());
            ka < kb || (ka == kb && !str_lt(b.code.as_str(), a.code.as_str()))
        },
        PracticeOrder::Random => true,
    }
}

/// `p` lists every position below `n` exactly once.
pub open spec fn is_permutation(p: Seq<usize>, n: nat) -> bool {
    &&& p.len() == n
    &&& forall|x: int| 0 <= x < n ==> #[trigger] p[x] < n
    &&& forall|x: int, y: int| 0 <= x < y < n ==> p[x] != p[y]
    &&& forall|i: usize| i < n ==> #[trigger] p.contains(i)
}

/// `p` is the stable arrangement of the first `n` radicals: it lists each
/// of them once, no radical stands behind one that it must precede, and
/// tied radicals keep the order they came in.
pub open spec fn is_stable_order(
    p: Seq<usize>,
    catalog: Seq<RadicalView>,
    n: nat,
    order: PracticeOrder,
) -> bool {
    &&& n <= catalog.len()
    &&& is_permutation(p, n)
    &&& forall|x: int, y: int|
        #![trigger p[x], p[y]]
        0 <= x < y < n ==> {
            &&& may_precede(order, catalog[p[x] as int], catalog[p[y] as int])
            &&& may_precede(order, catalog[p[y] as int], catalog[p[x] as int]) ==> p[x] < p[y]
        }
}

/// The catalog read in the order that `p` gives.
pub open spec fn rearranged<T>(catalog: Seq<T>, p: Seq<usize>) -> Seq<T> {
    Seq::new(p.len(), |x: int| catalog[p[x] as int])
}

/// Two stable orders of one catalog agree up to place `x`.
proof fn lemma_stable_orders_agree(
    p: Seq<usize>,
    q: Seq<usize>,
    catalog: Seq<RadicalView>,
    n: nat,
    order: PracticeOrder,
    x: int,
)
    requires
        is_stable_order(p, catalog, n, order),
        is_stable_order(q, catalog, n, order),
        0 <= x < n,
    ensures
        forall|w: int| 0 <= w <= x ==> p[w] == q[w],
    decreases x,
{
    if x > 0 {
        lemma_stable_orders_agree(p, q, catalog, n, order, x - 1);
    }
    let a = p[x];
    let b = q[x];
    assert(q.contains(a));
    assert(p.contains(b));
}

/// A catalog has at most one stable order.
pub proof fn lemma_stable_order_unique(
    p: Seq<usize>,
    q: Seq<usize>,
    catalog: Seq<RadicalView>,
    n: nat,
    order: PracticeOrder,
)
    requires
        is_stable_order(p, catalog, n, order),
        is_stable_order(q, catalog, n, order),
    ensures
        p == q,
{
    if n > 0 {
        lemma_stable_orders_agree(p, q, catalog, n, order, n - 1);
    }
}

/// The stable order of a whole catalog.
pub open spec fn arrangement(catalog: Seq<RadicalView>, order: PracticeOrder) -> Seq<usize> {
    choose|p: Seq<usize>| is_stable_order(p, catalog, catalog.len(), order)
}

/// The positions `0..n` in their own order.
pub open spec fn identity_order(n: nat) -> Seq<usize> {
    Seq::new(n, |x: int| x as usize)
}

/// In alphabetical order no code stands behind a code that sorts after it.
pub open spec fn sorted_by_code(catalog: Seq<RadicalView>) -> bool {
    forall|x: int, y: int|
        0 <= x < y < catalog.len() ==> lex_le((#[trigger] catalog[x]).code, (
        #[trigger] catalog[y]).code)
}

/// A catalog read in its alphabetical stable order is sorted by code.
pub proof fn lemma_alphabetical_is_sorted(catalog: Seq<RadicalView>, p: Seq<usize>)
    requires
        is_stable_order(p, catalog, catalog.len(), PracticeOrder::Alphabetical),
    ensures
        sorted_by_code(rearranged(catalog, p)),
{
    let out = rearranged(catalog, p);
    assert forall|x: int, y: int| 0 <= x < y < out.len() implies lex_le(
        (#[trigger] out[x]).code,
        (#[trigger] out[y]).code,
    ) by {
        assert(may_precede(
            PracticeOrder::Alphabetical,
            catalog[p[x] as int],
            catalog[p[y] as int],
        ));
    }
}

/// The positions `0..n` in the stable order of the catalog: an insertion
/// sort that never moves a radical past one it is tied with.
pub fn stable_order(radicals: &Vec<Radical>, order: PracticeOrder) -> (p: Vec<usize>)
    ensures
        is_stable_order(p@, catalog_view(radicals@), radicals.len() as nat, order),
        p@ == arrangement(catalog_view(radicals@), order),
{
    let ghost catalog = catalog_view(radicals@);
    let mut p: Vec<usize> = Vec::new();
    let mut i: usize = 0;
    while i < radicals.len()
        invariant
            i <= radicals.len(),
            catalog == catalog_view(radicals@),
            is_stable_order(p@, catalog, i as nat, order),
        decreases radicals.len() - i,
    {
        let ghost before = p@;
        let mut j: usize = p.len();
        while j > 0 && !stands_before(order, &radicals[p[j - 1]], &radicals[i])
            invariant
                j <= p.len(),
                p@ == before,
                i < radicals.len(),
                catalog == catalog_view(radicals@),
                is_stable_order(before, catalog, i as nat, order),
                forall|y: int|
                    j <= y < before.len() ==> !may_precede(
                        order,
                        catalog[(#[trigger] before[y]) as int],
                        catalog[i as int],
                    ),
            decreases j,
        {
            j = j - 1;
        }
        p.insert(j, i);
        proof {
            let after = p@;
            let me = catalog[i as int];
            assert forall|k: usize| k < i + 1 implies #[trigger] after.contains(k) by {
                if k == i {
                    assert(after[j as int] == k);
                } else {
                    assert(before.contains(k));
                    let x = choose|x: int| 0 <= x < before.len() && before[x] == k;
                    if x < j {
                        assert(after[x] == k);
                    } else {
                        assert(after[x + 1] == k);
                    }
                }
            }
            assert forall|x: int, y: int|
                #![trigger after[x], after[y]]
                0 <= x < y < i + 1 implies {
                &&& may_precede(order, catalog[after[x] as int], catalog[after[y] as int])
                &&& may_precede(order, catalog[after[y] as int], catalog[after[x] as int])
                    ==> after[x] < after[y]
            } by {
                if x == j {
                    lemma_may_precede_total(order, me, catalog[before[y - 1] as int]);
                } else if y == j && x < j - 1 {
                    assert(may_precede(
                        order,
                        catalog[before[x] as int],
                        catalog[before[j - 1] as int],
                    ));
                    lemma_may_precede_transitive(
                        order,
                        catalog[before[x] as int],
                        catalog[before[j - 1] as int],
                        me,
                    );
                }
            }
        }
        i = i + 1;
    }
    proof {
        lemma_stable_order_unique(p@, arrangement(catalog, order), catalog, catalog.len(), order);
    }
    p
}

/// Copies the radicals out in the order that `p` gives.
pub fn pick(radicals: &Vec<Radical>, p: &Vec<usize>) -> (r: Vec<Radical>)
    requires
        forall|x: int| 0 <= x < p@.len() ==> #[trigger] p@[x] < radicals@.len(),
    ensures
        r@ == rearranged(radicals@, p@),
{
    let mut out: Vec<Radical> = Vec::new();
    let mut x: usize = 0;
    while x < p.len()
        invariant
            x <= p.len(),
            forall|y: int| 0 <= y < p@.len() ==> #[trigger] p@[y] < radicals@.len(),
            out@.len() == x,
            forall|y: int| 0 <= y < x ==> #[trigger] out@[y] == radicals@[p@[y] as int],
        decreases p.len() - x,
    {
        out.push(radicals[p[x]].copy());
        x = x + 1;
    }
    out
}

} // verus!
