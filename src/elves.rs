//! Day 6: counting elves and shelves in text.

use vstd::prelude::*;
use vstd::string::StringSliceAdditionalSpecFns;

use itertools::{EitherOrBoth, Itertools};

verus! {

/// The three counts reported for a text.
pub struct TextCounts {
    pub elf: usize,
    pub elf_on_a_shelf: usize,
    pub shelf_with_no_elf_on_it: usize,
}

/// `p` occurs in `t` at byte offset `i`.
pub open spec fn occurs_at(t: Seq<u8>, p: Seq<u8>, i: int) -> bool {
    0 <= i && i + p.len() <= t.len() && t.subrange(i, i + p.len()) == p
}

/// Start offsets of the non-overlapping occurrences of `p` in `t` found by
/// a left-to-right scan from offset `i`: each match is skipped whole.
pub open spec fn matches_from(t: Seq<u8>, p: Seq<u8>, i: int) -> Seq<int>
    decreases t.len() - i,
{
    if p.len() == 0 || i < 0 || i + p.len() > t.len() {
        Seq::empty()
    } else if occurs_at(t, p, i) {
        seq![i] + matches_from(t, p, i + p.len())
    } else {
        matches_from(t, p, i + 1)
    }
}

/// The non-overlapping occurrences of `p` in the whole of `t`.
pub open spec fn match_starts(t: Seq<u8>, p: Seq<u8>) -> Seq<int> {
    matches_from(t, p, 0)
}

pub open spec fn count_of(t: Seq<u8>, p: Seq<u8>) -> nat {
    match_starts(t, p).len()
}

/// What is left of `a` after taking `b` from it, or zero.
pub open spec fn left_over(a: nat, b: nat) -> nat {
    if a > b {
        (a - b) as nat
    } else {
        0
    }
}

/// Whether `p` occurs in `t` at offset `i`.
fn occurs(t: &[u8], p: &[u8], i: usize) -> (r: bool)
    requires
        i <= t@.len(),
        p@.len() <= t@.len() - i,
    ensures
        r == occurs_at(t@, p@, i as int),
{
    let n: usize = t.len();
    let mut j: usize = 0;
    while j < p.len()
        invariant
            n == t@.len(),
            j <= p@.len(),
            i + p@.len() <= t@.len(),
            t@.subrange(i as int, i + j) =~= p@.subrange(0, j as int),
        decreases p@.len() - j,
    {
        if t[i + j] != p[j] {
            assert(t@.subrange(i as int, i + p@.len())[j as int] != p@[j as int]);
            return false;
        }
        j = j + 1;
    }
    assert(p@.subrange(0, p@.len() as int) =~= p@);
    true
}

/// Start offsets of the non-overlapping occurrences of `p` in `t`, left to
/// right.
fn match_positions(t: &[u8], p: &[u8]) -> (r: Vec<usize>)
    ensures
        r@.map_values(|x: usize| x as int) == match_starts(t@, p@),
{
    let mut out: Vec<usize> = Vec::new();
    if p.len() == 0 {
        assert(out@.map_values(|x: usize| x as int) =~= match_starts(t@, p@));
        return out;
    }
    let mut i: usize = 0;
    while i <= t.len() && p.len() <= t.len() - i
        invariant
            i <= t@.len() + 1,
            p@.len() > 0,
            out@.map_values(|x: usize| x as int) + matches_from(t@, p@, i as int) == match_starts(t@, p@),
        decreases t@.len() + 1 - i,
    {
        let ghost before = out@.map_values(|x: usize| x as int);
        if occurs(t, p, i) {
            out.push(i);
            assert(out@.map_values(|x: usize| x as int) =~= before.push(i as int));
            assert(before + (seq![i as int] + matches_from(t@, p@, i + p@.len()))
                =~= before.push(i as int) + matches_from(t@, p@, i + p@.len()));
            i = i + p.len();
        } else {
            i = i + 1;
        }
    }
    assert(matches_from(t@, p@, i as int) =~= Seq::<int>::empty());
    assert(out@.map_values(|x: usize| x as int) + Seq::<int>::empty()
        =~= out@.map_values(|x: usize| x as int));
    out
}

/// Relies on `Itertools::zip_longest`: the pairs run as long as the longer
/// input, and each says which of the two inputs still has an item there.
#[verifier::external_body]
fn zip_longest_sides(left: &Vec<usize>, right: &Vec<usize>) -> (r: Vec<(bool, bool)>)
    ensures
        r@.len() == if left@.len() >= right@.len() { left@.len() } else { right@.len() },
        forall|k: int| 0 <= k < r@.len() ==> #[trigger] r@[k] == (k < left@.len(), k < right@.len()),
{
    left.iter().zip_longest(right.iter()).map(|e| match e {
        EitherOrBoth::Both(_, _) => (true, true),
        EitherOrBoth::Left(_) => (true, false),
        EitherOrBoth::Right(_) => (false, true),
    }).collect()
}

/// How many of the pairs of a zip of `a` and `b` items have a left item
/// and no right one.
fn count_left_only(pairs: &Vec<(bool, bool)>, a: usize, b: usize) -> (n: usize)
    requires
        pairs@.len() == if a >= b { a } else { b },
        forall|k: int| 0 <= k < pairs@.len() ==> #[trigger] pairs@[k] == (k < a, k < b),
    ensures
        n as int == left_over(a as nat, b as nat),
{
    let mut n: usize = 0;
    let mut i: usize = 0;
    while i < pairs.len()
        invariant
            i <= pairs@.len(),
            pairs@.len() == if a >= b { a } else { b },
            forall|k: int| 0 <= k < pairs@.len() ==> #[trigger] pairs@[k] == (k < a, k < b),
            n as int == left_over(if i <= a { i as nat } else { a as nat }, b as nat),
        decreases pairs@.len() - i,
    {
        let (l, r) = pairs[i];
        if l && !r {
            n = n + 1;
        }
        i = i + 1;
    }
    n
}

/// Counts `elf`, `elf on a shelf`, and the `shelf`s left over once each
/// `elf on a shelf` has taken one, over non-overlapping matches in `text`.
pub fn elf_on_a_shelf(text: &str) -> (r: TextCounts)
    ensures
        r.elf as int == count_of(text.spec_bytes(), "elf".spec_bytes()),
        r.elf_on_a_shelf as int == count_of(text.spec_bytes(), "elf on a shelf".spec_bytes()),
        r.shelf_with_no_elf_on_it as int == left_over(
            count_of(text.spec_bytes(), "shelf".spec_bytes()),
            count_of(text.spec_bytes(), "elf on a shelf".spec_bytes()),
        ),
{
    let t = text.as_bytes();
    let elves = match_positions(t, "elf".as_bytes());
    let elves_on_shelves = match_positions(t, "elf on a shelf".as_bytes());
    let shelves = match_positions(t, "shelf".as_bytes());
    let pairs = zip_longest_sides(&shelves, &elves_on_shelves);
    let lone = count_left_only(&pairs, shelves.len(), elves_on_shelves.len());
    TextCounts {
        elf: elves.len(),
        elf_on_a_shelf: elves_on_shelves.len(),
        shelf_with_no_elf_on_it: lone,
    }
}

} // verus!
