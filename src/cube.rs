//! Day 1: packet IDs are XOR'ed together and the result is cubed.

use vstd::prelude::*;

use crate::decimal::{decimal_of, decimal_string, i32_of_text, parse_i32};

verus! {

/// XOR of all values, folded from the left starting at zero.
pub open spec fn xor_all(s: Seq<i32>) -> i32
    decreases s.len(),
{
    if s.len() == 0 {
        0
    } else {
        xor_all(s.drop_last()) ^ s.last()
    }
}

/// The value of `v` in 32-bit two's complement (wrap-around).
pub open spec fn wrap_i32(v: int) -> int {
    let m = v % 0x1_0000_0000;
    if m >= 0x8000_0000 {
        m - 0x1_0000_0000
    } else {
        m
    }
}

/// The cube of an integer.
pub open spec fn cube(x: int) -> int {
    x * x * x
}

/// The XOR of all packet IDs, raised to the power of three with 32-bit
/// wrap-around.
pub open spec fn cube_bits_of(s: Seq<i32>) -> int {
    wrap_i32(cube(xor_all(s) as int))
}

/// XOR all numbers together and cube the result (wrapping in `i32`).
pub fn cube_bits(nums: &[i32]) -> (r: i32)
    ensures
        r as int == cube_bits_of(nums@),
{
    let mut acc: i32 = 0;
    let mut i: usize = 0;
    while i < nums.len()
        invariant
            i <= nums@.len(),
            acc == xor_all(nums@.subrange(0, i as int)),
        decreases nums@.len() - i,
    {
        assert(nums@.subrange(0, i as int + 1).drop_last() =~= nums@.subrange(0, i as int));
        acc = acc ^ nums[i];
        i = i + 1;
    }
    assert(nums@.subrange(0, nums@.len() as int) =~= nums@);
    wrap_cube(acc)
}

/// Every path segment spells an `i32`.
pub open spec fn segments_parse(segs: Seq<String>) -> bool {
    forall|i: int| 0 <= i < segs.len() ==> (#[trigger] i32_of_text(segs[i]@)) is Some
}

/// The numbers that the path segments spell.
pub open spec fn segment_values(segs: Seq<String>) -> Seq<i32> {
    Seq::new(segs.len(), |i: int| i32_of_text(segs[i]@).unwrap())
}

/// The sled ID for packet IDs given as path segments, as decimal text;
/// `None` (a client error) when a segment is not an `i32`.
pub fn cube_bits_of_segments(segments: &Vec<String>) -> (r: Option<String>)
    ensures
        r is Some <==> segments_parse(segments@),
        r is Some ==> r.unwrap()@ == decimal_of(cube_bits_of(segment_values(segments@))),
{
    let mut nums: Vec<i32> = Vec::new();
    let mut i: usize = 0;
    while i < segments.len()
        invariant
            i <= segments@.len(),
            nums@.len() == i,
            forall|k: int| 0 <= k < i ==> (#[trigger] i32_of_text(segments@[k]@)) is Some,
            nums@ =~= segment_values(segments@).subrange(0, i as int),
        decreases segments@.len() - i,
    {
        match parse_i32(segments[i].as_str()) {
            Some(v) => nums.push(v),
            None => return None,
        }
        i = i + 1;
    }
    assert(nums@ =~= segment_values(segments@));
    let r = cube_bits(nums.as_slice());
    Some(decimal_string(r))
}

/// `x * x * x` reduced to `i32` by two's-complement wrap-around.
fn wrap_cube(x: i32) -> (r: i32)
    ensures
        r as int == wrap_i32(cube(x as int)),
{
    let w: i128 = x as i128;
    assert(0 <= w * w <= 0x4000_0000_0000_0000) by (nonlinear_arith)
        requires -0x8000_0000 <= w <= 0x7fff_ffff;
    let sq: i128 = w * w;
    assert(-0x4000_0000_0000_0000 * 0x8000_0000 <= sq * w <= 0x4000_0000_0000_0000 * 0x8000_0000)
        by (nonlinear_arith)
        requires -0x8000_0000 <= w <= 0x7fff_ffff, 0 <= sq <= 0x4000_0000_0000_0000;
    let c: i128 = sq * w;
    let shift: i128 = 0x8000_0000_0000_0000_0000_0000;
    let shifted: u128 = (c + shift) as u128;
    let m: u128 = shifted % 0x1_0000_0000;
    assert(m as int == (c as int) % 0x1_0000_0000) by {
        assert(shift as int == 0x8000_0000_0000_0000 * 0x1_0000_0000);
        vstd::arithmetic::div_mod::lemma_mod_multiples_vanish(
            0x8000_0000_0000_0000, c as int, 0x1_0000_0000);
    }
    if m >= 0x8000_0000 {
        (m as i64 - 0x1_0000_0000) as i32
    } else {
        m as i32
    }
}

/// The XOR of two sequences holding the same values, in any order, is the
/// same.
pub proof fn lemma_xor_all_reorder(a: Seq<i32>, b: Seq<i32>)
    requires
        a.to_multiset() == b.to_multiset(),
    ensures
        xor_all(a) == xor_all(b),
    decreases a.len(),
{
    a.to_multiset_ensures();
    b.to_multiset_ensures();
    if a.len() == 0 {
        assert(b.len() == 0);
        assert(b =~= Seq::<i32>::empty());
    } else {
        let x = a.last();
        assert(a.contains(x)) by {
            assert(a[a.len() - 1] == x);
        }
        assert(a.to_multiset().count(x) > 0);
        assert(b.to_multiset().count(x) > 0);
        assert(b.contains(x));
        let j = choose|j: int| 0 <= j < b.len() && b[j] == x;
        let a2 = a.drop_last();
        let b2 = b.remove(j);
        a2.to_multiset_ensures();
        assert(a2.push(x) =~= a);
        assert(a2.to_multiset() =~= a.to_multiset().remove(x));
        assert(b2.to_multiset() =~= b.to_multiset().remove(x));
        lemma_xor_all_reorder(a2, b2);
        lemma_xor_all_remove(b, j);
    }
}

/// Taking one value out of the fold and XOR'ing it back gives the whole
/// fold.
proof fn lemma_xor_all_remove(s: Seq<i32>, j: int)
    requires
        0 <= j < s.len(),
    ensures
        xor_all(s) == xor_all(s.remove(j)) ^ s[j],
    decreases s.len(),
{
    if j == s.len() - 1 {
        assert(s.remove(j) =~= s.drop_last());
    } else {
        let t = s.drop_last();
        lemma_xor_all_remove(t, j);
        assert(s.remove(j).drop_last() =~= t.remove(j));
        assert(s.remove(j).last() == s.last());
        let p = xor_all(t.remove(j));
        let q = t[j];
        let r = s.last();
        assert((p ^ q) ^ r == (p ^ r) ^ q) by (bit_vector);
    }
}

/// `cube_bits` gives the same answer for any reordering of its input.
pub proof fn lemma_cube_bits_reorder(a: Seq<i32>, b: Seq<i32>)
    requires
        a.to_multiset() == b.to_multiset(),
    ensures
        cube_bits_of(a) == cube_bits_of(b),
{
    lemma_xor_all_reorder(a, b);
}

} // verus!
