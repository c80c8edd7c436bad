//! The most frequent value of a list of integers.

use vstd::prelude::*;

verus! {

/// How many times `x` occurs in `s`.
pub open spec fn count_of(s: Seq<i32>, x: i32) -> nat
    decreases s.len(),
{
    if s.len() == 0 {
        0
    } else {
        count_of(s.drop_last(), x) + if s.last() == x { 1nat } else { 0nat }
    }
}

proof fn lemma_count_positive(s: Seq<i32>, x: i32)
    requires
        count_of(s, x) > 0,
    ensures
        s.contains(x),
    decreases s.len(),
{
    if s.last() == x {
        assert(s[s.len() - 1] == x);
    } else {
        lemma_count_positive(s.drop_last(), x);
        let i = choose|i: int| 0 <= i < s.drop_last().len() && s.drop_last()[i] == x;
        assert(s[i] == x);
    }
}

fn occurrences(vect: &[i32], x: i32) -> (r: usize)
    ensures
        r == count_of(vect@, x),
{
    let mut c: usize = 0;
    let mut k: usize = 0;
    while k < vect.len()
        invariant
            0 <= k <= vect@.len(),
            c <= k,
            c == count_of(vect@.subrange(0, k as int), x),
        decreases vect@.len() - k,
    {
        assert(vect@.subrange(0, k + 1).drop_last() =~= vect@.subrange(0, k as int));
        if vect[k] == x {
            c += 1;
        }
        k += 1;
    }
    assert(vect@.subrange(0, k as int) =~= vect@);
    c
}

/// A value that occurs at least as often as any other; the first such value
/// met in `vect` when several tie, and 0 for an empty slice.
pub fn calc_mode(vect: &[i32]) -> (r: i32)
    ensures
        vect@.len() == 0 ==> r == 0,
        vect@.len() > 0 ==> vect@.contains(r),
        forall|x: i32| count_of(vect@, x) <= count_of(vect@, r),
{
    let mut best: i32 = 0;
    let mut best_count: usize = 0;
    let mut i: usize = 0;
    while i < vect.len()
        invariant
            0 <= i <= vect@.len(),
            i > 0 ==> best_count == count_of(vect@, best) && vect@.contains(best),
            i == 0 ==> best == 0 && best_count == 0,
            forall|j: int| 0 <= j < i ==> count_of(vect@, #[trigger] vect@[j]) <= best_count,
        decreases vect@.len() - i,
    {
        let c = occurrences(vect, vect[i]);
        if i == 0 || c > best_count {
            best = vect[i];
            best_count = c;
        }
        i += 1;
    }
    proof {
        if vect@.len() == 0 {
            assert(vect@ =~= Seq::<i32>::empty());
        }
        assert forall|x: i32| count_of(vect@, x) <= count_of(vect@, best) by {
            if count_of(vect@, x) > 0 {
                lemma_count_positive(vect@, x);
            }
        }
    }
    best
}

} // verus!
