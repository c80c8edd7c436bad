//! Integer routines: bounding, division, addition, Fibonacci numbers,
//! swapping two places and the largest element of a slice.

use vstd::prelude::*;

verus! {

/// `n` brought into `lower..=upper`.
pub open spec fn clamped(n: int, lower: int, upper: int) -> int {
    if n < lower {
        lower
    } else if n > upper {
        upper
    } else {
        n
    }
}

/// Bounds `n` below by `lower` and above by `upper`; the lower bound is
/// checked first, so with `lower > upper` a small `n` yields `lower`.
pub fn clamp(n: i32, lower: i32, upper: i32) -> (r: i32)
    ensures
        r == clamped(n as int, lower as int, upper as int),
{
    if n < lower {
        lower
    } else if n > upper {
        upper
    } else {
        n
    }
}

/// Quotient of `a` by `b` rounded toward zero, as Rust's `/` computes it.
pub open spec fn truncated_div(a: int, b: int) -> int
    recommends
        b != 0,
{
    if a == 0 {
        0
    } else if a > 0 && b > 0 {
        a / b
    } else if a < 0 && b < 0 {
        (a * -1) / (b * -1)
    } else if a < 0 {
        ((a * -1) / b) * -1
    } else {
        (a / (b * -1)) * -1
    }
}

/// Divides `a` by `b`, rounding toward zero; `None` when `b` is zero.
pub fn div(a: i32, b: i32) -> (r: Option<i32>)
    requires
        !(a == i32::MIN && b == -1),
    ensures
        b == 0 ==> r.is_none(),
        b != 0 ==> r == Some(truncated_div(a as int, b as int) as i32),
{
    proof {
        if b != 0 {
            lemma_quotient_bounds(if a >= 0 { a as int } else { -(a as int) }, if b >= 0 { b as int } else { -(b as int) });
        }
    }
    a.checked_div(b)
}

proof fn lemma_quotient_bounds(y: int, e: int)
    requires
        y >= 0,
        e >= 1,
    ensures
        0 <= y / e <= y,
        e >= 2 && y > 0 ==> y / e < y,
{
    assert(0 <= y / e <= y) by (nonlinear_arith)
        requires
            y >= 0,
            e >= 1,
    ;
    assert(e >= 2 && y > 0 ==> y / e < y) by (nonlinear_arith)
        requires
            y >= 0,
            e >= 1,
    ;
}

/// The sum of `a` and `b`.
pub fn add(a: i32, b: i32) -> (r: i32)
    requires
        i32::MIN <= a + b <= i32::MAX,
    ensures
        r == a + b,
{
    a + b
}

/// The Fibonacci sequence: 0, 1, 1, 2, 3, 5, ...
pub open spec fn fib(n: nat) -> nat
    decreases n,
{
    if n < 2 {
        n
    } else {
        fib((n - 1) as nat) + fib((n - 2) as nat)
    }
}

proof fn lemma_fib_monotone(i: nat, j: nat)
    requires
        i <= j,
    ensures
        fib(i) <= fib(j),
    decreases j,
{
    if i < j {
        lemma_fib_monotone(i, (j - 1) as nat);
    }
}

/// The `n`th Fibonacci number, computed by the defining recursion.
pub fn fibonacci_calc(n: u32) -> (r: u32)
    requires
        fib(n as nat) <= u32::MAX,
    ensures
        r == fib(n as nat),
    decreases n,
{
    if n < 2 {
        return n;
    }
    proof {
        lemma_fib_monotone((n - 1) as nat, n as nat);
        lemma_fib_monotone((n - 2) as nat, n as nat);
    }
    fibonacci_calc(n - 1) + fibonacci_calc(n - 2)
}

/// Exchanges the values behind `a` and `b`.
pub fn swap(a: &mut i32, b: &mut i32)
    ensures
        *final(a) == *old(b),
        *final(b) == *old(a),
{
    let temp_a = *a;
    *a = *b;
    *b = temp_a;
}

/// The largest element of a non-empty slice.
pub fn max_value(numbers: &[i32]) -> (r: i32)
    requires
        numbers@.len() > 0,
    ensures
        numbers@.contains(r),
        forall|i: int| 0 <= i < numbers@.len() ==> numbers@[i] <= r,
{
    let mut max = numbers[0];
    let mut index: usize = 1;
    while index < numbers.len()
        invariant
            1 <= index <= numbers@.len(),
            numbers@.contains(max),
            forall|i: int| 0 <= i < index ==> numbers@[i] <= max,
        decreases numbers@.len() - index,
    {
        if numbers[index] > max {
            max = numbers[index];
        }
        index += 1;
    }
    max
}

} // verus!
