use vstd::prelude::*;
use vstd::arithmetic::div_mod::{lemma_div_is_ordered, lemma_div_is_ordered_by_denominator, lemma_div_pos_is_pos};

verus! {

/// Integer division rounding toward zero, which is what `/` does on Rust's
/// signed integers.
pub open spec fn tdiv(a: int, b: int) -> int {
    if b > 0 {
        if a >= 0 { a / b } else { -((-a) / b) }
    } else {
        if a >= 0 { -(a / (-b)) } else { (-a) / (-b) }
    }
}

/// Euclidean remainder modulo 64: the slot that `x & 63` selects in two's
/// complement.
pub open spec fn mod64(x: int) -> int {
    x % 64
}

/// A quotient rounded toward zero is no larger in magnitude than the bound of
/// the dividend divided by the (positive) divisor.
pub proof fn lemma_tdiv_bound(a: int, b: int, m: int)
    requires
        b > 0,
        -m <= a <= m,
    ensures
        -(m / b) <= tdiv(a, b) <= m / b,
{
    if a >= 0 {
        lemma_div_is_ordered(a, m, b);
        lemma_div_pos_is_pos(a, b);
    } else {
        lemma_div_is_ordered(-a, m, b);
        lemma_div_pos_is_pos(-a, b);
    }
}

/// A quotient rounded toward zero is no larger in magnitude than the
/// dividend's bound, whatever the divisor's sign.
pub proof fn lemma_tdiv_bound_any(a: int, b: int, m: int)
    requires
        b != 0,
        -m <= a <= m,
    ensures
        -m <= tdiv(a, b) <= m,
{
    let mb: int = if b > 0 { b } else { -b };
    lemma_tdiv_bound(a, mb, m);
    lemma_div_is_ordered_by_denominator(m, 1, mb);
}

/// `a / b` on `i32`, rounding toward zero, for any divisor sign.
pub fn div_toward_zero(a: i32, b: i32) -> (q: i32)
    requires
        b != 0,
        !(a == i32::MIN && b == -1),
    ensures
        q == tdiv(a as int, b as int),
{
    if b > 0 {
        a / b
    } else if b == i32::MIN {
        if a == i32::MIN { 1 } else { 0 }
    } else {
        let nb: i32 = -b;
        let q: i32 = a / nb;
        proof {
            let m: int = if a >= 0 { a as int } else { -(a as int) };
            lemma_tdiv_bound(a as int, nb as int, m);
            if nb >= 2 {
                lemma_div_is_ordered_by_denominator(m, 2, nb as int);
            }
        }
        -q
    }
}

} // verus!
