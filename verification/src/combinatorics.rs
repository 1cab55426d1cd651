//! Factorials and the ratio `n! / (m! * (n - m)!)`, exact in `usize`.

use crate::error::DMIError;
use factorial::Factorial;
use vstd::arithmetic::div_mod::{lemma_div_by_multiple, lemma_div_by_self};
use vstd::prelude::*;

verus! {

/// `n!`.
pub open spec fn factorial(n: nat) -> nat
    decreases n,
{
    if n == 0 {
        1
    } else {
        n * factorial((n - 1) as nat)
    }
}

/// `n! / (m! * (n - m)!)`, the number of ways to choose `m` of `n`.
pub open spec fn binomial(n: nat, m: nat) -> nat
    recommends
        m <= n,
{
    factorial(n) / (factorial(m) * factorial((n - m) as nat))
}

/// What a checked factorial in `usize` returns: `n!` where it fits.
pub open spec fn factorial_in_usize(n: nat) -> Option<usize> {
    if factorial(n) <= usize::MAX {
        Some(factorial(n) as usize)
    } else {
        None
    }
}

/// What the ratio `n! / (m! * (n - m)!)` comes to in `usize`.
///
/// It fails with `FactorialCalc` where `n!` or `m!` does not fit, and with
/// `NLessThanM` where both fit and `m > n`. Otherwise `(n - m)!` and the
/// denominator fit too and the denominator is not zero, so the ratio is
/// returned: no other error arises.
pub open spec fn ratio_of_factorials(n: nat, m: nat) -> Result<usize, DMIError> {
    if factorial(n) > usize::MAX || factorial(m) > usize::MAX {
        Err(DMIError::FactorialCalc)
    } else if m > n {
        Err(DMIError::NLessThanM)
    } else {
        Ok(binomial(n, m) as usize)
    }
}

/// The largest argument whose factorial fits in 64 bits.
pub const MAX_FACTORIAL_ARG: usize = 20;

/// `Factorial::checked_factorial` of the `factorial` crate, on a `usize` of
/// at most [`MAX_FACTORIAL_ARG`]. For such an argument the crate looks `n!` up
/// in its table of exact factorials and converts it: the result is `n!` where
/// that fits in `usize`, and `None` where it does not.
///
/// Larger arguments are kept from the crate: beyond its tables it builds a
/// prime sieve as large as the argument.
#[verifier::external_body]
fn table_factorial(n: usize) -> (r: Option<usize>)
    requires
        n <= MAX_FACTORIAL_ARG,
    ensures
        r == factorial_in_usize(n as nat),
{
    n.checked_factorial()
}

/// `n!`, or `None` where it does not fit in `usize`.
///
/// No factorial beyond `20!` fits, so a larger argument is answered at once.
pub fn checked_factorial(n: usize) -> (r: Option<usize>)
    ensures
        r == factorial_in_usize(n as nat),
{
    if n > MAX_FACTORIAL_ARG {
        proof {
            lemma_factorial_beyond_usize(n as nat);
        }
        None
    } else {
        table_factorial(n)
    }
}

/// Every factorial is at least one.
pub proof fn lemma_factorial_positive(n: nat)
    ensures
        factorial(n) >= 1,
    decreases n,
{
    if n > 0 {
        lemma_factorial_positive((n - 1) as nat);
        assert(n * factorial((n - 1) as nat) >= 1) by (nonlinear_arith)
            requires
                n >= 1,
                factorial((n - 1) as nat) >= 1,
        ;
    }
}

/// The factorial does not decrease.
pub proof fn lemma_factorial_monotone(a: nat, b: nat)
    requires
        a <= b,
    ensures
        factorial(a) <= factorial(b),
    decreases b,
{
    if a < b {
        lemma_factorial_monotone(a, (b - 1) as nat);
        lemma_factorial_positive((b - 1) as nat);
        assert(b * factorial((b - 1) as nat) >= factorial((b - 1) as nat)) by (nonlinear_arith)
            requires
                b >= 1,
        ;
    }
}

/// `m! * k!` is at most `(m + k)!`.
pub proof fn lemma_factorial_product_bound(m: nat, k: nat)
    ensures
        1 <= factorial(m) * factorial(k) <= factorial(m + k),
    decreases k,
{
    lemma_factorial_positive(m);
    lemma_factorial_positive(k);
    if k == 0 {
        assert(factorial(m) * factorial(0) == factorial(m)) by (nonlinear_arith)
            requires
                factorial(0) == 1,
        ;
    } else {
        let j = (k - 1) as nat;
        lemma_factorial_product_bound(m, j);
        assert(factorial(m) * factorial(k) <= (m + k) * factorial(m + j)) by (nonlinear_arith)
            requires
                factorial(k) == k * factorial(j),
                factorial(m) * factorial(j) <= factorial(m + j),
                factorial(m) >= 1,
                factorial(j) >= 1,
        ;
        assert(factorial(m) * factorial(k) >= 1) by (nonlinear_arith)
            requires
                factorial(m) >= 1,
                factorial(k) >= 1,
        ;
    }
}

/// `21!` is beyond 64 bits, and so is every later factorial.
pub proof fn lemma_factorial_beyond_usize(n: nat)
    requires
        n > MAX_FACTORIAL_ARG,
    ensures
        factorial(n) > usize::MAX,
{
    assert(factorial(21) == 51090942171709440000) by {
        assert(factorial(0) == 1);
        assert(factorial(1) == 1);
        assert(factorial(2) == 2);
        assert(factorial(3) == 6);
        assert(factorial(4) == 24);
        assert(factorial(5) == 120);
        assert(factorial(6) == 720);
        assert(factorial(7) == 5040);
        assert(factorial(8) == 40320);
        assert(factorial(9) == 362880);
        assert(factorial(10) == 3628800);
        assert(factorial(11) == 39916800);
        assert(factorial(12) == 479001600);
        assert(factorial(13) == 6227020800);
        assert(factorial(14) == 87178291200);
        assert(factorial(15) == 1307674368000);
        assert(factorial(16) == 20922789888000);
        assert(factorial(17) == 355687428096000);
        assert(factorial(18) == 6402373705728000);
        assert(factorial(19) == 121645100408832000);
        assert(factorial(20) == 2432902008176640000);
    }
    lemma_factorial_monotone(21, n);
}

/// The number of ways to choose `m` of `n` things, by Pascal's rule: the
/// choices that take the last thing, and those that leave it.
pub open spec fn choices(n: nat, m: nat) -> nat
    decreases n,
{
    if m == 0 {
        1
    } else if n == 0 {
        0
    } else {
        choices((n - 1) as nat, (m - 1) as nat) + choices((n - 1) as nat, m)
    }
}

/// There is no way to choose more than there is.
pub proof fn lemma_choices_beyond(n: nat, m: nat)
    requires
        m > n,
    ensures
        choices(n, m) == 0,
    decreases n,
{
    if n > 0 {
        lemma_choices_beyond((n - 1) as nat, (m - 1) as nat);
        lemma_choices_beyond((n - 1) as nat, m);
    }
}

/// `n!` is the number of choices of `m` out of `n`, times `m! * (n - m)!`.
pub proof fn lemma_choices_times_factorials(n: nat, m: nat)
    requires
        m <= n,
    ensures
        choices(n, m) * (factorial(m) * factorial((n - m) as nat)) == factorial(n),
    decreases n,
{
    let k = (n - m) as nat;
    if m == 0 {
        assert(1 * (1 * factorial(n)) == factorial(n)) by (nonlinear_arith);
    } else if m == n {
        let p = (n - 1) as nat;
        lemma_choices_times_factorials(p, p);
        lemma_choices_beyond(p, n);
        lemma_factorial_positive(p);
        assert(choices(p, p) == 1) by (nonlinear_arith)
            requires
                choices(p, p) * (factorial(p) * 1) == factorial(p),
                factorial(p) >= 1,
        ;
    } else {
        let p = (n - 1) as nat;
        let taken = choices(p, (m - 1) as nat);
        let left = choices(p, m);
        let fm = factorial((m - 1) as nat);
        let fk = factorial((k - 1) as nat);
        lemma_choices_times_factorials(p, (m - 1) as nat);
        lemma_choices_times_factorials(p, m);
        assert((taken + left) * ((m * fm) * (k * fk)) == n * factorial(p)) by (nonlinear_arith)
            requires
                taken * (fm * (k * fk)) == factorial(p),
                left * ((m * fm) * fk) == factorial(p),
                n == m + k,
        ;
    }
}

/// The ratio is exact: dividing `n!` by `m! * (n - m)!` leaves no remainder,
/// and the quotient is the number of ways to choose `m` of `n`.
pub proof fn lemma_binomial_is_exact(n: nat, m: nat)
    requires
        m <= n,
    ensures
        binomial(n, m) == choices(n, m),
        binomial(n, m) * (factorial(m) * factorial((n - m) as nat)) == factorial(n),
{
    let d = factorial(m) * factorial((n - m) as nat);
    lemma_choices_times_factorials(n, m);
    lemma_factorial_product_bound(m, (n - m) as nat);
    lemma_div_by_multiple(choices(n, m) as int, d as int);
}

/// Choosing `m` of `n` leaves `n - m`: the ratio for `m` is the ratio for
/// `n - m`, and where one fails, the other fails in the same way.
pub proof fn lemma_ratio_is_symmetric(n: nat, m: nat)
    requires
        m <= n,
    ensures
        ratio_of_factorials(n, m) == ratio_of_factorials(n, (n - m) as nat),
{
    let k = (n - m) as nat;
    lemma_factorial_monotone(m, n);
    lemma_factorial_monotone(k, n);
    assert((n - k) as nat == m);
}

/// There is one way to choose nothing and one way to choose all: wherever
/// `n!` fits in `usize`, the ratio for `0` and the ratio for `n` are `1`.
pub proof fn lemma_ratio_at_the_ends(n: nat)
    requires
        factorial(n) <= usize::MAX,
    ensures
        ratio_of_factorials(n, 0) == Ok::<usize, DMIError>(1),
        ratio_of_factorials(n, n) == Ok::<usize, DMIError>(1),
{
    lemma_factorial_positive(n);
    lemma_div_by_self(factorial(n) as int);
    assert(factorial(0) * factorial(n) == factorial(n)) by (nonlinear_arith)
        requires
            factorial(0) == 1,
    ;
    assert(factorial(n) * factorial(0) == factorial(n)) by (nonlinear_arith)
        requires
            factorial(0) == 1,
    ;
}

/// Where the ratio is returned it is the number of ways to choose `m` of `n`,
/// and it is returned wherever `m <= n` and `n!` fits in `usize`.
pub proof fn lemma_ratio_is_choices(n: nat, m: nat)
    requires
        m <= n,
        factorial(n) <= usize::MAX,
    ensures
        ratio_of_factorials(n, m) == Ok::<usize, DMIError>(choices(n, m) as usize),
        1 <= choices(n, m) <= factorial(n),
{
    let d = factorial(m) * factorial((n - m) as nat);
    lemma_factorial_monotone(m, n);
    lemma_binomial_is_exact(n, m);
    lemma_factorial_product_bound(m, (n - m) as nat);
    lemma_factorial_positive(n);
    assert(1 <= choices(n, m) <= factorial(n)) by (nonlinear_arith)
        requires
            choices(n, m) * d == factorial(n),
            d >= 1,
            factorial(n) >= 1,
    ;
}

} // verus!
