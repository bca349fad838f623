//! Small verified utilities: a memoizing cache for two-argument
//! computations, a bounded binomial-coefficient calculator, abstract
//! container interfaces, and helpers that report string length and
//! type layout.

pub mod cache;
pub mod interfaces;
pub mod math;

use vstd::arithmetic::div_mod::lemma_div_by_multiple;
use vstd::prelude::*;
use vstd::string::StringSliceAdditionalSpecFns;

verus! {

/// Returns the binomial coefficient for "n choose k": the number of
/// ways of choosing `k` distinct integers from the set `{1, ..., n}`,
/// computed as `n! / (k! * (n - k)!)`. The bound on `n` keeps every
/// factorial involved within `u64`.
pub fn binom(n: u64, k: u64) -> (r: u64)
    requires
        k <= n,
        n <= 20,
    ensures
        r == math::spec_binomial(n as nat, k as nat),
{
    let ghost c = math::spec_binomial(n as nat, k as nat);
    let num = math::factorial(n);
    let den_k = math::factorial(k);
    let den_nk = math::factorial(n - k);
    proof {
        math::lemma_binomial_factorial(n as nat, k as nat);
        math::lemma_binomial_pos(n as nat, k as nat);
        math::lemma_factorial_pos(k as nat);
        math::lemma_factorial_pos((n - k) as nat);
        assert(den_k * den_nk <= c * (den_k * den_nk)) by (nonlinear_arith)
            requires
                c >= 1,
                den_k >= 1,
                den_nk >= 1,
        ;
        assert(den_k * den_nk >= 1) by (nonlinear_arith)
            requires
                den_k >= 1,
                den_nk >= 1,
        ;
    }
    let den = den_k * den_nk;
    proof {
        lemma_div_by_multiple(c as int, den as int);
        assert(c * den == num) by (nonlinear_arith)
            requires
                c * (den_k * den_nk) == num,
                den == den_k * den_nk,
        ;
        assert(c <= num) by (nonlinear_arith)
            requires
                c * den == num,
                den >= 1,
                c >= 1,
        ;
    }
    num / den
}

/// Returns the length in bytes of the given string slice.
pub fn strlen(s: &str) -> (n: usize)
    ensures
        n == s.spec_bytes().len() as usize,
{
    s.len()
}

/// Returns the byte alignment and the number of bytes a value of type
/// `T` takes up in memory, in that order.
pub fn size_and_align_of<T>() -> (r: (usize, usize))
    ensures
        r.0 as nat == vstd::layout::align_of::<T>(),
        r.1 as nat == vstd::layout::size_of::<T>(),
{
    (core::mem::align_of::<T>(), core::mem::size_of::<T>())
}

} // verus!
