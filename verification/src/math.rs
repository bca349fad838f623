//! A bounded binomial-coefficient calculator.
//!
//! `BinomialCoefficient` holds a validated pair `(n, k)` with
//! `1 <= n <= 20` and `k <= n`; the bound on `n` keeps every factorial
//! involved within `u64`. The number of unordered `k`-element subsets
//! of `{1, ..., n}` is computed as `n! / (k! * (n - k)!)` and proved
//! equal to the binomial coefficient defined by Pascal's rule.

use vstd::prelude::*;

verus! {

/// The factorial of `x`.
pub open spec fn spec_factorial(x: nat) -> nat
    decreases x,
{
    if x == 0 {
        1
    } else {
        x * spec_factorial((x - 1) as nat)
    }
}

/// The binomial coefficient "n choose k", by Pascal's rule.
pub open spec fn spec_binomial(n: nat, k: nat) -> nat
    decreases n,
{
    if k == 0 {
        1
    } else if k > n {
        0
    } else {
        spec_binomial((n - 1) as nat, (k - 1) as nat) + spec_binomial((n - 1) as nat, k)
    }
}

/// Every factorial is at least one.
pub proof fn lemma_factorial_pos(x: nat)
    ensures
        spec_factorial(x) >= 1,
    decreases x,
{
    if x > 0 {
        lemma_factorial_pos((x - 1) as nat);
        assert(x * spec_factorial((x - 1) as nat) >= 1) by (nonlinear_arith)
            requires
                x >= 1,
                spec_factorial((x - 1) as nat) >= 1,
        ;
    }
}

/// The factorial is monotonic.
pub proof fn lemma_factorial_monotonic(a: nat, b: nat)
    requires
        a <= b,
    ensures
        spec_factorial(a) <= spec_factorial(b),
    decreases b,
{
    if a < b {
        lemma_factorial_monotonic(a, (b - 1) as nat);
        lemma_factorial_pos((b - 1) as nat);
        assert(spec_factorial((b - 1) as nat) <= b * spec_factorial((b - 1) as nat))
            by (nonlinear_arith)
            requires
                b >= 1,
                spec_factorial((b - 1) as nat) >= 1,
        ;
    }
}

/// Choosing all `n` elements can be done in exactly one way.
proof fn lemma_binomial_all(n: nat)
    ensures
        spec_binomial(n, n) == 1,
    decreases n,
{
    if n > 0 {
        lemma_binomial_all((n - 1) as nat);
        assert(spec_binomial((n - 1) as nat, n) == 0);
    }
}

/// The binomial coefficient of Pascal's rule satisfies the factorial
/// identity: `C(n, k) * (k! * (n - k)!) == n!` whenever `k <= n`.
pub proof fn lemma_binomial_factorial(n: nat, k: nat)
    requires
        k <= n,
    ensures
        spec_binomial(n, k) * (spec_factorial(k) * spec_factorial((n - k) as nat))
            == spec_factorial(n),
    decreases n,
{
    if k == 0 {
        assert(spec_binomial(n, 0) == 1);
        assert(1 * (1 * spec_factorial(n)) == spec_factorial(n)) by (nonlinear_arith);
    } else if k == n {
        lemma_binomial_all(n);
        assert(1 * (spec_factorial(n) * 1) == spec_factorial(n)) by (nonlinear_arith);
    } else {
        let n1 = (n - 1) as nat;
        let c1 = spec_binomial(n1, (k - 1) as nat);
        let c2 = spec_binomial(n1, k);
        let fk1 = spec_factorial((k - 1) as nat);
        let fk = spec_factorial(k);
        let fnk = spec_factorial((n - k) as nat);
        let fnk1 = spec_factorial((n - k - 1) as nat);
        let fn1 = spec_factorial(n1);
        lemma_binomial_factorial(n1, (k - 1) as nat);
        lemma_binomial_factorial(n1, k);
        assert(c1 * (fk1 * fnk) == fn1);
        assert(c2 * (fk * fnk1) == fn1);
        assert(fk == k * fk1);
        assert(fnk == (n - k) as nat * fnk1);
        assert(c1 * (fk * fnk) == k * fn1) by (nonlinear_arith)
            requires
                c1 * (fk1 * fnk) == fn1,
                fk == k * fk1,
        ;
        assert(c2 * (fk * fnk) == (n - k) as nat * fn1) by (nonlinear_arith)
            requires
                c2 * (fk * fnk1) == fn1,
                fnk == (n - k) as nat * fnk1,
        ;
        assert((c1 + c2) * (fk * fnk) == c1 * (fk * fnk) + c2 * (fk * fnk)) by (nonlinear_arith);
        assert(k * fn1 + (n - k) as nat * fn1 == n * fn1) by (nonlinear_arith)
            requires
                k <= n,
        ;
        assert(spec_binomial(n, k) == c1 + c2);
        assert(spec_factorial(n) == n * fn1);
    }
}

/// A binomial coefficient over a valid pair is at least one.
pub proof fn lemma_binomial_pos(n: nat, k: nat)
    requires
        k <= n,
    ensures
        spec_binomial(n, k) >= 1,
{
    lemma_binomial_factorial(n, k);
    lemma_factorial_pos(n);
    if spec_binomial(n, k) == 0 {
        assert(0 * (spec_factorial(k) * spec_factorial((n - k) as nat)) == 0) by (nonlinear_arith);
    }
}

/// The factorial of twenty, the largest this module computes; it fits
/// in a `u64`.
pub proof fn lemma_factorial_20_value()
    ensures
        spec_factorial(20) == 2432902008176640000,
{
    reveal_with_fuel(spec_factorial, 21);
}

/// Computes the factorial of `x`; the bound keeps the result within
/// `u64`.
pub(crate) fn factorial(x: u64) -> (r: u64)
    requires
        x <= 20,
    ensures
        r == spec_factorial(x as nat),
{
    let mut result: u64 = 1;
    let mut i: u64 = 1;
    while i <= x
        invariant
            1 <= i <= x + 1,
            x <= 20,
            result == spec_factorial((i - 1) as nat),
        decreases x + 1 - i,
    {
        proof {
            lemma_factorial_monotonic(i as nat, 20);
            lemma_factorial_20_value();
            assert(spec_factorial(i as nat) == i * spec_factorial((i - 1) as nat));
            assert(result * i == spec_factorial(i as nat)) by (nonlinear_arith)
                requires
                    result == spec_factorial((i - 1) as nat),
                    spec_factorial(i as nat) == i * spec_factorial((i - 1) as nat),
            ;
            assert(spec_factorial(i as nat) <= 2432902008176640000);
        }
        result = result * i;
        i = i + 1;
    }
    result
}

/// Why a pair `(n, k)` cannot be used as a binomial coefficient.
#[derive(Debug, PartialEq, Eq)]
pub enum BinomialCoefficientCreationError {
    NumberOfElementsInSetTooLarge(u64),
    NoElementsInSet(u64),
    /// Never produced: the chosen count is unsigned and so cannot be
    /// negative.
    ChosenLessThanZero(u64),
    ChosenGreaterThanNumberOfElementsInSet(u64, u64),
}

/// A validated pair `(n, k)` whose binomial coefficient "n choose k"
/// can be computed exactly in `u64` arithmetic.
#[derive(Debug)]
pub struct BinomialCoefficient {
    n: u64,
    k: u64,
}

impl BinomialCoefficient {
    /// The number of elements in the set.
    pub closed spec fn spec_n(&self) -> u64 {
        self.n
    }

    /// The number of elements chosen.
    pub closed spec fn spec_k(&self) -> u64 {
        self.k
    }

    /// Every `BinomialCoefficient` holds a non-empty set of at most
    /// twenty elements and chooses no more elements than the set has.
    #[verifier::type_invariant]
    spec fn wf(&self) -> bool {
        1 <= self.n <= 20 && self.k <= self.n
    }

    /// Validates the pair `(n, k)` and returns a `BinomialCoefficient`
    /// over it, or the reason the pair is rejected: the set may not be
    /// empty, it may hold at most twenty elements (so that the
    /// factorials involved fit in a `u64`), and no more elements can
    /// be chosen than the set has.
    pub fn new(n: u64, k: u64) -> (result: Result<Self, BinomialCoefficientCreationError>)
        ensures
            n == 0 ==> result == Err::<Self, _>(
                BinomialCoefficientCreationError::NoElementsInSet(n),
            ),
            n > 20 ==> result == Err::<Self, _>(
                BinomialCoefficientCreationError::NumberOfElementsInSetTooLarge(n),
            ),
            1 <= n <= 20 && k > n ==> result == Err::<Self, _>(
                BinomialCoefficientCreationError::ChosenGreaterThanNumberOfElementsInSet(n, k),
            ),
            1 <= n <= 20 && k <= n ==> (result matches Ok(bc) && bc.spec_n() == n && bc.spec_k()
                == k),
    {
        if n == 0 {
            Err(BinomialCoefficientCreationError::NoElementsInSet(n))
        } else if n > 20 {
            Err(BinomialCoefficientCreationError::NumberOfElementsInSetTooLarge(n))
        } else if k > n {
            Err(BinomialCoefficientCreationError::ChosenGreaterThanNumberOfElementsInSet(n, k))
        } else {
            Ok(Self { n, k })
        }
    }

    /// Returns the number of unordered `k`-element subsets of a set of
    /// `n` elements: the binomial coefficient "n choose k".
    pub fn get_num_unordered_subsets(&self) -> (r: u64)
        ensures
            r == spec_binomial(self.spec_n() as nat, self.spec_k() as nat),
    {
        proof {
            use_type_invariant(&*self);
        }
        crate::binom(self.n, self.k)
    }
}

} // verus!
