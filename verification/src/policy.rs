//! Capacity policy: exact rational scaling factors.
//!
//! A factor is a fraction `num / den` of machine integers, so that the
//! capacity arithmetic is exact. Applying a factor to a capacity always
//! rounds down.

use vstd::prelude::*;

verus! {

/// A non-negative rational multiplier `num / den`.
#[derive(Clone, Copy, Debug)]
pub struct Factor {
    num: u64,
    den: u64,
}

impl Factor {
    /// The numerator.
    pub closed spec fn spec_num(&self) -> u64 {
        self.num
    }

    /// The denominator.
    pub closed spec fn spec_den(&self) -> u64 {
        self.den
    }

    /// The denominator is non-zero, so the factor denotes a number.
    pub open spec fn wf(&self) -> bool {
        self.spec_den() > 0
    }

    /// The factor is strictly greater than one.
    pub open spec fn spec_is_expansion(&self) -> bool {
        self.wf() && self.spec_num() > self.spec_den()
    }

    /// The factor lies strictly between zero and one.
    pub open spec fn spec_is_reduction(&self) -> bool {
        self.wf() && 0 < self.spec_num() < self.spec_den()
    }

    /// `floor(n * num / den)`: the factor applied to `n`, rounded down.
    pub open spec fn of(&self, n: int) -> int {
        (n * self.spec_num()) / (self.spec_den() as int)
    }

    /// The capacity that growth by this factor leads to: the factor applied
    /// to `capacity`, but at least one more than before, and never beyond
    /// what a `usize` can hold.
    pub open spec fn grown(&self, capacity: int) -> int {
        let target = if self.of(capacity) > capacity {
            self.of(capacity)
        } else {
            capacity + 1
        };
        if target > usize::MAX {
            usize::MAX as int
        } else {
            target
        }
    }

    /// Builds the factor `num / den`; there is none with a zero denominator.
    pub fn new(num: u64, den: u64) -> (result: Option<Factor>)
        ensures
            den == 0 <==> result is None,
            result matches Some(f) ==> f.wf() && f.spec_num() == num && f.spec_den() == den,
    {
        if den == 0 {
            None
        } else {
            Some(Factor { num, den })
        }
    }

    #[verifier::when_used_as_spec(spec_num)]
    pub fn num(&self) -> (result: u64)
        ensures
            result == self.spec_num(),
    {
        self.num
    }

    #[verifier::when_used_as_spec(spec_den)]
    pub fn den(&self) -> (result: u64)
        ensures
            result == self.spec_den(),
    {
        self.den
    }

    #[verifier::when_used_as_spec(spec_is_expansion)]
    pub fn is_expansion(&self) -> (result: bool)
        ensures
            result == self.spec_is_expansion(),
    {
        self.den > 0 && self.num > self.den
    }

    #[verifier::when_used_as_spec(spec_is_reduction)]
    pub fn is_reduction(&self) -> (result: bool)
        ensures
            result == self.spec_is_reduction(),
    {
        0 < self.num && self.num < self.den
    }

    /// Applies the factor to `n`, rounding down; a result too large for a
    /// `usize` is reported as `usize::MAX`.
    pub fn apply(&self, n: usize) -> (result: usize)
        requires
            self.wf(),
        ensures
            self.of(n as int) <= usize::MAX ==> result == self.of(n as int),
            self.of(n as int) > usize::MAX ==> result == usize::MAX,
    {
        proof {
            lemma_product_fits(n as int, self.num as int);
        }
        let product: u128 = (n as u128) * (self.num as u128);
        let quotient: u128 = product / (self.den as u128);
        if quotient > usize::MAX as u128 {
            usize::MAX
        } else {
            quotient as usize
        }
    }

    /// Computes the capacity that growth from `capacity` leads to.
    pub fn grow(&self, capacity: usize) -> (result: usize)
        requires
            self.wf(),
        ensures
            result == self.grown(capacity as int),
    {
        let target = self.apply(capacity);
        if target > capacity {
            target
        } else if capacity < usize::MAX {
            capacity + 1
        } else {
            capacity
        }
    }
}

/// The product of a `usize` and a `u64` fits in 128 bits.
proof fn lemma_product_fits(n: int, m: int)
    requires
        0 <= n <= usize::MAX,
        0 <= m <= u64::MAX,
    ensures
        0 <= n * m <= u128::MAX,
{
    assert(0 <= n * m <= 0xffff_ffff_ffff_ffff * 0xffff_ffff_ffff_ffff) by (nonlinear_arith)
        requires
            0 <= n <= 0xffff_ffff_ffff_ffff,
            0 <= m <= 0xffff_ffff_ffff_ffff,
    ;
}

/// A factor applied to a non-negative number gives a non-negative number.
pub proof fn lemma_of_nonnegative(f: Factor, n: int)
    requires
        f.wf(),
        0 <= n,
    ensures
        0 <= f.of(n),
{
    let num = f.spec_num() as int;
    let den = f.spec_den() as int;
    assert(0 <= n * num) by (nonlinear_arith)
        requires
            0 <= n,
            0 <= num,
    ;
    assert(0 <= (n * num) / den) by (nonlinear_arith)
        requires
            0 <= n * num,
            0 < den,
    ;
}

/// A factor below one takes every positive number strictly below itself,
/// and zero to zero.
pub proof fn lemma_reduction_lowers(f: Factor, n: int)
    requires
        f.spec_is_reduction(),
        0 <= n,
    ensures
        0 <= f.of(n) <= n,
        n > 0 ==> f.of(n) < n,
{
    let num = f.spec_num() as int;
    let den = f.spec_den() as int;
    lemma_of_nonnegative(f, n);
    if n > 0 {
        assert(n * num < n * den) by (nonlinear_arith)
            requires
                0 < n,
                num < den,
        ;
        assert((n * num) / den < n) by (nonlinear_arith)
            requires
                n * num < n * den,
                0 < den,
        ;
    } else {
        assert(n * num == 0) by (nonlinear_arith)
            requires
                n == 0,
        ;
    }
}

/// Growth makes progress: below the machine limit the grown capacity is
/// strictly larger than the one it started from, whatever the factor
/// rounds to.
pub proof fn lemma_growth_progress(f: Factor, capacity: int)
    requires
        0 <= capacity < usize::MAX,
    ensures
        capacity < f.grown(capacity) <= usize::MAX,
{
}

} // verus!
