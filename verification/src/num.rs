use vstd::prelude::*;

verus! {

/// A numeric literal: an exact fraction with a positive denominator.
///
/// The machine never compares numbers, so no canonical form is maintained;
/// a fraction is whatever numerator and denominator it was built from, and
/// addition multiplies out the common denominator exactly.
#[derive(Clone, Copy, Debug, PartialEq, Eq)]
pub struct Rational {
    pub n: i64,
    pub d: u64,
}

impl Rational {
    /// Well-formed: the denominator is positive.
    pub open spec fn wf(self) -> bool {
        self.d >= 1
    }

    /// The fraction `n / d`.
    pub fn new(n: i64, d: u64) -> (r: Rational)
        requires
            d >= 1,
        ensures
            r == (Rational { n, d }),
            r.wf(),
    {
        Rational { n, d }
    }

    /// The whole number `n`.
    pub fn from_int(n: i64) -> (r: Rational)
        ensures
            r == (Rational { n, d: 1u64 }),
            r.wf(),
    {
        Rational { n, d: 1 }
    }

    /// A well-formed fraction denotes zero exactly when its numerator is zero.
    pub open spec fn is_zero_spec(self) -> bool {
        self.n == 0
    }

    /// Decides `is_zero_spec`.
    pub fn is_zero(&self) -> (r: bool)
        ensures
            r == self.is_zero_spec(),
    {
        self.n == 0
    }
}

/// Numerator of the exact sum `a + b` over the common denominator `a.d * b.d`.
pub open spec fn sum_num(a: Rational, b: Rational) -> int {
    a.n * b.d + b.n * a.d
}

/// Denominator of the exact sum `a + b`.
pub open spec fn sum_den(a: Rational, b: Rational) -> int {
    a.d * b.d
}

/// Whether the exact sum is representable at all.
pub open spec fn sum_fits(a: Rational, b: Rational) -> bool {
    &&& i64::MIN <= sum_num(a, b) <= i64::MAX
    &&& sum_den(a, b) <= u64::MAX
}

/// The exact sum, when it is representable.
pub open spec fn rat_sum(a: Rational, b: Rational) -> Rational {
    Rational { n: sum_num(a, b) as i64, d: sum_den(a, b) as u64 }
}

/// Exact addition; `None` exactly when the sum is not representable.
pub fn rat_add(a: &Rational, b: &Rational) -> (r: Option<Rational>)
    ensures
        sum_fits(*a, *b) ==> r == Some(rat_sum(*a, *b)),
        !sum_fits(*a, *b) ==> r is None,
        a.wf() && b.wf() && sum_fits(*a, *b) ==> rat_sum(*a, *b).wf(),
{
    proof {
        lemma_mixed_product_bounds(a.n as int, b.d as int);
        lemma_mixed_product_bounds(b.n as int, a.d as int);
        lemma_den_product_bounds(a.d as int, b.d as int);
        if a.wf() && b.wf() && sum_fits(*a, *b) {
            assert(1 <= a.d * b.d) by (nonlinear_arith)
                requires
                    1 <= a.d,
                    1 <= b.d,
            ;
        }
    }
    let p1: i128 = (a.n as i128) * (b.d as i128);
    let p2: i128 = (b.n as i128) * (a.d as i128);
    let den: u128 = (a.d as u128) * (b.d as u128);
    match p1.checked_add(p2) {
        None => None,
        Some(s) => {
            if s >= i64::MIN as i128 && s <= i64::MAX as i128 && den <= u64::MAX as u128 {
                Some(Rational { n: s as i64, d: den as u64 })
            } else {
                None
            }
        },
    }
}

/// The product of an `i64` and a `u64` stays inside `i128`.
proof fn lemma_mixed_product_bounds(x: int, y: int)
    requires
        i64::MIN <= x <= i64::MAX,
        0 <= y <= u64::MAX,
    ensures
        i128::MIN < x * y < i128::MAX,
{
    assert(i128::MIN < x * y < i128::MAX) by (nonlinear_arith)
        requires
            -0x8000_0000_0000_0000 <= x <= 0x7fff_ffff_ffff_ffff,
            0 <= y <= 0xffff_ffff_ffff_ffff,
    ;
}

/// The product of two `u64` values stays inside `u128`.
proof fn lemma_den_product_bounds(x: int, y: int)
    requires
        0 <= x <= u64::MAX,
        0 <= y <= u64::MAX,
    ensures
        0 <= x * y <= u128::MAX,
{
    assert(0 <= x * y <= 0xffff_ffff_ffff_ffff_ffff_ffff_ffff_ffff) by (nonlinear_arith)
        requires
            0 <= x <= 0xffff_ffff_ffff_ffff,
            0 <= y <= 0xffff_ffff_ffff_ffff,
    ;
}

/// When the sum fits, `rat_sum` carries it exactly: the numerator is the
/// cross-multiplied sum and the denominator the product, with nothing lost
/// to truncation.
pub proof fn lemma_rat_sum_exact(a: Rational, b: Rational)
    requires
        sum_fits(a, b),
    ensures
        rat_sum(a, b).n == sum_num(a, b),
        rat_sum(a, b).d == sum_den(a, b),
{
    lemma_den_product_bounds(a.d as int, b.d as int);
}

} // verus!
