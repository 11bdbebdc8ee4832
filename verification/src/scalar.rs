//! Decimal fixed-point numbers.
//!
//! Every length, ratio and weight of the layout engine is a [`Scalar`]: a signed count of
//! millionths. Arithmetic never fails: a result that does not fit is clamped to the nearest
//! representable value, and a quotient is truncated toward zero.

use vstd::prelude::*;

verus! {

/// The number of millionths in one.
pub const UNIT: i64 = 1_000_000;

/// The nearest value in the range of `i64`.
pub open spec fn clamp(v: int) -> int {
    if v < i64::MIN {
        i64::MIN as int
    } else if v > i64::MAX {
        i64::MAX as int
    } else {
        v
    }
}

/// The absolute value of an integer.
pub open spec fn mag(v: int) -> int {
    if v < 0 {
        -v
    } else {
        v
    }
}

/// `m` with the sign of a product or quotient of `a` and `b`.
pub open spec fn with_sign_of(a: int, b: int, m: int) -> int {
    if (a < 0) != (b < 0) {
        -m
    } else {
        m
    }
}

/// The product of two counts of millionths, itself in millionths.
pub open spec fn product(a: int, b: int) -> int {
    clamp(with_sign_of(a, b, (mag(a) * mag(b)) / (UNIT as int)))
}

/// The quotient of two counts of millionths, itself in millionths. Dividing by zero gives
/// the largest value with the sign of the dividend, and zero for zero.
pub open spec fn ratio(a: int, b: int) -> int {
    if b == 0 {
        if a > 0 {
            i64::MAX as int
        } else if a < 0 {
            i64::MIN as int
        } else {
            0
        }
    } else {
        clamp(with_sign_of(a, b, (mag(a) * (UNIT as int)) / mag(b)))
    }
}

/// Half of a count of millionths, truncated toward zero.
pub open spec fn halved(a: int) -> int {
    if a >= 0 {
        a / 2
    } else {
        -((-a) / 2)
    }
}

/// `r` is the integer square root of `n`.
pub open spec fn is_root(n: int, r: int) -> bool {
    0 <= r && r * r <= n < (r + 1) * (r + 1)
}

/// The integer square root: the largest `r` whose square is at most `n`.
pub open spec fn int_root(n: int) -> int {
    choose|r: int| is_root(n, r)
}

/// The square root of a count of millionths, itself in millionths; zero below zero.
pub open spec fn root(a: int) -> int {
    if a <= 0 {
        0
    } else {
        int_root(a * (UNIT as int))
    }
}

/// `c` is the least whole number whose square is at least `n`: the square root of `n`,
/// rounded up.
pub open spec fn is_ceil_root(n: int, c: int) -> bool {
    0 <= c && c * c >= n && (c == 0 || (c - 1) * (c - 1) < n)
}

/// A number has at most one rounded-up square root.
pub proof fn lemma_ceil_root_unique(n: int, c: int, d: int)
    requires
        is_ceil_root(n, c),
        is_ceil_root(n, d),
    ensures
        c == d,
{
    if c < d {
        assert(c * c <= (d - 1) * (d - 1)) by (nonlinear_arith)
            requires
                0 <= c <= d - 1,
        ;
    }
    if d < c {
        assert(d * d <= (c - 1) * (c - 1)) by (nonlinear_arith)
            requires
                0 <= d <= c - 1,
        ;
    }
}

/// An integer has at most one integer square root.
pub proof fn lemma_root_unique(n: int, r: int, s: int)
    requires
        is_root(n, r),
        is_root(n, s),
    ensures
        r == s,
{
    if r < s {
        assert((r + 1) * (r + 1) <= s * s) by (nonlinear_arith)
            requires
                0 <= r + 1 <= s,
        ;
    }
    if s < r {
        assert((s + 1) * (s + 1) <= r * r) by (nonlinear_arith)
            requires
                0 <= s + 1 <= r,
        ;
    }
}

/// A number that has an integer square root `r` has `r` as its `int_root`.
pub proof fn lemma_int_root(n: int, r: int)
    requires
        is_root(n, r),
    ensures
        int_root(n) == r,
{
    lemma_root_unique(n, r, int_root(n));
}

/// A signed decimal fixed-point number with six fractional digits.
#[derive(Clone, Copy, Debug, PartialEq, Eq, Structural)]
pub struct Scalar {
    /// The value, in millionths.
    pub micros: i64,
}

impl View for Scalar {
    type V = int;

    open spec fn view(&self) -> int {
        self.micros as int
    }
}

/// The magnitude of `v` as an unsigned number.
fn magnitude(v: i64) -> (r: u128)
    ensures
        r as int == mag(v as int),
        r <= 0x8000_0000_0000_0000u128,
{
    if v < 0 {
        let w: i128 = -(v as i128);
        w as u128
    } else {
        v as u128
    }
}

/// The value `m`, negated if `negative`, clamped to the range of `i64`.
fn saturate(negative: bool, m: u128) -> (r: i64)
    ensures
        r as int == clamp(if negative { -(m as int) } else { m as int }),
{
    if negative {
        if m >= 0x8000_0000_0000_0000u128 {
            i64::MIN
        } else {
            let w: i64 = m as i64;
            -w
        }
    } else {
        if m > 0x7fff_ffff_ffff_ffffu128 {
            i64::MAX
        } else {
            m as i64
        }
    }
}

/// The integer square root of `n`.
fn integer_root(n: u128) -> (r: u128)
    requires
        n < 0x4000_0000_0000_0000_0000_0000_0000_0000u128,
    ensures
        is_root(n as int, r as int),
        r < 0x8000_0000_0000_0000u128,
{
    let mut low: u128 = 0;
    let mut high: u128 = 0x8000_0000_0000_0000u128;
    assert(0x8000_0000_0000_0000int * 0x8000_0000_0000_0000int
        == 0x4000_0000_0000_0000_0000_0000_0000_0000int) by (nonlinear_arith);
    while high - low > 1
        invariant
            low < high <= 0x8000_0000_0000_0000u128,
            low * low <= n < high * high,
        decreases high - low,
    {
        let middle: u128 = low + (high - low) / 2;
        assert(middle * middle < 0x4000_0000_0000_0000_0000_0000_0000_0000int)
            by (nonlinear_arith)
            requires
                0 <= middle < 0x8000_0000_0000_0000int,
        ;
        if middle * middle <= n {
            low = middle;
        } else {
            high = middle;
        }
    }
    low
}

/// The square root of `n`, rounded up.
pub fn ceil_root(n: usize) -> (c: usize)
    ensures
        is_ceil_root(n as int, c as int),
{
    let r: u128 = integer_root(n as u128);
    assert(r * r <= n);
    assert(r <= n) by (nonlinear_arith)
        requires
            r * r <= n,
            0 <= r,
    ;
    if r * r == n as u128 {
        assert(r == 0 || (r - 1) * (r - 1) < r * r) by (nonlinear_arith)
            requires
                0 <= r,
        ;
        r as usize
    } else {
        assert((r + 1) * (r + 1) > n);
        assert(r + 1 <= n) by (nonlinear_arith)
            requires
                r * r < n,
                0 <= r,
        ;
        (r + 1) as usize
    }
}

impl Scalar {
    /// The number with the given count of millionths, which must fit.
    pub open spec fn of(micros: int) -> Scalar {
        Scalar { micros: micros as i64 }
    }

    pub open spec fn spec_plus(self, other: Scalar) -> Scalar {
        Scalar::of(clamp(self@ + other@))
    }

    pub open spec fn spec_minus(self, other: Scalar) -> Scalar {
        Scalar::of(clamp(self@ - other@))
    }

    pub open spec fn spec_times(self, other: Scalar) -> Scalar {
        Scalar::of(product(self@, other@))
    }

    pub open spec fn spec_over(self, other: Scalar) -> Scalar {
        Scalar::of(ratio(self@, other@))
    }

    pub open spec fn spec_half(self) -> Scalar {
        Scalar::of(halved(self@))
    }

    pub open spec fn spec_sqrt(self) -> Scalar {
        Scalar::of(root(self@))
    }

    pub open spec fn spec_lt(self, other: Scalar) -> bool {
        self@ < other@
    }

    pub open spec fn spec_min(self, other: Scalar) -> Scalar {
        if self@ <= other@ {
            self
        } else {
            other
        }
    }

    pub open spec fn spec_max(self, other: Scalar) -> Scalar {
        if self@ >= other@ {
            self
        } else {
            other
        }
    }

    pub open spec fn spec_from_count(n: usize) -> Scalar {
        Scalar::of(clamp(n * UNIT))
    }

    /// The number with the given count of millionths.
    pub fn new(micros: i64) -> (r: Scalar)
        ensures
            r@ == micros,
    {
        Scalar { micros }
    }

    /// The whole number `n`.
    pub fn from_int(n: i32) -> (r: Scalar)
        ensures
            r@ == n * UNIT,
    {
        Scalar { micros: (n as i64) * UNIT }
    }

    /// The whole number `n`, clamped.
    #[verifier::when_used_as_spec(spec_from_count)]
    pub fn from_count(n: usize) -> (r: Scalar)
        ensures
            r == Scalar::spec_from_count(n),
            r@ == clamp(n * UNIT),
    {
        let wide: u128 = (n as u128) * 1_000_000u128;
        Scalar { micros: saturate(false, wide) }
    }

    /// Zero.
    pub fn zero() -> (r: Scalar)
        ensures
            r@ == 0,
    {
        Scalar { micros: 0 }
    }

    /// One.
    pub fn one() -> (r: Scalar)
        ensures
            r@ == UNIT,
    {
        Scalar { micros: UNIT }
    }

    /// The sum, clamped.
    #[verifier::when_used_as_spec(spec_plus)]
    pub fn plus(self, other: Scalar) -> (r: Scalar)
        ensures
            r == self.spec_plus(other),
            r@ == clamp(self@ + other@),
    {
        let wide: i128 = self.micros as i128 + other.micros as i128;
        if wide < i64::MIN as i128 {
            Scalar { micros: i64::MIN }
        } else if wide > i64::MAX as i128 {
            Scalar { micros: i64::MAX }
        } else {
            Scalar { micros: wide as i64 }
        }
    }

    /// The difference, clamped.
    #[verifier::when_used_as_spec(spec_minus)]
    pub fn minus(self, other: Scalar) -> (r: Scalar)
        ensures
            r == self.spec_minus(other),
            r@ == clamp(self@ - other@),
    {
        let wide: i128 = self.micros as i128 - other.micros as i128;
        if wide < i64::MIN as i128 {
            Scalar { micros: i64::MIN }
        } else if wide > i64::MAX as i128 {
            Scalar { micros: i64::MAX }
        } else {
            Scalar { micros: wide as i64 }
        }
    }

    /// The product, truncated toward zero and clamped.
    #[verifier::when_used_as_spec(spec_times)]
    pub fn times(self, other: Scalar) -> (r: Scalar)
        ensures
            r == self.spec_times(other),
            r@ == product(self@, other@),
    {
        let a: u128 = magnitude(self.micros);
        let b: u128 = magnitude(other.micros);
        assert(a * b <= 0x8000_0000_0000_0000int * 0x8000_0000_0000_0000int) by (nonlinear_arith)
            requires
                0 <= a <= 0x8000_0000_0000_0000int,
                0 <= b <= 0x8000_0000_0000_0000int,
        ;
        let q: u128 = (a * b) / (UNIT as u128);
        let negative: bool = (self.micros < 0) != (other.micros < 0);
        Scalar { micros: saturate(negative, q) }
    }

    /// The quotient, truncated toward zero and clamped. Dividing by zero gives the largest
    /// value with the sign of `self`, and zero for zero.
    #[verifier::when_used_as_spec(spec_over)]
    pub fn over(self, other: Scalar) -> (r: Scalar)
        ensures
            r == self.spec_over(other),
            r@ == ratio(self@, other@),
    {
        if other.micros == 0 {
            if self.micros > 0 {
                Scalar { micros: i64::MAX }
            } else if self.micros < 0 {
                Scalar { micros: i64::MIN }
            } else {
                Scalar { micros: 0 }
            }
        } else {
            let a: u128 = magnitude(self.micros);
            let b: u128 = magnitude(other.micros);
            assert(a * 1_000_000 <= 0x8000_0000_0000_0000int * 1_000_000) by (nonlinear_arith)
                requires
                    0 <= a <= 0x8000_0000_0000_0000int,
            ;
            let q: u128 = (a * 1_000_000u128) / b;
            let negative: bool = (self.micros < 0) != (other.micros < 0);
            Scalar { micros: saturate(negative, q) }
        }
    }

    /// Half of the number, truncated toward zero.
    #[verifier::when_used_as_spec(spec_half)]
    pub fn half(self) -> (r: Scalar)
        ensures
            r == self.spec_half(),
            r@ == halved(self@),
    {
        if self.micros >= 0 {
            Scalar { micros: self.micros / 2 }
        } else {
            let m: u128 = magnitude(self.micros) / 2;
            Scalar { micros: saturate(true, m) }
        }
    }

    /// The square root, rounded down; zero for a number below zero.
    #[verifier::when_used_as_spec(spec_sqrt)]
    pub fn sqrt(self) -> (r: Scalar)
        ensures
            r == self.spec_sqrt(),
            r@ == root(self@),
    {
        if self.micros <= 0 {
            Scalar { micros: 0 }
        } else {
            let n: u128 = (self.micros as u128) * (UNIT as u128);
            let r: u128 = integer_root(n);
            proof {
                lemma_int_root(n as int, r as int);
            }
            Scalar { micros: r as i64 }
        }
    }

    /// Whether `self` is below `other`.
    #[verifier::when_used_as_spec(spec_lt)]
    pub fn lt(self, other: Scalar) -> (r: bool)
        ensures
            r == (self@ < other@),
    {
        self.micros < other.micros
    }

    /// The smaller of the two.
    #[verifier::when_used_as_spec(spec_min)]
    pub fn min(self, other: Scalar) -> (r: Scalar)
        ensures
            r == self.spec_min(other),
    {
        if self.micros <= other.micros {
            self
        } else {
            other
        }
    }

    /// The larger of the two.
    #[verifier::when_used_as_spec(spec_max)]
    pub fn max(self, other: Scalar) -> (r: Scalar)
        ensures
            r == self.spec_max(other),
    {
        if self.micros >= other.micros {
            self
        } else {
            other
        }
    }
}

/// The clamped sum of the first `upto` numbers of `s`, added in order.
pub open spec fn total(s: Seq<Scalar>, upto: int) -> Scalar
    decreases upto,
{
    if upto <= 0 {
        Scalar::of(0)
    } else {
        total(s, upto - 1).spec_plus(s[upto - 1])
    }
}

} // verus!
