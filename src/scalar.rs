use vstd::prelude::*;

verus! {

/// The number type that tuples, colours, matrices and canvases are built over.
///
/// Every operation is described by a spec function, and the executable
/// method returns exactly what its spec function says. The algebra of the
/// library (matrix products, determinants, serialized channels) is stated and
/// proved in terms of these spec functions, so it holds for every
/// implementation that meets these contracts.
pub trait Scalar: Copy + Sized {
    /// The additive identity.
    spec fn spec_zero() -> Self;

    /// The multiplicative identity.
    spec fn spec_one() -> Self;

    spec fn spec_plus(self, other: Self) -> Self;

    spec fn spec_minus(self, other: Self) -> Self;

    spec fn spec_times(self, other: Self) -> Self;

    spec fn spec_negated(self) -> Self;

    /// The quotient; each type says what it gives for a zero divisor.
    spec fn spec_divided(self, other: Self) -> Self;

    /// The square root; each type says what it gives for a negative value.
    spec fn spec_root(self) -> Self;

    /// Whether two values are equal up to the type's tolerance.
    spec fn spec_close(self, other: Self) -> bool;

    /// The value, read as a colour channel in [0, 1], scaled to 255 and
    /// rounded to an integer (before any clamping).
    spec fn spec_scaled_channel(self) -> i64;

    fn zero() -> (r: Self)
        ensures
            r == Self::spec_zero(),
    ;

    fn one() -> (r: Self)
        ensures
            r == Self::spec_one(),
    ;

    fn plus(self, other: Self) -> (r: Self)
        ensures
            r == self.spec_plus(other),
    ;

    fn minus(self, other: Self) -> (r: Self)
        ensures
            r == self.spec_minus(other),
    ;

    fn times(self, other: Self) -> (r: Self)
        ensures
            r == self.spec_times(other),
    ;

    fn negated(self) -> (r: Self)
        ensures
            r == self.spec_negated(),
    ;

    fn divided(self, other: Self) -> (r: Self)
        ensures
            r == self.spec_divided(other),
    ;

    fn root(self) -> (r: Self)
        ensures
            r == self.spec_root(),
    ;

    fn close(self, other: Self) -> (r: bool)
        ensures
            r == self.spec_close(other),
    ;

    fn scaled_channel(self) -> (r: i64)
        ensures
            r == self.spec_scaled_channel(),
    ;
}

/// Whether `r` is the integer square root of `n`: the largest value whose
/// square is at most `n`.
pub open spec fn is_floor_root(r: i64, n: i64) -> bool {
    0 <= r && r * r <= n < (r + 1) * (r + 1)
}

/// The integer square root of `n`, or zero when `n` is negative.
pub open spec fn floor_root(n: i64) -> i64 {
    if n < 0 {
        0
    } else {
        choose|r: i64| is_floor_root(r, n)
    }
}

proof fn lemma_floor_root_unique(a: i64, b: i64, n: i64)
    requires
        is_floor_root(a, n),
        is_floor_root(b, n),
    ensures
        a == b,
{
    if a < b {
        assert((a + 1) * (a + 1) <= b * b) by (nonlinear_arith)
            requires
                0 <= a,
                a + 1 <= b,
        ;
    } else if b < a {
        assert((b + 1) * (b + 1) <= a * a) by (nonlinear_arith)
            requires
                0 <= b,
                b + 1 <= a,
        ;
    }
}

/// Machine integers with wrapping arithmetic: an exact ring, where closeness
/// is equality. Division truncates toward zero and gives zero where it is
/// undefined (a zero divisor, or `i64::MIN / -1`); the root is the integer
/// square root. A channel value is multiplied by 255, saturating at the
/// bounds of `i64`.
impl Scalar for i64 {
    open spec fn spec_zero() -> Self {
        0
    }

    open spec fn spec_one() -> Self {
        1
    }

    open spec fn spec_plus(self, other: Self) -> Self {
        self.wrapping_add(other)
    }

    open spec fn spec_minus(self, other: Self) -> Self {
        self.wrapping_sub(other)
    }

    open spec fn spec_times(self, other: Self) -> Self {
        self.wrapping_mul(other)
    }

    open spec fn spec_negated(self) -> Self {
        0i64.wrapping_sub(self)
    }

    open spec fn spec_divided(self, other: Self) -> Self {
        match self.checked_div(other) {
            Some(q) => q,
            None => 0,
        }
    }

    open spec fn spec_root(self) -> Self {
        floor_root(self)
    }

    open spec fn spec_close(self, other: Self) -> bool {
        self == other
    }

    open spec fn spec_scaled_channel(self) -> i64 {
        if self * 255 > i64::MAX {
            i64::MAX
        } else if self * 255 < i64::MIN {
            i64::MIN
        } else {
            (self * 255) as i64
        }
    }

    fn zero() -> (r: Self) {
        0
    }

    fn one() -> (r: Self) {
        1
    }

    fn plus(self, other: Self) -> (r: Self) {
        self.wrapping_add(other)
    }

    fn minus(self, other: Self) -> (r: Self) {
        self.wrapping_sub(other)
    }

    fn times(self, other: Self) -> (r: Self) {
        self.wrapping_mul(other)
    }

    fn negated(self) -> (r: Self) {
        0i64.wrapping_sub(self)
    }

    fn divided(self, other: Self) -> (r: Self) {
        match self.checked_div(other) {
            Some(q) => q,
            None => 0,
        }
    }

    fn root(self) -> (r: Self) {
        if self < 0 {
            return 0;
        }
        // lo * lo <= self < hi * hi throughout; 3037000500 squared exceeds i64::MAX.
        let mut lo: i64 = 0;
        let mut hi: i64 = 3037000500;
        assert(hi * hi > i64::MAX) by (nonlinear_arith)
            requires
                hi == 3037000500,
        ;
        while hi - lo > 1
            invariant
                0 <= lo < hi <= 3037000500,
                lo * lo <= self < hi * hi,
            decreases hi - lo,
        {
            let mid = lo + (hi - lo) / 2;
            assert(mid * mid <= 3037000499 * 3037000499) by (nonlinear_arith)
                requires
                    0 <= mid <= 3037000499,
            ;
            if mid * mid <= self {
                lo = mid;
            } else {
                hi = mid;
            }
        }
        proof {
            assert(is_floor_root(lo, self));
            lemma_floor_root_unique(lo, choose|r: i64| is_floor_root(r, self), self);
        }
        lo
    }

    fn close(self, other: Self) -> (r: bool) {
        self == other
    }

    fn scaled_channel(self) -> (r: i64) {
        if self > i64::MAX / 255 {
            i64::MAX
        } else if self < i64::MIN / 255 {
            i64::MIN
        } else {
            self * 255
        }
    }
}

} // verus!
