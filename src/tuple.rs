use vstd::prelude::*;

use crate::scalar::Scalar;

verus! {

/// A homogeneous four-component value: a point when `w` is one, a vector
/// when `w` is zero.
#[derive(Debug, Copy, Clone)]
pub struct Tuple<T> {
    pub x: T,
    pub y: T,
    pub z: T,
    pub w: T,
}

/// A colour: red, green and blue held in the first three components of a
/// tuple whose `w` is zero.
#[derive(Debug, Copy, Clone)]
pub struct Color<T> {
    pub tuple: Tuple<T>,
}

impl<T: Scalar> Tuple<T> {
    pub open spec fn spec_add(self, other: Self) -> Self {
        Tuple {
            x: self.x.spec_plus(other.x),
            y: self.y.spec_plus(other.y),
            z: self.z.spec_plus(other.z),
            w: self.w.spec_plus(other.w),
        }
    }

    pub open spec fn spec_minus(self, other: Self) -> Self {
        Tuple {
            x: self.x.spec_minus(other.x),
            y: self.y.spec_minus(other.y),
            z: self.z.spec_minus(other.z),
            w: self.w.spec_minus(other.w),
        }
    }

    pub open spec fn spec_negate(self) -> Self {
        Tuple {
            x: self.x.spec_negated(),
            y: self.y.spec_negated(),
            z: self.z.spec_negated(),
            w: self.w.spec_negated(),
        }
    }

    pub open spec fn spec_multiply(self, val: T) -> Self {
        Tuple {
            x: self.x.spec_times(val),
            y: self.y.spec_times(val),
            z: self.z.spec_times(val),
            w: self.w.spec_times(val),
        }
    }

    pub open spec fn spec_divide(self, val: T) -> Self {
        Tuple {
            x: self.x.spec_divided(val),
            y: self.y.spec_divided(val),
            z: self.z.spec_divided(val),
            w: self.w.spec_divided(val),
        }
    }

    /// The Euclidean norm over all four components.
    pub open spec fn spec_magnitude(self) -> T {
        self.spec_dot(self).spec_root()
    }

    /// `x*x' + y*y' + z*z' + w*w'`, summed left to right.
    pub open spec fn spec_dot(self, other: Self) -> T {
        self.x.spec_times(other.x).spec_plus(self.y.spec_times(other.y)).spec_plus(
            self.z.spec_times(other.z),
        ).spec_plus(self.w.spec_times(other.w))
    }

    /// The cross product of the first three components, as a vector.
    pub open spec fn spec_cross(self, other: Self) -> Self {
        Tuple {
            x: self.y.spec_times(other.z).spec_minus(self.z.spec_times(other.y)),
            y: self.z.spec_times(other.x).spec_minus(self.x.spec_times(other.z)),
            z: self.x.spec_times(other.y).spec_minus(self.y.spec_times(other.x)),
            w: T::spec_zero(),
        }
    }

    pub open spec fn spec_equals(self, other: Self) -> bool {
        &&& self.x.spec_close(other.x)
        &&& self.y.spec_close(other.y)
        &&& self.z.spec_close(other.z)
        &&& self.w.spec_close(other.w)
    }

    /// The components in order x, y, z, w.
    pub open spec fn spec_components(self) -> Seq<T> {
        seq![self.x, self.y, self.z, self.w]
    }

    pub fn new(x: T, y: T, z: T, w: T) -> (r: Self)
        ensures
            r == (Tuple { x, y, z, w }),
    {
        Tuple { x, y, z, w }
    }

    pub fn new_point(x: T, y: T, z: T) -> (r: Self)
        ensures
            r == (Tuple { x, y, z, w: T::spec_one() }),
    {
        Tuple { x, y, z, w: T::one() }
    }

    pub fn new_vector(x: T, y: T, z: T) -> (r: Self)
        ensures
            r == (Tuple { x, y, z, w: T::spec_zero() }),
    {
        Tuple { x, y, z, w: T::zero() }
    }

    pub fn is_point(&self) -> (r: bool)
        ensures
            r == self.w.spec_close(T::spec_one()),
    {
        self.w.close(T::one())
    }

    pub fn is_vector(&self) -> (r: bool)
        ensures
            r == self.w.spec_close(T::spec_zero()),
    {
        self.w.close(T::zero())
    }

    pub fn equals(&self, other: &Self) -> (r: bool)
        ensures
            r == self.spec_equals(*other),
    {
        self.x.close(other.x) && self.y.close(other.y) && self.z.close(other.z) && self.w.close(
            other.w,
        )
    }

    pub fn add(&self, other: Self) -> (r: Self)
        ensures
            r == self.spec_add(other),
    {
        Tuple {
            x: self.x.plus(other.x),
            y: self.y.plus(other.y),
            z: self.z.plus(other.z),
            w: self.w.plus(other.w),
        }
    }

    pub fn minus(&self, other: Self) -> (r: Self)
        ensures
            r == self.spec_minus(other),
    {
        Tuple {
            x: self.x.minus(other.x),
            y: self.y.minus(other.y),
            z: self.z.minus(other.z),
            w: self.w.minus(other.w),
        }
    }

    pub fn negate(&self) -> (r: Self)
        ensures
            r == self.spec_negate(),
    {
        Tuple { x: self.x.negated(), y: self.y.negated(), z: self.z.negated(), w: self.w.negated() }
    }

    /// Scales every component by `val`.
    pub fn multiply(&self, val: T) -> (r: Self)
        ensures
            r == self.spec_multiply(val),
    {
        Tuple {
            x: self.x.times(val),
            y: self.y.times(val),
            z: self.z.times(val),
            w: self.w.times(val),
        }
    }

    /// Divides every component by `val`.
    pub fn divide(&self, val: T) -> (r: Self)
        ensures
            r == self.spec_divide(val),
    {
        Tuple {
            x: self.x.divided(val),
            y: self.y.divided(val),
            z: self.z.divided(val),
            w: self.w.divided(val),
        }
    }

    pub fn magnitude(&self) -> (r: T)
        ensures
            r == self.spec_magnitude(),
    {
        self.dot(*self).root()
    }

    /// The tuple divided by its magnitude. For a zero tuple the result is
    /// whatever the scalar type gives for a division by zero.
    pub fn normalize(&self) -> (r: Self)
        ensures
            r == self.spec_divide(self.spec_magnitude()),
    {
        self.divide(self.magnitude())
    }

    pub fn dot(&self, other: Self) -> (r: T)
        ensures
            r == self.spec_dot(other),
    {
        self.x.times(other.x).plus(self.y.times(other.y)).plus(self.z.times(other.z)).plus(
            self.w.times(other.w),
        )
    }

    pub fn cross(&self, other: Self) -> (r: Self)
        ensures
            r == self.spec_cross(other),
    {
        Tuple::new_vector(
            self.y.times(other.z).minus(self.z.times(other.y)),
            self.z.times(other.x).minus(self.x.times(other.z)),
            self.x.times(other.y).minus(self.y.times(other.x)),
        )
    }

    pub fn to_vec(&self) -> (r: Vec<T>)
        ensures
            r@ == self.spec_components(),
    {
        let r = vec![self.x, self.y, self.z, self.w];
        assert(r@ =~= self.spec_components());
        r
    }
}

impl<T: Scalar> Color<T> {
    pub open spec fn spec_r(self) -> T {
        self.tuple.x
    }

    pub open spec fn spec_g(self) -> T {
        self.tuple.y
    }

    pub open spec fn spec_b(self) -> T {
        self.tuple.z
    }

    /// The colour with the given channels.
    pub open spec fn spec_new(r: T, g: T, b: T) -> Self {
        Color { tuple: Tuple { x: r, y: g, z: b, w: T::spec_zero() } }
    }

    pub fn new(r: T, g: T, b: T) -> (c: Self)
        ensures
            c == Self::spec_new(r, g, b),
    {
        Color { tuple: Tuple::new(r, g, b, T::zero()) }
    }

    pub fn r(&self) -> (v: T)
        ensures
            v == self.spec_r(),
    {
        self.tuple.x
    }

    pub fn g(&self) -> (v: T)
        ensures
            v == self.spec_g(),
    {
        self.tuple.y
    }

    pub fn b(&self) -> (v: T)
        ensures
            v == self.spec_b(),
    {
        self.tuple.z
    }

    pub fn add(&self, other: Self) -> (c: Self)
        ensures
            c == (Color { tuple: self.tuple.spec_add(other.tuple) }),
    {
        Color { tuple: self.tuple.add(other.tuple) }
    }

    pub fn minus(&self, other: Self) -> (c: Self)
        ensures
            c == (Color { tuple: self.tuple.spec_minus(other.tuple) }),
    {
        Color { tuple: self.tuple.minus(other.tuple) }
    }

    pub fn scale(&self, val: T) -> (c: Self)
        ensures
            c == (Color { tuple: self.tuple.spec_multiply(val) }),
    {
        Color { tuple: self.tuple.multiply(val) }
    }

    /// The channel-wise (Hadamard) product, used to blend two colours.
    pub fn multiply(&self, other: Self) -> (c: Self)
        ensures
            c == Self::spec_new(
                self.spec_r().spec_times(other.spec_r()),
                self.spec_g().spec_times(other.spec_g()),
                self.spec_b().spec_times(other.spec_b()),
            ),
    {
        Color::new(self.r().times(other.r()), self.g().times(other.g()), self.b().times(other.b()))
    }

    pub fn equals(&self, other: &Self) -> (r: bool)
        ensures
            r == self.tuple.spec_equals(other.tuple),
    {
        self.tuple.equals(&other.tuple)
    }

    pub fn black() -> (c: Self)
        ensures
            c == Self::spec_new(T::spec_zero(), T::spec_zero(), T::spec_zero()),
    {
        Color::new(T::zero(), T::zero(), T::zero())
    }

    /// The three channels as they appear in a serialized image.
    pub open spec fn spec_ppm(self) -> (usize, usize, usize) {
        (
            channel_byte(self.spec_r().spec_scaled_channel()),
            channel_byte(self.spec_g().spec_scaled_channel()),
            channel_byte(self.spec_b().spec_scaled_channel()),
        )
    }

    /// Each channel scaled to 255, rounded, and clamped to [0, 255].
    pub fn ppm_str(&self) -> (r: (usize, usize, usize))
        ensures
            r == self.spec_ppm(),
            r.0 <= 255 && r.1 <= 255 && r.2 <= 255,
    {
        (
            clamp_channel(self.r().scaled_channel()),
            clamp_channel(self.g().scaled_channel()),
            clamp_channel(self.b().scaled_channel()),
        )
    }
}

/// A scaled channel value clamped into [0, 255].
pub open spec fn channel_byte(v: i64) -> usize {
    if v < 0 {
        0
    } else if v > 255 {
        255
    } else {
        v as usize
    }
}

pub fn clamp_channel(v: i64) -> (r: usize)
    ensures
        r == channel_byte(v),
        r <= 255,
{
    if v < 0 {
        0
    } else if v > 255 {
        255
    } else {
        v as usize
    }
}


/// Adding a tuple and then subtracting it again gives back the first tuple,
/// exactly, over machine integers.
pub proof fn lemma_add_then_minus(a: Tuple<i64>, b: Tuple<i64>)
    ensures
        a.spec_add(b).spec_minus(b) == a,
        a.spec_add(b).spec_minus(b).spec_equals(a),
{
}

/// The cross product is anti-commutative: `a x b` is the negation of
/// `b x a`, exactly, over machine integers.
pub proof fn lemma_cross_anticommutative(a: Tuple<i64>, b: Tuple<i64>)
    ensures
        a.spec_cross(b) == b.spec_cross(a).spec_negate(),
        a.spec_cross(b).spec_equals(b.spec_cross(a).spec_negate()),
{
    assert(a.y * b.z == b.z * a.y && a.z * b.y == b.y * a.z);
    assert(a.z * b.x == b.x * a.z && a.x * b.z == b.z * a.x);
    assert(a.x * b.y == b.y * a.x && a.y * b.x == b.x * a.y);
}

} // verus!
