use float_cmp::{ApproxEq, F64Margin};
use raytracer::canvas::Canvas;
use raytracer::matrix::Matrix;
use raytracer::scalar::Scalar;
use raytracer::tuple::{Color, Tuple};

/// Double-precision numbers compared with an absolute and a ULP tolerance.
#[derive(Debug, Clone, Copy)]
struct Real(f64);

impl Scalar for Real {
    fn spec_zero() -> Self {
        Real(0.0)
    }

    fn spec_one() -> Self {
        Real(1.0)
    }

    fn spec_plus(self, other: Self) -> Self {
        Real(self.0 + other.0)
    }

    fn spec_minus(self, other: Self) -> Self {
        Real(self.0 - other.0)
    }

    fn spec_times(self, other: Self) -> Self {
        Real(self.0 * other.0)
    }

    fn spec_negated(self) -> Self {
        Real(-self.0)
    }

    fn spec_divided(self, other: Self) -> Self {
        Real(self.0 / other.0)
    }

    fn spec_root(self) -> Self {
        Real(self.0.sqrt())
    }

    fn spec_close(self, other: Self) -> bool {
        self.0.approx_eq(other.0, F64Margin { epsilon: 0.00001, ulps: 16 })
    }

    fn spec_scaled_channel(self) -> i64 {
        (self.0 * 255.0).round() as i64
    }

    fn zero() -> Self {
        Self::spec_zero()
    }

    fn one() -> Self {
        Self::spec_one()
    }

    fn plus(self, other: Self) -> Self {
        self.spec_plus(other)
    }

    fn minus(self, other: Self) -> Self {
        self.spec_minus(other)
    }

    fn times(self, other: Self) -> Self {
        self.spec_times(other)
    }

    fn negated(self) -> Self {
        self.spec_negated()
    }

    fn divided(self, other: Self) -> Self {
        self.spec_divided(other)
    }

    fn root(self) -> Self {
        self.spec_root()
    }

    fn close(self, other: Self) -> bool {
        self.spec_close(other)
    }

    fn scaled_channel(self) -> i64 {
        self.spec_scaled_channel()
    }
}

fn matrix(rows: &[&[f64]]) -> Matrix<Real> {
    let v: Vec<Vec<Real>> = rows.iter().map(|r| r.iter().map(|x| Real(*x)).collect()).collect();
    Matrix::from_vec(&v)
}

fn tuple(x: f64, y: f64, z: f64, w: f64) -> Tuple<Real> {
    Tuple::new(Real(x), Real(y), Real(z), Real(w))
}

fn point(x: f64, y: f64, z: f64) -> Tuple<Real> {
    Tuple::new_point(Real(x), Real(y), Real(z))
}

fn vector(x: f64, y: f64, z: f64) -> Tuple<Real> {
    Tuple::new_vector(Real(x), Real(y), Real(z))
}

fn color(r: f64, g: f64, b: f64) -> Color<Real> {
    Color::new(Real(r), Real(g), Real(b))
}

#[test]
fn creating_canvas() {
    let mut c: Canvas<Real> = Canvas::new(10, 20);
    assert_eq!(c.width, 10);
    assert_eq!(c.height, 20);
    for y in 0..20 {
        for x in 0..10 {
            assert!(c.pixel_at(x, y).equals(&Color::black()));
        }
    }

    c.write_pixel(2, 3, color(1.0, 0.0, 0.0));
    assert!(c.pixel_at(2, 3).equals(&color(1.0, 0.0, 0.0)));
}

#[test]
fn ppm_construction() {
    let mut c: Canvas<Real> = Canvas::new(5, 3);
    c.write_pixel(0, 0, color(1.5, 0.0, 0.0));
    c.write_pixel(2, 1, color(0.0, 0.5, 0.0));
    c.write_pixel(4, 2, color(-0.5, 0.0, 1.0));
    let ppm = c.to_ppm();

    let correct = "P3
5 3
255
255 0 0 0 0 0 0 0 0 0 0 0 0 0 0
0 0 0 0 0 0 0 128 0 0 0 0 0 0 0
0 0 0 0 0 0 0 0 0 0 0 0 0 0 255
";
    assert!(ppm == correct)
}

#[test]
fn ppm_long_lines_splitting() {
    let mut c: Canvas<Real> = Canvas::new(10, 2);
    for y in 0..2 {
        for x in 0..10 {
            c.write_pixel(x, y, color(1.0, 0.8, 0.6));
        }
    }
    let ppm = c.to_ppm();

    let correct = "P3
10 2
255
255 204 153 255 204 153 255 204 153 255 204 153 255 204 153 255 204
153 255 204 153 255 204 153 255 204 153 255 204 153
255 204 153 255 204 153 255 204 153 255 204 153 255 204 153 255 204
153 255 204 153 255 204 153 255 204 153 255 204 153
";
    assert!(ppm == correct)
}

#[test]
fn creating_matrix() {
    let m = matrix(&[
        &[1.0, 2.0, 3.0, 4.0],
        &[5.5, 6.5, 7.5, 8.5],
        &[9.0, 10.0, 11.0, 12.0],
        &[13.5, 14.5, 15.5, 16.5],
    ]);
    assert_eq!(m.get_value(0, 0).0, 1.0);
    assert_eq!(m.get_value(0, 3).0, 4.0);
    assert_eq!(m.get_value(1, 0).0, 5.5);
    assert_eq!(m.get_value(1, 2).0, 7.5);
    assert_eq!(m.get_value(2, 2).0, 11.0);
    assert_eq!(m.get_value(3, 0).0, 13.5);
    assert_eq!(m.get_value(3, 2).0, 15.5);

    let m = matrix(&[&[-3.0, 5.0, 0.0], &[1.0, -2.0, -7.0], &[0.0, 1.0, 1.0]]);
    assert_eq!(m.get_value(0, 0).0, -3.0);
    assert_eq!(m.get_value(0, 1).0, 5.0);
    assert_eq!(m.get_value(1, 0).0, 1.0);
    assert_eq!(m.get_value(1, 1).0, -2.0);
}

#[test]
fn matrix_equality() {
    let a = matrix(&[
        &[1.0, 2.0, 3.0, 4.0],
        &[5.0, 6.0, 7.0, 8.0],
        &[9.0, 8.0, 7.0, 6.0],
        &[5.0, 4.0, 3.0, 2.0],
    ]);
    let b = matrix(&[
        &[1.0, 2.0, 3.0, 4.0],
        &[5.0, 6.0, 7.0, 8.0],
        &[9.0, 8.0, 7.0, 6.0],
        &[5.0, 4.0, 3.0, 2.0],
    ]);
    assert!(a.equals(&b));

    let b = matrix(&[
        &[2.0, 3.0, 4.0, 5.0],
        &[6.0, 7.0, 7.0, 8.0],
        &[9.0, 8.0, 7.0, 6.0],
        &[5.0, 4.0, 3.0, 2.0],
    ]);
    assert!(!a.equals(&b));
}

#[test]
fn matrix_multiplication() {
    let a = matrix(&[
        &[1.0, 2.0, 3.0, 4.0],
        &[5.0, 6.0, 7.0, 8.0],
        &[9.0, 8.0, 7.0, 6.0],
        &[5.0, 4.0, 3.0, 2.0],
    ]);
    let b = matrix(&[
        &[-2.0, 1.0, 2.0, 3.0],
        &[3.0, 2.0, 1.0, -1.0],
        &[4.0, 3.0, 6.0, 5.0],
        &[1.0, 2.0, 7.0, 8.0],
    ]);
    let c = matrix(&[
        &[20.0, 22.0, 50.0, 48.0],
        &[44.0, 54.0, 114.0, 108.0],
        &[40.0, 58.0, 110.0, 102.0],
        &[16.0, 26.0, 46.0, 42.0],
    ]);
    assert!(a.multiply_matrix(&b).equals(&c));

    let a = matrix(&[
        &[1.0, 2.0, 3.0, 4.0],
        &[2.0, 4.0, 4.0, 2.0],
        &[8.0, 6.0, 4.0, 1.0],
        &[0.0, 0.0, 0.0, 1.0],
    ]);
    let b = tuple(1.0, 2.0, 3.0, 1.0);
    let c = tuple(18.0, 24.0, 33.0, 1.0);
    assert!(a.multiply_tuple(&b).equals(&c));
}

#[test]
fn identity_matrix() {
    let a = matrix(&[
        &[1.0, 2.0, 3.0, 4.0],
        &[5.0, 6.0, 7.0, 8.0],
        &[9.0, 8.0, 7.0, 6.0],
        &[5.0, 4.0, 3.0, 2.0],
    ]);
    assert!(a.multiply_matrix(&Matrix::identity()).equals(&a));

    let a = tuple(1.0, 2.0, 3.0, 4.0);
    assert!(Matrix::identity().multiply_tuple(&a).equals(&a));
}

#[test]
fn matrix_transpose() {
    let mat_a = matrix(&[
        &[0.0, 9.0, 3.0, 0.0],
        &[9.0, 8.0, 0.0, 8.0],
        &[1.0, 8.0, 5.0, 3.0],
        &[0.0, 0.0, 5.0, 8.0],
    ]);
    let mat_b = matrix(&[
        &[0.0, 9.0, 1.0, 0.0],
        &[9.0, 8.0, 8.0, 0.0],
        &[3.0, 0.0, 5.0, 5.0],
        &[0.0, 8.0, 3.0, 8.0],
    ]);
    assert!(mat_a.transpose().equals(&mat_b));

    let identity: Matrix<Real> = Matrix::identity();
    assert!(identity.transpose().equals(&Matrix::identity()));
}

#[test]
fn determinant2x2() {
    let mat_a = matrix(&[&[1.0, 5.0], &[-3.0, 2.0]]);
    assert!(mat_a.determinant().close(Real(17.0)));
}

#[test]
fn determinant3x3() {
    let mat_a = matrix(&[&[1.0, 2.0, 6.0], &[-5.0, 8.0, -4.0], &[2.0, 6.0, 4.0]]);
    assert!(mat_a.cofactor(0, 0).close(Real(56.0)));
    assert!(mat_a.cofactor(0, 1).close(Real(12.0)));
    assert!(mat_a.cofactor(0, 2).close(Real(-46.0)));
    assert!(mat_a.determinant().close(Real(-196.0)));
}

#[test]
fn determinant4x4() {
    let mat_a = matrix(&[
        &[-2.0, -8.0, 3.0, 5.0],
        &[-3.0, 1.0, 7.0, 3.0],
        &[1.0, 2.0, -9.0, 6.0],
        &[-6.0, 7.0, 7.0, -9.0],
    ]);
    assert!(mat_a.cofactor(0, 0).close(Real(690.0)));
    assert!(mat_a.cofactor(0, 1).close(Real(447.0)));
    assert!(mat_a.cofactor(0, 2).close(Real(210.0)));
    assert!(mat_a.cofactor(0, 3).close(Real(51.0)));
    assert!(mat_a.determinant().close(Real(-4071.0)));
}

#[test]
fn submatrix() {
    let mat_a = matrix(&[&[1.0, 5.0, 0.0], &[-3.0, 2.0, 7.0], &[0.0, 6.0, -3.0]]);
    let mat_b = matrix(&[&[-3.0, 2.0], &[0.0, 6.0]]);
    assert!(mat_a.submatrix(0, 2).equals(&mat_b));

    let mat_a = matrix(&[
        &[-6.0, 1.0, 1.0, 6.0],
        &[-8.0, 5.0, 8.0, 6.0],
        &[-1.0, 0.0, 8.0, 2.0],
        &[-7.0, 1.0, -1.0, 1.0],
    ]);
    let mat_b = matrix(&[&[-6.0, 1.0, 6.0], &[-8.0, 8.0, 6.0], &[-7.0, -1.0, 1.0]]);
    assert!(mat_a.submatrix(2, 1).equals(&mat_b));
}

#[test]
fn minor() {
    let mat_a = matrix(&[&[3.0, 5.0, 0.0], &[2.0, -1.0, -7.0], &[6.0, -1.0, 5.0]]);
    let mat_b = mat_a.submatrix(1, 0);
    assert!(mat_b.determinant().close(Real(25.0)));
    assert!(mat_a.minor(1, 0).close(Real(25.0)));
}

#[test]
fn cofactor() {
    let mat_a = matrix(&[&[3.0, 5.0, 0.0], &[2.0, -1.0, -7.0], &[6.0, -1.0, 5.0]]);
    assert!(mat_a.minor(0, 0).close(Real(-12.0)));
    assert!(mat_a.cofactor(0, 0).close(Real(-12.0)));
    assert!(mat_a.minor(1, 0).close(Real(25.0)));
    assert!(mat_a.cofactor(1, 0).close(Real(-25.0)));
}

#[test]
fn is_point() {
    let t = Tuple { x: Real(4.3), y: Real(-4.2), z: Real(3.1), w: Real(1.0) };
    assert!(t.is_point());
    assert!(!t.is_vector());
}

#[test]
fn is_vector() {
    let t = Tuple { x: Real(4.3), y: Real(-4.2), z: Real(3.1), w: Real(0.0) };
    assert!(!t.is_point());
    assert!(t.is_vector());
}

#[test]
fn adding_two_tuples() {
    let a1 = Tuple { x: Real(3.0), y: Real(-2.0), z: Real(5.0), w: Real(1.0) };
    let a2 = Tuple { x: Real(-2.0), y: Real(3.0), z: Real(1.0), w: Real(0.0) };
    let result = Tuple { x: Real(1.0), y: Real(1.0), z: Real(6.0), w: Real(1.0) };
    assert!(a1.add(a2).equals(&result));
}

#[test]
fn subtracting_two_points() {
    let p1 = point(3.0, 2.0, 1.0);
    let p2 = point(5.0, 6.0, 7.0);
    let result = vector(-2.0, -4.0, -6.0);
    assert!(p1.minus(p2).equals(&result));
}

#[test]
fn subtracting_vector_from_point() {
    let p = point(3.0, 2.0, 1.0);
    let v = vector(5.0, 6.0, 7.0);
    let result = point(-2.0, -4.0, -6.0);
    assert!(p.minus(v).equals(&result));
}

#[test]
fn subtracting_two_vectors() {
    let v1 = vector(3.0, 2.0, 1.0);
    let v2 = vector(5.0, 6.0, 7.0);
    let result = vector(-2.0, -4.0, -6.0);
    assert!(v1.minus(v2).equals(&result));
}

#[test]
fn subtracting_vector_from_zero_vector() {
    let zero = vector(0.0, 0.0, 0.0);
    let v = vector(1.0, -2.0, 3.0);
    let result = vector(-1.0, 2.0, -3.0);
    assert!(zero.minus(v).equals(&result));
}

#[test]
fn negating_tuple() {
    let a = tuple(1.0, -2.0, 3.0, -4.0);
    let result = tuple(-1.0, 2.0, -3.0, 4.0);
    assert!(a.negate().equals(&result));
}

#[test]
fn multiply_tuple_by_scalar() {
    let a = tuple(1.0, -2.0, 3.0, -4.0);
    let result = tuple(3.5, -7.0, 10.5, -14.0);
    assert!(a.multiply(Real(3.5)).equals(&result));
}

#[test]
fn divide_tuple_by_scalar() {
    let a = tuple(1.0, -2.0, 3.0, -4.0);
    let result = tuple(0.5, -1.0, 1.5, -2.0);
    assert!(a.divide(Real(2.0)).equals(&result));
}

#[test]
fn magnitude_tests() {
    let v = vector(1.0, 0.0, 0.0);
    assert!(v.magnitude().close(Real(1.0)));
    let v = vector(0.0, 1.0, 0.0);
    assert!(v.magnitude().close(Real(1.0)));
    let v = vector(0.0, 0.0, 1.0);
    assert!(v.magnitude().close(Real(1.0)));
    let v = vector(1.0, 2.0, 3.0);
    assert!(v.magnitude().close(Real((14.0 as f64).sqrt())));
    let v = vector(-1.0, -2.0, -3.0);
    assert!(v.magnitude().close(Real((14.0 as f64).sqrt())));
}

#[test]
fn normalization_tests() {
    let v = vector(4.0, 0.0, 0.0);
    assert!(v.normalize().equals(&vector(1.0, 0.0, 0.0)));
    let v = vector(1.0, 2.0, 3.0);
    assert!(v.normalize().equals(&vector(0.26726, 0.53452, 0.80178)));
    let v = vector(1.0, 2.0, 3.0);
    assert!(v.normalize().magnitude().close(Real(1.0)));
}

#[test]
fn dot_product_tests() {
    let a = vector(1.0, 2.0, 3.0);
    let b = vector(2.0, 3.0, 4.0);
    assert!(a.dot(b).close(Real(20.0)));
}

#[test]
fn cross_product_tests() {
    let a = vector(1.0, 2.0, 3.0);
    let b = vector(2.0, 3.0, 4.0);
    assert!(a.cross(b).equals(&vector(-1.0, 2.0, -1.0)));
    assert!(b.cross(a).equals(&vector(1.0, -2.0, 1.0)));
}

#[test]
fn color_operations() {
    let c1 = color(0.9, 0.6, 0.75);
    let c2 = color(0.7, 0.1, 0.25);
    assert!(c1.add(c2).equals(&color(1.6, 0.7, 1.0)));

    let c1 = color(0.9, 0.6, 0.75);
    let c2 = color(0.7, 0.1, 0.25);
    assert!(c1.minus(c2).equals(&color(0.2, 0.5, 0.5)));

    let c = color(0.2, 0.3, 0.4);
    assert!(c.scale(Real(2.0)).equals(&color(0.4, 0.6, 0.8)));

    let c1 = color(1.0, 0.2, 0.4);
    let c2 = color(0.9, 1.0, 0.1);
    assert!(c1.multiply(c2).equals(&color(0.9, 0.2, 0.04)));
}

#[test]
fn add_then_subtract_within_tolerance() {
    let a = tuple(0.1, 0.2, 0.3, 1.0);
    let b = tuple(1000.0, -2.5, 0.7, 0.0);
    assert!(a.add(b).minus(b).equals(&a));
}

#[test]
fn normalized_vector_has_unit_length() {
    let v = vector(3.3, -1.2, 7.0);
    assert!(v.normalize().magnitude().close(Real(1.0)));
}

#[test]
fn cross_of_reals_is_anticommutative() {
    let a = vector(0.5, -1.5, 2.25);
    let b = vector(4.0, 0.125, -3.0);
    assert!(a.cross(b).equals(&b.cross(a).negate()));
}

#[test]
fn transpose_twice_with_reals() {
    let m = matrix(&[&[1.5, 2.0], &[-3.0, 4.25], &[0.0, 9.0]]);
    assert!(m.transpose().transpose().equals(&m));
}

#[test]
fn last_pixel_of_real_canvas() {
    let mut c: Canvas<Real> = Canvas::new(5, 3);
    c.write_pixel(4, 2, color(0.25, 0.5, 1.0));
    assert_eq!(c.pixel_at(4, 2).ppm_str(), (64, 128, 255));
}
