use vstd::prelude::*;

use crate::scalar::Scalar;
use crate::tuple::Tuple;

verus! {

/// A dense matrix, stored row by row.
pub struct Matrix<T> {
    pub rows: usize,
    pub cols: usize,
    pub values: Vec<Vec<T>>,
}

impl<T> View for Matrix<T> {
    type V = Seq<Seq<T>>;

    open spec fn view(&self) -> Seq<Seq<T>> {
        self.values@.map_values(|r: Vec<T>| r@)
    }
}

/// `m` has `rows` rows of `cols` entries each.
pub open spec fn is_grid<T>(m: Seq<Seq<T>>, rows: nat, cols: nat) -> bool {
    &&& m.len() == rows
    &&& forall|i: int| 0 <= i < rows ==> #[trigger] m[i].len() == cols
}

/// The index in the full sequence of position `i` once position `k` is removed.
pub open spec fn skip(i: int, k: int) -> int {
    if i < k {
        i
    } else {
        i + 1
    }
}

/// `s` without its entry at position `k`.
pub open spec fn without<T>(s: Seq<T>, k: int) -> Seq<T> {
    Seq::new((s.len() - 1) as nat, |j: int| s[skip(j, k)])
}

/// `m` without row `row` and column `col`.
pub open spec fn spec_submatrix<T>(m: Seq<Seq<T>>, row: int, col: int) -> Seq<Seq<T>> {
    Seq::new((m.len() - 1) as nat, |i: int| without(m[skip(i, row)], col))
}

/// The `cols` x `rows` transpose of a `rows` x `cols` grid.
pub open spec fn spec_transpose<T>(m: Seq<Seq<T>>, rows: nat, cols: nat) -> Seq<Seq<T>> {
    Seq::new(cols, |j: int| Seq::new(rows, |i: int| m[i][j]))
}

/// Column `j` of `m`.
pub open spec fn column<T>(m: Seq<Seq<T>>, j: int) -> Seq<T> {
    Seq::new(m.len(), |k: int| m[k][j])
}

/// `a[0]*b[0] + ... + a[n-1]*b[n-1]`, accumulated left to right from zero.
pub open spec fn seq_dot<T: Scalar>(a: Seq<T>, b: Seq<T>, n: nat) -> T
    decreases n,
{
    if n == 0 {
        T::spec_zero()
    } else {
        seq_dot(a, b, (n - 1) as nat).spec_plus(a[n - 1].spec_times(b[n - 1]))
    }
}

/// `v` when `negate` is false, its negation otherwise.
pub open spec fn signed<T: Scalar>(v: T, negate: bool) -> T {
    if negate {
        v.spec_negated()
    } else {
        v
    }
}

/// The determinant: `a*d - b*c` for a 2 x 2 matrix, the single entry for a
/// 1 x 1 matrix, and otherwise the Laplace expansion along the first row.
pub open spec fn spec_det<T: Scalar>(m: Seq<Seq<T>>) -> T
    decreases m.len(), 1nat, 0nat,
{
    if m.len() == 0 {
        T::spec_zero()
    } else if m.len() == 1 {
        m[0][0]
    } else if m.len() == 2 {
        m[0][0].spec_times(m[1][1]).spec_minus(m[0][1].spec_times(m[1][0]))
    } else {
        spec_expansion(m, m.len())
    }
}

/// The sum, from zero, of the first `k` terms of the first-row expansion:
/// `m[0][j] * cofactor(0, j)` for `j < k`.
pub open spec fn spec_expansion<T: Scalar>(m: Seq<Seq<T>>, k: nat) -> T
    decreases m.len(), 0nat, k,
{
    if k == 0 || m.len() == 0 {
        T::spec_zero()
    } else {
        spec_expansion(m, (k - 1) as nat).spec_plus(
            m[0][k - 1].spec_times(
                signed(spec_det(spec_submatrix(m, 0, k - 1)), (k - 1) % 2 == 1),
            ),
        )
    }
}

/// The minor at (`row`, `col`): the determinant of the submatrix.
pub open spec fn spec_minor<T: Scalar>(m: Seq<Seq<T>>, row: int, col: int) -> T {
    spec_det(spec_submatrix(m, row, col))
}

/// The cofactor: the minor, negated exactly when `row + col` is odd.
pub open spec fn spec_cofactor<T: Scalar>(m: Seq<Seq<T>>, row: int, col: int) -> T {
    signed(spec_minor(m, row, col), (row + col) % 2 == 1)
}

/// The 4 x 4 identity matrix.
pub open spec fn spec_identity<T: Scalar>() -> Seq<Seq<T>> {
    Seq::new(4, |i: int| Seq::new(4, |j: int| if i == j { T::spec_one() } else { T::spec_zero() }))
}

impl<T: Scalar> Matrix<T> {
    /// Every row has `cols` entries and there are `rows` rows.
    pub open spec fn wf(&self) -> bool {
        is_grid(self@, self.rows as nat, self.cols as nat)
    }

    /// A `rows` x `cols` matrix of zeros.
    pub fn new(rows: usize, cols: usize) -> (r: Self)
        ensures
            r.wf(),
            r.rows == rows,
            r.cols == cols,
            forall|i: int, j: int| 0 <= i < rows && 0 <= j < cols ==> #[trigger] r@[i][j] == T::spec_zero(),
    {
        let mut values: Vec<Vec<T>> = Vec::new();
        let mut i: usize = 0;
        while i < rows
            invariant
                i <= rows,
                values@.len() == i,
                forall|k: int| 0 <= k < i ==> #[trigger] values@[k]@ == Seq::new(cols as nat, |j: int| T::spec_zero()),
            decreases rows - i,
        {
            let mut row: Vec<T> = Vec::new();
            let mut j: usize = 0;
            while j < cols
                invariant
                    j <= cols,
                    row@ == Seq::new(j as nat, |c: int| T::spec_zero()),
                decreases cols - j,
            {
                row.push(T::zero());
                j = j + 1;
                assert(row@ =~= Seq::new(j as nat, |c: int| T::spec_zero()));
            }
            values.push(row);
            i = i + 1;
        }
        Matrix { rows, cols, values }
    }

    /// The 4 x 4 identity matrix.
    pub fn identity() -> (r: Self)
        ensures
            r.wf(),
            r.rows == 4,
            r.cols == 4,
            r@ == spec_identity::<T>(),
    {
        let mut values: Vec<Vec<T>> = Vec::new();
        let mut i: usize = 0;
        while i < 4
            invariant
                i <= 4,
                values@.len() == i,
                forall|k: int| 0 <= k < i ==> #[trigger] values@[k]@ == spec_identity::<T>()[k],
            decreases 4 - i,
        {
            let mut row: Vec<T> = Vec::new();
            let mut j: usize = 0;
            while j < 4
                invariant
                    j <= 4,
                    i < 4,
                    row@ == spec_identity::<T>()[i as int].take(j as int),
                decreases 4 - j,
            {
                if i == j {
                    row.push(T::one());
                } else {
                    row.push(T::zero());
                }
                j = j + 1;
                assert(row@ =~= spec_identity::<T>()[i as int].take(j as int));
            }
            assert(row@ =~= spec_identity::<T>()[i as int]);
            values.push(row);
            i = i + 1;
        }
        let r = Matrix { rows: 4, cols: 4, values };
        assert(r@ =~= spec_identity::<T>());
        r
    }

    /// A matrix holding the rows of `v`, which must be non-empty and
    /// rectangular.
    pub fn from_vec(v: &Vec<Vec<T>>) -> (r: Self)
        requires
            v@.len() >= 1,
            forall|i: int| 0 <= i < v@.len() ==> #[trigger] v@[i]@.len() == v@[0]@.len(),
        ensures
            r.wf(),
            r.rows == v@.len(),
            r.cols == v@[0]@.len(),
            r@ == v@.map_values(|row: Vec<T>| row@),
    {
        let cols = v[0].len();
        let mut values: Vec<Vec<T>> = Vec::new();
        let mut i: usize = 0;
        while i < v.len()
            invariant
                i <= v@.len(),
                cols == v@[0]@.len(),
                forall|k: int| 0 <= k < v@.len() ==> #[trigger] v@[k]@.len() == cols,
                values@.len() == i,
                forall|k: int| 0 <= k < i ==> #[trigger] values@[k]@ == v@[k]@,
            decreases v@.len() - i,
        {
            let mut row: Vec<T> = Vec::new();
            let mut j: usize = 0;
            while j < cols
                invariant
                    j <= cols,
                    i < v@.len(),
                    v@[i as int]@.len() == cols,
                    row@ == v@[i as int]@.take(j as int),
                decreases cols - j,
            {
                row.push(v[i][j]);
                j = j + 1;
                assert(row@ =~= v@[i as int]@.take(j as int));
            }
            assert(row@ =~= v@[i as int]@);
            values.push(row);
            i = i + 1;
        }
        let r = Matrix { rows: v.len(), cols, values };
        assert(r@ =~= v@.map_values(|row: Vec<T>| row@));
        r
    }

    pub fn get_value(&self, row: usize, col: usize) -> (r: T)
        requires
            self.wf(),
            row < self.rows,
            col < self.cols,
        ensures
            r == self@[row as int][col as int],
    {
        assert(self.values@[row as int]@ == self@[row as int]);
        self.values[row][col]
    }

    /// Whether both matrices have the same shape and every pair of entries is
    /// close.
    pub fn equals(&self, other: &Self) -> (r: bool)
        requires
            self.wf(),
            other.wf(),
        ensures
            r == (self.rows == other.rows && self.cols == other.cols && forall|i: int, j: int|
                0 <= i < self.rows && 0 <= j < self.cols ==> #[trigger] self@[i][j].spec_close(
                    other@[i][j],
                )),
    {
        if self.rows != other.rows || self.cols != other.cols {
            return false;
        }
        let mut i: usize = 0;
        while i < self.rows
            invariant
                self.wf(),
                other.wf(),
                self.rows == other.rows,
                self.cols == other.cols,
                i <= self.rows,
                forall|a: int, b: int|
                    0 <= a < i && 0 <= b < self.cols ==> #[trigger] self@[a][b].spec_close(
                        other@[a][b],
                    ),
            decreases self.rows - i,
        {
            let mut j: usize = 0;
            while j < self.cols
                invariant
                    self.wf(),
                    other.wf(),
                    self.rows == other.rows,
                    self.cols == other.cols,
                    i < self.rows,
                    j <= self.cols,
                    forall|a: int, b: int|
                        0 <= a < i && 0 <= b < self.cols ==> #[trigger] self@[a][b].spec_close(
                            other@[a][b],
                        ),
                    forall|b: int| 0 <= b < j ==> #[trigger] self@[i as int][b].spec_close(
                        other@[i as int][b],
                    ),
                decreases self.cols - j,
            {
                if !self.get_value(i, j).close(other.get_value(i, j)) {
                    return false;
                }
                j = j + 1;
            }
            i = i + 1;
        }
        true
    }

    /// The product `self * other`: entry (i, j) is the dot product of row i
    /// of `self` with column j of `other`.
    pub fn multiply_matrix(&self, other: &Self) -> (r: Self)
        requires
            self.wf(),
            other.wf(),
            self.rows >= 1,
            other.rows >= 1,
            self.cols == other.rows,
        ensures
            r.wf(),
            r.rows == self.rows,
            r.cols == other.cols,
            forall|i: int, j: int|
                0 <= i < r.rows && 0 <= j < r.cols ==> #[trigger] r@[i][j] == seq_dot(
                    self@[i],
                    column(other@, j),
                    self.cols as nat,
                ),
    {
        let mut values: Vec<Vec<T>> = Vec::new();
        let mut i: usize = 0;
        while i < self.rows
            invariant
                self.wf(),
                other.wf(),
                self.cols == other.rows,
                i <= self.rows,
                values@.len() == i,
                forall|a: int| 0 <= a < i ==> (#[trigger] values@[a])@.len() == other.cols,
                forall|a: int, b: int|
                    0 <= a < i && 0 <= b < other.cols ==> #[trigger] values@[a]@[b] == seq_dot(
                        self@[a],
                        column(other@, b),
                        self.cols as nat,
                    ),
            decreases self.rows - i,
        {
            let mut row: Vec<T> = Vec::new();
            let mut j: usize = 0;
            while j < other.cols
                invariant
                    self.wf(),
                    other.wf(),
                    self.cols == other.rows,
                    i < self.rows,
                    j <= other.cols,
                    row@.len() == j,
                    forall|b: int|
                        0 <= b < j ==> #[trigger] row@[b] == seq_dot(
                            self@[i as int],
                            column(other@, b),
                            self.cols as nat,
                        ),
                decreases other.cols - j,
            {
                let mut acc = T::zero();
                let mut k: usize = 0;
                while k < self.cols
                    invariant
                        self.wf(),
                        other.wf(),
                        self.cols == other.rows,
                        i < self.rows,
                        j < other.cols,
                        k <= self.cols,
                        acc == seq_dot(self@[i as int], column(other@, j as int), k as nat),
                    decreases self.cols - k,
                {
                    acc = acc.plus(self.get_value(i, k).times(other.get_value(k, j)));
                    k = k + 1;
                }
                row.push(acc);
                j = j + 1;
            }
            values.push(row);
            i = i + 1;
        }
        Matrix { rows: self.rows, cols: other.cols, values }
    }

    /// Dot product of row `i` with the four components of `v`.
    fn row_dot(&self, i: usize, v: &Vec<T>) -> (r: T)
        requires
            self.wf(),
            self.cols == 4,
            i < self.rows,
            v@.len() == 4,
        ensures
            r == seq_dot(self@[i as int], v@, 4),
    {
        let mut acc = T::zero();
        let mut k: usize = 0;
        while k < 4
            invariant
                self.wf(),
                self.cols == 4,
                i < self.rows,
                v@.len() == 4,
                k <= 4,
                acc == seq_dot(self@[i as int], v@, k as nat),
            decreases 4 - k,
        {
            acc = acc.plus(self.get_value(i, k).times(v[k]));
            k = k + 1;
        }
        acc
    }

    /// The matrix applied to `t` read as a column: component i is the dot
    /// product of row i with `t`. A matrix with fewer than four rows leaves
    /// the remaining components zero.
    pub fn multiply_tuple(&self, other: &Tuple<T>) -> (r: Tuple<T>)
        requires
            self.wf(),
            self.rows >= 1,
            self.rows <= 4,
            self.cols == 4,
        ensures
            forall|i: int|
                0 <= i < 4 ==> #[trigger] r.spec_components()[i] == if i < self.rows {
                    seq_dot(self@[i], other.spec_components(), 4)
                } else {
                    T::spec_zero()
                },
    {
        let v = other.to_vec();
        let mut result: Vec<T> = Vec::new();
        let mut i: usize = 0;
        while i < 4
            invariant
                self.wf(),
                self.rows <= 4,
                self.cols == 4,
                v@ == other.spec_components(),
                i <= 4,
                result@.len() == i,
                forall|a: int|
                    0 <= a < i ==> #[trigger] result@[a] == if a < self.rows {
                        seq_dot(self@[a], other.spec_components(), 4)
                    } else {
                        T::spec_zero()
                    },
            decreases 4 - i,
        {
            if i < self.rows {
                result.push(self.row_dot(i, &v));
            } else {
                result.push(T::zero());
            }
            i = i + 1;
        }
        let r = Tuple::new(result[0], result[1], result[2], result[3]);
        assert(r.spec_components() =~= result@);
        r
    }

    /// The matrix with rows and columns exchanged.
    pub fn transpose(&self) -> (r: Self)
        requires
            self.wf(),
        ensures
            r.wf(),
            r.rows == self.cols,
            r.cols == self.rows,
            r@ == spec_transpose(self@, self.rows as nat, self.cols as nat),
    {
        let mut values: Vec<Vec<T>> = Vec::new();
        let mut j: usize = 0;
        while j < self.cols
            invariant
                self.wf(),
                j <= self.cols,
                values@.len() == j,
                forall|b: int|
                    0 <= b < j ==> #[trigger] values@[b]@ == spec_transpose(
                        self@,
                        self.rows as nat,
                        self.cols as nat,
                    )[b],
            decreases self.cols - j,
        {
            let mut row: Vec<T> = Vec::new();
            let mut i: usize = 0;
            while i < self.rows
                invariant
                    self.wf(),
                    j < self.cols,
                    i <= self.rows,
                    row@ == spec_transpose(self@, self.rows as nat, self.cols as nat)[j as int].take(
                        i as int,
                    ),
                decreases self.rows - i,
            {
                row.push(self.get_value(i, j));
                i = i + 1;
                assert(row@ =~= spec_transpose(self@, self.rows as nat, self.cols as nat)[j as int].take(
                    i as int,
                ));
            }
            assert(row@ =~= spec_transpose(self@, self.rows as nat, self.cols as nat)[j as int]);
            values.push(row);
            j = j + 1;
        }
        let r = Matrix { rows: self.cols, cols: self.rows, values };
        assert(r@ =~= spec_transpose(self@, self.rows as nat, self.cols as nat));
        r
    }

    /// The matrix without row `row` and column `col`, the remaining rows and
    /// columns kept in order.
    pub fn submatrix(&self, row: usize, col: usize) -> (r: Self)
        requires
            self.wf(),
            row < self.rows,
            col < self.cols,
        ensures
            r.wf(),
            r.rows == self.rows - 1,
            r.cols == self.cols - 1,
            r@ == spec_submatrix(self@, row as int, col as int),
    {
        let mut values: Vec<Vec<T>> = Vec::new();
        let mut i: usize = 0;
        while i < self.rows
            invariant
                self.wf(),
                row < self.rows,
                col < self.cols,
                i <= self.rows,
                values@.len() == if i <= row { i as int } else { i - 1 },
                forall|a: int|
                    0 <= a < values@.len() ==> #[trigger] values@[a]@ == without(
                        self@[skip(a, row as int)],
                        col as int,
                    ),
            decreases self.rows - i,
        {
            if i != row {
                let mut new_row: Vec<T> = Vec::new();
                let mut j: usize = 0;
                while j < self.cols
                    invariant
                        self.wf(),
                        col < self.cols,
                        i < self.rows,
                        j <= self.cols,
                        new_row@ == without(self@[i as int], col as int).take(
                            if j <= col { j as int } else { j - 1 },
                        ),
                    decreases self.cols - j,
                {
                    if j != col {
                        new_row.push(self.get_value(i, j));
                    }
                    j = j + 1;
                    assert(new_row@ =~= without(self@[i as int], col as int).take(
                        if j <= col { j as int } else { j - 1 },
                    ));
                }
                assert(new_row@ =~= without(self@[i as int], col as int));
                values.push(new_row);
            }
            i = i + 1;
        }
        let r = Matrix { rows: self.rows - 1, cols: self.cols - 1, values };
        assert(r@ =~= spec_submatrix(self@, row as int, col as int));
        r
    }

    /// The determinant, by Laplace expansion along the first row down to the
    /// 2 x 2 case.
    pub fn determinant(&self) -> (r: T)
        requires
            self.wf(),
            self.rows == self.cols,
            self.rows >= 1,
        ensures
            r == spec_det(self@),
        decreases self.rows,
    {
        if self.rows == 1 {
            return self.get_value(0, 0);
        }
        if self.rows == 2 {
            let a = self.get_value(0, 0);
            let b = self.get_value(0, 1);
            let c = self.get_value(1, 0);
            let d = self.get_value(1, 1);
            return a.times(d).minus(b.times(c));
        }
        let mut sum = T::zero();
        let mut j: usize = 0;
        while j < self.cols
            invariant
                self.wf(),
                self.rows == self.cols,
                self.rows > 2,
                j <= self.cols,
                sum == spec_expansion(self@, j as nat),
            decreases self.cols - j,
        {
            let sub = self.submatrix(0, j);
            let minor = sub.determinant();
            let term = if j % 2 == 1 {
                minor.negated()
            } else {
                minor
            };
            sum = sum.plus(self.get_value(0, j).times(term));
            j = j + 1;
        }
        sum
    }

    /// The determinant of the submatrix without row `row` and column `col`.
    pub fn minor(&self, row: usize, col: usize) -> (r: T)
        requires
            self.wf(),
            self.rows == self.cols,
            self.rows >= 2,
            row < self.rows,
            col < self.cols,
        ensures
            r == spec_minor(self@, row as int, col as int),
    {
        let sub = self.submatrix(row, col);
        sub.determinant()
    }

    /// The minor at (`row`, `col`), negated exactly when `row + col` is odd.
    pub fn cofactor(&self, row: usize, col: usize) -> (r: T)
        requires
            self.wf(),
            self.rows == self.cols,
            self.rows >= 2,
            row < self.rows,
            col < self.cols,
        ensures
            r == spec_cofactor(self@, row as int, col as int),
    {
        let minor = self.minor(row, col);
        if (row % 2 == 1) != (col % 2 == 1) {
            minor.negated()
        } else {
            minor
        }
    }
}


/// Transposing twice gives back the same matrix.
pub proof fn lemma_transpose_twice<T>(m: Seq<Seq<T>>, rows: nat, cols: nat)
    requires
        is_grid(m, rows, cols),
    ensures
        spec_transpose(spec_transpose(m, rows, cols), cols, rows) == m,
{
    let t = spec_transpose(spec_transpose(m, rows, cols), cols, rows);
    assert forall|i: int| 0 <= i < rows implies #[trigger] t[i] == m[i] by {
        assert(t[i] =~= m[i]);
    }
    assert(t =~= m);
}

/// A dot product with a row of the identity picks out one entry.
proof fn lemma_dot_unit(row: Seq<i64>, unit: Seq<i64>, j: int)
    requires
        row.len() == 4,
        unit.len() == 4,
        0 <= j < 4,
        forall|k: int| 0 <= k < 4 ==> #[trigger] unit[k] == if k == j { 1i64 } else { 0i64 },
    ensures
        seq_dot(row, unit, 4) == row[j],
        seq_dot(unit, row, 4) == row[j],
{
    reveal_with_fuel(seq_dot, 5);
    assert(forall|v: i64| #![trigger v.wrapping_mul(1)] v.wrapping_mul(1) == v && (1i64).wrapping_mul(v) == v);
    assert(forall|v: i64| #![trigger v.wrapping_mul(0)] v.wrapping_mul(0) == 0 && (0i64).wrapping_mul(v) == 0);
}

/// Multiplying a 4 x 4 matrix by the identity, on the right, gives back the
/// matrix, and the identity applied to a tuple gives back the tuple; both
/// exactly, over machine integers.
pub proof fn lemma_multiply_identity(m: Seq<Seq<i64>>, t: Tuple<i64>)
    requires
        is_grid(m, 4, 4),
    ensures
        forall|i: int, j: int|
            0 <= i < 4 && 0 <= j < 4 ==> #[trigger] seq_dot(
                m[i],
                column(spec_identity::<i64>(), j),
                4,
            ) == m[i][j],
        forall|i: int|
            0 <= i < 4 ==> #[trigger] seq_dot(spec_identity::<i64>()[i], t.spec_components(), 4)
                == t.spec_components()[i],
{
    assert forall|i: int, j: int| 0 <= i < 4 && 0 <= j < 4 implies #[trigger] seq_dot(
        m[i],
        column(spec_identity::<i64>(), j),
        4,
    ) == m[i][j] by {
        lemma_dot_unit(m[i], column(spec_identity::<i64>(), j), j);
    }
    assert forall|i: int| 0 <= i < 4 implies #[trigger] seq_dot(
        spec_identity::<i64>()[i],
        t.spec_components(),
        4,
    ) == t.spec_components()[i] by {
        lemma_dot_unit(t.spec_components(), spec_identity::<i64>()[i], i);
    }
}

} // verus!
