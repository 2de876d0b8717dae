//! Dense fixed-point matrices with saturating arithmetic.
use vstd::prelude::*;
use crate::fixed::{SCALE, add_spec, sub_spec, mul_spec, div_spec, fx_add, fx_sub, fx_mul, fx_div};

verus! {

/// `m` has `r` rows of `c` entries each.
pub open spec fn is_mat(m: Seq<Seq<i64>>, r: int, c: int) -> bool {
    &&& m.len() == r
    &&& forall|i: int| 0 <= i < r ==> #[trigger] m[i].len() == c
}

/// Sum of the first `k` products of row `i` of `a` with column `j` of `b`,
/// accumulated with saturation.
pub open spec fn dot(a: Seq<Seq<i64>>, b: Seq<Seq<i64>>, i: int, j: int, k: int) -> int
    decreases k,
{
    if k <= 0 {
        0
    } else {
        add_spec(dot(a, b, i, j, k - 1), mul_spec(a[i][k - 1] as int, b[k - 1][j] as int))
    }
}

/// The product of an `r x n` matrix `a` with an `n x p` matrix `b`.
pub open spec fn mul_mat(a: Seq<Seq<i64>>, b: Seq<Seq<i64>>, n: int, p: int) -> Seq<Seq<i64>> {
    Seq::new(a.len(), |i: int| Seq::new(p as nat, |j: int| dot(a, b, i, j, n) as i64))
}

/// The transpose of an `r x c` matrix.
pub open spec fn transpose_mat(a: Seq<Seq<i64>>, r: int, c: int) -> Seq<Seq<i64>> {
    Seq::new(c as nat, |j: int| Seq::new(r as nat, |i: int| a[i][j]))
}

/// Entry-wise saturating sum.
pub open spec fn add_mat(a: Seq<Seq<i64>>, b: Seq<Seq<i64>>) -> Seq<Seq<i64>> {
    Seq::new(a.len(), |i: int| Seq::new(a[i].len(), |j: int| add_spec(a[i][j] as int, b[i][j] as int) as i64))
}

/// Entry-wise saturating difference.
pub open spec fn sub_mat(a: Seq<Seq<i64>>, b: Seq<Seq<i64>>) -> Seq<Seq<i64>> {
    Seq::new(a.len(), |i: int| Seq::new(a[i].len(), |j: int| sub_spec(a[i][j] as int, b[i][j] as int) as i64))
}

/// Every entry multiplied by the fixed-point value `s`.
pub open spec fn scale_mat(a: Seq<Seq<i64>>, s: int) -> Seq<Seq<i64>> {
    Seq::new(a.len(), |i: int| Seq::new(a[i].len(), |j: int| mul_spec(a[i][j] as int, s) as i64))
}

/// The `n x n` matrix with `v` on the diagonal and zero elsewhere.
pub open spec fn diag_mat(n: int, v: i64) -> Seq<Seq<i64>> {
    Seq::new(n as nat, |i: int| Seq::new(n as nat, |j: int| if i == j { v } else { 0i64 }))
}

/// Sum of the diagonal entries of a square matrix.
pub open spec fn trace_mat(a: Seq<Seq<i64>>, n: int) -> int
    decreases n,
{
    if n <= 0 {
        0
    } else {
        trace_mat(a, n - 1) + a[n - 1][n - 1]
    }
}

/// The index of the `k`-th row (or column) of a 3 x 3 matrix once row (or
/// column) `skip` is struck out.
pub open spec fn other_index(skip: int, k: int) -> int {
    if k < skip {
        k
    } else {
        k + 1
    }
}

/// The cofactor of entry `(i, j)` of an `n x n` matrix, for `n` from 1 to 3.
pub open spec fn cofactor(a: Seq<Seq<i64>>, n: int, i: int, j: int) -> int {
    let sign_even = (i + j) % 2 == 0;
    let minor = if n == 1 {
        SCALE as int
    } else if n == 2 {
        a[1 - i][1 - j] as int
    } else {
        let (r0, r1) = (other_index(i, 0), other_index(i, 1));
        let (c0, c1) = (other_index(j, 0), other_index(j, 1));
        sub_spec(mul_spec(a[r0][c0] as int, a[r1][c1] as int), mul_spec(a[r0][c1] as int, a[r1][c0] as int))
    };
    if n == 1 || sign_even {
        minor
    } else {
        sub_spec(0, minor)
    }
}

/// Expansion of the determinant along the first row, over its first `k`
/// entries.
pub open spec fn det_prefix(a: Seq<Seq<i64>>, n: int, k: int) -> int
    decreases k,
{
    if k <= 0 {
        0
    } else {
        add_spec(det_prefix(a, n, k - 1), mul_spec(a[0][k - 1] as int, cofactor(a, n, 0, k - 1)))
    }
}

/// The determinant of an `n x n` matrix, for `n` from 1 to 3.
pub open spec fn det_mat(a: Seq<Seq<i64>>, n: int) -> int {
    det_prefix(a, n, n)
}

/// The inverse of an `n x n` matrix, for `n` from 1 to 3: its adjugate
/// divided by its determinant.
pub open spec fn inverse_mat(a: Seq<Seq<i64>>, n: int) -> Seq<Seq<i64>> {
    Seq::new(n as nat, |i: int| Seq::new(n as nat, |j: int| div_spec(cofactor(a, n, j, i), det_mat(a, n)) as i64))
}

/// A dense matrix of fixed-point entries, stored row by row.
#[derive(Debug)]
pub struct Matrix {
    nrows: usize,
    ncols: usize,
    data: Vec<Vec<i64>>,
}

impl View for Matrix {
    type V = Seq<Seq<i64>>;

    closed spec fn view(&self) -> Seq<Seq<i64>> {
        Seq::new(self.data@.len(), |i: int| self.data@[i]@)
    }
}

impl Matrix {
    pub closed spec fn rows(&self) -> int {
        self.nrows as int
    }

    pub closed spec fn cols(&self) -> int {
        self.ncols as int
    }

    /// The stored rows all have the recorded number of entries.
    pub open spec fn wf(&self) -> bool {
        is_mat(self@, self.rows(), self.cols())
    }

    proof fn lemma_rows(&self)
        requires
            self.wf(),
        ensures
            self.data@.len() == self.nrows,
            forall|i: int| 0 <= i < self.nrows ==> (#[trigger] self.data@[i])@.len() == self.ncols
                && self@[i] == self.data@[i]@,
    {
        assert forall|i: int| 0 <= i < self.nrows implies (#[trigger] self.data@[i])@.len() == self.ncols
            && self@[i] == self.data@[i]@ by {
            assert(self@[i].len() == self.ncols);
        }
    }

    /// The matrix with the given rows, or `None` where they are not all of
    /// one length or there are none.
    pub fn from_rows(data: Vec<Vec<i64>>) -> (r: Option<Matrix>)
        ensures
            r is Some <==> data@.len() > 0 && (forall|i: int|
                0 <= i < data@.len() ==> #[trigger] data@[i]@.len() == data@[0]@.len()),
            r matches Some(m) ==> m.wf() && m.rows() == data@.len() && m.cols() == data@[0]@.len()
                && m@ == Seq::new(data@.len(), |i: int| data@[i]@),
    {
        if data.len() == 0 {
            return None;
        }
        let c = data[0].len();
        let mut i: usize = 0;
        while i < data.len()
            invariant
                0 <= i <= data@.len(),
                c == data@[0]@.len(),
                forall|ii: int| 0 <= ii < i ==> #[trigger] data@[ii]@.len() == c,
            decreases data@.len() - i,
        {
            if data[i].len() != c {
                return None;
            }
            i += 1;
        }
        let m = Matrix { nrows: data.len(), ncols: c, data };
        Some(m)
    }

    /// The `r x c` matrix of zeros.
    pub fn zeros(r: usize, c: usize) -> (m: Matrix)
        ensures
            m.wf(),
            m.rows() == r,
            m.cols() == c,
            m@ == Seq::new(r as nat, |i: int| Seq::new(c as nat, |j: int| 0i64)),
    {
        let mut data: Vec<Vec<i64>> = Vec::new();
        let mut i: usize = 0;
        while i < r
            invariant
                0 <= i <= r,
                data@.len() == i,
                forall|ii: int| 0 <= ii < i ==> #[trigger] data@[ii]@ == Seq::new(c as nat, |j: int| 0i64),
            decreases r - i,
        {
            let mut row: Vec<i64> = Vec::new();
            let mut j: usize = 0;
            while j < c
                invariant
                    0 <= j <= c,
                    row@ == Seq::new(j as nat, |jj: int| 0i64),
                decreases c - j,
            {
                row.push(0);
                j += 1;
                assert(row@ =~= Seq::new(j as nat, |jj: int| 0i64));
            }
            data.push(row);
            i += 1;
        }
        let m = Matrix { nrows: r, ncols: c, data };
        assert(m@ =~= Seq::new(r as nat, |i: int| Seq::new(c as nat, |j: int| 0i64)));
        m
    }

    /// The `n x n` matrix with `v` on the diagonal.
    pub fn diag(n: usize, v: i64) -> (m: Matrix)
        ensures
            m.wf(),
            m.rows() == n,
            m.cols() == n,
            m@ == diag_mat(n as int, v),
    {
        let mut data: Vec<Vec<i64>> = Vec::new();
        let mut i: usize = 0;
        while i < n
            invariant
                0 <= i <= n,
                data@.len() == i,
                forall|ii: int| 0 <= ii < i ==> #[trigger] data@[ii]@ == diag_mat(n as int, v)[ii],
            decreases n - i,
        {
            let mut row: Vec<i64> = Vec::new();
            let mut j: usize = 0;
            while j < n
                invariant
                    0 <= j <= n,
                    0 <= i < n,
                    row@ == diag_mat(n as int, v)[i as int].subrange(0, j as int),
                decreases n - j,
            {
                if i == j {
                    row.push(v);
                } else {
                    row.push(0);
                }
                j += 1;
                assert(row@ =~= diag_mat(n as int, v)[i as int].subrange(0, j as int));
            }
            assert(row@ =~= diag_mat(n as int, v)[i as int]);
            data.push(row);
            i += 1;
        }
        let m = Matrix { nrows: n, ncols: n, data };
        assert(m@ =~= diag_mat(n as int, v));
        m
    }

    pub fn nrows(&self) -> (r: usize)
        ensures
            r == self.rows(),
    {
        self.nrows
    }

    pub fn ncols(&self) -> (r: usize)
        ensures
            r == self.cols(),
    {
        self.ncols
    }

    /// An entry-for-entry copy of `self`.
    pub fn copy(&self) -> (r: Matrix)
        requires
            self.wf(),
        ensures
            r.wf(),
            r.rows() == self.rows(),
            r.cols() == self.cols(),
            r@ == self@,
    {
        proof {
            self.lemma_rows();
        }
        let mut data: Vec<Vec<i64>> = Vec::new();
        let mut i: usize = 0;
        while i < self.nrows
            invariant
                self.wf(),
                0 <= i <= self.rows(),
                data@.len() == i,
                forall|ii: int| 0 <= ii < i ==> #[trigger] data@[ii]@ == self@[ii],
            decreases self.rows() - i,
        {
            proof {
                self.lemma_rows();
            }
            data.push(self.data[i].clone());
            i += 1;
        }
        let r = Matrix { nrows: self.nrows, ncols: self.ncols, data };
        assert(r@ =~= self@);
        r
    }

    /// The entry in row `i`, column `j`.
    pub fn get(&self, i: usize, j: usize) -> (r: i64)
        requires
            self.wf(),
            i < self.rows(),
            j < self.cols(),
        ensures
            r == self@[i as int][j as int],
    {
        proof {
            self.lemma_rows();
        }
        self.data[i][j]
    }

    /// Replaces the entry in row `i`, column `j`.
    pub fn set(&mut self, i: usize, j: usize, v: i64)
        requires
            old(self).wf(),
            i < old(self).rows(),
            j < old(self).cols(),
        ensures
            final(self).wf(),
            final(self).rows() == old(self).rows(),
            final(self).cols() == old(self).cols(),
            final(self)@ == old(self)@.update(i as int, old(self)@[i as int].update(j as int, v)),
    {
        proof {
            self.lemma_rows();
        }
        let mut row = self.data[i].clone();
        row.set(j, v);
        self.data.set(i, row);
        assert(self@ =~= old(self)@.update(i as int, old(self)@[i as int].update(j as int, v)));
    }

    /// The product `self * b`.
    pub fn mul(&self, b: &Matrix) -> (c: Matrix)
        requires
            self.wf(),
            b.wf(),
            self.cols() == b.rows(),
        ensures
            c.wf(),
            c.rows() == self.rows(),
            c.cols() == b.cols(),
            c@ == mul_mat(self@, b@, b.rows(), b.cols()),
    {
        proof {
            self.lemma_rows();
            b.lemma_rows();
        }
        let n = b.nrows;
        let p = b.ncols;
        let mut data: Vec<Vec<i64>> = Vec::new();
        let mut i: usize = 0;
        while i < self.nrows
            invariant
                self.wf(),
                b.wf(),
                n == b.rows(),
                p == b.cols(),
                self.cols() == n,
                0 <= i <= self.rows(),
                data@.len() == i,
                forall|ii: int| 0 <= ii < i ==> #[trigger] data@[ii]@ == mul_mat(self@, b@, n as int, p as int)[ii],
            decreases self.rows() - i,
        {
            let mut row: Vec<i64> = Vec::new();
            let mut j: usize = 0;
            while j < p
                invariant
                    self.wf(),
                    b.wf(),
                    n == b.rows(),
                    p == b.cols(),
                    self.cols() == n,
                    0 <= i < self.rows(),
                    0 <= j <= p,
                    row@.len() == j,
                    forall|jj: int| 0 <= jj < j ==> #[trigger] row@[jj] == dot(self@, b@, i as int, jj, n as int) as i64,
                decreases p - j,
            {
                let mut acc: i64 = 0;
                let mut k: usize = 0;
                while k < n
                    invariant
                        self.wf(),
                        b.wf(),
                        n == b.rows(),
                        p == b.cols(),
                        self.cols() == n,
                        0 <= i < self.rows(),
                        0 <= j < p,
                        0 <= k <= n,
                        acc == dot(self@, b@, i as int, j as int, k as int),
                    decreases n - k,
                {
                    proof {
                        self.lemma_rows();
                        b.lemma_rows();
                    }
                    acc = fx_add(acc, fx_mul(self.data[i][k], b.data[k][j]));
                    k += 1;
                }
                row.push(acc);
                j += 1;
            }
            assert(row@ =~= mul_mat(self@, b@, n as int, p as int)[i as int]);
            data.push(row);
            i += 1;
        }
        let c = Matrix { nrows: self.nrows, ncols: p, data };
        assert(c@ =~= mul_mat(self@, b@, n as int, p as int));
        c
    }

    /// The transpose of `self`.
    pub fn transpose(&self) -> (t: Matrix)
        requires
            self.wf(),
        ensures
            t.wf(),
            t.rows() == self.cols(),
            t.cols() == self.rows(),
            t@ == transpose_mat(self@, self.rows(), self.cols()),
    {
        proof {
            self.lemma_rows();
        }
        let mut data: Vec<Vec<i64>> = Vec::new();
        let mut j: usize = 0;
        while j < self.ncols
            invariant
                self.wf(),
                0 <= j <= self.cols(),
                data@.len() == j,
                forall|jj: int| 0 <= jj < j ==> #[trigger] data@[jj]@
                    == transpose_mat(self@, self.rows(), self.cols())[jj],
            decreases self.cols() - j,
        {
            let mut row: Vec<i64> = Vec::new();
            let mut i: usize = 0;
            while i < self.nrows
                invariant
                    self.wf(),
                    0 <= j < self.cols(),
                    0 <= i <= self.rows(),
                    row@.len() == i,
                    forall|ii: int| 0 <= ii < i ==> #[trigger] row@[ii] == self@[ii][j as int],
                decreases self.rows() - i,
            {
                proof {
                    self.lemma_rows();
                }
                row.push(self.data[i][j]);
                i += 1;
            }
            assert(row@ =~= transpose_mat(self@, self.rows(), self.cols())[j as int]);
            data.push(row);
            j += 1;
        }
        let t = Matrix { nrows: self.ncols, ncols: self.nrows, data };
        assert(t@ =~= transpose_mat(self@, self.rows(), self.cols()));
        t
    }

    /// Entry-wise sum (`sub == false`) or difference (`sub == true`).
    fn combine(&self, b: &Matrix, sub: bool) -> (c: Matrix)
        requires
            self.wf(),
            b.wf(),
            self.rows() == b.rows(),
            self.cols() == b.cols(),
        ensures
            c.wf(),
            c.rows() == self.rows(),
            c.cols() == self.cols(),
            c@ == (if sub { sub_mat(self@, b@) } else { add_mat(self@, b@) }),
    {
        proof {
            self.lemma_rows();
            b.lemma_rows();
        }
        let ghost want = if sub { sub_mat(self@, b@) } else { add_mat(self@, b@) };
        let mut data: Vec<Vec<i64>> = Vec::new();
        let mut i: usize = 0;
        while i < self.nrows
            invariant
                self.wf(),
                b.wf(),
                self.rows() == b.rows(),
                self.cols() == b.cols(),
                want == (if sub { sub_mat(self@, b@) } else { add_mat(self@, b@) }),
                0 <= i <= self.rows(),
                data@.len() == i,
                forall|ii: int| 0 <= ii < i ==> #[trigger] data@[ii]@ == want[ii],
            decreases self.rows() - i,
        {
            let mut row: Vec<i64> = Vec::new();
            let mut j: usize = 0;
            while j < self.ncols
                invariant
                    self.wf(),
                    b.wf(),
                    self.rows() == b.rows(),
                    self.cols() == b.cols(),
                    want == (if sub { sub_mat(self@, b@) } else { add_mat(self@, b@) }),
                    0 <= i < self.rows(),
                    0 <= j <= self.cols(),
                    row@.len() == j,
                    forall|jj: int| 0 <= jj < j ==> #[trigger] row@[jj] == want[i as int][jj],
                decreases self.cols() - j,
            {
                proof {
                    self.lemma_rows();
                    b.lemma_rows();
                }
                let v = if sub {
                    fx_sub(self.data[i][j], b.data[i][j])
                } else {
                    fx_add(self.data[i][j], b.data[i][j])
                };
                row.push(v);
                j += 1;
            }
            assert(row@ =~= want[i as int]);
            data.push(row);
            i += 1;
        }
        let c = Matrix { nrows: self.nrows, ncols: self.ncols, data };
        assert(c@ =~= want);
        c
    }

    /// The entry-wise sum `self + b`.
    pub fn add(&self, b: &Matrix) -> (c: Matrix)
        requires
            self.wf(),
            b.wf(),
            self.rows() == b.rows(),
            self.cols() == b.cols(),
        ensures
            c.wf(),
            c.rows() == self.rows(),
            c.cols() == self.cols(),
            c@ == add_mat(self@, b@),
    {
        self.combine(b, false)
    }

    /// The entry-wise difference `self - b`.
    pub fn sub(&self, b: &Matrix) -> (c: Matrix)
        requires
            self.wf(),
            b.wf(),
            self.rows() == b.rows(),
            self.cols() == b.cols(),
        ensures
            c.wf(),
            c.rows() == self.rows(),
            c.cols() == self.cols(),
            c@ == sub_mat(self@, b@),
    {
        self.combine(b, true)
    }

    /// Every entry multiplied by the fixed-point value `s`.
    pub fn scale(&self, s: i64) -> (c: Matrix)
        requires
            self.wf(),
        ensures
            c.wf(),
            c.rows() == self.rows(),
            c.cols() == self.cols(),
            c@ == scale_mat(self@, s as int),
    {
        proof {
            self.lemma_rows();
        }
        let mut data: Vec<Vec<i64>> = Vec::new();
        let mut i: usize = 0;
        while i < self.nrows
            invariant
                self.wf(),
                0 <= i <= self.rows(),
                data@.len() == i,
                forall|ii: int| 0 <= ii < i ==> #[trigger] data@[ii]@ == scale_mat(self@, s as int)[ii],
            decreases self.rows() - i,
        {
            let mut row: Vec<i64> = Vec::new();
            let mut j: usize = 0;
            while j < self.ncols
                invariant
                    self.wf(),
                    0 <= i < self.rows(),
                    0 <= j <= self.cols(),
                    row@.len() == j,
                    forall|jj: int| 0 <= jj < j ==> #[trigger] row@[jj] == scale_mat(self@, s as int)[i as int][jj],
                decreases self.cols() - j,
            {
                proof {
                    self.lemma_rows();
                }
                row.push(fx_mul(self.data[i][j], s));
                j += 1;
            }
            assert(row@ =~= scale_mat(self@, s as int)[i as int]);
            data.push(row);
            i += 1;
        }
        let c = Matrix { nrows: self.nrows, ncols: self.ncols, data };
        assert(c@ =~= scale_mat(self@, s as int));
        c
    }

    /// Sum of the diagonal entries of a square matrix, as a wide integer.
    pub fn trace(&self) -> (r: i128)
        requires
            self.wf(),
            self.rows() == self.cols(),
            self.rows() <= 1024,
        ensures
            r == trace_mat(self@, self.rows()),
    {
        proof {
            self.lemma_rows();
        }
        let mut acc: i128 = 0;
        let mut i: usize = 0;
        while i < self.nrows
            invariant
                self.wf(),
                self.rows() == self.cols(),
                self.rows() <= 1024,
                0 <= i <= self.rows(),
                acc == trace_mat(self@, i as int),
                -(i as int) * 0x8000_0000_0000_0000 <= acc <= (i as int) * 0x8000_0000_0000_0000,
            decreases self.rows() - i,
        {
            proof {
                self.lemma_rows();
            }
            acc = acc + self.data[i][i] as i128;
            i += 1;
        }
        acc
    }
    fn cofactor(&self, i: usize, j: usize) -> (r: i64)
        requires
            self.wf(),
            self.rows() == self.cols(),
            1 <= self.rows() <= 3,
            i < self.rows(),
            j < self.rows(),
        ensures
            r == cofactor(self@, self.rows(), i as int, j as int),
    {
        proof {
            self.lemma_rows();
        }
        let n = self.nrows;
        let minor: i64 = if n == 1 {
            SCALE
        } else if n == 2 {
            self.data[1 - i][1 - j]
        } else {
            let r0: usize = if 0 < i { 0 } else { 1 };
            let r1: usize = if 1 < i { 1 } else { 2 };
            let c0: usize = if 0 < j { 0 } else { 1 };
            let c1: usize = if 1 < j { 1 } else { 2 };
            fx_sub(
                fx_mul(self.data[r0][c0], self.data[r1][c1]),
                fx_mul(self.data[r0][c1], self.data[r1][c0]),
            )
        };
        if n == 1 || (i + j) % 2 == 0 {
            minor
        } else {
            fx_sub(0, minor)
        }
    }

    /// The determinant of a square matrix of at most three rows.
    pub fn det(&self) -> (r: i64)
        requires
            self.wf(),
            self.rows() == self.cols(),
            1 <= self.rows() <= 3,
        ensures
            r == det_mat(self@, self.rows()),
    {
        proof {
            self.lemma_rows();
        }
        let mut acc: i64 = 0;
        let mut k: usize = 0;
        while k < self.nrows
            invariant
                self.wf(),
                self.rows() == self.cols(),
                1 <= self.rows() <= 3,
                0 <= k <= self.rows(),
                acc == det_prefix(self@, self.rows(), k as int),
            decreases self.rows() - k,
        {
            proof {
                self.lemma_rows();
            }
            acc = fx_add(acc, fx_mul(self.data[0][k], self.cofactor(0, k)));
            k += 1;
        }
        acc
    }

    /// The inverse of a square matrix of at most three rows, or `None` where
    /// its determinant is zero.
    pub fn try_inverse(&self) -> (r: Option<Matrix>)
        requires
            self.wf(),
            self.rows() == self.cols(),
            1 <= self.rows() <= 3,
        ensures
            r is None <==> det_mat(self@, self.rows()) == 0,
            r matches Some(inv) ==> inv.wf() && inv.rows() == self.rows() && inv.cols() == self.rows()
                && inv@ == inverse_mat(self@, self.rows()),
    {
        let d = self.det();
        if d == 0 {
            return None;
        }
        let n = self.nrows;
        let mut data: Vec<Vec<i64>> = Vec::new();
        let mut i: usize = 0;
        while i < n
            invariant
                self.wf(),
                self.rows() == self.cols(),
                n == self.rows(),
                1 <= n <= 3,
                d == det_mat(self@, n as int),
                d != 0,
                0 <= i <= n,
                data@.len() == i,
                forall|ii: int| 0 <= ii < i ==> #[trigger] data@[ii]@ == inverse_mat(self@, n as int)[ii],
            decreases n - i,
        {
            let mut row: Vec<i64> = Vec::new();
            let mut j: usize = 0;
            while j < n
                invariant
                    self.wf(),
                    self.rows() == self.cols(),
                    n == self.rows(),
                    1 <= n <= 3,
                    d == det_mat(self@, n as int),
                    d != 0,
                    0 <= i < n,
                    0 <= j <= n,
                    row@.len() == j,
                    forall|jj: int| 0 <= jj < j ==> #[trigger] row@[jj] == inverse_mat(self@, n as int)[i as int][jj],
                decreases n - j,
            {
                row.push(fx_div(self.cofactor(j, i), d));
                j += 1;
            }
            assert(row@ =~= inverse_mat(self@, n as int)[i as int]);
            data.push(row);
            i += 1;
        }
        let inv = Matrix { nrows: n, ncols: n, data };
        assert(inv@ =~= inverse_mat(self@, n as int));
        Some(inv)
    }
}

} // verus!
