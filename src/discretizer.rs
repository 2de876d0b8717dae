//! A uniform grid between a continuous range and integer cell indices.
use vstd::prelude::*;
use vstd::arithmetic::div_mod::lemma_fundamental_div_mod_converse;
use crate::fixed::SCALE;

verus! {

/// Maps the range `[min, max]` onto the cells `0..count`.
///
/// Cell `k` stands for the value `min + k * (max - min) / (count - 1)`; the
/// grid points are at least two units apart, so that each of them is told
/// apart from its neighbours after rounding.
#[derive(Clone, Copy, Debug)]
pub struct Discretizer {
    min: i64,
    max: i64,
    count: usize,
}

impl Discretizer {
    /// The parameters describe a usable grid.
    pub open spec fn params_ok(min: int, max: int, count: int) -> bool {
        &&& count >= 2
        &&& min < max
        &&& max - min >= 2 * (count - 1)
    }

    pub closed spec fn spec_min(&self) -> int {
        self.min as int
    }

    pub closed spec fn spec_max(&self) -> int {
        self.max as int
    }

    pub closed spec fn spec_count(&self) -> int {
        self.count as int
    }

    pub open spec fn wf(&self) -> bool {
        Self::params_ok(self.spec_min(), self.spec_max(), self.spec_count())
    }

    /// The value that cell `k` stands for.
    pub open spec fn cont_spec(&self, k: int) -> int {
        self.spec_min() + (k * (self.spec_max() - self.spec_min())) / (self.spec_count() - 1)
    }

    /// The cell whose value lies nearest to `x`, ties toward the upper cell;
    /// values outside the range go to the first or last cell.
    pub open spec fn disc_spec(&self, x: int) -> int {
        let span = self.spec_max() - self.spec_min();
        if x <= self.spec_min() {
            0
        } else if x >= self.spec_max() {
            self.spec_count() - 1
        } else {
            ((x - self.spec_min()) * (self.spec_count() - 1) + span / 2) / span
        }
    }

    /// A grid over `[min, max]` with `count` cells, or `None` where the
    /// parameters describe no usable grid.
    pub fn new(min: i64, max: i64, count: usize) -> (r: Option<Discretizer>)
        ensures
            r is Some <==> Self::params_ok(min as int, max as int, count as int),
            r matches Some(d) ==> d.wf() && d.spec_min() == min && d.spec_max() == max
                && d.spec_count() == count,
    {
        if count >= 2 && min < max && (max as i128 - min as i128) >= 2 * (count as i128 - 1) {
            Some(Discretizer { min, max, count })
        } else {
            None
        }
    }

    pub fn min(&self) -> (r: i64)
        ensures
            r == self.spec_min(),
    {
        self.min
    }

    pub fn max(&self) -> (r: i64)
        ensures
            r == self.spec_max(),
    {
        self.max
    }

    pub fn count(&self) -> (r: usize)
        ensures
            r == self.spec_count(),
    {
        self.count
    }

    /// The distance between neighbouring grid values, rounded toward zero.
    pub fn interval(&self) -> (r: u64)
        requires
            self.wf(),
        ensures
            r == (self.spec_max() - self.spec_min()) / (self.spec_count() - 1),
            r >= 2,
    {
        let span: u128 = (self.max as i128 - self.min as i128) as u128;
        let n1: u128 = (self.count - 1) as u128;
        proof {
            let (n, sp) = (n1 as int, span as int);
            vstd::arithmetic::div_mod::lemma_div_is_ordered(2 * n, sp, n);
            vstd::arithmetic::div_mod::lemma_div_by_multiple(2, n);
            assert(2 * n == 2int * n);
            vstd::arithmetic::div_mod::lemma_div_is_ordered_by_denominator(sp, 1, n);
        }
        (span / n1) as u64
    }

    /// The cell nearest to `x`; values outside `[min, max]` are clamped to
    /// the first or last cell.
    pub fn discretize(&self, x: i64) -> (r: usize)
        requires
            self.wf(),
        ensures
            r == self.disc_spec(x as int),
            r < self.spec_count(),
            x < self.spec_min() ==> r == 0,
            x > self.spec_max() ==> r == self.spec_count() - 1,
    {
        if x <= self.min {
            0
        } else if x >= self.max {
            self.count - 1
        } else {
            let span: u128 = (self.max as i128 - self.min as i128) as u128;
            let off: u128 = (x as i128 - self.min as i128) as u128;
            let n1: u128 = (self.count - 1) as u128;
            proof {
                let (o, n, sp) = (off as int, n1 as int, span as int);
                assert(o * n <= sp * n) by (nonlinear_arith)
                    requires o < sp, n >= 0;
                assert(sp * n < 0x1_0000_0000_0000_0000 * 0x8000_0000_0000_0000) by (nonlinear_arith)
                    requires sp < 0x1_0000_0000_0000_0000, 0 <= n < 0x8000_0000_0000_0000;
                assert(0 <= o * n) by (nonlinear_arith)
                    requires o >= 0, n >= 0;
                vstd::arithmetic::div_mod::lemma_div_is_ordered(o * n + sp / 2, sp * n + sp / 2, sp);
                lemma_fundamental_div_mod_converse(sp * n + sp / 2, sp, n, sp / 2);
            }
            ((off * n1 + span / 2) / span) as usize
        }
    }

    /// The value that cell `k` stands for.
    pub fn undiscretize(&self, k: usize) -> (r: i64)
        requires
            self.wf(),
            k < self.spec_count(),
        ensures
            r == self.cont_spec(k as int),
            self.spec_min() <= r <= self.spec_max(),
    {
        let span: u128 = (self.max as i128 - self.min as i128) as u128;
        let n1: u128 = (self.count - 1) as u128;
        let kk: u128 = k as u128;
        proof {
            let (kc, n, sp) = (kk as int, n1 as int, span as int);
            assert(kc * sp <= n * sp) by (nonlinear_arith)
                requires kc <= n, sp >= 0;
            assert(0 <= kc * sp) by (nonlinear_arith)
                requires kc >= 0, sp >= 0;
            assert(n * sp < 0x8000_0000_0000_0000 * 0x1_0000_0000_0000_0000) by (nonlinear_arith)
                requires 0 <= sp < 0x1_0000_0000_0000_0000, 0 <= n < 0x8000_0000_0000_0000;
            vstd::arithmetic::div_mod::lemma_div_is_ordered(kc * sp, n * sp, n);
            vstd::arithmetic::div_mod::lemma_div_by_multiple(sp, n);
            assert(n * sp == sp * n) by (nonlinear_arith);
            vstd::arithmetic::div_mod::lemma_div_pos_is_pos(kc * sp, n);
        }
        let q: u128 = (kk * span) / n1;
        (self.min as i128 + q as i128) as i64
    }
}

/// Every cell is found again from the value it stands for.
pub proof fn lemma_round_trip(d: Discretizer, k: int)
    requires
        d.wf(),
        0 <= k < d.spec_count(),
    ensures
        d.disc_spec(d.cont_spec(k)) == k,
{
    let span = d.spec_max() - d.spec_min();
    let n1 = d.spec_count() - 1;
    let q = (k * span) / n1;
    let t = (k * span) % n1;
    vstd::arithmetic::div_mod::lemma_fundamental_div_mod(k * span, n1);
    assert(q * n1 == k * span - t);
    assert(0 <= t < n1);
    assert(t <= span / 2);
    if k == 0 {
        assert(q == 0);
    } else if k == n1 {
        vstd::arithmetic::div_mod::lemma_div_by_multiple(span, n1);
        assert(k * span == span * n1) by (nonlinear_arith)
            requires k == n1;
        assert(q == span);
    } else {
        assert(0 < q) by (nonlinear_arith)
            requires q * n1 == k * span - t, t < n1, k >= 1, span >= 2 * n1, n1 >= 1;
        assert(k * span <= (n1 - 1) * span) by (nonlinear_arith)
            requires k <= n1 - 1, span >= 0;
        assert(q * n1 < span * n1) by (nonlinear_arith)
            requires q * n1 == k * span - t, t >= 0, k * span <= (n1 - 1) * span, span >= 1;
        assert(q < span) by (nonlinear_arith)
            requires q * n1 < span * n1, n1 >= 1;
        assert(q * n1 + span / 2 == k * span + (span / 2 - t));
        lemma_fundamental_div_mod_converse(q * n1 + span / 2, span, k, span / 2 - t);
    }
}

/// Every value, inside the range or not, goes to a cell of the grid.
pub proof fn lemma_disc_in_range(d: Discretizer, x: int)
    requires
        d.wf(),
    ensures
        0 <= d.disc_spec(x) < d.spec_count(),
{
    let span = d.spec_max() - d.spec_min();
    let n1 = d.spec_count() - 1;
    if d.spec_min() < x < d.spec_max() {
        let off = x - d.spec_min();
        assert(off * n1 <= span * n1) by (nonlinear_arith)
            requires off < span, n1 >= 0;
        assert(0 <= off * n1) by (nonlinear_arith)
            requires off >= 0, n1 >= 0;
        vstd::arithmetic::div_mod::lemma_div_is_ordered(off * n1 + span / 2, span * n1 + span / 2, span);
        lemma_fundamental_div_mod_converse(span * n1 + span / 2, span, n1, span / 2);
        vstd::arithmetic::div_mod::lemma_div_pos_is_pos(off * n1 + span / 2, span);
    }
}


/// Number of command values in `[-1, 1]`.
pub const NU: usize = 11;

/// The value of cell `k` of the grid over `[min, max]` with `n` cells.
pub open spec fn cont_spec(min: int, max: int, n: int, k: int) -> int {
    min + (k * (max - min)) / (n - 1)
}

/// The value of cell `k` of the grid over `[min, max]` with `n` cells.
pub fn cont(min: i64, max: i64, n: usize, k: usize) -> (r: i64)
    requires
        Discretizer::params_ok(min as int, max as int, n as int),
        k < n,
    ensures
        r == cont_spec(min as int, max as int, n as int, k as int),
{
    let d = Discretizer { min, max, count: n };
    d.undiscretize(k)
}

/// The command of action `du` among [`NU`] values evenly spread over
/// `[-1, 1]`.
pub fn cont_u(du: usize) -> (r: i64)
    requires
        du < NU,
    ensures
        r == cont_spec(-SCALE as int, SCALE as int, NU as int, du as int),
        -SCALE <= r <= SCALE,
{
    cont(-SCALE, SCALE, NU, du)
}

} // verus!
