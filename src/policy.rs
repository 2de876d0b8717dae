//! Offline policy synthesis by value iteration over a discretized state
//! and action space.
//!
//! Tables are flat: the transition of cell `s` under action `a` is entry
//! `s * na + a`, for `na` actions.
//!
//! Cells with a nonzero reward are absorbing: their value stays their reward.
//! Every other cell moves, each sweep, a share `alpha` of the way toward the
//! best value among the cells its actions lead to.
use vstd::prelude::*;
use crate::angle::{wrap_angle, wrap_spec, sub_angles, PI};
use crate::discretizer::{Discretizer, NU};
use crate::ekf::{Model, NX, ANGLE, normalize, shaped};
use crate::fixed::{SCALE, add_spec, sub_spec, mul_spec, abs_spec, fx_add, fx_sub, fx_mul, fx_abs};
use crate::matrix::Matrix;

verus! {

/// `0 <= s * na + a < n * na` for a cell `s` and an action `a`.
pub proof fn lemma_entry_index(s: int, a: int, n: int, na: int)
    requires
        0 <= s < n,
        0 <= a < na,
    ensures
        0 <= s * na + a < n * na,
{
    assert(0 <= s * na) by (nonlinear_arith)
        requires s >= 0, na >= 0;
    assert(s * na + na <= n * na) by (nonlinear_arith)
        requires s + 1 <= n, na >= 0;
}

/// The transition table and the value table fit together: `n` cells,
/// `na >= 1` actions, every entry names a cell.
pub open spec fn tables_ok(trans: Seq<usize>, n: int, na: int) -> bool {
    &&& na >= 1
    &&& trans.len() == n * na
    &&& trans.len() <= usize::MAX
    &&& forall|i: int| 0 <= i < trans.len() ==> (#[trigger] trans[i]) < n
}

/// The value reached from cell `s` under action `a`.
pub open spec fn reached(values: Seq<i64>, trans: Seq<usize>, na: int, s: int, a: int) -> int {
    values[trans[s * na + a] as int] as int
}

/// The best value reached from cell `s` over its first `k` actions.
pub open spec fn best_prefix(values: Seq<i64>, trans: Seq<usize>, na: int, s: int, k: int) -> int
    decreases k,
{
    if k <= 1 {
        reached(values, trans, na, s, 0)
    } else {
        let b = best_prefix(values, trans, na, s, k - 1);
        let v = reached(values, trans, na, s, k - 1);
        if v > b {
            v
        } else {
            b
        }
    }
}

/// The first action, among the first `k`, that reaches the best value
/// from cell `s`.
pub open spec fn argmax_prefix(values: Seq<i64>, trans: Seq<usize>, na: int, s: int, k: int) -> int
    decreases k,
{
    if k <= 1 {
        0
    } else {
        let b = argmax_prefix(values, trans, na, s, k - 1);
        if reached(values, trans, na, s, k - 1) > reached(values, trans, na, s, b) {
            k - 1
        } else {
            b
        }
    }
}

/// The value of cell `s` after one sweep from `values`.
pub open spec fn swept_value(rewards: Seq<i64>, trans: Seq<usize>, na: int, values: Seq<i64>, alpha: int, s: int) -> i64 {
    if rewards[s] != 0 {
        rewards[s]
    } else {
        let v = values[s] as int;
        add_spec(v, mul_spec(alpha, sub_spec(best_prefix(values, trans, na, s, na), v))) as i64
    }
}

/// The value table after one synchronous sweep from `values`.
pub open spec fn sweep_spec(rewards: Seq<i64>, trans: Seq<usize>, na: int, values: Seq<i64>, alpha: int) -> Seq<i64> {
    Seq::new(values.len(), |s: int| swept_value(rewards, trans, na, values, alpha, s))
}

/// The value table after `k` sweeps, starting from the rewards.
pub open spec fn iterate_spec(rewards: Seq<i64>, trans: Seq<usize>, na: int, alpha: int, k: nat) -> Seq<i64>
    decreases k,
{
    if k == 0 {
        rewards
    } else {
        sweep_spec(rewards, trans, na, iterate_spec(rewards, trans, na, alpha, (k - 1) as nat), alpha)
    }
}

/// The policy table: for each cell, the first action reaching the best value.
pub open spec fn policy_spec(values: Seq<i64>, trans: Seq<usize>, na: int) -> Seq<usize> {
    Seq::new(values.len(), |s: int| argmax_prefix(values, trans, na, s, na) as usize)
}

proof fn lemma_best_prefix(values: Seq<i64>, trans: Seq<usize>, na: int, s: int, k: int)
    requires
        tables_ok(trans, values.len() as int, na),
        0 <= s < values.len(),
        1 <= k <= na,
    ensures
        0 <= argmax_prefix(values, trans, na, s, k) < k,
        best_prefix(values, trans, na, s, k) == reached(values, trans, na, s, argmax_prefix(values, trans, na, s, k)),
        forall|a: int| 0 <= a < k ==> reached(values, trans, na, s, a) <= best_prefix(values, trans, na, s, k),
        forall|a: int| 0 <= a < argmax_prefix(values, trans, na, s, k)
            ==> reached(values, trans, na, s, a) < best_prefix(values, trans, na, s, k),
    decreases k,
{
    if k > 1 {
        lemma_best_prefix(values, trans, na, s, k - 1);
    }
}

/// One synchronous sweep: every value is computed from the old table, and
/// the result is a new table.
pub fn sweep(rewards: &Vec<i64>, trans: &Vec<usize>, na: usize, values: &Vec<i64>, alpha: i64) -> (next: Vec<i64>)
    requires
        rewards@.len() == values@.len(),
        tables_ok(trans@, values@.len() as int, na as int),
    ensures
        next@ == sweep_spec(rewards@, trans@, na as int, values@, alpha as int),
{
    let n = values.len();
    let mut next: Vec<i64> = Vec::new();
    let mut s: usize = 0;
    while s < n
        invariant
            n == values@.len(),
            rewards@.len() == n,
            tables_ok(trans@, n as int, na as int),
            0 <= s <= n,
            next@.len() == s,
            forall|i: int| 0 <= i < s ==> #[trigger] next@[i] == swept_value(rewards@, trans@, na as int, values@, alpha as int, i),
        decreases n - s,
    {
        if rewards[s] != 0 {
            next.push(rewards[s]);
        } else {
            let best = best_reached(trans, na, values, s);
            let v = values[s];
            next.push(fx_add(v, fx_mul(alpha, fx_sub(best, v))));
        }
        s += 1;
    }
    assert(next@ =~= sweep_spec(rewards@, trans@, na as int, values@, alpha as int));
    next
}

fn best_reached(trans: &Vec<usize>, na: usize, values: &Vec<i64>, s: usize) -> (r: i64)
    requires
        tables_ok(trans@, values@.len() as int, na as int),
        s < values@.len(),
    ensures
        r == best_prefix(values@, trans@, na as int, s as int, na as int),
{
    proof {
        lemma_entry_index(s as int, 0, values@.len() as int, na as int);
    }
    let mut best = values[trans[s * na]];
    let mut a: usize = 1;
    while a < na
        invariant
            tables_ok(trans@, values@.len() as int, na as int),
            s < values@.len(),
            1 <= a <= na,
            best == best_prefix(values@, trans@, na as int, s as int, a as int),
        decreases na - a,
    {
        proof {
            lemma_entry_index(s as int, a as int, values@.len() as int, na as int);
        }
        let v = values[trans[s * na + a]];
        if v > best {
            best = v;
        }
        a += 1;
    }
    best
}

fn first_best_action(trans: &Vec<usize>, na: usize, values: &Vec<i64>, s: usize) -> (r: usize)
    requires
        tables_ok(trans@, values@.len() as int, na as int),
        s < values@.len(),
    ensures
        r == argmax_prefix(values@, trans@, na as int, s as int, na as int),
        r < na,
{
    proof {
        lemma_entry_index(s as int, 0, values@.len() as int, na as int);
    }
    let mut best_a: usize = 0;
    let mut best = values[trans[s * na]];
    let mut a: usize = 1;
    while a < na
        invariant
            tables_ok(trans@, values@.len() as int, na as int),
            s < values@.len(),
            1 <= a <= na,
            best_a == argmax_prefix(values@, trans@, na as int, s as int, a as int),
            best_a < a,
            best == reached(values@, trans@, na as int, s as int, best_a as int),
        decreases na - a,
    {
        proof {
            lemma_entry_index(s as int, a as int, values@.len() as int, na as int);
            lemma_best_prefix(values@, trans@, na as int, s as int, a as int);
        }
        let v = values[trans[s * na + a]];
        if v > best {
            best = v;
            best_a = a;
        }
        a += 1;
    }
    best_a
}

/// Value iteration: starts from the rewards and runs `sweeps` sweeps.
pub fn value_iteration(rewards: &Vec<i64>, trans: &Vec<usize>, na: usize, alpha: i64, sweeps: usize) -> (values: Vec<i64>)
    requires
        tables_ok(trans@, rewards@.len() as int, na as int),
    ensures
        values@ == iterate_spec(rewards@, trans@, na as int, alpha as int, sweeps as nat),
        values@.len() == rewards@.len(),
{
    let mut current = rewards.clone();
    assert(current@ =~= rewards@);
    let mut k: usize = 0;
    while k < sweeps
        invariant
            tables_ok(trans@, rewards@.len() as int, na as int),
            0 <= k <= sweeps,
            current@ == iterate_spec(rewards@, trans@, na as int, alpha as int, k as nat),
            current@.len() == rewards@.len(),
        decreases sweeps - k,
    {
        let next = sweep(rewards, trans, na, &current, alpha);
        current = next;
        k += 1;
    }
    current
}

/// The policy table: for each cell, the first action whose destination has
/// the best value.
pub fn derive_policy(values: &Vec<i64>, trans: &Vec<usize>, na: usize) -> (policy: Vec<usize>)
    requires
        tables_ok(trans@, values@.len() as int, na as int),
    ensures
        policy@ == policy_spec(values@, trans@, na as int),
        forall|s: int| 0 <= s < policy@.len() ==> #[trigger] policy@[s] < na,
{
    let n = values.len();
    let mut policy: Vec<usize> = Vec::new();
    let mut s: usize = 0;
    while s < n
        invariant
            n == values@.len(),
            tables_ok(trans@, n as int, na as int),
            0 <= s <= n,
            policy@.len() == s,
            forall|i: int| 0 <= i < s ==> #[trigger] policy@[i] == argmax_prefix(values@, trans@, na as int, i, na as int) as usize,
            forall|i: int| 0 <= i < s ==> #[trigger] policy@[i] < na,
        decreases n - s,
    {
        policy.push(first_best_action(trans, na, values, s));
        s += 1;
    }
    assert(policy@ =~= policy_spec(values@, trans@, na as int));
    policy
}

/// The action that the policy picks for a cell reaches a value that no
/// other action beats, and every action before it reaches strictly less.
pub proof fn lemma_policy_best(values: Seq<i64>, trans: Seq<usize>, na: int, s: int)
    requires
        tables_ok(trans, values.len() as int, na),
        0 <= s < values.len(),
    ensures
        0 <= policy_spec(values, trans, na)[s] < na,
        forall|a: int| 0 <= a < na ==> #[trigger] reached(values, trans, na, s, a)
            <= reached(values, trans, na, s, policy_spec(values, trans, na)[s] as int),
        forall|a: int| 0 <= a < policy_spec(values, trans, na)[s] ==> #[trigger] reached(values, trans, na, s, a)
            < reached(values, trans, na, s, policy_spec(values, trans, na)[s] as int),
{
    assert(na <= values.len() * na) by (nonlinear_arith)
        requires values.len() >= 1, na >= 1;
    lemma_best_prefix(values, trans, na, s, na);
}

/// A cell with a nonzero reward keeps its reward as its value, through any
/// number of sweeps.
pub proof fn lemma_rewarded_cell_fixed(rewards: Seq<i64>, trans: Seq<usize>, na: int, alpha: int, k: nat, s: int)
    requires
        0 <= s < rewards.len(),
        rewards[s] != 0,
    ensures
        iterate_spec(rewards, trans, na, alpha, k).len() == rewards.len(),
        iterate_spec(rewards, trans, na, alpha, k)[s] == rewards[s],
    decreases k,
{
    if k > 0 {
        lemma_rewarded_cell_fixed(rewards, trans, na, alpha, (k - 1) as nat, s);
    }
}

/// Where every action of every cell leads to one cell `c`, each cell's
/// value after a sweep moves toward the value of `c`, and a cell whose
/// value already equals it keeps it.
pub proof fn lemma_single_destination(rewards: Seq<i64>, trans: Seq<usize>, na: int, values: Seq<i64>, alpha: int, c: int, s: int)
    requires
        tables_ok(trans, values.len() as int, na),
        rewards.len() == values.len(),
        0 <= c < values.len(),
        0 <= s < values.len(),
        forall|i: int| 0 <= i < trans.len() ==> #[trigger] trans[i] == c,
        rewards[s] == 0,
        values[s] == values[c],
    ensures
        sweep_spec(rewards, trans, na, values, alpha)[s] == values[c],
{
    assert forall|k: int| 1 <= k <= na implies best_prefix(values, trans, na, s, k) == values[c] by {
        lemma_best_prefix(values, trans, na, s, k);
        lemma_entry_index(s, argmax_prefix(values, trans, na, s, k), values.len() as int, na);
    }
    assert(sub_spec(values[c] as int, values[s] as int) == 0);
    assert(mul_spec(alpha, 0) == 0);
}


/// The state after `k` model steps from `x` under the constant command `u`,
/// with the angle brought into `(-PI, PI]` after each step.
pub open spec fn simulate<M: Model>(m: M, x: Seq<Seq<i64>>, u: i64, k: nat) -> Seq<Seq<i64>>
    decreases k,
{
    if k == 0 {
        x
    } else {
        normalize(m.f_spec(simulate(m, x, u, (k - 1) as nat), u))
    }
}

/// The discretization of the state and the action: one grid per state
/// component (wheel speed, angle, rate) and one for the command.
#[derive(Clone, Copy, Debug)]
pub struct StateGrid {
    pub wheel: Discretizer,
    pub angle: Discretizer,
    pub rate: Discretizer,
    pub action: Discretizer,
}

impl StateGrid {
    /// Number of state cells.
    pub open spec fn cells(&self) -> int {
        self.wheel.spec_count() * self.angle.spec_count() * self.rate.spec_count()
    }

    /// Number of actions.
    pub open spec fn actions(&self) -> int {
        self.action.spec_count()
    }

    /// All four grids are usable and the transition table fits in memory.
    pub open spec fn wf(&self) -> bool {
        &&& self.wheel.wf()
        &&& self.angle.wf()
        &&& self.rate.wf()
        &&& self.action.wf()
        &&& self.cells() * self.actions() <= usize::MAX
    }

    /// The cell of the three per-axis indices.
    pub open spec fn cell_spec(&self, k0: int, k1: int, k2: int) -> int {
        (k0 * self.angle.spec_count() + k1) * self.rate.spec_count() + k2
    }

    /// The cell that the state `x` falls in.
    pub open spec fn cell_of_spec(&self, x: Seq<Seq<i64>>) -> int {
        self.cell_spec(
            self.wheel.disc_spec(x[0][0] as int),
            self.angle.disc_spec(x[1][0] as int),
            self.rate.disc_spec(x[2][0] as int),
        )
    }

    /// The state at the centre of cell `c`.
    pub open spec fn center_spec(&self, c: int) -> Seq<Seq<i64>> {
        let n1 = self.angle.spec_count();
        let n2 = self.rate.spec_count();
        seq![
            seq![self.wheel.cont_spec(c / (n1 * n2)) as i64],
            seq![self.angle.cont_spec((c / n2) % n1) as i64],
            seq![self.rate.cont_spec(c % n2) as i64],
        ]
    }

    /// The transition of cell `c` under action `a` after `substeps` steps.
    pub open spec fn transition_spec<M: Model>(&self, m: M, substeps: nat, c: int, a: int) -> int {
        self.cell_of_spec(simulate(m, self.center_spec(c), self.action.cont_spec(a) as i64, substeps))
    }

    /// The grids, or `None` where the transition table would not fit in
    /// memory.
    pub fn new(wheel: Discretizer, angle: Discretizer, rate: Discretizer, action: Discretizer) -> (r: Option<StateGrid>)
        requires
            wheel.wf(),
            angle.wf(),
            rate.wf(),
            action.wf(),
        ensures
            r is Some <==> wheel.spec_count() * angle.spec_count() * rate.spec_count() * action.spec_count() <= usize::MAX,
            r matches Some(g) ==> g.wf() && g.wheel == wheel && g.angle == angle && g.rate == rate && g.action == action,
    {
        let n = wheel.count().checked_mul(angle.count());
        let n = match n {
            Some(n) => n.checked_mul(rate.count()),
            None => {
                proof {
                    Self::lemma_grow(wheel.spec_count() * angle.spec_count(), rate.spec_count(), action.spec_count());
                }
                return None;
            },
        };
        let n = match n {
            Some(n) => n.checked_mul(action.count()),
            None => {
                proof {
                    Self::lemma_grow(wheel.spec_count() * angle.spec_count() * rate.spec_count(), action.spec_count(), 1);
                }
                return None;
            },
        };
        match n {
            Some(_) => Some(StateGrid { wheel, angle, rate, action }),
            None => None,
        }
    }

    proof fn lemma_grow(a: int, b: int, c: int)
        requires
            a > usize::MAX,
            b >= 1,
            c >= 1,
        ensures
            a * b * c > usize::MAX,
    {
        assert(a * b * c >= a) by (nonlinear_arith)
            requires a >= 0, b >= 1, c >= 1;
    }

    /// Number of state cells.
    pub fn cell_count(&self) -> (r: usize)
        requires
            self.wf(),
        ensures
            r == self.cells(),
    {
        proof {
            self.lemma_counts();
        }
        self.wheel.count() * self.angle.count() * self.rate.count()
    }

    /// Number of actions.
    pub fn action_count(&self) -> (r: usize)
        ensures
            r == self.actions(),
    {
        self.action.count()
    }

    proof fn lemma_counts(&self)
        requires
            self.wf(),
        ensures
            self.cells() <= usize::MAX,
            self.wheel.spec_count() * self.angle.spec_count() <= self.cells(),
            self.cells() >= 1,
    {
        let (a, b, c, d) = (self.wheel.spec_count(), self.angle.spec_count(), self.rate.spec_count(), self.actions());
        assert(a * b * c <= a * b * c * d) by (nonlinear_arith)
            requires a >= 1, b >= 1, c >= 1, d >= 1;
        assert(a * b <= a * b * c) by (nonlinear_arith)
            requires a >= 1, b >= 1, c >= 1;
        assert(a * b * c >= 1) by (nonlinear_arith)
            requires a >= 1, b >= 1, c >= 1;
    }

    proof fn lemma_cell_bound(&self, k0: int, k1: int, k2: int)
        requires
            self.wf(),
            0 <= k0 < self.wheel.spec_count(),
            0 <= k1 < self.angle.spec_count(),
            0 <= k2 < self.rate.spec_count(),
        ensures
            0 <= k0 * self.angle.spec_count() + k1 < self.wheel.spec_count() * self.angle.spec_count(),
            0 <= self.cell_spec(k0, k1, k2) < self.cells(),
    {
        let (n0, n1, n2) = (self.wheel.spec_count(), self.angle.spec_count(), self.rate.spec_count());
        lemma_entry_index(k0, k1, n0, n1);
        lemma_entry_index(k0 * n1 + k1, k2, n0 * n1, n2);
    }

    /// The cell of the three per-axis indices.
    pub fn cell_index(&self, k0: usize, k1: usize, k2: usize) -> (r: usize)
        requires
            self.wf(),
            k0 < self.wheel.spec_count(),
            k1 < self.angle.spec_count(),
            k2 < self.rate.spec_count(),
        ensures
            r == self.cell_spec(k0 as int, k1 as int, k2 as int),
            r < self.cells(),
    {
        proof {
            self.lemma_cell_bound(k0 as int, k1 as int, k2 as int);
            self.lemma_counts();
        }
        (k0 * self.angle.count() + k1) * self.rate.count() + k2
    }

    /// The cell that the state `x` (a column of three) falls in; values
    /// outside a grid's range go to its first or last cell.
    pub fn cell_of(&self, x: &Matrix) -> (r: usize)
        requires
            self.wf(),
            shaped(*x, NX as int, 1),
        ensures
            r == self.cell_of_spec(x@),
            r < self.cells(),
    {
        let k0 = self.wheel.discretize(x.get(0, 0));
        let k1 = self.angle.discretize(x.get(1, 0));
        let k2 = self.rate.discretize(x.get(2, 0));
        self.cell_index(k0, k1, k2)
    }

    /// The state at the centre of cell `c`, as a column of three.
    pub fn cell_center(&self, c: usize) -> (x: Matrix)
        requires
            self.wf(),
            c < self.cells(),
        ensures
            shaped(x, NX as int, 1),
            x@ == self.center_spec(c as int),
    {
        let n1 = self.angle.count();
        let n2 = self.rate.count();
        proof {
            self.lemma_counts();
            let (n0, n1, n2) = (self.wheel.spec_count(), n1 as int, n2 as int);
            assert(n1 * n2 >= 1) by (nonlinear_arith)
                requires n1 >= 1, n2 >= 1;
            assert(n1 * n2 <= n0 * n1 * n2) by (nonlinear_arith)
                requires n0 >= 1, n1 >= 1, n2 >= 1;
            assert(n0 * n1 * n2 == n0 * (n1 * n2)) by (nonlinear_arith);
            vstd::arithmetic::div_mod::lemma_div_is_ordered(c as int, n0 * (n1 * n2) - 1, n1 * n2);
            assert((n0 * (n1 * n2) - 1) / (n1 * n2) < n0) by {
                vstd::arithmetic::div_mod::lemma_fundamental_div_mod(n0 * (n1 * n2) - 1, n1 * n2);
                let q = (n0 * (n1 * n2) - 1) / (n1 * n2);
                let r = (n0 * (n1 * n2) - 1) % (n1 * n2);
                assert(q < n0) by (nonlinear_arith)
                    requires q * (n1 * n2) + r == n0 * (n1 * n2) - 1, r >= 0, n1 * n2 >= 1;
            }
            vstd::arithmetic::div_mod::lemma_div_pos_is_pos(c as int, n1 * n2);
        }
        let k0 = c / (n1 * n2);
        let k1 = (c / n2) % n1;
        let k2 = c % n2;
        let mut x = Matrix::zeros(NX, 1);
        x.set(0, 0, self.wheel.undiscretize(k0));
        x.set(1, 0, self.angle.undiscretize(k1));
        x.set(2, 0, self.rate.undiscretize(k2));
        assert(x@ =~~= self.center_spec(c as int));
        x
    }

    /// The command that action `a` stands for.
    pub fn action_value(&self, a: usize) -> (u: i64)
        requires
            self.wf(),
            a < self.actions(),
        ensures
            u == self.action.cont_spec(a as int),
    {
        self.action.undiscretize(a)
    }
}

/// The transition table: for each cell and action, the cell reached from the
/// cell's centre after `substeps` model steps under the action's command.
pub fn build_transitions<M: Model>(grid: &StateGrid, model: &M, substeps: usize) -> (trans: Vec<usize>)
    requires
        grid.wf(),
        model.model_wf(),
    ensures
        tables_ok(trans@, grid.cells(), grid.actions()),
        forall|c: int, a: int| 0 <= c < grid.cells() && 0 <= a < grid.actions()
            ==> trans@[#[trigger] (c * grid.actions() + a)] == grid.transition_spec(*model, substeps as nat, c, a),
{
    let n = grid.cell_count();
    let na = grid.action_count();
    let mut trans: Vec<usize> = Vec::new();
    let mut c: usize = 0;
    while c < n
        invariant
            grid.wf(),
            model.model_wf(),
            n == grid.cells(),
            na == grid.actions(),
            0 <= c <= n,
            trans@.len() == c * na,
            forall|i: int| 0 <= i < trans@.len() ==> (#[trigger] trans@[i]) < n,
            forall|cc: int, a: int| 0 <= cc < c && 0 <= a < na
                ==> trans@[#[trigger] (cc * na + a)] == grid.transition_spec(*model, substeps as nat, cc, a),
        decreases n - c,
    {
        let mut a: usize = 0;
        while a < na
            invariant
                grid.wf(),
                model.model_wf(),
                n == grid.cells(),
                na == grid.actions(),
                0 <= c < n,
                0 <= a <= na,
                trans@.len() == c * na + a,
                forall|i: int| 0 <= i < trans@.len() ==> (#[trigger] trans@[i]) < n,
                forall|cc: int, aa: int| 0 <= cc < c && 0 <= aa < na
                    ==> trans@[#[trigger] (cc * na + aa)] == grid.transition_spec(*model, substeps as nat, cc, aa),
                forall|aa: int| 0 <= aa < a
                    ==> trans@[#[trigger] (c * na + aa)] == grid.transition_spec(*model, substeps as nat, c as int, aa),
            decreases na - a,
        {
            let u = grid.action_value(a);
            let mut x = grid.cell_center(c);
            let mut k: usize = 0;
            while k < substeps
                invariant
                    model.model_wf(),
                    0 <= k <= substeps,
                    shaped(x, NX as int, 1),
                    x@ == simulate(*model, grid.center_spec(c as int), u, k as nat),
                decreases substeps - k,
            {
                let mut next = model.f(&x, u);
                let angle = next.get(ANGLE, 0);
                next.set(ANGLE, 0, wrap_angle(angle));
                x = next;
                k += 1;
            }
            let dest = grid.cell_of(&x);
            proof {
                lemma_entry_index(c as int, a as int, n as int, na as int);
            }
            let ghost before = trans@;
            trans.push(dest);
            proof {
                assert forall|cc: int, aa: int| 0 <= cc < c && 0 <= aa < na
                    implies trans@[#[trigger] (cc * na + aa)] == grid.transition_spec(*model, substeps as nat, cc, aa) by {
                    lemma_entry_index(cc, aa, c as int, na as int);
                    assert(trans@[cc * na + aa] == before[cc * na + aa]);
                }
            }
            a += 1;
        }
        proof {
            assert((c + 1) * na == c * na + na) by (nonlinear_arith);
            assert forall|cc: int, aa: int| 0 <= cc < c + 1 && 0 <= aa < na
                implies trans@[#[trigger] (cc * na + aa)] == grid.transition_spec(*model, substeps as nat, cc, aa) by {
                if cc < c {
                } else {
                    assert(cc == c);
                }
            }
        }
        c += 1;
    }
    trans
}


/// The command that the policy table gives for the state `x`: the value of
/// the action stored for the cell that `x` falls in.
pub fn policy_command(grid: &StateGrid, policy: &Vec<usize>, x: &Matrix) -> (u: i64)
    requires
        grid.wf(),
        shaped(*x, NX as int, 1),
        policy@.len() == grid.cells(),
        forall|c: int| 0 <= c < policy@.len() ==> #[trigger] policy@[c] < grid.actions(),
    ensures
        u == grid.action.cont_spec(policy@[grid.cell_of_spec(x@)] as int),
{
    let c = grid.cell_of(x);
    grid.action_value(policy[c])
}


/// Largest wheel speed on the deployed grid: 330 rad/s.
pub const GRID_WHEEL_SPEED: i64 = 330_000_000;

/// Largest rate on the deployed grid: 20 rad/s.
pub const GRID_RATE: i64 = 20_000_000;

/// Cells of the deployed grid along the wheel speed.
pub const GRID_WHEEL_CELLS: usize = 21;

/// Cells of the deployed grid along the angle.
pub const GRID_ANGLE_CELLS: usize = 41;

/// Cells of the deployed grid along the rate.
pub const GRID_RATE_CELLS: usize = 41;

/// The grid that the solver builds the policy table on and that the
/// controller looks it up with: wheel speed, angle over `[-PI, PI]`, rate,
/// and [`NU`] commands over `[-1, 1]`.
pub fn deployed_grid() -> (g: StateGrid)
    ensures
        g.wf(),
        g.wheel.spec_min() == -GRID_WHEEL_SPEED && g.wheel.spec_max() == GRID_WHEEL_SPEED
            && g.wheel.spec_count() == GRID_WHEEL_CELLS,
        g.angle.spec_min() == -PI && g.angle.spec_max() == PI && g.angle.spec_count() == GRID_ANGLE_CELLS,
        g.rate.spec_min() == -GRID_RATE && g.rate.spec_max() == GRID_RATE && g.rate.spec_count() == GRID_RATE_CELLS,
        g.action.spec_min() == -SCALE && g.action.spec_max() == SCALE && g.action.spec_count() == NU,
{
    let wheel = Discretizer::new(-GRID_WHEEL_SPEED, GRID_WHEEL_SPEED, GRID_WHEEL_CELLS).unwrap();
    let angle = Discretizer::new(-PI, PI, GRID_ANGLE_CELLS).unwrap();
    let rate = Discretizer::new(-GRID_RATE, GRID_RATE, GRID_RATE_CELLS).unwrap();
    let action = Discretizer::new(-SCALE, SCALE, NU).unwrap();
    StateGrid::new(wheel, angle, rate, action).unwrap()
}


/// Angle error under which a state counts as upright: 0.1 rad.
pub const UPRIGHT_ANGLE: i64 = 100_000;

/// Rate under which an upright state counts as at rest: 0.5 rad/s.
pub const UPRIGHT_RATE: i64 = 500_000;

/// The reward of a state: one for the pendulum upright and nearly still,
/// zero elsewhere.
pub open spec fn reward_spec(x: Seq<Seq<i64>>) -> i64 {
    if abs_spec(wrap_spec(x[1][0] as int)) < UPRIGHT_ANGLE && abs_spec(x[2][0] as int) < UPRIGHT_RATE {
        SCALE
    } else {
        0
    }
}

/// The reward of the state `x`, a column of three.
pub fn reward(x: &Matrix) -> (r: i64)
    requires
        shaped(*x, NX as int, 1),
    ensures
        r == reward_spec(x@),
{
    let err = fx_abs(sub_angles(x.get(1, 0), 0));
    proof {
        assert(wrap_spec(x@[1][0] - 0) == wrap_spec(x@[1][0] as int));
    }
    if err < UPRIGHT_ANGLE && fx_abs(x.get(2, 0)) < UPRIGHT_RATE {
        SCALE
    } else {
        0
    }
}

/// The reward table: the reward of each cell's centre.
pub fn build_rewards(grid: &StateGrid) -> (rewards: Vec<i64>)
    requires
        grid.wf(),
    ensures
        rewards@.len() == grid.cells(),
        forall|c: int| 0 <= c < grid.cells() ==> #[trigger] rewards@[c] == reward_spec(grid.center_spec(c)),
{
    let n = grid.cell_count();
    let mut rewards: Vec<i64> = Vec::new();
    let mut c: usize = 0;
    while c < n
        invariant
            grid.wf(),
            n == grid.cells(),
            0 <= c <= n,
            rewards@.len() == c,
            forall|i: int| 0 <= i < c ==> #[trigger] rewards@[i] == reward_spec(grid.center_spec(i)),
        decreases n - c,
    {
        let x = grid.cell_center(c);
        rewards.push(reward(&x));
        c += 1;
    }
    rewards
}

} // verus!
