//! The feedforward network that drives each agent: two fully connected
//! layers with no nonlinearity (a purely linear transform, fixed and
//! documented here). Weights are fixed-point integers: `WMAX` stands for
//! 1.0, so a freshly drawn weight lies in `[-WMAX, WMAX]`, mirroring a
//! uniform draw over `[-1, 1]`.
use vstd::prelude::*;

use crate::rng::rand_below;

verus! {

/// Largest allowed width of any layer.
pub const MAX_LAYER: usize = 64;

/// Weights lie in `[-WMAX, WMAX]`; `WMAX` stands for 1.0 in fixed-point.
pub const WMAX: i64 = 1000;

/// Network inputs must lie in `[-INPUT_MAX, INPUT_MAX]`.
pub const INPUT_MAX: i64 = 1000000;

/// Mutation rates are per-mille: `RATE_ONE` stands for probability 1.
pub const RATE_ONE: u64 = 1000;

/// Largest magnitude a hidden activation can reach:
/// `MAX_LAYER * WMAX * INPUT_MAX`.
pub const HIDDEN_MAX: i64 = 64000000000000;

/// A row of weights: exactly `cols` entries, each in `[-WMAX, WMAX]`.
pub open spec fn row_wf(row: Seq<i64>, cols: int) -> bool {
    &&& row.len() == cols
    &&& forall|i: int| 0 <= i < cols ==> -(WMAX as int) <= #[trigger] row[i] <= WMAX as int
}

/// A weight matrix: `rows` well-formed rows of `cols` entries each.
pub open spec fn matrix_wf(m: Seq<Vec<i64>>, rows: int, cols: int) -> bool {
    &&& m.len() == rows
    &&& forall|j: int| 0 <= j < rows ==> row_wf((#[trigger] m[j])@, cols)
}

/// The dot product of the first `n` entries of `w` and `x`.
pub open spec fn dot(w: Seq<i64>, x: Seq<i64>, n: int) -> int
    decreases n,
{
    if n <= 0 {
        0
    } else {
        dot(w, x, n - 1) + w[n - 1] * x[n - 1]
    }
}

/// The dot product of weights with already-computed (mathematical) values.
pub open spec fn dot_mixed(w: Seq<i64>, x: Seq<int>, n: int) -> int
    decreases n,
{
    if n <= 0 {
        0
    } else {
        dot_mixed(w, x, n - 1) + w[n - 1] * x[n - 1]
    }
}

/// A dot product of bounded entries is bounded by `n * WMAX * xb`.
proof fn lemma_dot_bound(w: Seq<i64>, x: Seq<i64>, n: int, xb: int)
    requires
        0 <= n <= w.len(),
        n <= x.len(),
        forall|i: int| 0 <= i < n ==> -(WMAX as int) <= #[trigger] w[i] <= WMAX as int,
        0 <= xb,
        forall|i: int| 0 <= i < n ==> -xb <= #[trigger] x[i] <= xb,
    ensures
        -(n * (WMAX as int) * xb) <= dot(w, x, n) <= n * (WMAX as int) * xb,
    decreases n,
{
    if n > 0 {
        lemma_dot_bound(w, x, n - 1, xb);
        assert(-((WMAX as int) * xb) <= w[n - 1] * x[n - 1] <= (WMAX as int) * xb)
            by (nonlinear_arith)
            requires
                -(WMAX as int) <= w[n - 1] <= WMAX as int,
                -xb <= x[n - 1] <= xb,
                0 <= xb,
        ;
        assert((n - 1) * (WMAX as int) * xb + (WMAX as int) * xb == n * (WMAX as int) * xb)
            by (nonlinear_arith);
    }
}

/// `dot` and `dot_mixed` agree when the value sequences agree entrywise.
proof fn lemma_dot_mixed_eq(w: Seq<i64>, xs: Seq<i64>, ys: Seq<int>, n: int)
    requires
        forall|i: int| 0 <= i < n ==> (#[trigger] xs[i]) as int == ys[i],
    ensures
        dot(w, xs, n) == dot_mixed(w, ys, n),
    decreases n,
{
    if n > 0 {
        lemma_dot_mixed_eq(w, xs, ys, n - 1);
    }
}

/// Exact dot product of two equally long vectors, with entry bounds that
/// rule out overflow.
fn dot_product(w: &Vec<i64>, x: &Vec<i64>, xb: i64) -> (r: i64)
    requires
        w@.len() == x@.len(),
        forall|i: int| 0 <= i < w@.len() ==> -(WMAX as int) <= #[trigger] w@[i] <= WMAX as int,
        0 <= xb,
        forall|i: int| 0 <= i < x@.len() ==> -(xb as int) <= #[trigger] x@[i] <= xb as int,
        (w@.len() as int) * (WMAX as int) * (xb as int) <= i64::MAX as int,
    ensures
        r as int == dot(w@, x@, w@.len() as int),
{
    let n: usize = w.len();
    let mut acc: i64 = 0;
    let mut k: usize = 0;
    while k < n
        invariant
            n == w@.len(),
            w@.len() == x@.len(),
            k <= n,
            forall|i: int| 0 <= i < w@.len() ==> -(WMAX as int) <= #[trigger] w@[i] <= WMAX as int,
            0 <= xb,
            forall|i: int| 0 <= i < x@.len() ==> -(xb as int) <= #[trigger] x@[i] <= xb as int,
            (w@.len() as int) * (WMAX as int) * (xb as int) <= i64::MAX as int,
            acc as int == dot(w@, x@, k as int),
        decreases n - k,
    {
        proof {
            lemma_dot_bound(w@, x@, k as int, xb as int);
            lemma_dot_bound(w@, x@, k + 1, xb as int);
            assert(-((WMAX as int) * (xb as int)) <= w@[k as int] * x@[k as int]
                <= (WMAX as int) * (xb as int)) by (nonlinear_arith)
                requires
                    -(WMAX as int) <= w@[k as int] <= WMAX as int,
                    -(xb as int) <= x@[k as int] <= xb as int,
                    0 <= xb,
            ;
            assert((k + 1) * (WMAX as int) * (xb as int)
                <= (n as int) * (WMAX as int) * (xb as int)) by (nonlinear_arith)
                requires
                    k + 1 <= n as int,
                    0 <= xb,
                    0 <= WMAX as int,
            ;
            assert(1 * (WMAX as int) * (xb as int) <= (k + 1) * (WMAX as int) * (xb as int))
                by (nonlinear_arith)
                requires
                    1 <= k + 1,
                    0 <= xb,
                    0 <= WMAX as int,
            ;
        }
        let term: i64 = w[k] * x[k];
        acc = acc + term;
        k = k + 1;
    }
    acc
}

/// A fixed three-layer network: `input_size` inputs feed `hidden_size`
/// hidden units, which feed `output_size` outputs. Dimensions never change
/// after construction.
pub struct FeedforwardNetwork {
    pub input_size: usize,
    pub hidden_size: usize,
    pub output_size: usize,
    pub w1: Vec<Vec<i64>>,
    pub w2: Vec<Vec<i64>>,
}

/// Two networks with the same dimensions and the same weights everywhere.
pub open spec fn same_weights(a: FeedforwardNetwork, b: FeedforwardNetwork) -> bool {
    &&& a.input_size == b.input_size
    &&& a.hidden_size == b.hidden_size
    &&& a.output_size == b.output_size
    &&& a.w1@.len() == b.w1@.len()
    &&& forall|j: int| 0 <= j < a.w1@.len() ==> (#[trigger] a.w1@[j])@ == b.w1@[j]@
    &&& a.w2@.len() == b.w2@.len()
    &&& forall|j: int| 0 <= j < a.w2@.len() ==> (#[trigger] a.w2@[j])@ == b.w2@[j]@
}

/// Having the same weights is transitive through a shared ancestor.
pub proof fn lemma_same_weights_trans(
    a: FeedforwardNetwork,
    b: FeedforwardNetwork,
    c: FeedforwardNetwork,
)
    requires
        same_weights(a, b),
        same_weights(c, b),
    ensures
        same_weights(a, c),
{
    assert forall|j: int| 0 <= j < a.w1@.len() implies (#[trigger] a.w1@[j])@ == c.w1@[j]@ by {
        assert(a.w1@[j]@ == b.w1@[j]@);
        assert(c.w1@[j]@ == b.w1@[j]@);
    }
    assert forall|j: int| 0 <= j < a.w2@.len() implies (#[trigger] a.w2@[j])@ == c.w2@[j]@ by {
        assert(a.w2@[j]@ == b.w2@[j]@);
        assert(c.w2@[j]@ == b.w2@[j]@);
    }
}

impl FeedforwardNetwork {
    pub open spec fn wf(&self) -> bool {
        &&& 1 <= self.input_size <= MAX_LAYER
        &&& 1 <= self.hidden_size <= MAX_LAYER
        &&& 1 <= self.output_size <= MAX_LAYER
        &&& matrix_wf(self.w1@, self.hidden_size as int, self.input_size as int)
        &&& matrix_wf(self.w2@, self.output_size as int, self.hidden_size as int)
    }

    /// The value of hidden unit `j` on input `x`.
    pub open spec fn hidden_val(&self, x: Seq<i64>, j: int) -> int {
        dot(self.w1@[j]@, x, self.input_size as int)
    }

    /// All hidden activations on input `x`.
    pub open spec fn hidden_all(&self, x: Seq<i64>) -> Seq<int> {
        Seq::new(self.hidden_size as nat, |j: int| self.hidden_val(x, j))
    }

    /// The value of output unit `k` on input `x`: what `predict` returns.
    pub open spec fn output_val(&self, x: Seq<i64>, k: int) -> int {
        dot_mixed(self.w2@[k]@, self.hidden_all(x), self.hidden_size as int)
    }

    /// Construct a network whose weights are drawn independently and
    /// uniformly from `[-WMAX, WMAX]` using the supplied generator.
    pub fn new(
        input_size: usize,
        hidden_size: usize,
        output_size: usize,
        rng: &mut rand::rngs::StdRng,
    ) -> (r: Self)
        requires
            1 <= input_size <= MAX_LAYER,
            1 <= hidden_size <= MAX_LAYER,
            1 <= output_size <= MAX_LAYER,
        ensures
            r.wf(),
            r.input_size == input_size,
            r.hidden_size == hidden_size,
            r.output_size == output_size,
    {
        let w1 = random_matrix(hidden_size, input_size, rng);
        let w2 = random_matrix(output_size, hidden_size, rng);
        FeedforwardNetwork { input_size, hidden_size, output_size, w1, w2 }
    }

    /// Construct a network from explicit weight matrices; returns `None`
    /// exactly when the dimensions or the weight ranges are invalid.
    pub fn from_weights(
        input_size: usize,
        hidden_size: usize,
        output_size: usize,
        w1: Vec<Vec<i64>>,
        w2: Vec<Vec<i64>>,
    ) -> (r: Option<Self>)
        ensures
            match r {
                Some(n) => {
                    &&& 1 <= input_size <= MAX_LAYER
                    &&& 1 <= hidden_size <= MAX_LAYER
                    &&& 1 <= output_size <= MAX_LAYER
                    &&& n.wf()
                    &&& n.input_size == input_size
                    &&& n.hidden_size == hidden_size
                    &&& n.output_size == output_size
                    &&& n.w1@ == w1@
                    &&& n.w2@ == w2@
                },
                None => !{
                    &&& 1 <= input_size <= MAX_LAYER
                    &&& 1 <= hidden_size <= MAX_LAYER
                    &&& 1 <= output_size <= MAX_LAYER
                    &&& matrix_wf(w1@, hidden_size as int, input_size as int)
                    &&& matrix_wf(w2@, output_size as int, hidden_size as int)
                },
            },
    {
        if input_size < 1 || input_size > MAX_LAYER || hidden_size < 1 || hidden_size > MAX_LAYER
            || output_size < 1 || output_size > MAX_LAYER {
            return None;
        }
        if !matrix_ok(&w1, hidden_size, input_size) {
            return None;
        }
        if !matrix_ok(&w2, output_size, hidden_size) {
            return None;
        }
        Some(FeedforwardNetwork { input_size, hidden_size, output_size, w1, w2 })
    }

    /// Forward inference: a pure function of the weights and the input.
    /// Hidden unit `j` is the dot product of row `j` of the first matrix
    /// with the input; output `k` is the dot product of row `k` of the
    /// second matrix with the hidden values. Always returns exactly
    /// `output_size` values.
    pub fn predict(&self, input: &Vec<i64>) -> (r: Vec<i64>)
        requires
            self.wf(),
            input@.len() == self.input_size,
            forall|i: int|
                0 <= i < input@.len() ==> -(INPUT_MAX as int) <= #[trigger] input@[i]
                    <= INPUT_MAX as int,
        ensures
            r@.len() == self.output_size,
            forall|k: int|
                0 <= k < r@.len() ==> (#[trigger] r@[k]) as int == self.output_val(input@, k),
    {
        let mut h: Vec<i64> = Vec::new();
        let mut j: usize = 0;
        while j < self.hidden_size
            invariant
                self.wf(),
                input@.len() == self.input_size,
                forall|i: int|
                    0 <= i < input@.len() ==> -(INPUT_MAX as int) <= #[trigger] input@[i]
                        <= INPUT_MAX as int,
                j <= self.hidden_size,
                h@.len() == j,
                forall|jj: int|
                    0 <= jj < j ==> (#[trigger] h@[jj]) as int == self.hidden_val(input@, jj),
                forall|jj: int|
                    0 <= jj < j ==> -(HIDDEN_MAX as int) <= #[trigger] h@[jj] <= HIDDEN_MAX as int,
            decreases self.hidden_size - j,
        {
            let v: i64 = dot_product(&self.w1[j], input, INPUT_MAX);
            proof {
                lemma_dot_bound(self.w1@[j as int]@, input@, self.input_size as int,
                    INPUT_MAX as int);
            }
            h.push(v);
            j = j + 1;
        }
        let mut out: Vec<i64> = Vec::new();
        let mut k: usize = 0;
        while k < self.output_size
            invariant
                self.wf(),
                input@.len() == self.input_size,
                h@.len() == self.hidden_size,
                forall|jj: int|
                    0 <= jj < h@.len() ==> (#[trigger] h@[jj]) as int == self.hidden_val(
                        input@,
                        jj,
                    ),
                forall|jj: int|
                    0 <= jj < h@.len() ==> -(HIDDEN_MAX as int) <= #[trigger] h@[jj]
                        <= HIDDEN_MAX as int,
                k <= self.output_size,
                out@.len() == k,
                forall|kk: int|
                    0 <= kk < k ==> (#[trigger] out@[kk]) as int == self.output_val(input@, kk),
            decreases self.output_size - k,
        {
            let v: i64 = dot_product(&self.w2[k], &h, HIDDEN_MAX);
            proof {
                lemma_dot_mixed_eq(self.w2@[k as int]@, h@, self.hidden_all(input@),
                    self.hidden_size as int);
            }
            out.push(v);
            k = k + 1;
        }
        out
    }

    /// Structural mutation: each weight is independently replaced, with
    /// per-mille probability `rate`, by a fresh uniform draw that always
    /// differs from the value it replaces (the fixed perturbation policy).
    /// Dimensions never change; a zero rate changes nothing; a full rate
    /// changes every weight.
    pub fn mutate(&mut self, rng: &mut rand::rngs::StdRng, rate: u64)
        requires
            old(self).wf(),
            rate <= RATE_ONE,
        ensures
            final(self).wf(),
            final(self).input_size == old(self).input_size,
            final(self).hidden_size == old(self).hidden_size,
            final(self).output_size == old(self).output_size,
            rate == 0 ==> same_weights(*final(self), *old(self)),
            rate == RATE_ONE ==> forall|j: int, i: int|
                0 <= j < old(self).hidden_size && 0 <= i < old(self).input_size
                    ==> #[trigger] final(self).w1@[j]@[i] != old(self).w1@[j]@[i],
            rate == RATE_ONE ==> forall|j: int, i: int|
                0 <= j < old(self).output_size && 0 <= i < old(self).hidden_size
                    ==> #[trigger] final(self).w2@[j]@[i] != old(self).w2@[j]@[i],
    {
        let new_w1 = mutate_matrix(&self.w1, self.input_size, rng, rate);
        let new_w2 = mutate_matrix(&self.w2, self.hidden_size, rng, rate);
        self.w1 = new_w1;
        self.w2 = new_w2;
    }
}

impl Clone for FeedforwardNetwork {
    /// A deep, fully independent copy: fresh weight storage with the same
    /// dimensions and the same weights, so that mutating either network
    /// never affects the other.
    fn clone(&self) -> (r: Self)
        ensures
            same_weights(r, *self),
            self.wf() ==> r.wf(),
    {
        FeedforwardNetwork {
            input_size: self.input_size,
            hidden_size: self.hidden_size,
            output_size: self.output_size,
            w1: copy_matrix(&self.w1),
            w2: copy_matrix(&self.w2),
        }
    }
}

/// One fresh weight, uniform over `[-WMAX, WMAX]`.
fn rand_weight(rng: &mut rand::rngs::StdRng) -> (w: i64)
    ensures
        -(WMAX as int) <= w <= WMAX as int,
{
    let d: u64 = rand_below(rng, 2 * (WMAX as u64) + 1);
    (d as i64) - WMAX
}

/// One fresh weight, uniform over `[-WMAX, WMAX]` minus the old value, so
/// the result always differs from what it replaces.
fn mutate_weight(rng: &mut rand::rngs::StdRng, old_w: i64) -> (w: i64)
    requires
        -(WMAX as int) <= old_w <= WMAX as int,
    ensures
        -(WMAX as int) <= w <= WMAX as int,
        w != old_w,
{
    let d: u64 = rand_below(rng, 2 * (WMAX as u64));
    let v: i64 = (d as i64) - WMAX;
    if v >= old_w {
        v + 1
    } else {
        v
    }
}

fn random_row(cols: usize, rng: &mut rand::rngs::StdRng) -> (r: Vec<i64>)
    ensures
        row_wf(r@, cols as int),
{
    let mut row: Vec<i64> = Vec::new();
    let mut i: usize = 0;
    while i < cols
        invariant
            i <= cols,
            row@.len() == i,
            forall|ii: int| 0 <= ii < i ==> -(WMAX as int) <= #[trigger] row@[ii] <= WMAX as int,
        decreases cols - i,
    {
        let w = rand_weight(rng);
        row.push(w);
        i = i + 1;
    }
    row
}

fn random_matrix(rows: usize, cols: usize, rng: &mut rand::rngs::StdRng) -> (m: Vec<Vec<i64>>)
    ensures
        matrix_wf(m@, rows as int, cols as int),
{
    let mut m: Vec<Vec<i64>> = Vec::new();
    let mut j: usize = 0;
    while j < rows
        invariant
            j <= rows,
            m@.len() == j,
            forall|jj: int| 0 <= jj < j ==> row_wf((#[trigger] m@[jj])@, cols as int),
        decreases rows - j,
    {
        let row = random_row(cols, rng);
        m.push(row);
        j = j + 1;
    }
    m
}

/// Per-row mutation; see `FeedforwardNetwork::mutate` for the policy.
fn mutate_row(row: &Vec<i64>, rng: &mut rand::rngs::StdRng, rate: u64) -> (r: Vec<i64>)
    requires
        forall|i: int|
            0 <= i < row@.len() ==> -(WMAX as int) <= #[trigger] row@[i] <= WMAX as int,
        rate <= RATE_ONE,
    ensures
        r@.len() == row@.len(),
        forall|i: int| 0 <= i < r@.len() ==> -(WMAX as int) <= #[trigger] r@[i] <= WMAX as int,
        rate == 0 ==> r@ == row@,
        rate == RATE_ONE ==> forall|i: int| 0 <= i < r@.len() ==> #[trigger] r@[i] != row@[i],
{
    let n: usize = row.len();
    let mut out: Vec<i64> = Vec::new();
    let mut i: usize = 0;
    while i < n
        invariant
            n == row@.len(),
            i <= n,
            out@.len() == i,
            rate <= RATE_ONE,
            forall|ii: int|
                0 <= ii < row@.len() ==> -(WMAX as int) <= #[trigger] row@[ii] <= WMAX as int,
            forall|ii: int| 0 <= ii < i ==> -(WMAX as int) <= #[trigger] out@[ii] <= WMAX as int,
            rate == 0 ==> forall|ii: int| 0 <= ii < i ==> #[trigger] out@[ii] == row@[ii],
            rate == RATE_ONE ==> forall|ii: int| 0 <= ii < i ==> #[trigger] out@[ii] != row@[ii],
        decreases n - i,
    {
        let draw: u64 = rand_below(rng, RATE_ONE);
        let w: i64 = if draw < rate {
            mutate_weight(rng, row[i])
        } else {
            row[i]
        };
        out.push(w);
        i = i + 1;
    }
    proof {
        if rate == 0 {
            assert(out@ =~= row@);
        }
    }
    out
}

fn mutate_matrix(
    m: &Vec<Vec<i64>>,
    cols: usize,
    rng: &mut rand::rngs::StdRng,
    rate: u64,
) -> (r: Vec<Vec<i64>>)
    requires
        matrix_wf(m@, m@.len() as int, cols as int),
        rate <= RATE_ONE,
    ensures
        matrix_wf(r@, m@.len() as int, cols as int),
        rate == 0 ==> forall|j: int| 0 <= j < m@.len() ==> (#[trigger] r@[j])@ == m@[j]@,
        rate == RATE_ONE ==> forall|j: int, i: int|
            0 <= j < m@.len() && 0 <= i < cols ==> #[trigger] r@[j]@[i] != m@[j]@[i],
{
    let n: usize = m.len();
    let mut out: Vec<Vec<i64>> = Vec::new();
    let mut j: usize = 0;
    while j < n
        invariant
            n == m@.len(),
            j <= n,
            out@.len() == j,
            rate <= RATE_ONE,
            matrix_wf(m@, m@.len() as int, cols as int),
            forall|jj: int| 0 <= jj < j ==> row_wf((#[trigger] out@[jj])@, cols as int),
            rate == 0 ==> forall|jj: int| 0 <= jj < j ==> (#[trigger] out@[jj])@ == m@[jj]@,
            rate == RATE_ONE ==> forall|jj: int, ii: int|
                0 <= jj < j && 0 <= ii < cols ==> #[trigger] out@[jj]@[ii] != m@[jj]@[ii],
        decreases n - j,
    {
        let row = mutate_row(&m[j], rng, rate);
        out.push(row);
        j = j + 1;
    }
    out
}

fn copy_row(v: &Vec<i64>) -> (r: Vec<i64>)
    ensures
        r@ == v@,
{
    let n: usize = v.len();
    let mut out: Vec<i64> = Vec::new();
    let mut i: usize = 0;
    while i < n
        invariant
            n == v@.len(),
            i <= n,
            out@.len() == i,
            forall|ii: int| 0 <= ii < i ==> #[trigger] out@[ii] == v@[ii],
        decreases n - i,
    {
        let w: i64 = v[i];
        out.push(w);
        i = i + 1;
    }
    proof {
        assert(out@ =~= v@);
    }
    out
}

fn copy_matrix(m: &Vec<Vec<i64>>) -> (r: Vec<Vec<i64>>)
    ensures
        r@.len() == m@.len(),
        forall|j: int| 0 <= j < m@.len() ==> (#[trigger] r@[j])@ == m@[j]@,
{
    let n: usize = m.len();
    let mut out: Vec<Vec<i64>> = Vec::new();
    let mut j: usize = 0;
    while j < n
        invariant
            n == m@.len(),
            j <= n,
            out@.len() == j,
            forall|jj: int| 0 <= jj < j ==> (#[trigger] out@[jj])@ == m@[jj]@,
        decreases n - j,
    {
        let row = copy_row(&m[j]);
        out.push(row);
        j = j + 1;
    }
    out
}

fn row_in_range(row: &Vec<i64>) -> (b: bool)
    ensures
        b == forall|i: int|
            0 <= i < row@.len() ==> -(WMAX as int) <= #[trigger] row@[i] <= WMAX as int,
{
    let n: usize = row.len();
    let mut i: usize = 0;
    while i < n
        invariant
            n == row@.len(),
            i <= n,
            forall|ii: int| 0 <= ii < i ==> -(WMAX as int) <= #[trigger] row@[ii] <= WMAX as int,
        decreases n - i,
    {
        let w: i64 = row[i];
        if w < -WMAX || w > WMAX {
            return false;
        }
        i = i + 1;
    }
    true
}

fn matrix_ok(m: &Vec<Vec<i64>>, rows: usize, cols: usize) -> (b: bool)
    ensures
        b == matrix_wf(m@, rows as int, cols as int),
{
    if m.len() != rows {
        return false;
    }
    let mut j: usize = 0;
    while j < rows
        invariant
            m@.len() == rows,
            j <= rows,
            forall|jj: int| 0 <= jj < j ==> row_wf((#[trigger] m@[jj])@, cols as int),
        decreases rows - j,
    {
        if m[j].len() != cols {
            return false;
        }
        if !row_in_range(&m[j]) {
            return false;
        }
        j = j + 1;
    }
    true
}

} // verus!
