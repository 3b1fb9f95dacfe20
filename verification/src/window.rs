//! The sliding window at the heart of the analysis.
//!
//! A window holds `half` samples of the past, one present sample, and `half`
//! samples of the future (a staging buffer), and maintains in O(1) per step:
//!
//! - `sum`: the exact sum of all `2 * half + 1` samples in view;
//! - `dev`: a running estimate of the total absolute deviation of the
//!   samples from the mean, scaled by the window size so that it stays an
//!   exact integer.
//!
//! The deviation total is a deliberate O(1) approximation: when a sample
//! enters, its deviation from the *new* mean is added; when one leaves, its
//! deviation from the *old* mean is removed. Deviations of the samples in
//! between are not recomputed as the mean drifts, so `dev` is not the exact
//! mean-absolute-deviation of the current contents — that is the documented
//! intent, not an accident.
//!
//! Scaling: where the floating-point formulation keeps
//! `dev_total = sum of |mean - sample|` with `mean = sum / total`, this
//! window keeps `dev = total * dev_total`, an exact integer, since every
//! deviation term is `|sum - sample * total| / total`. Queries hand out the
//! numerator and denominator separately.

use std::collections::VecDeque;

use vstd::math::abs;
use vstd::prelude::*;

use crate::arith::lemma_seq_sum_bound;
use crate::arith::lemma_seq_sum_constant;
use crate::arith::lemma_seq_sum_push;
use crate::arith::seq_sum;

verus! {

/// Largest accepted half-size. Bounds the window span so that the running
/// sum fits comfortably in 64 bits (machine limit, far above any real use:
/// at a 44.1 kHz sample rate this is over an hour and a half of audio on
/// each side).
pub const MAX_HALF_SIZE: usize = 0x1000_0000;

/// Largest logical position the window may reach, so that the deviation
/// total provably fits in 128 bits (machine limit; at 44.1 kHz this allows
/// about 72 days of continuous input).
pub const POS_LIMIT: i64 = 0x40_0000_0000;

/// Bound on how much the deviation total can change in one step.
pub const DEV_STEP_BOUND: i128 = 0x4000_0000_0000_0000;

/// The mathematical state of a window.
pub ghost struct WindowModel {
    /// Number of samples on each side of the present one.
    pub half: nat,
    /// Logical position: starts at `-half`, rises by one per step, and
    /// reaches zero exactly when the future buffer has been fully replaced
    /// with real data.
    pub pos: int,
    /// Exact sum of the window contents.
    pub sum: int,
    /// Running absolute-deviation total, scaled by `total()`.
    pub dev: int,
    /// Past samples, oldest first.
    pub past: Seq<int>,
    /// The statistical center of the window.
    pub present: int,
    /// Future samples, next-to-promote first.
    pub future: Seq<int>,
}

impl WindowModel {
    /// Size of the whole window: past, present and future.
    pub open spec fn total(self) -> int {
        2 * (self.half as int) + 1
    }

    /// Everything the window can see, oldest to newest.
    pub open spec fn contents(self) -> Seq<int> {
        self.past + seq![self.present] + self.future
    }

    /// How many steps the window has taken since construction.
    pub open spec fn steps_taken(self) -> int {
        self.pos + self.half
    }

    /// A value representable as a sample.
    pub open spec fn in_sample_range(x: int) -> bool {
        i32::MIN <= x <= i32::MAX
    }

    pub open spec fn wf(self) -> bool {
        &&& 1 <= self.half <= MAX_HALF_SIZE
        &&& self.past.len() == self.half
        &&& self.future.len() == self.half
        &&& forall|i: int|
            0 <= i < self.contents().len() ==> Self::in_sample_range(#[trigger] self.contents()[i])
        &&& self.sum == seq_sum(self.contents())
        &&& -(self.half as int) <= self.pos <= POS_LIMIT
        &&& abs(self.dev) <= self.steps_taken() * DEV_STEP_BOUND
    }

    /// One step of the window: `s` enters the future, the oldest future
    /// sample is promoted to present, the present moves into the past, and
    /// the oldest past sample is evicted. The running statistics are updated
    /// from the evicted and entering samples alone.
    pub open spec fn step(self, s: int) -> WindowModel {
        let evicted = self.past[0];
        let new_sum = self.sum + s - evicted;
        let dev_out = abs(self.sum - evicted * self.total());
        let dev_in = abs(new_sum - s * self.total());
        WindowModel {
            half: self.half,
            pos: self.pos + 1,
            sum: new_sum,
            dev: self.dev + dev_in - dev_out,
            past: self.past.skip(1).push(self.present),
            present: self.future[0],
            future: self.future.skip(1).push(s),
        }
    }

    /// Is a sample a statistical outlier: does it deviate from the window
    /// mean by more than four times the running mean deviation? Stated over
    /// the scaled integers: `|s - sum/total| > 4 * (dev/total) / total`
    /// multiplied through by `total * total`.
    pub open spec fn significant(self, s: int) -> bool {
        abs(s * self.total() - self.sum) * self.total() > 4 * self.dev
    }

    /// The state of a fresh window: zero-filled, statistics zero, position
    /// at `-half`.
    pub open spec fn initial(half: nat) -> WindowModel {
        WindowModel {
            half,
            pos: -(half as int),
            sum: 0,
            dev: 0,
            past: Seq::new(half, |i: int| 0),
            present: 0,
            future: Seq::new(half, |i: int| 0),
        }
    }
}

/// The window's shape never changes: past and future keep exactly `half`
/// samples each, and the window sees `total()` samples in all.
pub proof fn lemma_window_shape(w: WindowModel)
    requires
        w.wf(),
    ensures
        w.past.len() == w.half,
        w.future.len() == w.half,
        w.contents().len() == w.total(),
{
}

/// The running sum is exactly the sum of the current window contents, so
/// the exact average `sum / total` is the arithmetic mean of the contents.
pub proof fn lemma_average_is_mean(w: WindowModel)
    requires
        w.wf(),
    ensures
        w.sum == seq_sum(w.contents()),
        w.contents().len() == w.total(),
{
}

/// Stepping a well-formed window yields a well-formed window whose contents
/// are the old contents shifted by one, with the new sample at the newest
/// end, and whose sum is still the exact sum of its contents.
pub proof fn lemma_step_preserves_wf(w: WindowModel, s: int)
    requires
        w.wf(),
        w.pos < POS_LIMIT,
        WindowModel::in_sample_range(s),
    ensures
        w.step(s).wf(),
        w.step(s).contents() == w.contents().skip(1).push(s),
        w.step(s).sum == seq_sum(w.step(s).contents()),
{
    let w1 = w.step(s);
    let c = w.contents();
    let c1 = w1.contents();
    assert(c1 =~= c.skip(1).push(s));
    // The new sum tracks the contents: remove the evicted head, add s.
    assert(c[0] == w.past[0]);
    assert(c.skip(1) =~= c.subrange(1, c.len() as int));
    lemma_seq_sum_push(c.skip(1), s);
    assert(seq_sum(c) == c[0] + seq_sum(c.skip(1)));
    // Sample-range bound on every element still holds.
    assert forall|i: int| 0 <= i < c1.len() implies WindowModel::in_sample_range(#[trigger] c1[i]) by {
        if i < c1.len() - 1 {
            assert(c1[i] == c[i + 1]);
        }
    }
    // The deviation total moved by less than one step bound.
    let t = w.total();
    lemma_seq_sum_bound(c, 0x8000_0000);
    lemma_seq_sum_bound(c1, 0x8000_0000);
    assert(c.len() * 0x8000_0000 <= 0x2000_0001 * 0x8000_0000) by (nonlinear_arith)
        requires c.len() <= 0x2000_0001;
    assert(c1.len() * 0x8000_0000 <= 0x2000_0001 * 0x8000_0000) by (nonlinear_arith)
        requires c1.len() <= 0x2000_0001;
    let evicted = w.past[0];
    assert(-(0x8000_0000 * 0x2000_0001) <= evicted * t <= 0x8000_0000 * 0x2000_0001) by (nonlinear_arith)
        requires -0x8000_0000 <= evicted <= 0x8000_0000, 0 < t <= 0x2000_0001;
    assert(-(0x8000_0000 * 0x2000_0001) <= s * t <= 0x8000_0000 * 0x2000_0001) by (nonlinear_arith)
        requires -0x8000_0000 <= s <= 0x8000_0000, 0 < t <= 0x2000_0001;
    assert(abs(w.sum - evicted * t) < DEV_STEP_BOUND);
    assert(abs(w1.sum - s * t) < DEV_STEP_BOUND);
    assert(abs(w1.dev) <= abs(w.dev) + DEV_STEP_BOUND);
    assert(w1.steps_taken() * DEV_STEP_BOUND == w.steps_taken() * DEV_STEP_BOUND + DEV_STEP_BOUND)
        by (nonlinear_arith)
        requires w1.steps_taken() == w.steps_taken() + 1;
}

/// The window after stepping over the samples `xs`, in order.
pub open spec fn steps_run(w: WindowModel, xs: Seq<int>) -> WindowModel
    decreases xs.len(),
{
    if xs.len() == 0 {
        w
    } else {
        steps_run(w.step(xs[0]), xs.skip(1))
    }
}

/// Invariant over any run of steps within the position budget: the window
/// keeps its shape — exactly `half` past and `half` future samples — its
/// contents are exactly the newest `total()` of the old contents followed
/// by the new samples, and the running sum is still the exact sum of those
/// contents. So the exact average is, after any run whatever, the true
/// arithmetic mean of the samples in view.
pub proof fn lemma_run_preserves_window(w: WindowModel, xs: Seq<int>)
    requires
        w.wf(),
        w.pos + xs.len() <= POS_LIMIT,
        forall|i: int| 0 <= i < xs.len() ==> WindowModel::in_sample_range(#[trigger] xs[i]),
    ensures
        steps_run(w, xs).wf(),
        steps_run(w, xs).half == w.half,
        steps_run(w, xs).past.len() == w.half,
        steps_run(w, xs).future.len() == w.half,
        steps_run(w, xs).contents() == (w.contents() + xs).skip(xs.len() as int),
        steps_run(w, xs).sum == seq_sum(steps_run(w, xs).contents()),
    decreases xs.len(),
{
    if xs.len() == 0 {
        assert((w.contents() + xs).skip(0) =~= w.contents());
    } else {
        lemma_step_preserves_wf(w, xs[0]);
        let w1 = w.step(xs[0]);
        assert forall|i: int|
            0 <= i < xs.skip(1).len() implies WindowModel::in_sample_range(
            #[trigger] xs.skip(1)[i],
        ) by {
            assert(xs.skip(1)[i] == xs[i + 1]);
        }
        lemma_run_preserves_window(w1, xs.skip(1));
        assert((w1.contents() + xs.skip(1)).skip(xs.len() - 1) =~= (w.contents() + xs).skip(
            xs.len() as int,
        ));
    }
}

/// The window after `n` steps that all carry the same sample `s`.
pub open spec fn steps_const(w: WindowModel, s: int, n: nat) -> WindowModel
    decreases n,
{
    if n == 0 {
        w
    } else {
        steps_const(w, s, (n - 1) as nat).step(s)
    }
}

/// Value at global window index `g` after `j` constant steps of `k` from the
/// initial state: the oldest `total - j` slots still hold the initial zeros,
/// the newest `j` hold `k`.
spec fn fill_at(half: nat, k: int, j: int, g: int) -> int {
    if g < 2 * (half as int) + 1 - j {
        0
    } else {
        k
    }
}

/// The whole window state after `j` constant steps of `k` from the initial
/// state, for `j` up to the window size.
spec fn const_state(half: nat, k: int, j: nat) -> WindowModel {
    WindowModel {
        half,
        pos: -(half as int) + j,
        sum: j * k,
        dev: abs(k) * j * (2 * (half as int) + 1 - j),
        past: Seq::new(half, |i: int| fill_at(half, k, j as int, i)),
        present: fill_at(half, k, j as int, half as int),
        future: Seq::new(half, |i: int| fill_at(half, k, j as int, half as int + 1 + i)),
    }
}

/// `abs` distributes over a product with a non-negative left factor.
proof fn lemma_abs_mul_nonneg(j: int, k: int)
    requires
        j >= 0,
    ensures
        abs(j * k) == j * abs(k),
{
    if k >= 0 {
        assert(j * k >= 0) by (nonlinear_arith)
            requires j >= 0, k >= 0;
    } else {
        assert(j * k <= 0) by (nonlinear_arith)
            requires j >= 0, k <= 0;
        assert(j * (-k) == -(j * k)) by (nonlinear_arith);
    }
}

/// While a constant `k` fills an initially zeroed window, the state after
/// `j` steps is exactly `const_state`: the sum has risen to `j * k` and the
/// scaled deviation total is exactly `|k| * j * (total - j)`.
proof fn lemma_const_fill(half: nat, k: int, j: nat)
    requires
        1 <= half,
        WindowModel::in_sample_range(k),
        j <= 2 * half + 1,
    ensures
        steps_const(WindowModel::initial(half), k, j) == const_state(half, k, j),
    decreases j,
{
    let t = 2 * (half as int) + 1;
    if j == 0 {
        let m0 = const_state(half, k, 0);
        let init = WindowModel::initial(half);
        assert(m0.sum == 0) by (nonlinear_arith)
            requires m0.sum == 0 * k;
        assert(abs(k) * 0 * t == 0) by (nonlinear_arith);
        assert(m0.past =~= init.past);
        assert(m0.future =~= init.future);
        assert(m0 == init);
    } else {
        lemma_const_fill(half, k, (j - 1) as nat);
        let m = const_state(half, k, (j - 1) as nat);
        let m1 = const_state(half, k, j);
        let jj = (j - 1) as int;
        // The evicted sample is still one of the initial zeros.
        assert(m.past[0] == fill_at(half, k, jj, 0));
        assert(fill_at(half, k, jj, 0) == 0);
        let stepped = m.step(k);
        assert(stepped.sum == jj * k + k);
        assert(jj * k + k == j * k) by (nonlinear_arith)
            requires jj == j - 1;
        // Deviation of the evicted zero under the old mean, scaled:
        // |sum - 0 * t| = |(j-1) * k| = (j-1) * |k|.
        assert(0int * t == 0) by (nonlinear_arith);
        lemma_abs_mul_nonneg(jj, k);
        // Deviation of the entering k under the new mean, scaled:
        // |j * k - k * t| = |k| * (t - j).
        assert(j * k - k * t == (j - t) * k) by (nonlinear_arith);
        lemma_abs_mul_nonneg(t - j, k);
        assert(abs((j - t) * k) == abs((t - j) * k)) by {
            assert((j - t) * k == -((t - j) * k)) by (nonlinear_arith);
        }
        assert(stepped.dev == abs(k) * jj * (t - jj) + (t - j) * abs(k) - jj * abs(k));
        assert(abs(k) * jj * (t - jj) + (t - j) * abs(k) - jj * abs(k) == abs(k) * j * (t - j))
            by (nonlinear_arith)
            requires jj == j - 1;
        // The contents shift by one slot.
        assert(stepped.past =~= m1.past) by {
            assert forall|i: int| 0 <= i < half implies stepped.past[i] == m1.past[i] by {
                if i < half - 1 {
                    assert(stepped.past[i] == m.past[i + 1]);
                    assert(m.past[i + 1] == fill_at(half, k, jj, i + 1));
                } else {
                    assert(stepped.past[i] == m.present);
                }
            }
        }
        assert(stepped.future =~= m1.future) by {
            assert forall|i: int| 0 <= i < half implies stepped.future[i] == m1.future[i] by {
                if i < half - 1 {
                    assert(stepped.future[i] == m.future[i + 1]);
                    assert(m.future[i + 1] == fill_at(half, k, jj, half as int + 2 + i));
                } else {
                    assert(stepped.future[i] == k);
                }
            }
        }
        assert(stepped.present == m.future[0]);
        assert(m.future[0] == fill_at(half, k, jj, half as int + 1));
        assert(stepped == m1);
    }
}

/// A saturated window is a fixed point of the constant step, except for the
/// position counter: sum and deviation total do not move, and the constant
/// sample is never significant.
proof fn lemma_const_fixed_point(w: WindowModel, k: int)
    requires
        1 <= w.half,
        w.past.len() == w.half,
        w.future.len() == w.half,
        forall|i: int| 0 <= i < w.past.len() ==> #[trigger] w.past[i] == k,
        forall|i: int| 0 <= i < w.future.len() ==> #[trigger] w.future[i] == k,
        w.present == k,
        w.sum == k * w.total(),
        w.dev == 0,
    ensures
        w.step(k) == (WindowModel { pos: w.pos + 1, ..w }),
        !w.significant(k),
{
    let t = w.total();
    let stepped = w.step(k);
    assert(w.past[0] == k);
    assert(stepped.sum == w.sum);
    assert(k * t - k * t == 0);
    assert(w.sum - k * t == 0);
    assert(abs(0) == 0);
    assert(stepped.dev == 0);
    assert(stepped.past =~= w.past) by {
        assert forall|i: int| 0 <= i < w.half implies stepped.past[i] == w.past[i] by {
            if i < w.half - 1 {
                assert(stepped.past[i] == w.past[i + 1]);
            }
        }
    }
    assert(stepped.future =~= w.future) by {
        assert forall|i: int| 0 <= i < w.half implies stepped.future[i] == w.future[i] by {
            if i < w.half - 1 {
                assert(stepped.future[i] == w.future[i + 1]);
            }
        }
    }
    assert(stepped == WindowModel { pos: w.pos + 1, ..w });
    assert(abs(k * t - w.sum) * t == 0) by {
        assert(k * t - w.sum == 0);
        assert(0int * t == 0) by (nonlinear_arith);
    }
}

/// Determinism law: feeding a constant sample `k` into a fresh window
/// saturates it after `total()` steps. From then on the running sum is
/// exactly `k * total()`, the deviation total is exactly zero, and the
/// constant sample is never significant again.
pub proof fn lemma_constant_input_saturates(half: nat, k: int, n: nat)
    requires
        1 <= half,
        WindowModel::in_sample_range(k),
        n >= 2 * half + 1,
    ensures
        steps_const(WindowModel::initial(half), k, n).half == half,
        steps_const(WindowModel::initial(half), k, n).past.len() == half,
        steps_const(WindowModel::initial(half), k, n).future.len() == half,
        steps_const(WindowModel::initial(half), k, n).sum == k * (2 * (half as int) + 1),
        steps_const(WindowModel::initial(half), k, n).dev == 0,
        !steps_const(WindowModel::initial(half), k, n).significant(k),
        forall|i: int|
            0 <= i < steps_const(WindowModel::initial(half), k, n).contents().len()
                ==> #[trigger] steps_const(WindowModel::initial(half), k, n).contents()[i] == k,
    decreases n,
{
    let t = 2 * half + 1;
    let w = steps_const(WindowModel::initial(half), k, n);
    if n == t {
        lemma_const_fill(half, k, n);
        let m = const_state(half, k, n);
        assert(m.dev == 0) by {
            assert(abs(k) * (t as int) * (2 * (half as int) + 1 - t) == 0) by (nonlinear_arith)
                requires 2 * (half as int) + 1 - (t as int) == 0;
        }
        assert(m.sum == k * (2 * (half as int) + 1)) by (nonlinear_arith)
            requires m.sum == (t as int) * k, t == 2 * (half as int) + 1;
        lemma_const_fixed_point(m, k);
        assert forall|i: int| 0 <= i < m.contents().len() implies #[trigger] m.contents()[i] == k by {
            if i < half {
                assert(m.contents()[i] == m.past[i]);
                assert(m.past[i] == fill_at(half, k, t as int, i));
            } else if i == half {
                assert(m.contents()[i] == m.present);
            } else {
                assert(m.contents()[i] == m.future[i - half - 1]);
                assert(m.future[i - half - 1] == fill_at(half, k, t as int, i));
            }
        }
    } else {
        lemma_constant_input_saturates(half, k, (n - 1) as nat);
        let prev = steps_const(WindowModel::initial(half), k, (n - 1) as nat);
        assert forall|i: int| 0 <= i < prev.past.len() implies #[trigger] prev.past[i] == k by {
            assert(prev.contents()[i] == prev.past[i]);
        }
        assert(prev.present == k) by {
            assert(prev.contents()[prev.past.len() as int] == prev.present);
        }
        assert forall|i: int| 0 <= i < prev.future.len() implies #[trigger] prev.future[i] == k by {
            assert(prev.contents()[prev.past.len() + 1 + i] == prev.future[i]);
        }
        lemma_const_fixed_point(prev, k);
        assert(w == WindowModel { pos: prev.pos + 1, ..prev });
        assert forall|i: int| 0 <= i < w.contents().len() implies #[trigger] w.contents()[i] == k by {
            assert(w.contents() =~= prev.contents());
        }
    }
}

/// Absolute value on `i128`.
fn abs_i128(x: i128) -> (r: i128)
    requires
        x != i128::MIN,
    ensures
        r == abs(x as int),
{
    if x < 0 {
        -x
    } else {
        x
    }
}

/// A time window focused on a particular point of the sample stream.
pub struct TimeWindow {
    size: usize,
    current_sample: i64,
    sum: i64,
    dev_total: i128,
    past: VecDeque<i32>,
    present: i32,
    future: VecDeque<i32>,
}

impl View for TimeWindow {
    type V = WindowModel;

    closed spec fn view(&self) -> WindowModel {
        WindowModel {
            half: self.size as nat,
            pos: self.current_sample as int,
            sum: self.sum as int,
            dev: self.dev_total as int,
            past: self.past@.map_values(|x: i32| x as int),
            present: self.present as int,
            future: self.future@.map_values(|x: i32| x as int),
        }
    }
}

impl TimeWindow {
    /// Make a window with `size` samples of past and of future, all zero.
    /// A window must have a non-degenerate past and future, so `size == 0`
    /// yields nothing.
    pub fn new(size: usize) -> (r: Option<TimeWindow>)
        requires
            size <= MAX_HALF_SIZE,
        ensures
            r is Some <==> size >= 1,
            r matches Some(w) ==> w@ == WindowModel::initial(size as nat) && w@.wf(),
    {
        if size == 0 {
            return None;
        }
        let mut past: VecDeque<i32> = VecDeque::new();
        let mut future: VecDeque<i32> = VecDeque::new();
        let mut i: usize = 0;
        while i < size
            invariant
                i <= size,
                past@.len() == i,
                future@.len() == i,
                forall|j: int| 0 <= j < i ==> past@[j] == 0i32,
                forall|j: int| 0 <= j < i ==> future@[j] == 0i32,
            decreases size - i,
        {
            past.push_back(0);
            future.push_back(0);
            i = i + 1;
        }
        let w = TimeWindow {
            size,
            current_sample: -(size as i64),
            sum: 0,
            dev_total: 0,
            past,
            present: 0,
            future,
        };
        proof {
            let init = WindowModel::initial(size as nat);
            assert(w@.past =~= init.past);
            assert(w@.future =~= init.future);
            assert(w@ == init);
            lemma_seq_sum_constant(init.contents(), 0);
            assert(init.contents().len() * 0 == 0) by (nonlinear_arith);
            assert(init.steps_taken() * DEV_STEP_BOUND == 0) by (nonlinear_arith)
                requires init.steps_taken() == 0;
        }
        Some(w)
    }

    /// Total size of the window: past, future and present.
    pub fn total_size(&self) -> (r: usize)
        requires
            self@.wf(),
        ensures
            r == self@.total(),
    {
        2 * self.size + 1
    }

    /// The exact window average as a rational: the running sum over the
    /// window size. By the window invariant the numerator is exactly the sum
    /// of the current contents, so this is the true arithmetic mean.
    pub fn avg(&self) -> (r: (i64, u64))
        requires
            self@.wf(),
        ensures
            r.0 == self@.sum,
            r.1 == self@.total(),
            r.0 == seq_sum(self@.contents()),
    {
        (self.sum, (2 * self.size + 1) as u64)
    }

    /// The running mean-absolute-deviation estimate as a rational:
    /// numerator `dev` (the scaled deviation total), denominator
    /// `total * total`.
    pub fn std_dev(&self) -> (r: (i128, u128))
        requires
            self@.wf(),
        ensures
            r.0 == self@.dev,
            r.1 == self@.total() * self@.total(),
    {
        let t = (2 * self.size + 1) as u128;
        proof {
            assert(t * t <= 0x2000_0001 * 0x2000_0001) by (nonlinear_arith)
                requires 0 < t <= 0x2000_0001;
        }
        (self.dev_total, t * t)
    }

    /// Is the present sample a statistical outlier?
    pub fn current_significant(&self) -> (r: bool)
        requires
            self@.wf(),
        ensures
            r == self@.significant(self@.present),
    {
        self.significant(self.present)
    }

    /// Does `s` deviate from the window mean by more than four times the
    /// running mean deviation? Exact integer form of
    /// `|s - sum/total| > 4 * dev_total_unscaled / total`.
    pub fn significant(&self, s: i32) -> (r: bool)
        requires
            self@.wf(),
        ensures
            r == self@.significant(s as int),
    {
        let t = (2 * self.size + 1) as i128;
        proof {
            self.lemma_sum_bounded();
            assert(-(0x8000_0000 * 0x2000_0001) <= (s as int) * t <= 0x8000_0000 * 0x2000_0001)
                by (nonlinear_arith)
                requires -0x8000_0000 <= s as int <= 0x8000_0000, 0 < t <= 0x2000_0001;
        }
        let diff = abs_i128((s as i128) * t - (self.sum as i128));
        proof {
            self.lemma_dev_bounded();
            assert(diff * t <= 0x8000_0000_0000_0000_0000_0000) by (nonlinear_arith)
                requires 0 <= diff < 0x4000_0000_0000_0000, 0 < t <= 0x2000_0001;
            assert(0 <= diff * t) by (nonlinear_arith)
                requires 0 <= diff, 0 < t;
        }
        diff * t > 4 * self.dev_total
    }

    /// The running sum is bounded by the window size times the sample range.
    pub proof fn lemma_sum_bounded(&self)
        requires
            self@.wf(),
        ensures
            -(0x2000_0001int * 0x8000_0000) <= self@.sum <= 0x2000_0001int * 0x8000_0000,
    {
        lemma_seq_sum_bound(self@.contents(), 0x8000_0000);
        assert(self@.contents().len() * 0x8000_0000 <= 0x2000_0001 * 0x8000_0000)
            by (nonlinear_arith)
            requires self@.contents().len() <= 0x2000_0001;
    }

    /// The deviation total is bounded by the steps taken times the step
    /// bound.
    pub proof fn lemma_dev_bounded(&self)
        requires
            self@.wf(),
        ensures
            abs(self@.dev) <= 0x8000_0000_0000_0000_0000_0000_0000int,
    {
        assert(self@.steps_taken() * DEV_STEP_BOUND
            <= 0x41_0000_0000 * 0x4000_0000_0000_0000) by (nonlinear_arith)
            requires 0 <= self@.steps_taken() <= 0x41_0000_0000;
    }

    /// Advance the window one sample: `s` joins the future, the oldest
    /// future sample becomes the present, the present joins the past, the
    /// oldest past sample is evicted, and the running sum and deviation
    /// total are updated from the entering and evicted samples.
    pub fn step_forwards(&mut self, s: i32)
        requires
            old(self)@.wf(),
            old(self)@.pos < POS_LIMIT,
        ensures
            final(self)@ == old(self)@.step(s as int),
            final(self)@.wf(),
    {
        proof {
            lemma_step_preserves_wf(self@, s as int);
            self.lemma_sum_bounded();
            self.lemma_dev_bounded();
        }
        let ghost w0 = self@;
        self.current_sample = self.current_sample + 1;

        // Push into the most futuristic part of the future, then promote the
        // oldest future sample to the present; the future is never empty.
        self.future.push_back(s);
        let promoted = self.future.pop_front().unwrap();

        // The present joins the past, then the oldest past sample leaves.
        self.past.push_back(self.present);
        self.present = promoted;
        let evicted = self.past.pop_front().unwrap();

        let t = (2 * self.size + 1) as i128;
        let new_sum: i64 = self.sum + (s as i64) - (evicted as i64);

        // Deviation of the evicted sample under the old mean, and of the
        // entering sample under the new mean, both scaled by the window
        // size.
        proof {
            assert(-(0x8000_0000 * 0x2000_0001) <= (evicted as int) * t <= 0x8000_0000 * 0x2000_0001)
                by (nonlinear_arith)
                requires -0x8000_0000 <= evicted as int <= 0x8000_0000, 0 < t <= 0x2000_0001;
            assert(-(0x8000_0000 * 0x2000_0001) <= (s as int) * t <= 0x8000_0000 * 0x2000_0001)
                by (nonlinear_arith)
                requires -0x8000_0000 <= s as int <= 0x8000_0000, 0 < t <= 0x2000_0001;
        }
        let old_dev = abs_i128((self.sum as i128) - (evicted as i128) * t);
        let new_dev = abs_i128((new_sum as i128) - (s as i128) * t);
        self.dev_total = self.dev_total + new_dev - old_dev;
        self.sum = new_sum;

        proof {
            let w1 = w0.step(s as int);
            assert(self@.past =~= w1.past);
            assert(self@.future =~= w1.future);
            assert(self@ == w1);
        }
    }
}

} // verus!
