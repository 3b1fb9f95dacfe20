//! The feature processor: consumes the sample stream one sample at a time,
//! drives the sliding window, latches transient triggers, throttles output
//! to a fixed sample-count cadence, and decides how each emission must be
//! paced against wall-clock playback.
//!
//! The processor itself performs no I/O and never sleeps: each call reports
//! what must happen — nothing, skip a stale emission, or wait a given delay
//! and then send the packet — and the surrounding host performs it. Sending
//! on a closed channel is likewise the host's affair: it is an expected
//! shutdown signal, not an error of the processor.

use vstd::prelude::*;

use crate::window::POS_LIMIT;
use crate::window::MAX_HALF_SIZE;
use crate::window::TimeWindow;
use crate::window::WindowModel;

verus! {

/// Samples between successive emissions unless configured otherwise.
pub const DEFAULT_CADENCE: usize = 400;

/// The sample rate assumed when the stream does not state one, in samples
/// per second: a recognized configuration input with this default.
pub const DEFAULT_SAMPLE_RATE: u32 = 44_100;

/// The window half-size a configured time span implies: the sample rate
/// times the span, rounded to the nearest whole sample. At the default rate
/// a quarter-second span gives 11025 samples on each side.
pub fn half_size_for_span_ms(span_ms: u32, sample_rate: u32) -> (r: usize)
    requires
        (sample_rate as int) * (span_ms as int) <= 268_000_000_000,
    ensures
        r == ((sample_rate as int) * (span_ms as int) + 500) / 1000,
        r <= MAX_HALF_SIZE,
{
    let p: u64 = (sample_rate as u64) * (span_ms as u64);
    proof {
        vstd::arithmetic::div_mod::lemma_div_is_ordered(
            p as int + 500,
            268_000_000_500,
            1000,
        );
        vstd::arithmetic::div_mod::lemma_fundamental_div_mod_converse(
            268_000_000_500,
            1000,
            268_000_000,
            500,
        );
    }
    ((p + 500) / 1000) as usize
}

/// A feature packet. Every feature value is an exact rational, carried as a
/// separate numerator and denominator so that nothing is rounded inside the
/// library; the host divides when it needs a machine number.
#[derive(PartialEq, Eq, Structural, Clone, Copy, Debug)]
pub struct AudioUpdate {
    /// The stream time this packet describes, in nanoseconds.
    pub time_ns: u64,
    /// Impulse intensity numerator: the raw sample at the cadence tick if
    /// the impulse latch was set, zero otherwise. Note that this is the
    /// sample at the tick, not the sample that tripped the latch — a
    /// deliberate simplification of the design, kept exactly.
    pub impulse_numer: i32,
    /// Impulse intensity denominator: the stream's maximum sample magnitude.
    pub impulse_denom: u32,
    /// Level numerator: five times the scaled deviation total (the factor
    /// five is an empirically chosen scaling constant).
    pub level_numer: i128,
    /// Level denominator: the squared window size times the maximum sample
    /// magnitude.
    pub level_denom: u128,
}

/// What one processed sample led to.
#[derive(PartialEq, Eq, Structural, Clone, Copy, Debug)]
pub enum EmitOutcome {
    /// The sample did not fall on a cadence boundary.
    NotDue,
    /// A cadence boundary, but the packet's stream time is already behind
    /// wall-clock playback, or the wall clock was unavailable: the emission
    /// is dropped rather than sent late.
    Skipped,
    /// Wait `delay_ns`, then hand `update` to the consumer, so that the
    /// packet arrives when playback reaches the stream time it describes.
    Emit { delay_ns: u64, update: AudioUpdate },
}

/// The mathematical state of a processor.
pub ghost struct ProcModel {
    pub window: WindowModel,
    pub sample_max: nat,
    pub cadence: nat,
    pub latched: bool,
    pub count: nat,
}

impl ProcModel {
    pub open spec fn wf(self) -> bool {
        &&& self.window.wf()
        &&& 1 <= self.cadence <= usize::MAX
        &&& 1 <= self.sample_max <= u32::MAX
        &&& self.count == self.window.steps_taken()
    }

    /// A fresh processor around a fresh window.
    pub open spec fn initial(half: nat, sample_max: nat, cadence: nat) -> ProcModel {
        ProcModel {
            window: WindowModel::initial(half),
            sample_max,
            cadence,
            latched: false,
            count: 0,
        }
    }

    /// Does the sample about to be processed fall on a cadence boundary?
    pub open spec fn is_due(self) -> bool {
        self.count % self.cadence == 0
    }

    /// Is the newly promoted present sample significant once the window has
    /// stepped over `x`?
    pub open spec fn sig_after(self, x: i32) -> bool {
        let w1 = self.window.step(x as int);
        w1.significant(w1.present)
    }

    /// The latch as read at a cadence tick: set by an earlier sample and not
    /// yet cleared, or set by this very sample.
    pub open spec fn latch_at_tick(self, x: i32) -> bool {
        self.latched || self.sig_after(x)
    }

    /// The processor state after one sample: the window steps, the latch is
    /// set by a significant sample and cleared at a cadence tick, and the
    /// sample counter rises by one.
    pub open spec fn next(self, x: i32) -> ProcModel {
        ProcModel {
            window: self.window.step(x as int),
            latched: if self.is_due() {
                false
            } else {
                self.latch_at_tick(x)
            },
            count: self.count + 1,
            ..self
        }
    }

    /// Does processing this sample emit a packet? Only at a cadence tick,
    /// and only when the wall clock could be read and the packet's stream
    /// time has not already passed.
    pub open spec fn emits(self, time_ns: u64, elapsed_ns: Option<u64>) -> bool {
        &&& self.is_due()
        &&& elapsed_ns matches Some(e) && time_ns >= e
    }

    /// The packet a cadence tick at stream time `time_ns` produces.
    pub open spec fn expected_update(self, x: i32, time_ns: u64) -> AudioUpdate {
        AudioUpdate {
            time_ns,
            impulse_numer: if self.latch_at_tick(x) {
                x
            } else {
                0
            },
            impulse_denom: self.sample_max as u32,
            level_numer: (5 * self.window.step(x as int).dev) as i128,
            level_denom: (self.window.total() * self.window.total() * self.sample_max) as u128,
        }
    }
}

/// Number of cadence boundaries among sample indices `0 .. n`: the indices
/// divisible by the cadence `c`. `process_sample` reports a boundary (an
/// outcome other than `NotDue`) on its `i`-th call exactly when `i % c == 0`,
/// so over `n` calls the boundaries are counted by this function.
pub open spec fn due_count(n: nat, c: nat) -> nat
    decreases n,
{
    if n == 0 {
        0
    } else {
        due_count((n - 1) as nat, c) + if (n - 1) as nat % c == 0 {
            1nat
        } else {
            0nat
        }
    }
}

/// Stepping past one index moves the quotient up exactly on multiples of
/// the cadence.
proof fn lemma_div_step(m: int, c: int)
    requires
        c >= 1,
        m >= 1,
    ensures
        m % c == 0 ==> m / c == (m - 1) / c + 1,
        m % c != 0 ==> m / c == (m - 1) / c,
{
    vstd::arithmetic::div_mod::lemma_fundamental_div_mod(m, c);
    let q = m / c;
    let r = m % c;
    if r == 0 {
        assert(m - 1 == (q - 1) * c + (c - 1)) by (nonlinear_arith)
            requires m == c * q + 0;
        vstd::arithmetic::div_mod::lemma_fundamental_div_mod_converse(m - 1, c, q - 1, c - 1);
    } else {
        assert(m - 1 == q * c + (r - 1)) by (nonlinear_arith)
            requires m == c * q + r;
        vstd::arithmetic::div_mod::lemma_fundamental_div_mod_converse(m - 1, c, q, r - 1);
    }
}

/// Arithmetic core of the cadence law: among indices `0 .. n` exactly
/// `floor((n - 1) / c) + 1` are divisible by the cadence `c`.
pub proof fn lemma_cadence_count(n: nat, c: nat)
    requires
        c >= 1,
        n >= 1,
    ensures
        due_count(n, c) == (n - 1) / (c as int) + 1,
    decreases n,
{
    if n == 1 {
        assert(due_count(1, c) == due_count(0, c) + 1);
        assert(0int / (c as int) == 0) by {
            vstd::arithmetic::div_mod::lemma_fundamental_div_mod_converse(0, c as int, 0, 0);
        }
    } else {
        lemma_cadence_count((n - 1) as nat, c);
        lemma_div_step(n - 1, c as int);
        vstd::arithmetic::div_mod::lemma_fundamental_div_mod(n - 1, c as int);
    }
}

/// The number of cadence boundaries a processor in state `m` meets while it
/// processes the samples `xs` in order. By the contract of
/// `process_sample`, these are exactly the calls whose outcome is not
/// `NotDue`, and exactly the packets sent when the wall clock permits every
/// emission.
pub open spec fn boundaries_in_run(m: ProcModel, xs: Seq<i32>) -> nat
    decreases xs.len(),
{
    if xs.len() == 0 {
        0
    } else {
        (if m.is_due() {
            1nat
        } else {
            0nat
        }) + boundaries_in_run(m.next(xs[0]), xs.skip(1))
    }
}

/// Boundaries met from a given sample count on: the indices `i < n` with
/// `(k + i) % c == 0`.
spec fn dues_from(k: nat, n: nat, c: nat) -> nat
    decreases n,
{
    if n == 0 {
        0
    } else {
        (if k % c == 0 {
            1nat
        } else {
            0nat
        }) + dues_from((k + 1) as nat, (n - 1) as nat, c)
    }
}

/// A run meets a boundary exactly at the samples `i` with
/// `(count + i) % cadence == 0`: which calls are boundaries depends only on
/// the sample counter and the cadence, never on the samples or the window.
proof fn lemma_run_counts_dues(m: ProcModel, xs: Seq<i32>)
    ensures
        boundaries_in_run(m, xs) == dues_from(m.count, xs.len() as nat, m.cadence),
    decreases xs.len(),
{
    if xs.len() > 0 {
        lemma_run_counts_dues(m.next(xs[0]), xs.skip(1));
    }
}

/// `dues_from` can peel its last index as well as its first.
proof fn lemma_dues_from_snoc(k: nat, n: nat, c: nat)
    requires
        n >= 1,
    ensures
        dues_from(k, n, c) == dues_from(k, (n - 1) as nat, c) + if (k + n - 1) as nat % c == 0 {
            1nat
        } else {
            0nat
        },
    decreases n,
{
    let tick = if (k + n - 1) as nat % c == 0 {
        1nat
    } else {
        0nat
    };
    let first = if k % c == 0 {
        1nat
    } else {
        0nat
    };
    if n == 1 {
        assert(dues_from(k, 1, c) == first + dues_from((k + 1) as nat, 0, c));
        assert(dues_from(k, 0, c) == 0);
    } else {
        lemma_dues_from_snoc((k + 1) as nat, (n - 1) as nat, c);
        assert(((k + 1) as nat + (n - 1) as nat - 1) as nat == (k + n - 1) as nat);
        assert(dues_from(k, n, c) == first + dues_from((k + 1) as nat, (n - 1) as nat, c));
        assert(dues_from((k + 1) as nat, (n - 1) as nat, c) == dues_from(
            (k + 1) as nat,
            (n - 2) as nat,
            c,
        ) + tick);
        assert(dues_from(k, (n - 1) as nat, c) == first + dues_from(
            (k + 1) as nat,
            (n - 2) as nat,
            c,
        ));
    }
}

/// Counting boundaries from a fresh counter agrees with `due_count`.
proof fn lemma_dues_from_zero(n: nat, c: nat)
    ensures
        dues_from(0, n, c) == due_count(n, c),
    decreases n,
{
    if n >= 1 {
        lemma_dues_from_zero((n - 1) as nat, c);
        lemma_dues_from_snoc(0, n, c);
    }
}

/// Cadence law: a fresh processor with cadence `c` meets, over `n >= 1`
/// processed samples, exactly `floor((n - 1) / c) + 1` cadence boundaries —
/// at sample indices `0, c, 2c, ...` — and so emits exactly that many
/// packets when the wall clock permits every emission.
pub proof fn lemma_cadence_emissions(m: ProcModel, xs: Seq<i32>)
    requires
        m.cadence >= 1,
        m.count == 0,
        xs.len() >= 1,
    ensures
        boundaries_in_run(m, xs) == (xs.len() - 1) / (m.cadence as int) + 1,
{
    lemma_run_counts_dues(m, xs);
    lemma_dues_from_zero(xs.len() as nat, m.cadence);
    lemma_cadence_count(xs.len() as nat, m.cadence);
}

/// Latch law, setting side: a significant sample arriving strictly between
/// two emission boundaries sets the latch, and a boundary-free step keeps an
/// already set latch.
pub proof fn lemma_latch_is_kept(m: ProcModel, x: i32)
    requires
        !m.is_due(),
    ensures
        m.sig_after(x) ==> m.next(x).latched,
        m.latched ==> m.next(x).latched,
{
}

/// Latch law, reporting side: the emission at a cadence tick reports the
/// impulse from the current raw sample exactly when the latch was set
/// earlier or the tick's own sample is significant; with no significant
/// sample since the last boundary it reports zero. (When the tick's own raw
/// sample is zero, a latched impulse is still reported as zero — the
/// documented consequence of using the current sample.)
pub proof fn lemma_latch_reported(m: ProcModel, x: i32, time_ns: u64)
    requires
        m.is_due(),
    ensures
        m.latch_at_tick(x) ==> m.expected_update(x, time_ns).impulse_numer == x,
        !m.latch_at_tick(x) ==> m.expected_update(x, time_ns).impulse_numer == 0,
        m.next(x).latched == false,
{
}

/// The processor state after a run over the samples `xs`, in order.
pub open spec fn run_state(m: ProcModel, xs: Seq<i32>) -> ProcModel
    decreases xs.len(),
{
    if xs.len() == 0 {
        m
    } else {
        run_state(m.next(xs[0]), xs.skip(1))
    }
}

/// The processor drives the window and nothing else does: its window after
/// a run is the window stepped over the same samples, so the window's run
/// laws (shape, exact sum, saturation under constant input) carry over to
/// a processor run unchanged.
pub proof fn lemma_run_state_window(m: ProcModel, xs: Seq<i32>)
    ensures
        run_state(m, xs).window == crate::window::steps_run(
            m.window,
            xs.map_values(|x: i32| x as int),
        ),
    decreases xs.len(),
{
    let ys = xs.map_values(|x: i32| x as int);
    if xs.len() == 0 {
    } else {
        lemma_run_state_window(m.next(xs[0]), xs.skip(1));
        assert(xs.skip(1).map_values(|x: i32| x as int) =~= ys.skip(1));
        assert(ys[0] == xs[0] as int);
    }
}

/// Latch persistence over a run: a set latch stays set through any stretch
/// of samples that meets no cadence boundary, whatever the samples are.
pub proof fn lemma_latch_survives_run(m: ProcModel, xs: Seq<i32>)
    requires
        m.latched,
        m.cadence >= 1,
        forall|i: int| 0 <= i < xs.len() ==> #[trigger] (((m.count + i) as int) % (m.cadence as int)) != 0,
    ensures
        run_state(m, xs).latched,
        run_state(m, xs).count == m.count + xs.len(),
        run_state(m, xs).cadence == m.cadence,
        run_state(m, xs).sample_max == m.sample_max,
    decreases xs.len(),
{
    if xs.len() > 0 {
        assert(((m.count + 0) as int) % (m.cadence as int) != 0);
        let m1 = m.next(xs[0]);
        assert(m1.latched);
        assert forall|i: int| 0 <= i < xs.skip(1).len() implies #[trigger] (((m1.count + i) as int) % (
        m1.cadence as int)) != 0 by {
            assert(((m.count + (i + 1)) as int) % (m.cadence as int) != 0);
        }
        lemma_latch_survives_run(m1, xs.skip(1));
    }
}

/// Latch law over a whole interval: with the latch set and no cadence
/// boundary among the samples `xs`, the boundary right after them reports
/// its impulse from its own raw sample `x` — nonzero whenever `x` is.
pub proof fn lemma_latched_impulse_at_next_boundary(
    m: ProcModel,
    xs: Seq<i32>,
    x: i32,
    time_ns: u64,
)
    requires
        m.latched,
        m.cadence >= 1,
        forall|i: int| 0 <= i < xs.len() ==> #[trigger] (((m.count + i) as int) % (m.cadence as int)) != 0,
        ((m.count + xs.len()) as int) % (m.cadence as int) == 0,
    ensures
        run_state(m, xs).is_due(),
        run_state(m, xs).expected_update(x, time_ns).impulse_numer == x,
{
    lemma_latch_survives_run(m, xs);
    let end = run_state(m, xs);
    lemma_latch_reported(end, x, time_ns);
}

/// Pacing law: a cadence tick whose stream time is already behind the
/// elapsed wall clock, or whose wall clock could not be read, emits nothing.
pub proof fn lemma_pacing_skip(m: ProcModel, time_ns: u64, elapsed_ns: Option<u64>)
    requires
        elapsed_ns matches Some(e) ==> time_ns < e,
    ensures
        !m.emits(time_ns, elapsed_ns),
{
}

/// Turns the raw per-sample stream into periodic, normalized, wall-clock
/// paced feature packets.
pub struct AudioProcessor {
    window: TimeWindow,
    sample_max: u32,
    cadence: usize,
    impulse_triggered: bool,
    sample_number: u64,
}

impl View for AudioProcessor {
    type V = ProcModel;

    closed spec fn view(&self) -> ProcModel {
        ProcModel {
            window: self.window@,
            sample_max: self.sample_max as nat,
            cadence: self.cadence as nat,
            latched: self.impulse_triggered,
            count: self.sample_number as nat,
        }
    }
}

impl AudioProcessor {
    /// Make a processor over a fresh window of the given half-size. The
    /// window needs a non-degenerate past and future, so `half_size == 0`
    /// yields nothing. `sample_max` is the stream's maximum sample
    /// magnitude, used as the normalization denominator.
    pub fn new(half_size: usize, sample_max: u32, cadence: usize) -> (r: Option<AudioProcessor>)
        requires
            half_size <= MAX_HALF_SIZE,
            sample_max >= 1,
            cadence >= 1,
        ensures
            r is Some <==> half_size >= 1,
            r matches Some(p) ==> p@ == ProcModel::initial(
                half_size as nat,
                sample_max as nat,
                cadence as nat,
            ) && p@.wf(),
    {
        match TimeWindow::new(half_size) {
            Some(window) => Some(
                AudioProcessor {
                    window,
                    sample_max,
                    cadence,
                    impulse_triggered: false,
                    sample_number: 0,
                },
            ),
            None => None,
        }
    }

    /// Process one sample carrying stream time `time_ns`, with
    /// `elapsed_ns` the wall-clock time since playback began (or nothing,
    /// if the clock could not be read). Returns what the host must do.
    pub fn process_sample(&mut self, x: i32, time_ns: u64, elapsed_ns: Option<u64>) -> (r:
        EmitOutcome)
        requires
            old(self)@.wf(),
            old(self)@.count < POS_LIMIT,
        ensures
            final(self)@ == old(self)@.next(x),
            final(self)@.wf(),
            (r is NotDue) <==> !old(self)@.is_due(),
            (r is Emit) <==> old(self)@.emits(time_ns, elapsed_ns),
            (r is Skipped) <==> (old(self)@.is_due() && !old(self)@.emits(time_ns, elapsed_ns)),
            r matches EmitOutcome::Emit { delay_ns, update } ==> {
                &&& delay_ns == time_ns - elapsed_ns.unwrap()
                &&& update == old(self)@.expected_update(x, time_ns)
            },
    {
        let ghost m0 = self@;

        // Add the new sample to the window, then latch if the freshly
        // promoted present sample is significant.
        self.window.step_forwards(x);
        let sig = self.window.current_significant();
        if sig {
            self.impulse_triggered = true;
        }

        let mut r = EmitOutcome::NotDue;
        if self.sample_number % (self.cadence as u64) == 0 {
            // Impulse intensity from the current raw sample if latched.
            let impulse_numer = if self.impulse_triggered {
                x
            } else {
                0
            };
            self.impulse_triggered = false;

            let (dev_n, dev_d) = self.window.std_dev();
            proof {
                self.window.lemma_dev_bounded();
                let t = self@.window.total();
                assert(dev_d * (self.sample_max as int)
                    <= 0x2000_0001 * 0x2000_0001 * 0x1_0000_0000) by (nonlinear_arith)
                    requires
                        dev_d == t * t,
                        0 < t <= 0x2000_0001,
                        self.sample_max <= 0xffff_ffff;
            }
            // Level: five times the running mean deviation, over the
            // maximum sample magnitude.
            let level_numer: i128 = 5 * dev_n;
            let level_denom: u128 = dev_d * (self.sample_max as u128);

            r = match elapsed_ns {
                Some(e) => {
                    if time_ns >= e {
                        EmitOutcome::Emit {
                            delay_ns: time_ns - e,
                            update: AudioUpdate {
                                time_ns,
                                impulse_numer,
                                impulse_denom: self.sample_max,
                                level_numer,
                                level_denom,
                            },
                        }
                    } else {
                        EmitOutcome::Skipped
                    }
                },
                None => EmitOutcome::Skipped,
            };
        }
        self.sample_number = self.sample_number + 1;
        proof {
            assert(self@ == m0.next(x));
        }
        r
    }
}

} // verus!
