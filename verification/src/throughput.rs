//! An estimate of how fast each task moves, from the steps that a renderer
//! sees from frame to frame.
use crate::key::{ascending, find, Key};
use crate::progress::{Progress, Step};
use crate::time::{Duration, Time};
use crate::tree::{lemma_insert_row, lemma_remove_row, lemma_replace_row, lemma_row_is_entry, rows_map};
use crate::text::{decimal, digit, push_char, push_decimal, push_str};
use crate::unit::display;
use crate::unit::{DisplayValue, Unit};
use std::collections::VecDeque;
use vstd::prelude::*;
use vstd::string::StrSliceExecFns;

verus! {

/// The span of observed time after which an estimate is made anew, in
/// nanoseconds.
pub const THROTTLE_INTERVAL: u64 = 1_000_000_000;

/// The span of time that an estimate speaks of, in nanoseconds.
pub const ONCE_A_SECOND: u64 = 1_000_000_000;

/// The sum of two spans of time, as far as 128 bits hold it.
pub open spec fn span_sum(a: nat, b: nat) -> nat {
    if a + b > u128::MAX {
        u128::MAX as nat
    } else {
        a + b
    }
}

/// The sum of two amounts of steps, as far as a step count holds it.
pub open spec fn step_sum(a: nat, b: nat) -> nat {
    if a + b > usize::MAX {
        usize::MAX as nat
    } else {
        a + b
    }
}

/// The time that the frames of `window` took together, in nanoseconds.
pub open spec fn span_of(window: Seq<(nat, Step)>) -> nat
    decreases window.len(),
{
    if window.len() == 0 {
        0
    } else {
        span_sum(span_of(window.drop_last()), window.last().0)
    }
}

/// The steps that were made in the frames of `window` together.
pub open spec fn steps_of(window: Seq<(nat, Step)>) -> nat
    decreases window.len(),
{
    if window.len() == 0 {
        0
    } else {
        step_sum(steps_of(window.drop_last()), window.last().1 as nat)
    }
}

/// `window`, which spans `observed`, without the oldest frames that can go
/// while more than a second stays, and the span that is left.
pub open spec fn trimmed(window: Seq<(nat, Step)>, observed: nat) -> (Seq<(nat, Step)>, nat)
    decreases window.len(),
{
    if window.len() > 0 && observed > ONCE_A_SECOND && observed - window.first().0
        > ONCE_A_SECOND {
        trimmed(window.drop_first(), (observed - window.first().0) as nat)
    } else {
        (window, observed)
    }
}

/// The steps per second of `steps` steps in `nanos` nanoseconds, rounded
/// down. In no time at all, no step is no speed and any step is the
/// highest speed.
pub open spec fn per_second(steps: nat, nanos: nat) -> Step {
    if nanos == 0 {
        if steps == 0 {
            0
        } else {
            usize::MAX
        }
    } else if steps * ONCE_A_SECOND / (nanos as int) > usize::MAX {
        usize::MAX
    } else {
        (steps * ONCE_A_SECOND / (nanos as int)) as usize
    }
}

/// The estimate that `window` gives: the steps per second of what is left
/// of it after trimming.
pub open spec fn estimate_of(window: Seq<(nat, Step)>) -> Step {
    let (kept, observed) = trimmed(window, span_of(window));
    per_second(steps_of(kept), observed)
}

/// What is known of the speed of one task, as a mathematical value.
pub struct Estimate {
    /// The time for which the task was observed, in nanoseconds.
    pub observed: nat,
    /// The step at the last observation.
    pub last_value: Step,
    /// The frames that the next estimate is made of: the time each took and
    /// the steps made in it.
    pub window: Seq<(nat, Step)>,
    /// The observed time at which the last estimate was made.
    pub last_update: nat,
    /// The last estimate, in steps per second.
    pub precomputed: Option<Step>,
}

impl Estimate {
    /// What is known after the first observation.
    pub open spec fn first(value: Step, elapsed: nat) -> Estimate {
        Estimate {
            observed: elapsed,
            last_value: value,
            window: seq![(elapsed, value)],
            last_update: elapsed,
            precomputed: None,
        }
    }

    /// What is known after one more observation of `value`, `elapsed` after
    /// the one before: the frame joins the window, and once more than a
    /// second of observed time has passed since the last estimate, the
    /// window is trimmed and a new estimate is made.
    pub open spec fn updated(self, value: Step, elapsed: nat) -> Estimate {
        let observed = if self.observed + elapsed > Duration::max_nanos() {
            Duration::max_nanos()
        } else {
            self.observed + elapsed
        };
        let change = if value >= self.last_value {
            (value - self.last_value) as usize
        } else {
            0
        };
        let window = self.window.push((elapsed, change));
        let since = if observed >= self.last_update {
            observed - self.last_update
        } else {
            0
        };
        if since > THROTTLE_INTERVAL {
            Estimate {
                observed,
                last_value: value,
                window: trimmed(window, span_of(window)).0,
                last_update: observed,
                precomputed: Some(estimate_of(window)),
            }
        } else {
            Estimate { observed, last_value: value, window, ..self }
        }
    }

    /// The last estimate as a throughput per second, if one was made.
    pub open spec fn throughput(self) -> Option<display::Throughput> {
        match self.precomputed {
            Some(tp) => Some(
                display::Throughput {
                    value_change_in_timespan: tp,
                    timespan: one_second(),
                },
            ),
            None => None,
        }
    }
}

/// A window of `frames` frames that each took `e` nanoseconds and made
/// `k` steps.
pub open spec fn steady(frames: nat, e: nat, k: Step) -> Seq<(nat, Step)> {
    Seq::new(frames, |i: int| (e, k))
}

/// What is known of a task that was first seen at step `v0` and then, frame
/// after frame, `e` nanoseconds later and `k` steps further, after `frames`
/// such frames.
pub open spec fn observed_steadily(v0: Step, k: Step, e: nat, frames: nat) -> Estimate
    decreases frames,
{
    if frames == 0 {
        Estimate::first(v0, e)
    } else {
        observed_steadily(v0, k, e, (frames - 1) as nat).updated((v0 + frames * k) as usize, e)
    }
}

/// The frames of a steady window took the time of one frame times their
/// number, and made the steps of one frame times their number.
pub proof fn lemma_steady_totals(frames: nat, e: nat, k: Step)
    requires
        frames * e <= u128::MAX,
        frames * k <= usize::MAX,
    ensures
        span_of(steady(frames, e, k)) == frames * e,
        steps_of(steady(frames, e, k)) == frames * k,
    decreases frames,
{
    if frames > 0 {
        let less = (frames - 1) as nat;
        assert(less * e + e == frames * e && less * k + k == frames * k && less * e >= 0 && less
            * k >= 0) by (nonlinear_arith)
            requires
                less + 1 == frames,
                e >= 0,
                k >= 0,
        ;
        lemma_steady_totals(less, e, k);
        let window = steady(frames, e, k);
        assert(window.drop_last() =~= steady(less, e, k));
        assert(window.last() == (e, k));
        assert(span_of(window) == span_sum(span_of(window.drop_last()), e));
        assert(steps_of(window) == step_sum(steps_of(window.drop_last()), k as nat));
    } else {
        assert(frames * e == 0 && frames * k == 0) by (nonlinear_arith)
            requires
                frames == 0,
        ;
    }
}

/// The estimate over a window of steady frames is the speed of one frame:
/// `k` steps in `e` nanoseconds.
pub proof fn law_steady_window_gives_steady_rate(frames: nat, e: nat, k: Step)
    requires
        frames >= 1,
        e > 0,
        frames * e <= u128::MAX,
        frames * k <= usize::MAX,
    ensures
        per_second(steps_of(steady(frames, e, k)), span_of(steady(frames, e, k))) == per_second(
            k as nat,
            e,
        ),
{
    lemma_steady_totals(frames, e, k);
    assert(frames * e > 0) by (nonlinear_arith)
        requires
            frames >= 1,
            e > 0,
    ;
    let second = ONCE_A_SECOND as int;
    assert((frames * k) * second == frames * (k * second)) by (nonlinear_arith);
    vstd::arithmetic::div_mod::lemma_div_multiples_vanish_quotient(
        frames as int,
        k * second,
        e as int,
    );
}

/// While no more than a second has passed since the first observation, a
/// task that moves steadily has no estimate yet, and its window holds the
/// first observation and every frame since.
pub proof fn lemma_steady_start(v0: Step, k: Step, e: nat, frames: nat)
    requires
        frames * e <= THROTTLE_INTERVAL,
        (frames + 1) * e <= Duration::max_nanos(),
        v0 + frames * k <= usize::MAX,
    ensures
        observed_steadily(v0, k, e, frames) == (Estimate {
            observed: (frames + 1) * e,
            last_value: (v0 + frames * k) as usize,
            window: seq![(e, v0)] + steady(frames, e, k),
            last_update: e,
            precomputed: None,
        }),
    decreases frames,
{
    if frames == 0 {
        assert(seq![(e, v0)] + steady(0, e, k) =~= seq![(e, v0)]);
        assert((0 + 1) * e == e) by (nonlinear_arith);
        assert(0 * k == 0) by (nonlinear_arith);
    } else {
        let less = (frames - 1) as nat;
        assert(less * e + e == frames * e && less * k + k == frames * k && frames * e + e == (
        frames + 1) * e && less * e >= 0 && less * k >= 0) by (nonlinear_arith)
            requires
                less + 1 == frames,
                e >= 0,
                k >= 0,
        ;
        lemma_steady_start(v0, k, e, less);
        let before = observed_steadily(v0, k, e, less);
        assert((seq![(e, v0)] + steady(less, e, k)).push((e, k)) =~= seq![(e, v0)] + steady(
            frames,
            e,
            k,
        ));
    }
}

/// A task that moves `k` steps every `e` nanoseconds gets its first
/// estimate with the first frame that lies more than a second after the
/// first observation, and that estimate is its speed: `k` steps in `e`
/// nanoseconds.
pub proof fn law_steady_progress_is_estimated(v0: Step, k: Step, e: nat, frames: nat)
    requires
        frames >= 1,
        (frames - 1) * e <= THROTTLE_INTERVAL < frames * e,
        (frames + 1) * e <= Duration::max_nanos(),
        v0 + frames * k <= usize::MAX,
    ensures
        observed_steadily(v0, k, e, (frames - 1) as nat).precomputed is None,
        observed_steadily(v0, k, e, frames).precomputed == Some(per_second(k as nat, e)),
        observed_steadily(v0, k, e, frames).window == steady(frames, e, k),
{
    let less = (frames - 1) as nat;
    assert(less * e + e == frames * e && less * k + k == frames * k && frames * e + e == (frames
        + 1) * e && less * e >= 0 && less * k >= 0 && e > 0) by (nonlinear_arith)
        requires
            less + 1 == frames,
            e >= 0,
            k >= 0,
            frames * e > 0,
    ;
    lemma_steady_start(v0, k, e, less);
    let before = observed_steadily(v0, k, e, less);
    let window = before.window.push((e, k));
    assert(window =~= seq![(e, v0)] + steady(frames, e, k));
    assert(window.drop_first() =~= steady(frames, e, k));
    lemma_steady_totals(frames, e, k);
    lemma_span_of_longer(steady(frames, e, k), (e, v0));
    assert(seq![(e, v0)] + steady(frames, e, k) =~= window);
    assert(span_of(window) == (frames + 1) * e);
    let rest = window.drop_first();
    assert(trimmed(rest, frames * e) == (rest, frames * e)) by {
        assert(rest.first().0 == e);
    }
    assert(trimmed(window, span_of(window)) == (rest, frames * e)) by {
        assert(window.first().0 == e);
    }
    law_steady_window_gives_steady_rate(frames, e, k);
}

/// Trimming a window of steady frames leaves steady frames, and at least
/// one of them.
pub proof fn lemma_trimmed_steady(frames: nat, e: nat, k: Step) -> (left: nat)
    requires
        frames >= 1,
        e > 0,
    ensures
        1 <= left <= frames,
        trimmed(steady(frames, e, k), frames * e) == (steady(left, e, k), left * e),
    decreases frames,
{
    let window = steady(frames, e, k);
    assert(window.first() == (e, k));
    if frames * e > ONCE_A_SECOND && frames * e - e > ONCE_A_SECOND {
        let less = (frames - 1) as nat;
        assert(less * e == frames * e - e && (less == 0 ==> less * e == 0)) by (nonlinear_arith)
            requires
                less + 1 == frames,
        ;
        assert(window.drop_first() =~= steady(less, e, k));
        lemma_trimmed_steady(less, e, k)
    } else {
        frames
    }
}

/// From its first estimate on, a task that moves steadily keeps a window of
/// `held` steady frames, and its estimate is its speed.
pub proof fn lemma_steady_on(v0: Step, k: Step, e: nat, first: nat, frames: nat) -> (held: nat)
    requires
        first >= 1,
        (first - 1) * e <= THROTTLE_INTERVAL < first * e,
        frames >= first,
        (frames + 1) * e <= Duration::max_nanos(),
        v0 + frames * k <= usize::MAX,
    ensures
        1 <= held <= frames,
        observed_steadily(v0, k, e, frames).window == steady(held, e, k),
        observed_steadily(v0, k, e, frames).observed == (frames + 1) * e,
        observed_steadily(v0, k, e, frames).last_value == v0 + frames * k,
        observed_steadily(v0, k, e, frames).last_update <= (frames + 1) * e,
        observed_steadily(v0, k, e, frames).precomputed == Some(per_second(k as nat, e)),
    decreases frames,
{
    let less = (frames - 1) as nat;
    assert(less * e + e == frames * e && less * k + k == frames * k && frames * e + e == (frames
        + 1) * e && less * e >= 0 && less * k >= 0 && e > 0) by (nonlinear_arith)
        requires
            less + 1 == frames,
            e >= 0,
            k >= 0,
            frames >= first,
            first >= 1,
            first * e > 0,
    ;
    if frames == first {
        lemma_steady_start(v0, k, e, less);
        law_steady_progress_is_estimated(v0, k, e, frames);
        frames
    } else {
        let m = lemma_steady_on(v0, k, e, first, less);
        let before = observed_steadily(v0, k, e, less);
        let window = before.window.push((e, k));
        let longer = m + 1;
        assert(window =~= steady(longer, e, k));
        assert(longer * e <= frames * e && longer * k <= frames * k) by (nonlinear_arith)
            requires
                longer <= frames,
                e >= 0,
                k >= 0,
        ;
        lemma_steady_totals(longer, e, k);
        let left = lemma_trimmed_steady(longer, e, k);
        assert(left * e <= longer * e && left * k <= longer * k) by (nonlinear_arith)
            requires
                left <= longer,
                e >= 0,
                k >= 0,
        ;
        lemma_steady_totals(left, e, k);
        law_steady_window_gives_steady_rate(left, e, k);
        if (frames + 1) * e - before.last_update > THROTTLE_INTERVAL {
            left
        } else {
            longer
        }
    }
}

/// A task that moves `k` steps every `e` nanoseconds keeps its estimate
/// once it has one: at the frame `first`, the first that lies more than a
/// second after the first observation, and at every frame after it, the
/// estimate is its speed, `k` steps in `e` nanoseconds, as a throughput per
/// second.
pub proof fn law_steady_estimate_stays(v0: Step, k: Step, e: nat, first: nat, frames: nat)
    requires
        first >= 1,
        (first - 1) * e <= THROTTLE_INTERVAL < first * e,
        frames >= first,
        (frames + 1) * e <= Duration::max_nanos(),
        v0 + frames * k <= usize::MAX,
    ensures
        observed_steadily(v0, k, e, frames).throughput() == Some(
            display::Throughput {
                value_change_in_timespan: per_second(k as nat, e),
                timespan: one_second(),
            },
        ),
{
    lemma_steady_on(v0, k, e, first, frames);
}

/// A frame in front of a window adds its time to the time of the window, as
/// long as the sum can be held.
pub proof fn lemma_span_of_longer(window: Seq<(nat, Step)>, frame: (nat, Step))
    requires
        span_of(window) + frame.0 <= u128::MAX,
    ensures
        span_of(seq![frame] + window) == span_of(window) + frame.0,
    decreases window.len(),
{
    let longer = seq![frame] + window;
    if window.len() == 0 {
        assert(longer.drop_last() =~= Seq::<(nat, Step)>::empty());
        assert(longer.last() == frame);
        assert(span_of(longer) == span_sum(span_of(longer.drop_last()), frame.0));
    } else {
        assert(longer.drop_last() =~= seq![frame] + window.drop_last());
        assert(longer.last() == window.last());
        assert(span_of(window) == span_sum(span_of(window.drop_last()), window.last().0));
        lemma_span_of_longer(window.drop_last(), frame);
        assert(span_of(longer) == span_sum(span_of(longer.drop_last()), window.last().0));
    }
}

/// The span of one second.
pub open spec fn one_second() -> Duration {
    Duration::of_secs(1)
}

/// The span of one second.
pub fn once_a_second() -> (r: Duration)
    ensures
        r == one_second(),
        r@ == ONCE_A_SECOND,
{
    Duration::from_secs(1)
}

/// The window of `frames` as a mathematical value.
pub open spec fn window_of(frames: Seq<(Duration, Step)>) -> Seq<(nat, Step)> {
    Seq::new(frames.len(), |i: int| (frames[i].0@, frames[i].1))
}

/// What is known of the speed of one task.
#[derive(Clone, PartialEq, Eq, Debug)]
pub struct State {
    observed: Duration,
    last_value: Step,
    elapsed_values: VecDeque<(Duration, Step)>,
    last_update_duration: Duration,
    precomputed_throughput: Option<Step>,
}

impl View for State {
    type V = Estimate;

    closed spec fn view(&self) -> Estimate {
        Estimate {
            observed: self.observed@,
            last_value: self.last_value,
            window: window_of(self.elapsed_values@),
            last_update: self.last_update_duration@,
            precomputed: self.precomputed_throughput,
        }
    }
}

/// The time that the frames took together and the steps made in them.
fn totals(frames: &VecDeque<(Duration, Step)>) -> (r: (u128, usize))
    ensures
        r.0 == span_of(window_of(frames@)),
        r.1 == steps_of(window_of(frames@)),
{
    let ghost window = window_of(frames@);
    let mut span: u128 = 0;
    let mut steps: usize = 0;
    let mut i: usize = 0;
    assert(window.subrange(0, 0) =~= Seq::empty());
    while i < frames.len()
        invariant
            i <= frames.len(),
            window == window_of(frames@),
            span == span_of(window.subrange(0, i as int)),
            steps == steps_of(window.subrange(0, i as int)),
        decreases frames.len() - i,
    {
        let frame = &frames[i];
        let ghost upto = window.subrange(0, i + 1);
        assert(upto.drop_last() =~= window.subrange(0, i as int));
        assert(upto.last() == (frame.0@, frame.1));
        span = span.saturating_add(frame.0.as_nanos());
        steps = steps.saturating_add(frame.1);
        i = i + 1;
    }
    assert(window.subrange(0, frames.len() as int) =~= window);
    (span, steps)
}

/// The steps per second of `steps` steps in `nanos` nanoseconds.
pub fn rate(steps: usize, nanos: u128) -> (r: Step)
    ensures
        r == per_second(steps as nat, nanos as nat),
{
    if nanos == 0 {
        if steps == 0 {
            0
        } else {
            usize::MAX
        }
    } else {
        assert(steps * ONCE_A_SECOND <= 0xFFFF_FFFF_FFFF_FFFF * 1_000_000_000) by (nonlinear_arith)
            requires
                0 <= steps <= 0xFFFF_FFFF_FFFF_FFFF,
                ONCE_A_SECOND == 1_000_000_000,
        ;
        let scaled: u128 = (steps as u128) * (ONCE_A_SECOND as u128) / nanos;
        if scaled > usize::MAX as u128 {
            usize::MAX
        } else {
            scaled as usize
        }
    }
}

impl State {
    /// What is known after a first observation of `value`, `elapsed` after
    /// the frame before.
    pub fn new(value: Step, elapsed: Duration) -> (r: State)
        ensures
            r@ == Estimate::first(value, elapsed@),
    {
        let mut v = VecDeque::with_capacity(6);
        v.push_back((elapsed, value));
        let r = State {
            observed: elapsed,
            last_value: value,
            elapsed_values: v,
            last_update_duration: elapsed,
            precomputed_throughput: None,
        };
        assert(r@.window =~= seq![(elapsed@, value)]);
        r
    }

    /// Trims the window and returns the steps per second of what is left.
    pub fn compute_throughput(&mut self) -> (r: Step)
        ensures
            r == estimate_of(old(self)@.window),
            final(self)@ == (Estimate {
                window: trimmed(old(self)@.window, span_of(old(self)@.window)).0,
                ..old(self)@
            }),
    {
        let ghost start = self@.window;
        let (total, _) = totals(&self.elapsed_values);
        let mut observed: u128 = total;
        while self.elapsed_values.len() > 0 && observed > ONCE_A_SECOND as u128
            invariant
                self.observed == old(self).observed,
                self.last_value == old(self).last_value,
                self.last_update_duration == old(self).last_update_duration,
                self.precomputed_throughput == old(self).precomputed_throughput,
                trimmed(self@.window, observed as nat) == trimmed(start, span_of(start)),
            ensures
                trimmed(self@.window, observed as nat) == (self@.window, observed as nat),
            decreases self.elapsed_values.len(),
        {
            let candidate = self.elapsed_values[0].0.as_nanos();
            let ghost window = self@.window;
            assert(window.first().0 == candidate);
            if observed < candidate || observed - candidate <= ONCE_A_SECOND as u128 {
                break ;
            }
            observed = observed - candidate;
            self.elapsed_values.pop_front();
            assert(self@.window =~= window.drop_first());
        }
        let (_, steps) = totals(&self.elapsed_values);
        rate(steps, observed)
    }

    /// Takes note of `value`, observed `elapsed` after the frame before,
    /// and returns the estimate that holds now.
    pub fn update(&mut self, value: Step, elapsed: Duration) -> (r: Option<display::Throughput>)
        ensures
            final(self)@ == old(self)@.updated(value, elapsed@),
            r == final(self)@.throughput(),
    {
        let ghost before = self@;
        self.observed = self.observed.saturating_add(&elapsed);
        self.elapsed_values.push_back((elapsed, value.saturating_sub(self.last_value)));
        assert(self@.window =~= before.window.push(
            (
                elapsed@,
                if value >= before.last_value {
                    (value - before.last_value) as usize
                } else {
                    0
                },
            ),
        ));
        self.last_value = value;
        let since = self.observed.saturating_sub(&self.last_update_duration);
        if once_a_second().shorter_than(&since) {
            let tp = self.compute_throughput();
            self.precomputed_throughput = Some(tp);
            self.last_update_duration = self.observed;
        }
        self.throughput()
    }

    /// The last estimate as a throughput per second, if one was made.
    pub fn throughput(&self) -> (r: Option<display::Throughput>)
        ensures
            r == self@.throughput(),
    {
        match self.precomputed_throughput {
            Some(tp) => Some(
                display::Throughput {
                    value_change_in_timespan: tp,
                    timespan: once_a_second(),
                },
            ),
            None => None,
        }
    }
}

/// The keys of the tasks that `rows` lists.
pub open spec fn listed<T>(rows: Seq<(Key, T)>) -> Set<Key> {
    Set::new(|k: Key| exists|i: int| 0 <= i < rows.len() && (#[trigger] rows[i]).0 == k)
}

/// What is known of the speed of all tasks, as a mathematical value.
pub struct Speeds {
    /// What is known of each task.
    pub estimates: Map<Key, Estimate>,
    /// The time of the last frame.
    pub updated_at: Option<Time>,
    /// The time between the last two frames, in nanoseconds.
    pub elapsed: Option<nat>,
}

impl Speeds {
    /// What is known before the first frame.
    pub open spec fn none() -> Speeds {
        Speeds { estimates: Map::empty(), updated_at: None, elapsed: None }
    }

    /// What is known when a frame starts at the time `now`: the time since
    /// the frame before is what has elapsed, if there was a frame before
    /// and the clock did not go back.
    pub open spec fn started(self, now: Time) -> Speeds {
        Speeds {
            updated_at: Some(now),
            elapsed: match self.updated_at {
                Some(then) => if then@ <= now@ {
                    Some((now@ - then@) as nat)
                } else {
                    None
                },
                None => None,
            },
            ..self
        }
    }

    /// What is known after the step of the task `key` in this frame was
    /// noted: a task that was seen before gets one more observation, and a
    /// task that is new gets its first. A task without progress and a frame
    /// without a frame before it leave everything as it is.
    pub open spec fn noted(self, key: Key, progress: Option<Progress>) -> Speeds {
        match (progress, self.elapsed) {
            (Some(p), Some(elapsed)) => Speeds {
                estimates: self.estimates.insert(
                    key,
                    if self.estimates.dom().contains(key) {
                        self.estimates[key].updated(p.step, elapsed)
                    } else {
                        Estimate::first(p.step, elapsed)
                    },
                ),
                ..self
            },
            _ => self,
        }
    }

    /// The speed of the task `key` once its step in this frame is noted:
    /// its estimate if it was seen before, and none yet if it is new.
    pub open spec fn speed_of(self, key: Key, progress: Option<Progress>) -> Option<
        display::Throughput,
    > {
        match (progress, self.elapsed) {
            (Some(p), Some(elapsed)) => if self.estimates.dom().contains(key) {
                self.estimates[key].updated(p.step, elapsed).throughput()
            } else {
                None
            },
            _ => None,
        }
    }

    /// What is known after the first `n` tasks of `tree` were noted one
    /// after the other.
    pub open spec fn noted_all(self, tree: Seq<(Key, crate::progress::TaskSnapshot)>, n: int)
        -> Speeds
        decreases n,
    {
        if n <= 0 {
            self
        } else {
            self.noted_all(tree, n - 1).noted(tree[n - 1].0, tree[n - 1].1.progress)
        }
    }

    /// The speed of each of the first `n` tasks of `tree` as they are noted
    /// one after the other.
    pub open spec fn speeds_of(self, tree: Seq<(Key, crate::progress::TaskSnapshot)>, n: int)
        -> Seq<Option<display::Throughput>>
        decreases n,
    {
        if n <= 0 {
            Seq::empty()
        } else {
            self.speeds_of(tree, n - 1).push(
                self.noted_all(tree, n - 1).speed_of(tree[n - 1].0, tree[n - 1].1.progress),
            )
        }
    }

    /// What is known when the tasks that `tree` does not list are forgotten.
    pub open spec fn reconciled<T>(self, tree: Seq<(Key, T)>) -> Speeds {
        Speeds { estimates: self.estimates.restrict(listed(tree)), ..self }
    }

    /// What is known after a frame at the time `now` that shows the tasks of
    /// `tree`.
    pub open spec fn observed(self, tree: Seq<(Key, crate::progress::TaskSnapshot)>, now: Time)
        -> Speeds {
        self.started(now).noted_all(tree, tree.len() as int).reconciled(tree)
    }
}

/// The mathematical values of the states in `rows`, by key.
pub open spec fn estimates_of(rows: Seq<(Key, State)>) -> Map<Key, Estimate> {
    Map::new(
        |k: Key| rows_map(rows).dom().contains(k),
        |k: Key| rows_map(rows)[k]@,
    )
}

/// An estimate of the speed of each task that a renderer shows.
#[derive(Debug)]
pub struct Throughput {
    sorted_by_key: Vec<(Key, State)>,
    updated_at: Option<Time>,
    elapsed: Option<Duration>,
}

impl View for Throughput {
    type V = Speeds;

    closed spec fn view(&self) -> Speeds {
        Speeds {
            estimates: estimates_of(self.sorted_by_key@),
            updated_at: self.updated_at,
            elapsed: match self.elapsed {
                Some(elapsed) => Some(elapsed@),
                None => None,
            },
        }
    }
}

impl Default for Throughput {
    fn default() -> (r: Self)
        ensures
            r@ == Speeds::none(),
    {
        let r = Throughput { sorted_by_key: Vec::new(), updated_at: None, elapsed: None };
        assert(r@.estimates =~= Map::<Key, Estimate>::empty());
        r
    }
}

impl Throughput {
    #[verifier::type_invariant]
    closed spec fn inv(self) -> bool {
        ascending(self.sorted_by_key@)
    }

    /// Starts a frame at the time `now`: the time since the frame before is
    /// what has elapsed, if there was a frame before and the clock did not
    /// go back.
    pub fn update_elapsed_at(&mut self, now: Time)
        ensures
            final(self)@ == old(self)@.started(now),
    {
        proof {
            use_type_invariant(&*self);
        }
        self.elapsed = match self.updated_at {
            Some(then) => now.duration_since(&then),
            None => None,
        };
        self.updated_at = Some(now);
    }

    /// Starts a frame at the time of the call.
    pub fn update_elapsed(&mut self)
        ensures
            final(self)@.estimates == old(self)@.estimates,
            final(self)@.updated_at is Some,
            final(self)@ == old(self)@.started(final(self)@.updated_at.unwrap()),
    {
        self.update_elapsed_at(Time::now());
    }

    /// Takes note of the step of the task `key` in this frame and returns
    /// the estimate of its speed. A task without progress and a first frame
    /// leave everything as it is; a task seen for the first time gets its
    /// first observation and no estimate yet.
    pub fn update_and_get(&mut self, key: &Key, progress: Option<&Progress>) -> (r: Option<
        display::Throughput,
    >)
        ensures
            final(self)@ == old(self)@.noted(
                *key,
                match progress {
                    Some(p) => Some(*p),
                    None => None,
                },
            ),
            r == old(self)@.speed_of(
                *key,
                match progress {
                    Some(p) => Some(*p),
                    None => None,
                },
            ),
    {
        proof {
            use_type_invariant(&*self);
        }
        let p = match progress {
            Some(p) => p,
            None => {
                return None;
            },
        };
        let elapsed = match self.elapsed {
            Some(e) => e,
            None => {
                return None;
            },
        };
        let mut rows: Vec<(Key, State)> = Vec::new();
        core::mem::swap(&mut self.sorted_by_key, &mut rows);
        let ghost before = rows@;
        let r = match find(rows.as_slice(), key) {
            Ok(index) => {
                let (_, mut state) = rows.remove(index);
                let tp = state.update(p.step, elapsed);
                proof {
                    lemma_row_is_entry(before, index as int);
                    lemma_replace_row(before, index as int, state);
                }
                rows.insert(index, (*key, state));
                assert(rows@ =~= before.update(index as int, (*key, state)));
                assert(estimates_of(rows@) =~= estimates_of(before).insert(*key, state@));
                tp
            },
            Err(index) => {
                let state = State::new(p.step, elapsed);
                let tp = state.throughput();
                proof {
                    Key::law_order_irreflexive(*key);
                    lemma_insert_row(before, index as int, *key, state);
                }
                rows.insert(index, (*key, state));
                assert(estimates_of(rows@) =~= estimates_of(before).insert(*key, state@));
                tp
            },
        };
        core::mem::swap(&mut self.sorted_by_key, &mut rows);
        r
    }

    /// Forgets the tasks that `sorted_values`, a snapshot in the order of
    /// its keys, no longer lists.
    pub fn reconcile<T>(&mut self, sorted_values: &[(Key, T)])
        requires
            ascending(sorted_values@),
        ensures
            final(self)@ == old(self)@.reconciled(sorted_values@),
    {
        proof {
            use_type_invariant(&*self);
        }
        let mut rows: Vec<(Key, State)> = Vec::new();
        core::mem::swap(&mut self.sorted_by_key, &mut rows);
        let ghost before = rows_map(rows@);
        let ghost present = listed(sorted_values@);
        let ghost mut dropped: Set<Key> = Set::empty();
        let mut i: usize = 0;
        assert(rows_map(rows@) =~= before.remove_keys(dropped));
        while i < rows.len()
            invariant
                i <= rows.len(),
                ascending(rows@),
                ascending(sorted_values@),
                present == listed(sorted_values@),
                rows_map(rows@) == before.remove_keys(dropped),
                forall|k: Key| #[trigger] dropped.contains(k) ==> !present.contains(k),
                forall|j: int| 0 <= j < i ==> present.contains((#[trigger] rows@[j]).0),
            decreases rows.len() - i,
        {
            let found = find(sorted_values, &rows[i].0);
            match found {
                Ok(at) => {
                    assert(sorted_values@[at as int].0 == rows@[i as int].0);
                    i = i + 1;
                },
                Err(at) => {
                    let ghost key = rows@[i as int].0;
                    let ghost current = rows@;
                    proof {
                        Key::law_order_irreflexive(key);
                        assert(!present.contains(key)) by {
                            if present.contains(key) {
                                let j = choose|j: int|
                                    0 <= j < sorted_values@.len() && (
                                    #[trigger] sorted_values@[j]).0 == key;
                                if j < at {
                                    assert(sorted_values@[j].0.before(key));
                                } else {
                                    assert(key.before(sorted_values@[j].0));
                                }
                            }
                        }
                        lemma_remove_row(current, i as int);
                    }
                    rows.remove(i);
                    proof {
                        assert(before.remove_keys(dropped).remove(key) =~= before.remove_keys(
                            dropped.insert(key),
                        ));
                        dropped = dropped.insert(key);
                        assert forall|j: int| 0 <= j < i implies present.contains(
                            (#[trigger] rows@[j]).0,
                        ) by {
                            assert(rows@[j] == current[j]);
                        }
                    }
                },
            }
        }
        proof {
            let last = rows@;
            assert forall|k: Key| #[trigger]
                rows_map(last).dom().contains(k) == before.restrict(present).dom().contains(
                    k,
                ) by {
                if rows_map(last).dom().contains(k) {
                    let j = choose|j: int| 0 <= j < last.len() && (#[trigger] last[j]).0 == k;
                    assert(present.contains(last[j].0));
                }
            }
            assert(rows_map(last) =~= before.restrict(present));
            assert(estimates_of(last) =~= old(self)@.estimates.restrict(present));
        }
        core::mem::swap(&mut self.sorted_by_key, &mut rows);
    }

    /// Takes note of a frame at the time `now` in which the tasks of
    /// `tree`, a snapshot in the order of its keys, are shown, and returns
    /// the speed of each task in that order.
    pub fn observe(&mut self, tree: &[(Key, crate::progress::TaskSnapshot)], now: Time) -> (r: Vec<
        Option<display::Throughput>,
    >)
        requires
            ascending(tree@),
        ensures
            final(self)@ == old(self)@.observed(tree@, now),
            r@ == old(self)@.started(now).speeds_of(tree@, tree@.len() as int),
            r@.len() == tree@.len(),
    {
        let mut r: Vec<Option<display::Throughput>> = Vec::new();
        self.update_elapsed_at(now);
        let ghost start = self@;
        let mut i: usize = 0;
        while i < tree.len()
            invariant
                i <= tree.len(),
                r@.len() == i,
                self@ == start.noted_all(tree@, i as int),
                r@ == start.speeds_of(tree@, i as int),
            decreases tree.len() - i,
        {
            let entry = &tree[i];
            let speed = self.update_and_get(&entry.0, entry.1.progress.as_ref());
            r.push(speed);
            i = i + 1;
        }
        self.reconcile(tree);
        r
    }
}

/// The speed of each task of `tree`, a snapshot in the order of its keys,
/// in a frame at the time `now`: none where no estimates are kept.
pub open spec fn observed_speeds(
    estimates: Option<Throughput>,
    tree: Seq<(Key, crate::progress::TaskSnapshot)>,
    now: Time,
) -> Seq<Option<display::Throughput>> {
    match estimates {
        Some(tp) => tp@.started(now).speeds_of(tree, tree.len() as int),
        None => Seq::new(tree.len(), |i: int| None),
    }
}

/// Takes note of a frame at the time `now` in which the tasks of `tree`, a
/// snapshot in the order of its keys, are shown, and returns the speed of
/// each task in that order. Without estimates there is no speed.
pub fn observe(
    estimates: &mut Option<Throughput>,
    tree: &[(Key, crate::progress::TaskSnapshot)],
    now: Time,
) -> (r: Vec<Option<display::Throughput>>)
    requires
        ascending(tree@),
    ensures
        r@ == observed_speeds(*old(estimates), tree@, now),
        r@.len() == tree@.len(),
        match *old(estimates) {
            Some(tp) => *final(estimates) is Some && final(estimates).unwrap()@ == tp@.observed(
                tree@,
                now,
            ),
            None => *final(estimates) is None,
        },
{
    let mut taken: Option<Throughput> = None;
    core::mem::swap(estimates, &mut taken);
    match taken {
        Some(mut tp) => {
            let r = tp.observe(tree, now);
            *estimates = Some(tp);
            r
        },
        None => {
            let mut r: Vec<Option<display::Throughput>> = Vec::new();
            let mut i: usize = 0;
            while i < tree.len()
                invariant
                    i <= tree.len(),
                    r@.len() == i,
                    forall|j: int| 0 <= j < r@.len() ==> r@[j] is None,
                    *estimates is None,
                decreases tree.len() - i,
            {
                r.push(None);
                i = i + 1;
            }
            assert(r@ =~= observed_speeds(None, tree@, now));
            r
        },
    }
}

/// A span of time in seconds with two decimal places, rounded to the
/// nearest hundredth.
pub open spec fn seconds_text(nanos: nat) -> Seq<char> {
    let hundredths = (nanos + 5_000_000) / 10_000_000;
    decimal(hundredths / 100) + seq![
        '.',
        digit((hundredths % 100 / 10) as int),
        digit((hundredths % 10) as int),
    ]
}

/// The unit of `step` steps after a space, or nothing if the unit has no
/// name.
pub open spec fn unit_suffix(unit: Unit, step: Step) -> Seq<char> {
    if unit.kind().unit_text(step).len() == 0 {
        Seq::empty()
    } else {
        seq![' '] + unit.kind().unit_text(step)
    }
}

/// What is said of work that is done: the steps that were made, the time
/// they took and the steps per second, in the unit of the work or, without
/// one, as items.
pub open spec fn throughput_report(step: Step, unit: Option<Unit>, elapsed: Duration) -> Seq<char> {
    let speed = per_second(step as nat, elapsed@);
    match unit {
        Some(unit) => "done "@ + unit.kind().current_value_text(step, None) + unit_suffix(unit, step)
            + " in "@ + seconds_text(elapsed@) + "s ("@ + unit.kind().current_value_text(
            speed,
            None,
        ) + unit_suffix(unit, step) + "/s)"@,
        None => "done "@ + decimal(step as nat) + " items in "@ + seconds_text(elapsed@) + "s ("@
            + decimal(speed as nat) + " items/s)"@,
    }
}

/// Appends a span of time in seconds with two decimal places.
fn push_seconds(w: &mut String, elapsed: Duration)
    ensures
        final(w)@ == old(w)@ + seconds_text(elapsed@),
{
    let hundredths: u128 = (elapsed.as_nanos() + 5_000_000) / 10_000_000;
    push_decimal(w, hundredths / 100);
    push_char(w, '.');
    push_char(w, (48u8 + ((hundredths % 100 / 10) as u8)) as char);
    push_char(w, (48u8 + ((hundredths % 10) as u8)) as char);
    assert(w@ =~= old(w)@ + seconds_text(elapsed@));
}

/// Appends the unit of `step` steps after a space, or nothing if the unit
/// has no name.
fn push_unit(w: &mut String, unit: &Unit, step: Step)
    ensures
        final(w)@ == old(w)@ + unit_suffix(*unit, step),
{
    let mut name = String::new();
    unit.kind_of().display_unit(&mut name, step);
    assert(name@ =~= unit.kind().unit_text(step));
    if name.as_str().unicode_len() != 0 {
        push_char(w, ' ');
        push_str(w, name.as_str());
    }
    assert(w@ =~= old(w)@ + unit_suffix(*unit, step));
}

/// What is said of work that is done after `elapsed`: the steps that were
/// made, the time they took and the steps per second.
pub fn show_throughput_text(step: Step, unit: Option<&Unit>, elapsed: Duration) -> (r: String)
    ensures
        r@ == throughput_report(
            step,
            match unit {
                Some(u) => Some(*u),
                None => None,
            },
            elapsed,
        ),
{
    let steps_per_second = rate(step, elapsed.as_nanos());
    let mut buf = String::new();
    push_str(&mut buf, "done ");
    match unit {
        Some(unit) => {
            let kind = unit.kind_of();
            kind.display_current_value(&mut buf, step, None);
            push_unit(&mut buf, unit, step);
            push_str(&mut buf, " in ");
            push_seconds(&mut buf, elapsed);
            push_str(&mut buf, "s (");
            kind.display_current_value(&mut buf, steps_per_second, None);
            push_unit(&mut buf, unit, step);
            push_str(&mut buf, "/s)");
            assert(buf@ =~= throughput_report(step, Some(*unit), elapsed));
        },
        None => {
            push_decimal(&mut buf, step as u128);
            push_str(&mut buf, " items in ");
            push_seconds(&mut buf, elapsed);
            push_str(&mut buf, "s (");
            push_decimal(&mut buf, steps_per_second as u128);
            push_str(&mut buf, " items/s)");
            assert(buf@ =~= throughput_report(step, None, elapsed));
        },
    }
    buf
}

} // verus!
