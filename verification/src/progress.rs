//! The records of the progress tree: tasks, their progress and their state,
//! as they live in the tree and as a renderer reads them.
use crate::time::Time;
use crate::unit::traits::Fraction;
use crate::unit::Unit;
use std::sync::atomic::AtomicUsize;
use std::sync::atomic::Ordering;
use std::sync::Arc;
use vstd::prelude::*;

verus! {

/// Four bytes of function-local unique and stable identifier for each item
/// added as progress, like `b"TREE"` or `b"FILE"`.
pub type Id = [u8; 4];

/// The identifier of a task that needs none.
pub const UNKNOWN: Id = [0, 0, 0, 0];

/// The amount of steps a progress can make.
pub type Step = usize;

/// A step counter that is shared between a producer and the readers of
/// snapshots. Nothing is known of its value, which any holder may change at
/// any time.
pub type StepShared = Arc<AtomicUsize>;

/// Whether progress can or cannot be made.
#[derive(Copy, Clone, PartialEq, Eq, PartialOrd, Ord, Debug)]
pub enum State {
    /// The task is blocked and cannot indicate progress, optionally until the
    /// given time. The task cannot easily be interrupted.
    Blocked(&'static str, Option<Time>),
    /// The task cannot indicate progress, optionally until the given time.
    /// The task can be interrupted.
    Halted(&'static str, Option<Time>),
    /// The task is running.
    Running,
}

impl Default for State {
    fn default() -> (r: Self)
        ensures
            r == State::Running,
    {
        State::Running
    }
}

/// Progress associated with some item in the progress tree.
#[derive(Clone, Debug)]
pub struct Value {
    /// The amount of progress currently made.
    pub step: StepShared,
    /// The step at which no further progress has to be made.
    ///
    /// If unset, the progress is unbounded.
    pub done_at: Option<Step>,
    /// The unit associated with the progress.
    pub unit: Option<Unit>,
    /// Whether progress can be made or not.
    pub state: State,
}

/// The value associated with a spot in the hierarchy.
#[derive(Clone, Debug)]
pub struct Task {
    /// The name of the item or task.
    pub name: String,
    /// The stable identifier of the task.
    pub id: Id,
    /// The progress, or nothing for a task that only groups others.
    pub progress: Option<Value>,
}

/// The progress of a task as it was at one moment.
#[derive(Copy, Clone, PartialEq, Eq, Debug)]
pub struct Progress {
    /// The amount of progress made at that moment.
    pub step: Step,
    /// The step at which no further progress has to be made.
    pub done_at: Option<Step>,
    /// The unit associated with the progress.
    pub unit: Option<Unit>,
    /// Whether progress can be made or not.
    pub state: State,
}

/// A task as it was at one moment.
#[derive(Clone, PartialEq, Eq, Debug)]
pub struct TaskSnapshot {
    /// The name of the item or task.
    pub name: String,
    /// The stable identifier of the task.
    pub id: Id,
    /// The progress, or nothing for a task that only groups others.
    pub progress: Option<Progress>,
}

/// A second handle to what `shared` points to, by `Arc::clone`. Both
/// handles point to the same value.
#[verifier::external_body]
pub(crate) fn share<T>(shared: &Arc<T>) -> (r: Arc<T>)
    ensures
        r == *shared,
{
    Arc::clone(shared)
}

/// A counter of its own that starts at `step`.
pub fn new_counter(step: Step) -> StepShared {
    Arc::new(AtomicUsize::new(step))
}

/// What the counter holds at this moment.
pub fn read(counter: &StepShared) -> Step {
    counter.load(Ordering::Relaxed)
}

/// True if `progress` holds what `value` held at a moment: everything but
/// the step is the same.
pub open spec fn is_reading_of(progress: Progress, value: Value) -> bool {
    &&& progress.done_at == value.done_at
    &&& progress.unit == value.unit
    &&& progress.state == value.state
}

/// True if `snapshot` holds what `task` held at a moment: everything but
/// the step is the same.
pub open spec fn is_snapshot_of(snapshot: TaskSnapshot, task: Task) -> bool {
    &&& snapshot.name@ == task.name@
    &&& snapshot.id == task.id
    &&& match (snapshot.progress, task.progress) {
        (None, None) => true,
        (Some(progress), Some(value)) => is_reading_of(progress, value),
        _ => false,
    }
}

impl Value {
    /// A running progress on the counter `step`.
    pub fn new(step: StepShared, done_at: Option<Step>, unit: Option<Unit>) -> (r: Value)
        ensures
            r.step == step,
            r.done_at == done_at,
            r.unit == unit,
            r.state == State::Running,
    {
        Value { step, done_at, unit, state: State::Running }
    }

    /// The progress with a fresh reading of its counter.
    pub fn snapshot(&self) -> (r: Progress)
        ensures
            is_reading_of(r, *self),
    {
        Progress {
            step: read(&self.step),
            done_at: self.done_at,
            unit: self.unit,
            state: self.state,
        }
    }

    /// The same progress on the same counter.
    pub fn duplicate(&self) -> (r: Value)
        ensures
            r == *self,
    {
        Value {
            step: share(&self.step),
            done_at: self.done_at,
            unit: self.unit,
            state: self.state,
        }
    }
}

impl Default for Task {
    /// A task without a name, without an identifier and without progress.
    fn default() -> (r: Self)
        ensures
            r.name@ == Seq::<char>::empty(),
            r.id == UNKNOWN,
            r.progress.is_none(),
    {
        Task { name: String::new(), id: UNKNOWN, progress: None }
    }
}

impl Task {
    /// The task with a fresh reading of its counter.
    pub fn snapshot(&self) -> (r: TaskSnapshot)
        ensures
            is_snapshot_of(r, *self),
    {
        TaskSnapshot {
            name: self.name.clone(),
            id: self.id,
            progress: match &self.progress {
                Some(value) => Some(value.snapshot()),
                None => None,
            },
        }
    }

    /// The same task on the same counter.
    pub fn duplicate(&self) -> (r: Task)
        ensures
            r.name@ == self.name@,
            r.id == self.id,
            r.progress == self.progress,
    {
        Task {
            name: self.name.clone(),
            id: self.id,
            progress: match &self.progress {
                Some(value) => Some(value.duplicate()),
                None => None,
            },
        }
    }
}

impl Default for TaskSnapshot {
    /// A task without a name, without an identifier and without progress.
    fn default() -> (r: Self)
        ensures
            r.name@ == Seq::<char>::empty(),
            r.id == UNKNOWN,
            r.progress.is_none(),
    {
        TaskSnapshot { name: String::new(), id: UNKNOWN, progress: None }
    }
}

impl TaskSnapshot {
    /// A snapshot with the same content.
    pub fn duplicate(&self) -> (r: TaskSnapshot)
        ensures
            r.name@ == self.name@,
            r.id == self.id,
            r.progress == self.progress,
    {
        TaskSnapshot { name: self.name.clone(), id: self.id, progress: self.progress }
    }
}

/// The part of `width` that the first `step` of `done_at` steps take,
/// rounded down. More steps than `done_at` count as `done_at`, and a
/// progress that is done at zero counts as done.
pub open spec fn share_of(width: int, step: int, done_at: int) -> int {
    if done_at <= 0 || step >= done_at {
        width
    } else {
        width * step / done_at
    }
}

/// The part of `width` that the first `step` of `done_at` steps take,
/// rounded up. More steps than `done_at` count as `done_at`, and a
/// progress that is done at zero counts as done.
pub open spec fn share_of_rounded_up(width: int, step: int, done_at: int) -> int {
    if done_at <= 0 || step >= done_at {
        width
    } else {
        (width * step + done_at - 1) / done_at
    }
}

impl Progress {
    /// The part of the work that is done, as the quotient of the step and
    /// the step at which the work is done; `None` if the progress is
    /// unbounded.
    pub fn fraction(&self) -> (r: Option<Fraction>)
        ensures
            r == match self.done_at {
                Some(done_at) => Some(
                    Fraction { numerator: self.step as u64, denominator: done_at as u64 },
                ),
                None => None,
            },
    {
        match self.done_at {
            Some(done_at) => Some(
                Fraction { numerator: self.step as u64, denominator: done_at as u64 },
            ),
            None => None,
        }
    }
}

/// The product of both numbers.
fn times(a: u64, b: u16) -> (r: u128)
    ensures
        r == a * b,
        r == b * a,
        r <= 0xFFFF_FFFF_FFFF_FFFF * 0xFFFF,
{
    assert(a * b <= 0xFFFF_FFFF_FFFF_FFFF * 0xFFFF && a * b == b * a) by (nonlinear_arith)
        requires
            0 <= a <= 0xFFFF_FFFF_FFFF_FFFF,
            0 <= b <= 0xFFFF,
    ;
    (a as u128) * (b as u128)
}

impl Fraction {
    /// True if the quotient is at least `hundredths` hundredths. A quotient
    /// by zero is taken as one.
    pub open spec fn reaches(self, hundredths: int) -> bool {
        self.denominator == 0 || self.numerator * 100 >= self.denominator * hundredths
    }

    /// True if the quotient is more than `hundredths` hundredths. A quotient
    /// by zero is taken as one.
    pub open spec fn exceeds(self, hundredths: int) -> bool {
        self.denominator == 0 || self.numerator * 100 > self.denominator * hundredths
    }

    /// True if the quotient is at least `hundredths` hundredths.
    pub fn is_at_least(&self, hundredths: u8) -> (r: bool)
        ensures
            r == self.reaches(hundredths as int),
    {
        self.denominator == 0 || times(self.numerator, 100) >= times(
            self.denominator,
            hundredths as u16,
        )
    }

    /// True if the quotient is more than `hundredths` hundredths.
    pub fn is_more_than(&self, hundredths: u8) -> (r: bool)
        ensures
            r == self.exceeds(hundredths as int),
    {
        self.denominator == 0 || times(self.numerator, 100) > times(
            self.denominator,
            hundredths as u16,
        )
    }

    /// The part of `width` that the quotient takes, rounded down and no
    /// more than `width`.
    pub fn of(&self, width: u16) -> (r: u16)
        ensures
            r == share_of(width as int, self.numerator as int, self.denominator as int),
            r <= width,
    {
        if self.denominator == 0 || self.numerator >= self.denominator {
            width
        } else {
            let scaled: u128 = times(self.numerator, width) / (self.denominator as u128);
            assert(scaled <= width) by (nonlinear_arith)
                requires
                    scaled as int == (width as int) * (self.numerator as int) / (
                    self.denominator as int),
                    self.numerator < self.denominator,
            ;
            scaled as u16
        }
    }

    /// The part of `width` that the quotient takes, rounded up and no more
    /// than `width`.
    pub fn of_rounded_up(&self, width: u16) -> (r: u16)
        ensures
            r == share_of_rounded_up(width as int, self.numerator as int, self.denominator as int),
            r <= width,
    {
        if self.denominator == 0 || self.numerator >= self.denominator {
            width
        } else {
            let scaled: u128 = (times(self.numerator, width) + (self.denominator as u128) - 1) / (
            self.denominator as u128);
            assert(scaled <= width) by (nonlinear_arith)
                requires
                    scaled as int == ((width as int) * (self.numerator as int) + (
                    self.denominator as int) - 1) / (self.denominator as int),
                    self.numerator < self.denominator,
                    width >= 0,
            ;
            scaled as u16
        }
    }
}

/// A progress that discards everything it is told.
#[derive(Copy, Clone, PartialEq, Eq, Structural, Debug)]
pub struct Discard;

/// One of two kinds of progress.
#[derive(Debug)]
pub enum Either<L, R> {
    Left(L),
    Right(R),
}

/// A progress that may be there or not: what is told to a progress that is
/// not there is discarded.
#[derive(Debug)]
pub struct DoOrDiscard<T>(Either<T, Discard>);

impl<T> View for DoOrDiscard<T> {
    type V = Option<T>;

    /// The progress, if it is there.
    closed spec fn view(&self) -> Option<T> {
        match self.0 {
            Either::Left(p) => Some(p),
            Either::Right(_) => None,
        }
    }
}

impl<T> From<Option<T>> for DoOrDiscard<T> {
    /// A progress that is there if `p` is.
    fn from(p: Option<T>) -> (r: Self)
        ensures
            r@ == p,
    {
        match p {
            Some(p) => DoOrDiscard(Either::Left(p)),
            None => DoOrDiscard(Either::Right(Discard)),
        }
    }
}

impl<T> vstd::std_specs::convert::FromSpecImpl<Option<T>> for DoOrDiscard<T> {
    open spec fn obeys_from_spec() -> bool {
        true
    }

    closed spec fn from_spec(p: Option<T>) -> Self {
        match p {
            Some(p) => DoOrDiscard(Either::Left(p)),
            None => DoOrDiscard(Either::Right(Discard)),
        }
    }
}

impl<T> DoOrDiscard<T> {
    /// A progress that is there if `p` is.
    pub fn new(p: Option<T>) -> (r: Self)
        ensures
            r@ == p,
    {
        match p {
            Some(p) => DoOrDiscard(Either::Left(p)),
            None => DoOrDiscard(Either::Right(Discard)),
        }
    }

    /// A reference to the progress, if it is there.
    pub fn get(&self) -> (r: Option<&T>)
        ensures
            r == (match self@ {
                Some(p) => Some(&p),
                None => None,
            }),
    {
        match &self.0 {
            Either::Left(p) => Some(p),
            Either::Right(_) => None,
        }
    }

    /// A mutable reference to the progress, if it is there. Nothing else
    /// changes.
    pub fn get_mut(&mut self) -> (r: Option<&mut T>)
        ensures
            match r {
                Some(p) => old(self)@ == Some(*p) && final(self)@ == Some(*final(p)),
                None => old(self)@.is_none() && final(self)@.is_none(),
            },
    {
        match &mut self.0 {
            Either::Left(p) => Some(p),
            Either::Right(_) => None,
        }
    }

    /// The progress, if it is there.
    pub fn into_inner(self) -> (r: Option<T>)
        ensures
            r == self@,
    {
        match self {
            DoOrDiscard(Either::Left(p)) => Some(p),
            DoOrDiscard(Either::Right(_)) => None,
        }
    }

    /// Takes the progress out, if it is there, and leaves one that discards
    /// everything.
    pub fn take(&mut self) -> (r: Option<T>)
        ensures
            r == old(self)@,
            final(self)@.is_none(),
    {
        let mut this = DoOrDiscard::new(None);
        core::mem::swap(self, &mut this);
        this.into_inner()
    }
}

} // verus!
