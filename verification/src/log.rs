//! A progress that is written to a log as it happens: how its names are
//! put together and what it writes.
use crate::messages::MessageLevel;
use crate::progress::{share, Step};
use crate::text::{decimal, push_char, push_decimal, push_str};
use crate::time::section;
use crate::unit::display::{display_text, What};
use crate::unit::Unit;
use std::sync::atomic::AtomicBool;
use std::sync::atomic::Ordering;
use std::sync::Arc;
use vstd::prelude::*;
use vstd::string::StrSliceExecFns;

verus! {

/// What separates the name of a progress from the name of its parent.
pub const SEP: &'static str = "::";

/// How grave a line of the log is.
#[derive(Copy, Clone, PartialEq, Eq, Structural, Debug)]
pub enum Severity {
    Info,
    Error,
}

/// A progress that is written to a log. A line is written at most each
/// time the trigger is set, which is up to who shares it.
#[derive(Debug)]
pub struct Log {
    name: String,
    max: Option<usize>,
    unit: Option<Unit>,
    step: usize,
    current_level: usize,
    max_level: usize,
    trigger: Arc<AtomicBool>,
}

/// Where the first separator stands in `s` at `from` or behind it.
pub open spec fn separator_at(s: Seq<char>, from: int) -> Option<int>
    decreases s.len() - from,
{
    if from < 0 || from + 1 >= s.len() {
        None
    } else if s[from] == ':' && s[from + 1] == ':' {
        Some(from)
    } else {
        separator_at(s, from + 1)
    }
}

/// The part of `s` from `from` up to the next separator, or up to the end.
pub open spec fn segment(s: Seq<char>, from: int) -> Seq<char> {
    match separator_at(s, from) {
        Some(at) => s.subrange(from, at),
        None => s.subrange(from, s.len() as int),
    }
}

/// The name of the parent: what stands in front of the first separator.
pub open spec fn parent_of(name: Seq<char>) -> Seq<char> {
    segment(name, 0)
}

/// The name of the progress itself: what stands between the first and the
/// second separator, if there is a separator at all.
pub open spec fn own_name(name: Seq<char>) -> Option<Seq<char>> {
    match separator_at(name, 0) {
        Some(at) => Some(segment(name, at + 2)),
        None => None,
    }
}

/// What a line of the log says of the progress: the steps in their unit, or
/// the steps and their bound as plain numbers.
pub open spec fn progress_text(step: Step, max: Option<usize>, unit: Option<Unit>) -> Seq<char> {
    match unit {
        Some(unit) => display_text(
            &unit.kind(),
            unit.mode(),
            What::ValuesAndUnit,
            step,
            max,
            None,
        ),
        None => match max {
            Some(max) => decimal(step as nat) + " / "@ + decimal(max as nat),
            None => decimal(step as nat),
        },
    }
}

/// The sign in front of a message of `level`.
pub open spec fn sign_of(level: MessageLevel) -> char {
    match level {
        MessageLevel::Info => '\u{2139}',
        MessageLevel::Failure => '\u{10102}',
        MessageLevel::Success => '\u{2713}',
    }
}

/// Where the first separator stands in `s` at `from` or behind it.
fn find_separator(s: &str, from: usize) -> (r: Option<usize>)
    ensures
        s@.len() <= usize::MAX,
        match r {
            Some(at) => separator_at(s@, from as int) == Some(at as int) && from <= at && at + 1
                < s@.len(),
            None => separator_at(s@, from as int) is None,
        },
{
    let len = s.unicode_len();
    let mut at = from;
    while at < len && len - at >= 2
        invariant
            from <= at,
            len == s@.len(),
            separator_at(s@, at as int) == separator_at(s@, from as int),
        decreases len - at,
    {
        if s.get_char(at) == ':' && s.get_char(at + 1) == ':' {
            return Some(at);
        }
        at = at + 1;
    }
    None
}

impl Log {
    /// The name with the names of all ancestors in front of it.
    pub closed spec fn full_name(self) -> Seq<char> {
        self.name@
    }

    /// The bound of the progress.
    pub closed spec fn bound(self) -> Option<usize> {
        self.max
    }

    /// The unit of the progress.
    pub closed spec fn shown_unit(self) -> Option<Unit> {
        self.unit
    }

    /// The current step.
    pub closed spec fn current(self) -> usize {
        self.step
    }

    /// How deep the progress is nested.
    pub closed spec fn level(self) -> usize {
        self.current_level
    }

    /// How deep progress may be nested to be written.
    pub closed spec fn deepest(self) -> usize {
        self.max_level
    }

    /// A progress called `name` that writes its children up to `max_level`
    /// levels deep, or all of them. A line is written when `trigger` is
    /// set, which takes the trigger back.
    pub fn new(name: String, max_level: Option<usize>, trigger: Arc<AtomicBool>) -> (r: Log)
        ensures
            r.full_name() == name@,
            r.level() == 0,
            r.deepest() == (match max_level {
                Some(level) => level,
                None => usize::MAX,
            }),
            r.bound().is_none(),
            r.shown_unit().is_none(),
            r.current() == 0,
    {
        Log {
            name,
            current_level: 0,
            max_level: match max_level {
                Some(level) => level,
                None => usize::MAX,
            },
            max: None,
            step: 0,
            unit: None,
            trigger,
        }
    }

    /// A progress called `name` one level below this one: its full name is
    /// the full name of this one, the separator and `name`.
    pub fn add_child(&mut self, name: String) -> (r: Log)
        ensures
            *final(self) == *old(self),
            r.full_name() == old(self).full_name() + SEP@ + name@,
            r.level() == if old(self).level() == usize::MAX {
                usize::MAX
            } else {
                (old(self).level() + 1) as usize
            },
            r.deepest() == old(self).deepest(),
            r.bound().is_none(),
            r.shown_unit().is_none(),
            r.current() == 0,
    {
        let mut full = self.name.clone();
        push_str(&mut full, SEP);
        push_str(&mut full, name.as_str());
        Log {
            name: full,
            current_level: self.current_level.saturating_add(1),
            max_level: self.max_level,
            step: 0,
            max: None,
            unit: None,
            trigger: share(&self.trigger),
        }
    }

    /// Sets the bound and the unit.
    pub fn init(&mut self, max: Option<usize>, unit: Option<Unit>)
        ensures
            final(self).bound() == max,
            final(self).shown_unit() == unit,
            final(self).full_name() == old(self).full_name(),
            final(self).current() == old(self).current(),
            final(self).level() == old(self).level(),
            final(self).deepest() == old(self).deepest(),
    {
        self.max = max;
        self.unit = unit;
    }

    /// The line that tells of the progress: the full name, an arrow and the
    /// steps.
    pub open spec fn line(self) -> Seq<char> {
        self.full_name() + " \u{2192} "@ + progress_text(
            self.current(),
            self.bound(),
            self.shown_unit(),
        )
    }

    /// The line that is written for the progress as it stands if the
    /// trigger has `fired`: none for a progress that is nested too deep.
    pub fn line_to_log(&self, fired: bool) -> (r: Option<String>)
        ensures
            fired && self.level() <= self.deepest() ==> r.is_some() && r.unwrap()@ == self.line(),
            !(fired && self.level() <= self.deepest()) ==> r.is_none(),
    {
        if self.current_level > self.max_level || !fired {
            return None;
        }
        let mut text = self.name.clone();
        push_str(&mut text, " \u{2192} ");
        match &self.unit {
            Some(unit) => {
                unit.display(self.step, self.max, None).write_to(&mut text);
            },
            None => {
                push_decimal(&mut text, self.step as u128);
                match self.max {
                    Some(max) => {
                        push_str(&mut text, " / ");
                        push_decimal(&mut text, max as u128);
                    },
                    None => {},
                }
            },
        }
        assert(text@ =~= self.line());
        Some(text)
    }

    /// Sets the current step to `step` and returns the line to write to the
    /// log, if the trigger was set: none for a progress that is nested too
    /// deep, which leaves the trigger alone.
    pub fn set(&mut self, step: usize) -> (r: Option<String>)
        ensures
            final(self).current() == step,
            final(self).full_name() == old(self).full_name(),
            final(self).bound() == old(self).bound(),
            final(self).shown_unit() == old(self).shown_unit(),
            final(self).level() == old(self).level(),
            final(self).deepest() == old(self).deepest(),
            r is Some ==> final(self).level() <= final(self).deepest() && r.unwrap()@ == final(self).line(),
            final(self).level() > final(self).deepest() ==> r.is_none(),
    {
        self.step = step;
        if self.current_level > self.max_level {
            return None;
        }
        let fired = self.trigger.swap(false, Ordering::Relaxed);
        self.line_to_log(fired)
    }

    /// Adds `step` to the current step, as far as steps can be counted, and
    /// returns the line to write to the log, if the trigger was set.
    pub fn inc_by(&mut self, step: usize) -> (r: Option<String>)
        ensures
            final(self).current() == if old(self).current() + step > usize::MAX {
                usize::MAX
            } else {
                (old(self).current() + step) as usize
            },
            final(self).full_name() == old(self).full_name(),
            r is Some ==> final(self).level() <= final(self).deepest() && r.unwrap()@ == final(self).line(),
    {
        let next = self.step.saturating_add(step);
        self.set(next)
    }

    /// The unit of the progress.
    pub fn unit(&self) -> (r: Option<Unit>)
        ensures
            r == self.shown_unit(),
    {
        self.unit
    }

    /// The bound of the progress.
    pub fn max(&self) -> (r: Option<usize>)
        ensures
            r == self.bound(),
    {
        self.max
    }

    /// The current step.
    pub fn step(&self) -> (r: usize)
        ensures
            r == self.current(),
    {
        self.step
    }

    /// Gives the progress the name `name` below its parent: the full name
    /// is what stood in front of the first separator, the separator and
    /// `name`.
    pub fn set_name(&mut self, name: String)
        ensures
            final(self).full_name() == parent_of(old(self).full_name()) + SEP@ + name@,
            final(self).current() == old(self).current(),
            final(self).bound() == old(self).bound(),
            final(self).shown_unit() == old(self).shown_unit(),
            final(self).level() == old(self).level(),
            final(self).deepest() == old(self).deepest(),
    {
        let end = match find_separator(self.name.as_str(), 0) {
            Some(at) => at,
            None => self.name.as_str().unicode_len(),
        };
        let mut full = section(self.name.as_str(), 0, end);
        push_str(&mut full, SEP);
        push_str(&mut full, name.as_str());
        self.name = full;
    }

    /// The name of the progress without the name of its parent, if it has
    /// one: what stands between the first separator and the next.
    pub fn name(&self) -> (r: Option<String>)
        ensures
            match own_name(self.full_name()) {
                Some(name) => r.is_some() && r.unwrap()@ == name,
                None => r.is_none(),
            },
    {
        match find_separator(self.name.as_str(), 0) {
            Some(at) => {
                let from = at + 2;
                let end = match find_separator(self.name.as_str(), from) {
                    Some(next) => next,
                    None => self.name.as_str().unicode_len(),
                };
                Some(section(self.name.as_str(), from, end))
            },
            None => None,
        }
    }

    /// The line that a message is written as and how grave it is: a
    /// failure is an error, everything else is information.
    pub fn message(&self, level: MessageLevel, message: String) -> (r: (Severity, String))
        ensures
            r.0 == (if level == MessageLevel::Failure {
                Severity::Error
            } else {
                Severity::Info
            }),
            r.1@ == seq![sign_of(level)] + self.full_name() + " \u{2192} "@ + message@,
    {
        let mut text = String::new();
        let (severity, sign) = match level {
            MessageLevel::Info => (Severity::Info, '\u{2139}'),
            MessageLevel::Failure => (Severity::Error, '\u{10102}'),
            MessageLevel::Success => (Severity::Info, '\u{2713}'),
        };
        push_char(&mut text, sign);
        push_str(&mut text, self.name.as_str());
        push_str(&mut text, " \u{2192} ");
        push_str(&mut text, message.as_str());
        assert(text@ =~= seq![sign_of(level)] + self.full_name() + " \u{2192} "@ + message@);
        (severity, text)
    }
}

} // verus!
