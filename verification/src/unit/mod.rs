//! Units: how the value of a progress is written.
use crate::progress::Step;
use vstd::prelude::*;

pub mod bytes;
pub mod display;
pub mod duration;
pub mod human;
pub mod range;
pub mod traits;

pub use bytes::Bytes;
pub use duration::Duration;
pub use human::Human;
pub use range::Range;
pub use traits::DisplayValue;

verus! {

/// A formatter that is built into the library.
#[derive(Copy, Clone, PartialEq, Eq, Debug)]
pub enum Dynamic {
    /// A plain number followed by a name.
    Label(&'static str),
    /// Byte counts, as in `1.0KB`.
    Bytes(Bytes),
    /// Seconds as days, hours, minutes and seconds.
    Duration(Duration),
    /// Steps counted from one.
    Range(Range),
    /// Large numbers in a form easy to read.
    Human(Human),
}

/// What writes the values of a unit.
#[derive(Copy, Clone, PartialEq, Eq, Debug)]
pub enum Kind {
    /// A plain number followed by this name.
    Label(&'static str),
    /// One of the built-in formatters.
    Dynamic(Dynamic),
}

/// A way to write the value of a progress, with or without adornments.
#[derive(Copy, Clone, PartialEq, Eq, Debug)]
pub struct Unit {
    kind: Kind,
    mode: Option<display::Mode>,
}

impl DisplayValue for Dynamic {
    open spec fn current_value_text(&self, value: Step, upper: Option<Step>) -> Seq<char> {
        match self {
            Dynamic::Label(d) => d.current_value_text(value, upper),
            Dynamic::Bytes(d) => d.current_value_text(value, upper),
            Dynamic::Duration(d) => d.current_value_text(value, upper),
            Dynamic::Range(d) => d.current_value_text(value, upper),
            Dynamic::Human(d) => d.current_value_text(value, upper),
        }
    }

    open spec fn separator_text(&self, value: Step, upper: Option<Step>) -> Seq<char> {
        match self {
            Dynamic::Label(d) => d.separator_text(value, upper),
            Dynamic::Bytes(d) => d.separator_text(value, upper),
            Dynamic::Duration(d) => d.separator_text(value, upper),
            Dynamic::Range(d) => d.separator_text(value, upper),
            Dynamic::Human(d) => d.separator_text(value, upper),
        }
    }

    open spec fn upper_bound_text(&self, upper_bound: Step, value: Step) -> Seq<char> {
        match self {
            Dynamic::Label(d) => d.upper_bound_text(upper_bound, value),
            Dynamic::Bytes(d) => d.upper_bound_text(upper_bound, value),
            Dynamic::Duration(d) => d.upper_bound_text(upper_bound, value),
            Dynamic::Range(d) => d.upper_bound_text(upper_bound, value),
            Dynamic::Human(d) => d.upper_bound_text(upper_bound, value),
        }
    }

    open spec fn unit_text(&self, value: Step) -> Seq<char> {
        match self {
            Dynamic::Label(d) => d.unit_text(value),
            Dynamic::Bytes(d) => d.unit_text(value),
            Dynamic::Duration(d) => d.unit_text(value),
            Dynamic::Range(d) => d.unit_text(value),
            Dynamic::Human(d) => d.unit_text(value),
        }
    }

    open spec fn dynamic_form(&self) -> Dynamic {
        *self
    }

    fn display_current_value(&self, w: &mut String, value: Step, upper: Option<Step>) {
        match self {
            Dynamic::Label(d) => d.display_current_value(w, value, upper),
            Dynamic::Bytes(d) => d.display_current_value(w, value, upper),
            Dynamic::Duration(d) => d.display_current_value(w, value, upper),
            Dynamic::Range(d) => d.display_current_value(w, value, upper),
            Dynamic::Human(d) => d.display_current_value(w, value, upper),
        }
    }

    fn separator(&self, w: &mut String, value: Step, upper: Option<Step>) {
        match self {
            Dynamic::Label(d) => d.separator(w, value, upper),
            Dynamic::Bytes(d) => d.separator(w, value, upper),
            Dynamic::Duration(d) => d.separator(w, value, upper),
            Dynamic::Range(d) => d.separator(w, value, upper),
            Dynamic::Human(d) => d.separator(w, value, upper),
        }
    }

    fn display_upper_bound(&self, w: &mut String, upper_bound: Step, value: Step) {
        match self {
            Dynamic::Label(d) => d.display_upper_bound(w, upper_bound, value),
            Dynamic::Bytes(d) => d.display_upper_bound(w, upper_bound, value),
            Dynamic::Duration(d) => d.display_upper_bound(w, upper_bound, value),
            Dynamic::Range(d) => d.display_upper_bound(w, upper_bound, value),
            Dynamic::Human(d) => d.display_upper_bound(w, upper_bound, value),
        }
    }

    fn display_unit(&self, w: &mut String, value: Step) {
        match self {
            Dynamic::Label(d) => d.display_unit(w, value),
            Dynamic::Bytes(d) => d.display_unit(w, value),
            Dynamic::Duration(d) => d.display_unit(w, value),
            Dynamic::Range(d) => d.display_unit(w, value),
            Dynamic::Human(d) => d.display_unit(w, value),
        }
    }

    fn into_dynamic(self) -> Dynamic {
        self
    }
}

impl DisplayValue for Kind {
    open spec fn current_value_text(&self, value: Step, upper: Option<Step>) -> Seq<char> {
        match self {
            Kind::Label(d) => d.current_value_text(value, upper),
            Kind::Dynamic(d) => d.current_value_text(value, upper),
        }
    }

    open spec fn separator_text(&self, value: Step, upper: Option<Step>) -> Seq<char> {
        match self {
            Kind::Label(d) => d.separator_text(value, upper),
            Kind::Dynamic(d) => d.separator_text(value, upper),
        }
    }

    open spec fn upper_bound_text(&self, upper_bound: Step, value: Step) -> Seq<char> {
        match self {
            Kind::Label(d) => d.upper_bound_text(upper_bound, value),
            Kind::Dynamic(d) => d.upper_bound_text(upper_bound, value),
        }
    }

    open spec fn unit_text(&self, value: Step) -> Seq<char> {
        match self {
            Kind::Label(d) => d.unit_text(value),
            Kind::Dynamic(d) => d.unit_text(value),
        }
    }

    open spec fn dynamic_form(&self) -> Dynamic {
        match self {
            Kind::Label(d) => Dynamic::Label(*d),
            Kind::Dynamic(d) => *d,
        }
    }

    fn display_current_value(&self, w: &mut String, value: Step, upper: Option<Step>) {
        match self {
            Kind::Label(d) => d.display_current_value(w, value, upper),
            Kind::Dynamic(d) => d.display_current_value(w, value, upper),
        }
    }

    fn separator(&self, w: &mut String, value: Step, upper: Option<Step>) {
        match self {
            Kind::Label(d) => d.separator(w, value, upper),
            Kind::Dynamic(d) => d.separator(w, value, upper),
        }
    }

    fn display_upper_bound(&self, w: &mut String, upper_bound: Step, value: Step) {
        match self {
            Kind::Label(d) => d.display_upper_bound(w, upper_bound, value),
            Kind::Dynamic(d) => d.display_upper_bound(w, upper_bound, value),
        }
    }

    fn display_unit(&self, w: &mut String, value: Step) {
        match self {
            Kind::Label(d) => d.display_unit(w, value),
            Kind::Dynamic(d) => d.display_unit(w, value),
        }
    }

    fn into_dynamic(self) -> Dynamic {
        match self {
            Kind::Label(d) => Dynamic::Label(d),
            Kind::Dynamic(d) => d,
        }
    }
}

/// A unit that writes plain numbers followed by `name`.
pub fn label(name: &'static str) -> (r: Unit)
    ensures
        r.kind() == Kind::Label(name),
        r.mode().is_none(),
{
    Unit { kind: Kind::Label(name), mode: None }
}

/// A unit that writes plain numbers followed by `name`, adorned as `mode`
/// says.
pub fn label_and_mode(name: &'static str, mode: display::Mode) -> (r: Unit)
    ensures
        r.kind() == Kind::Label(name),
        r.mode() == Some(mode),
{
    Unit { kind: Kind::Label(name), mode: Some(mode) }
}

/// A unit that writes values as the formatter `label` does.
pub fn dynamic<D: DisplayValue>(label: D) -> (r: Unit)
    ensures
        r.kind() == Kind::Dynamic(label.dynamic_form()),
        r.mode().is_none(),
{
    Unit { kind: Kind::Dynamic(label.into_dynamic()), mode: None }
}

/// A unit that writes values as the formatter `label` does, adorned as
/// `mode` says.
pub fn dynamic_and_mode<D: DisplayValue>(label: D, mode: display::Mode) -> (r: Unit)
    ensures
        r.kind() == Kind::Dynamic(label.dynamic_form()),
        r.mode() == Some(mode),
{
    Unit { kind: Kind::Dynamic(label.into_dynamic()), mode: Some(mode) }
}

impl Unit {
    /// What writes the values.
    pub closed spec fn kind(self) -> Kind {
        self.kind
    }

    /// The adornments, if any.
    pub closed spec fn mode(self) -> Option<display::Mode> {
        self.mode
    }

    /// What writes the values.
    pub fn kind_of(&self) -> (r: Kind)
        ensures
            r == self.kind(),
    {
        self.kind
    }

    /// The adornments, if any.
    pub fn mode_of(&self) -> (r: Option<display::Mode>)
        ensures
            r == self.mode(),
    {
        self.mode
    }

    /// A display of `current_value` with its `upper_bound` and its
    /// throughput, values and unit.
    pub fn display(
        &self,
        current_value: Step,
        upper_bound: Option<Step>,
        throughput: Option<display::Throughput>,
    ) -> (r: display::UnitDisplay<'_>)
        ensures
            r.what() == display::What::ValuesAndUnit,
            r.showing(display::What::ValuesAndUnit) == r,
            forall|what: display::What| #[trigger]
                r.showing(what).text() == display::display_text(
                    &self.kind(),
                    self.mode(),
                    what,
                    current_value,
                    upper_bound,
                    throughput,
                ),
    {
        display::UnitDisplay::new(self, current_value, upper_bound, throughput)
    }
}

} // verus!
