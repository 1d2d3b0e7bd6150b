//! Steps counted from one, as in `2 of 3 steps`.
use crate::progress::Step;
use crate::text::{decimal, push_decimal, push_str};
use crate::unit::{DisplayValue, Dynamic};
use vstd::prelude::*;

verus! {

/// A formatter for the step that is being worked on, counted from one.
#[derive(Copy, Clone, Default, Hash, PartialEq, Eq, PartialOrd, Ord, Debug)]
pub struct Range {
    /// The name of the steps, like `steps` or `files`.
    pub name: &'static str,
}

impl Range {
    /// A formatter for steps called `name`.
    pub fn new(name: &'static str) -> (r: Range)
        ensures
            r.name == name,
    {
        Range { name }
    }
}

impl DisplayValue for Range {
    open spec fn current_value_text(&self, value: Step, upper: Option<Step>) -> Seq<char> {
        decimal((value + 1) as nat)
    }

    open spec fn separator_text(&self, value: Step, upper: Option<Step>) -> Seq<char> {
        " of "@
    }

    open spec fn upper_bound_text(&self, upper_bound: Step, value: Step) -> Seq<char> {
        decimal(upper_bound as nat)
    }

    open spec fn unit_text(&self, value: Step) -> Seq<char> {
        self.name@
    }

    open spec fn dynamic_form(&self) -> Dynamic {
        Dynamic::Range(*self)
    }

    fn display_current_value(&self, w: &mut String, value: Step, upper: Option<Step>) {
        push_decimal(w, value as u128 + 1);
    }

    fn separator(&self, w: &mut String, value: Step, upper: Option<Step>) {
        push_str(w, " of ");
    }

    fn display_upper_bound(&self, w: &mut String, upper_bound: Step, value: Step) {
        push_decimal(w, upper_bound as u128);
    }

    fn display_unit(&self, w: &mut String, value: Step) {
        push_str(w, self.name);
    }

    fn into_dynamic(self) -> Dynamic {
        Dynamic::Range(self)
    }
}

} // verus!
