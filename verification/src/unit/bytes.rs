//! Byte counts in powers of a thousand, as in `1.0KB`.
use crate::progress::Step;
use crate::text::{push_without, without};
use crate::unit::{DisplayValue, Dynamic};
use vstd::prelude::*;

verus! {

/// A formatter of byte counts, with the unit as part of the value.
#[derive(Copy, Clone, Default, PartialEq, Eq, Structural, PartialOrd, Ord, Debug)]
pub struct Bytes;

/// The text that `bytesize::to_string` gives for `bytes` with units in
/// powers of a thousand, as in `1.0 KB`.
pub uninterp spec fn bytesize_text(bytes: u64) -> Seq<char>;

/// Calls `bytesize::to_string` with units in powers of a thousand. The text
/// is a function of the number alone.
#[verifier::external_body]
fn bytesize_to_string(bytes: u64) -> (r: String)
    ensures
        r@ == bytesize_text(bytes),
{
    bytesize::to_string(bytes, false)
}

impl Bytes {
    /// A byte count without the space between number and unit.
    pub open spec fn text(value: Step) -> Seq<char> {
        without(bytesize_text(value as u64), ' ')
    }

    /// Appends `value` as a byte count without a space between number and
    /// unit.
    pub fn format_bytes(w: &mut String, value: Step)
        ensures
            final(w)@ == old(w)@ + Bytes::text(value),
    {
        let string = bytesize_to_string(value as u64);
        push_without(w, string.as_str(), ' ');
    }
}

impl DisplayValue for Bytes {
    open spec fn current_value_text(&self, value: Step, upper: Option<Step>) -> Seq<char> {
        Bytes::text(value)
    }

    open spec fn separator_text(&self, value: Step, upper: Option<Step>) -> Seq<char> {
        seq!['/']
    }

    open spec fn upper_bound_text(&self, upper_bound: Step, value: Step) -> Seq<char> {
        Bytes::text(upper_bound)
    }

    open spec fn unit_text(&self, value: Step) -> Seq<char> {
        Seq::empty()
    }

    open spec fn dynamic_form(&self) -> Dynamic {
        Dynamic::Bytes(*self)
    }

    fn display_current_value(&self, w: &mut String, value: Step, upper: Option<Step>) {
        Bytes::format_bytes(w, value);
    }

    fn separator(&self, w: &mut String, value: Step, upper: Option<Step>) {
        crate::text::push_char(w, '/');
    }

    fn display_upper_bound(&self, w: &mut String, upper_bound: Step, value: Step) {
        Bytes::format_bytes(w, upper_bound);
    }

    fn display_unit(&self, w: &mut String, value: Step) {
        assert(w@ =~= w@ + Seq::<char>::empty());
    }

    fn into_dynamic(self) -> Dynamic {
        Dynamic::Bytes(self)
    }
}

} // verus!
