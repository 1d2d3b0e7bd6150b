//! Counts of seconds as days, hours, minutes and seconds, as in `5m`.
use crate::progress::Step;
use crate::text::{decimal, push_str};
use crate::unit::{DisplayValue, Dynamic};
use vstd::prelude::*;

verus! {

/// A formatter that reads a value as a number of seconds.
#[derive(Copy, Clone, Default, Hash, PartialEq, Eq, Structural, PartialOrd, Ord, Debug)]
pub struct Duration;

/// The number of seconds in a day.
pub const DAY_IN_SECS: usize = 86_400;

/// The number of seconds in an hour.
pub const HOUR_IN_SECS: usize = 3_600;

/// The number of seconds in a minute.
pub const MINUTE_IN_SECS: usize = 60;

/// One part of a compound duration: the count in decimal and the sign of
/// its unit, or nothing for a count of zero.
pub open spec fn dhms_part(count: nat, sign: char) -> Seq<char> {
    if count == 0 {
        Seq::empty()
    } else {
        decimal(count).push(sign)
    }
}

/// A number of seconds as days, hours, minutes and seconds, as in
/// `69d10h40m`: each part that is not zero with the sign of its unit, and
/// `0s` for no time at all.
pub open spec fn dhms_text(seconds: usize) -> Seq<char> {
    if seconds == 0 {
        seq!['0', 's']
    } else {
        let in_day = seconds as nat % DAY_IN_SECS as nat;
        let in_hour = in_day % HOUR_IN_SECS as nat;
        dhms_part(seconds as nat / DAY_IN_SECS as nat, 'd') + dhms_part(
            in_day / HOUR_IN_SECS as nat,
            'h',
        ) + dhms_part(in_hour / MINUTE_IN_SECS as nat, 'm') + dhms_part(
            in_hour % MINUTE_IN_SECS as nat,
            's',
        )
    }
}

/// Calls `compound_duration::format_dhms`, which writes the days, hours,
/// minutes and seconds that make up `seconds`, leaves out the parts that
/// are zero, and writes `0s` for zero.
#[verifier::external_body]
fn format_dhms(seconds: usize) -> (r: String)
    ensures
        r@ == dhms_text(seconds),
{
    compound_duration::format_dhms(seconds)
}

impl DisplayValue for Duration {
    open spec fn current_value_text(&self, value: Step, upper: Option<Step>) -> Seq<char> {
        dhms_text(value)
    }

    open spec fn separator_text(&self, value: Step, upper: Option<Step>) -> Seq<char> {
        " of "@
    }

    open spec fn upper_bound_text(&self, upper_bound: Step, value: Step) -> Seq<char> {
        dhms_text(upper_bound)
    }

    open spec fn unit_text(&self, value: Step) -> Seq<char> {
        Seq::empty()
    }

    open spec fn dynamic_form(&self) -> Dynamic {
        Dynamic::Duration(*self)
    }

    fn display_current_value(&self, w: &mut String, value: Step, upper: Option<Step>) {
        let text = format_dhms(value);
        push_str(w, text.as_str());
    }

    fn separator(&self, w: &mut String, value: Step, upper: Option<Step>) {
        push_str(w, " of ");
    }

    fn display_upper_bound(&self, w: &mut String, upper_bound: Step, value: Step) {
        let text = format_dhms(upper_bound);
        push_str(w, text.as_str());
    }

    fn display_unit(&self, w: &mut String, value: Step) {
        assert(w@ =~= w@ + Seq::<char>::empty());
    }

    fn into_dynamic(self) -> Dynamic {
        Dynamic::Duration(self)
    }
}

} // verus!
