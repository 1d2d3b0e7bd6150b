//! What a formatter of progress values provides, and what is the same for
//! every formatter: percentages and throughput.
use crate::progress::Step;
use crate::text::{decimal, digit, push_char, push_decimal, push_str};
use crate::time::Duration;
use crate::unit::display::Throughput;
use crate::unit::Dynamic;
use vstd::prelude::*;

verus! {

/// The number of seconds in an hour.
pub const HOUR_IN_SECS: u64 = 3600;

/// The number of seconds in a minute.
pub const MINUTES_IN_SECS: u64 = 60;

/// The number of decimal places after which a quotient is cut.
pub const FRACTION_SCALE: u64 = 10_000;

/// A quotient of two whole numbers, as it arises when a span of time is
/// counted in hours or minutes.
#[derive(Copy, Clone, PartialEq, Eq, Structural, Debug)]
pub struct Fraction {
    pub numerator: u64,
    pub denominator: u64,
}

/// The places of a quotient after the decimal point: `rest` out of `scale`
/// parts, digit by digit, ending with the last digit that is not zero.
pub open spec fn fraction_digits(rest: nat, scale: nat) -> Seq<char>
    decreases scale,
{
    if rest == 0 || scale <= 1 {
        Seq::empty()
    } else {
        let unit = scale / 10;
        seq![digit((rest / unit) as int)] + fraction_digits(rest % unit, unit)
    }
}

/// A quotient in decimal: the whole part, and where something is left over,
/// a point and up to four places. A quotient by zero reads as zero.
pub open spec fn fraction_text(f: Fraction) -> Seq<char> {
    if f.denominator == 0 {
        decimal(0)
    } else {
        let rest = ((f.numerator % f.denominator) * FRACTION_SCALE / (f.denominator as int)) as nat;
        if rest == 0 {
            decimal((f.numerator / f.denominator) as nat)
        } else {
            decimal((f.numerator / f.denominator) as nat) + seq!['.'] + fraction_digits(
                rest,
                FRACTION_SCALE as nat,
            )
        }
    }
}

/// The quotient `numerator / denominator`, unless it is one.
pub open spec fn unless_one(numerator: u64, denominator: u64) -> Option<Fraction> {
    if numerator == denominator {
        None
    } else {
        Some(Fraction { numerator, denominator })
    }
}

/// How often the largest unit of time that fits goes into a span of
/// `nanos` nanoseconds; below a second the count is in milliseconds. A count
/// of one is left out.
pub open spec fn time_fraction(nanos: nat) -> Option<Fraction> {
    let secs = (nanos / 1_000_000_000) as u64;
    if secs / HOUR_IN_SECS > 0 {
        unless_one(secs, HOUR_IN_SECS)
    } else if secs / MINUTES_IN_SECS > 0 {
        unless_one(secs, MINUTES_IN_SECS)
    } else if secs > 0 {
        unless_one(secs, 1)
    } else {
        unless_one((nanos / 1_000_000) as u64, 1)
    }
}

/// The sign of the largest unit of time that fits into a span of `nanos`
/// nanoseconds.
pub open spec fn time_unit(nanos: nat) -> Seq<char> {
    let secs = (nanos / 1_000_000_000) as u64;
    if secs / HOUR_IN_SECS > 0 {
        "h"@
    } else if secs / MINUTES_IN_SECS > 0 {
        "m"@
    } else if secs > 0 {
        "s"@
    } else {
        "ms"@
    }
}

/// A percentage in brackets.
pub open spec fn percentage_text(percentage: usize) -> Seq<char> {
    seq!['['] + decimal(percentage as nat) + seq!['%', ']']
}

/// A change of value per span of time, between bars: the value as the
/// formatter `d` writes it, a stroke, and the span in its largest unit.
pub open spec fn throughput_text<D: DisplayValue>(d: &D, throughput: Throughput) -> Seq<char> {
    seq!['|'] + d.current_value_text(throughput.value_change_in_timespan, None) + seq!['/']
        + timespan_text(throughput.timespan@) + seq!['|']
}

/// A span of `nanos` nanoseconds in its largest unit of time: the count,
/// unless it is one, and the sign of the unit.
pub open spec fn timespan_text(nanos: nat) -> Seq<char> {
    (match time_fraction(nanos) {
        Some(f) => fraction_text(f),
        None => Seq::empty(),
    }) + time_unit(nanos)
}

/// Appends the places after the decimal point of `rest` out of `scale` parts.
fn push_fraction_digits(w: &mut String, rest: u64, scale: u64)
    requires
        rest < scale,
        scale == 1 || scale == 10 || scale == 100 || scale == 1000 || scale == 10000,
    ensures
        final(w)@ == old(w)@ + fraction_digits(rest as nat, scale as nat),
    decreases scale,
{
    if rest == 0 || scale <= 1 {
        assert(w@ =~= old(w)@ + fraction_digits(rest as nat, scale as nat));
        return ;
    }
    let unit = scale / 10;
    let d = rest / unit;
    assert(d < 10) by {
        if scale == 10 {
            assert(rest / 1 < 10);
        } else if scale == 100 {
            assert(rest / 10 < 10);
        } else if scale == 1000 {
            assert(rest / 100 < 10);
        } else {
            assert(rest / 1000 < 10);
        }
    }
    push_char(w, (48u8 + (d as u8)) as char);
    push_fraction_digits(w, rest % unit, unit);
    assert(final(w)@ =~= old(w)@ + fraction_digits(rest as nat, scale as nat));
}

/// Appends the quotient `f` in decimal.
pub fn push_fraction(w: &mut String, f: Fraction)
    ensures
        final(w)@ == old(w)@ + fraction_text(f),
{
    if f.denominator == 0 {
        push_decimal(w, 0);
        return ;
    }
    let whole = f.numerator / f.denominator;
    let left: u128 = (f.numerator % f.denominator) as u128;
    let rest: u128 = left * (FRACTION_SCALE as u128) / (f.denominator as u128);
    push_decimal(w, whole as u128);
    if rest != 0 {
        assert(rest < FRACTION_SCALE) by (nonlinear_arith)
            requires
                left < f.denominator,
                f.denominator > 0,
                rest as int == (left as int) * (FRACTION_SCALE as int) / (f.denominator as int),
        ;
        push_char(w, '.');
        push_fraction_digits(w, rest as u64, FRACTION_SCALE);
        assert(final(w)@ =~= old(w)@ + fraction_text(f));
    }
}

/// A way to write a progress value, its upper bound and its unit.
pub trait DisplayValue: Sized {
    /// What stands for the current `value`.
    spec fn current_value_text(&self, value: Step, upper: Option<Step>) -> Seq<char>;

    /// What stands between the value and its upper bound.
    spec fn separator_text(&self, value: Step, upper: Option<Step>) -> Seq<char>;

    /// What stands for the upper bound.
    spec fn upper_bound_text(&self, upper_bound: Step, value: Step) -> Seq<char>;

    /// What stands for the unit.
    spec fn unit_text(&self, value: Step) -> Seq<char>;

    /// The formatter as one of the built-in kinds.
    spec fn dynamic_form(&self) -> Dynamic;

    /// Appends the current `value`.
    fn display_current_value(&self, w: &mut String, value: Step, upper: Option<Step>)
        ensures
            final(w)@ == old(w)@ + self.current_value_text(value, upper),
    ;

    /// Appends what separates the value from its upper bound.
    fn separator(&self, w: &mut String, value: Step, upper: Option<Step>)
        ensures
            final(w)@ == old(w)@ + self.separator_text(value, upper),
    ;

    /// Appends the upper bound.
    fn display_upper_bound(&self, w: &mut String, upper_bound: Step, value: Step)
        ensures
            final(w)@ == old(w)@ + self.upper_bound_text(upper_bound, value),
    ;

    /// Appends the unit.
    fn display_unit(&self, w: &mut String, value: Step)
        ensures
            final(w)@ == old(w)@ + self.unit_text(value),
    ;

    /// The formatter as one of the built-in kinds.
    fn into_dynamic(self) -> (r: Dynamic)
        ensures
            r == self.dynamic_form(),
    ;

    /// Appends the percentage in brackets.
    fn display_percentage(&self, w: &mut String, percentage: usize)
        ensures
            final(w)@ == old(w)@ + percentage_text(percentage),
    {
        push_char(w, '[');
        push_decimal(w, percentage as u128);
        push_char(w, '%');
        push_char(w, ']');
        assert(final(w)@ =~= old(w)@ + percentage_text(percentage));
    }

    /// The count of the largest unit of time that fits into `timespan`, left
    /// out where it is one, and the sign of that unit.
    fn fraction_and_time_unit(&self, timespan: Duration) -> (r: (Option<Fraction>, &'static str))
        ensures
            r.0 == time_fraction(timespan@),
            r.1@ == time_unit(timespan@),
    {
        let secs = timespan.as_secs();
        if secs / HOUR_IN_SECS > 0 {
            return (skip_one(secs, HOUR_IN_SECS), "h");
        }
        if secs / MINUTES_IN_SECS > 0 {
            return (skip_one(secs, MINUTES_IN_SECS), "m");
        }
        if secs > 0 {
            return (skip_one(secs, 1), "s");
        }
        let millis = timespan.as_millis();
        assert(millis < 1000);
        (skip_one(millis as u64, 1), "ms")
    }

    /// Appends the throughput between bars, as in `|500/s|`.
    fn display_throughput(&self, w: &mut String, throughput: Throughput)
        ensures
            final(w)@ == old(w)@ + seq!['|'] + self.current_value_text(
                throughput.value_change_in_timespan,
                None,
            ) + seq!['/'] + timespan_text(throughput.timespan@) + seq!['|'],
    {
        let (fraction, unit) = self.fraction_and_time_unit(throughput.timespan);
        push_char(w, '|');
        self.display_current_value(w, throughput.value_change_in_timespan, None);
        push_char(w, '/');
        match fraction {
            Some(f) => push_fraction(w, f),
            None => {},
        }
        push_str(w, unit);
        push_char(w, '|');
        assert(final(w)@ =~= old(w)@ + seq!['|'] + self.current_value_text(
            throughput.value_change_in_timespan,
            None,
        ) + seq!['/'] + timespan_text(throughput.timespan@) + seq!['|']);
    }
}

/// The quotient `numerator / denominator`, unless it is one.
pub fn skip_one(numerator: u64, denominator: u64) -> (r: Option<Fraction>)
    ensures
        r == unless_one(numerator, denominator),
{
    if numerator == denominator {
        None
    } else {
        Some(Fraction { numerator, denominator })
    }
}

impl DisplayValue for &'static str {
    open spec fn current_value_text(&self, value: Step, upper: Option<Step>) -> Seq<char> {
        decimal(value as nat)
    }

    open spec fn separator_text(&self, value: Step, upper: Option<Step>) -> Seq<char> {
        seq!['/']
    }

    open spec fn upper_bound_text(&self, upper_bound: Step, value: Step) -> Seq<char> {
        decimal(upper_bound as nat)
    }

    open spec fn unit_text(&self, value: Step) -> Seq<char> {
        self@
    }

    open spec fn dynamic_form(&self) -> Dynamic {
        Dynamic::Label(*self)
    }

    fn display_current_value(&self, w: &mut String, value: Step, upper: Option<Step>) {
        push_decimal(w, value as u128);
    }

    fn separator(&self, w: &mut String, value: Step, upper: Option<Step>) {
        push_char(w, '/');
    }

    fn display_upper_bound(&self, w: &mut String, upper_bound: Step, value: Step) {
        push_decimal(w, upper_bound as u128);
    }

    fn display_unit(&self, w: &mut String, value: Step) {
        push_str(w, self);
    }

    fn into_dynamic(self) -> Dynamic {
        Dynamic::Label(self)
    }
}

} // verus!
