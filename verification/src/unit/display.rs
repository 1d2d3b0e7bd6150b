//! Putting a value, its upper bound, its unit, a percentage and a throughput
//! into one line of text.
use crate::progress::Step;
use crate::text::push_char;
use crate::time::Duration;
use crate::unit::{DisplayValue, Kind, Unit};
use vstd::prelude::*;
use vstd::string::StrSliceExecFns;

verus! {

/// The location at which a percentage or a throughput is placed.
#[derive(Copy, Clone, PartialEq, Eq, Structural, PartialOrd, Ord, Debug)]
pub enum Location {
    BeforeValue,
    AfterUnit,
}

/// A change of a value within a span of time.
#[derive(Copy, Clone, PartialEq, Eq, Structural, PartialOrd, Ord, Debug)]
pub struct Throughput {
    /// The change of value between the current value and the previous one.
    pub value_change_in_timespan: Step,
    /// The amount of time passed between the previous and the current value.
    pub timespan: Duration,
}

impl Throughput {
    /// A throughput of `value_change_in_timespan` per `timespan`.
    pub fn new(value_change_in_timespan: Step, timespan: Duration) -> (r: Throughput)
        ensures
            r.value_change_in_timespan == value_change_in_timespan,
            r.timespan == timespan,
    {
        Throughput { value_change_in_timespan, timespan }
    }
}

/// A way to display a unit: with a percentage, a throughput or both, and on
/// which side of the value.
#[derive(Copy, Clone, PartialEq, Eq, Structural, PartialOrd, Ord, Debug)]
pub struct Mode {
    location: Location,
    percent: bool,
    throughput: bool,
}

impl Mode {
    /// Where the adornments go.
    pub closed spec fn location(self) -> Location {
        self.location
    }

    /// Whether a percentage is shown.
    pub closed spec fn percent(self) -> bool {
        self.percent
    }

    /// Whether a throughput is shown.
    pub closed spec fn throughput(self) -> bool {
        self.throughput
    }

    /// Where the percentage goes, if it is shown.
    pub fn percent_location(&self) -> (r: Option<Location>)
        ensures
            r == if self.percent() {
                Some(self.location())
            } else {
                None
            },
    {
        if self.percent {
            Some(self.location)
        } else {
            None
        }
    }

    /// Where the throughput goes, if it is shown.
    pub fn throughput_location(&self) -> (r: Option<Location>)
        ensures
            r == if self.throughput() {
                Some(self.location())
            } else {
                None
            },
    {
        if self.throughput {
            Some(self.location)
        } else {
            None
        }
    }

    /// A mode with a percentage only, after the unit.
    pub fn with_percentage() -> (r: Mode)
        ensures
            r.percent(),
            !r.throughput(),
            r.location() == Location::AfterUnit,
    {
        Mode { percent: true, throughput: false, location: Location::AfterUnit }
    }

    /// A mode with a throughput only, after the unit.
    pub fn with_throughput() -> (r: Mode)
        ensures
            !r.percent(),
            r.throughput(),
            r.location() == Location::AfterUnit,
    {
        Mode { percent: false, throughput: true, location: Location::AfterUnit }
    }

    /// Turns on the percentage.
    pub fn and_percentage(self) -> (r: Mode)
        ensures
            r.percent(),
            r.throughput() == self.throughput(),
            r.location() == self.location(),
    {
        Mode { percent: true, throughput: self.throughput, location: self.location }
    }

    /// Turns on the throughput.
    pub fn and_throughput(self) -> (r: Mode)
        ensures
            r.percent() == self.percent(),
            r.throughput(),
            r.location() == self.location(),
    {
        Mode { percent: self.percent, throughput: true, location: self.location }
    }

    /// Moves the adornments in front of the value.
    pub fn show_before_value(self) -> (r: Mode)
        ensures
            r.percent() == self.percent(),
            r.throughput() == self.throughput(),
            r.location() == Location::BeforeValue,
    {
        Mode { percent: self.percent, throughput: self.throughput, location: Location::BeforeValue }
    }
}

/// Which parts of a unit display are written.
#[derive(Copy, Clone, PartialEq, Eq, Structural, Debug)]
pub enum What {
    ValuesAndUnit,
    Unit,
    Values,
}

impl What {
    /// True if the values are written.
    pub fn values(&self) -> (r: bool)
        ensures
            r == (*self != What::Unit),
    {
        match self {
            What::Values | What::ValuesAndUnit => true,
            What::Unit => false,
        }
    }

    /// True if the unit is written.
    pub fn unit(&self) -> (r: bool)
        ensures
            r == (*self != What::Values),
    {
        match self {
            What::Unit | What::ValuesAndUnit => true,
            What::Values => false,
        }
    }
}

/// The whole percent that `value` is of `upper`, rounded down. Of an upper
/// bound of zero, nothing is none of it and anything else is more than can
/// be counted.
pub open spec fn percent_of(value: Step, upper: Step) -> usize {
    if upper == 0 {
        if value == 0 {
            0
        } else {
            usize::MAX
        }
    } else if value * 100 / (upper as int) > usize::MAX {
        usize::MAX
    } else {
        (value * 100 / (upper as int)) as usize
    }
}

/// The whole percent that `value` is of `upper`, rounded down.
pub fn percentage(value: Step, upper: Step) -> (r: usize)
    ensures
        r == percent_of(value, upper),
{
    if upper == 0 {
        if value == 0 {
            0
        } else {
            usize::MAX
        }
    } else {
        let scaled: u128 = (value as u128) * 100 / (upper as u128);
        if scaled > usize::MAX as u128 {
            usize::MAX
        } else {
            scaled as usize
        }
    }
}

/// The percentage to show and its place: only with an upper bound and a mode
/// that asks for it.
pub open spec fn shown_percent(mode: Option<Mode>, value: Step, upper: Option<Step>) -> Option<
    (Location, usize),
> {
    match (upper, mode) {
        (Some(u), Some(m)) => if m.percent() {
            Some((m.location(), percent_of(value, u)))
        } else {
            None
        },
        _ => None,
    }
}

/// The throughput to show and its place: only where there is one and the
/// mode asks for it.
pub open spec fn shown_throughput(mode: Option<Mode>, throughput: Option<Throughput>) -> Option<
    (Location, Throughput),
> {
    match (throughput, mode) {
        (Some(t), Some(m)) => if m.throughput() {
            Some((m.location(), t))
        } else {
            None
        },
        _ => None,
    }
}

/// True if `text` takes more than one byte in UTF-8.
pub open spec fn longer_than_a_byte(text: Seq<char>) -> bool {
    text.len() > 1 || (text.len() == 1 && (text[0] as u32) >= 0x80)
}

/// The values of a display: percentage and throughput where they go in
/// front, the value, and the upper bound where there is one.
pub open spec fn values_text<D: DisplayValue>(
    d: &D,
    percent: Option<(Location, usize)>,
    throughput: Option<(Location, Throughput)>,
    value: Step,
    upper: Option<Step>,
) -> Seq<char> {
    (match percent {
        Some((Location::BeforeValue, p)) => crate::unit::traits::percentage_text(p) + seq![' '],
        _ => Seq::empty(),
    }) + (match throughput {
        Some((Location::BeforeValue, t)) => crate::unit::traits::throughput_text(d, t) + seq![' '],
        _ => Seq::empty(),
    }) + d.current_value_text(value, upper) + (match upper {
        Some(u) => d.separator_text(value, upper) + d.upper_bound_text(u, value),
        None => Seq::empty(),
    })
}

/// The unit of a display, after a space if values stand in front of it; a
/// unit that takes a single byte or less is left out.
pub open spec fn unit_part<D: DisplayValue>(d: &D, with_values: bool, value: Step) -> Seq<char> {
    let buf = if with_values {
        seq![' '] + d.unit_text(value)
    } else {
        d.unit_text(value)
    };
    if longer_than_a_byte(buf) {
        buf
    } else {
        Seq::empty()
    }
}

/// The unit of a display with percentage and throughput where they go behind.
pub open spec fn unit_side_text<D: DisplayValue>(
    d: &D,
    percent: Option<(Location, usize)>,
    throughput: Option<(Location, Throughput)>,
    with_values: bool,
    value: Step,
) -> Seq<char> {
    unit_part(d, with_values, value) + (match percent {
        Some((Location::AfterUnit, p)) => seq![' '] + crate::unit::traits::percentage_text(p),
        _ => Seq::empty(),
    }) + (match throughput {
        Some((Location::AfterUnit, t)) => seq![' '] + crate::unit::traits::throughput_text(d, t),
        _ => Seq::empty(),
    })
}

/// The text of a display: the values and the unit, as far as `what` asks
/// for them.
pub open spec fn display_text<D: DisplayValue>(
    d: &D,
    mode: Option<Mode>,
    what: What,
    value: Step,
    upper: Option<Step>,
    throughput: Option<Throughput>,
) -> Seq<char> {
    (if what != What::Unit {
        values_text(
            d,
            shown_percent(mode, value, upper),
            shown_throughput(mode, throughput),
            value,
            upper,
        )
    } else {
        Seq::empty()
    }) + (if what != What::Values {
        unit_side_text(
            d,
            shown_percent(mode, value, upper),
            shown_throughput(mode, throughput),
            what != What::Unit,
            value,
        )
    } else {
        Seq::empty()
    })
}

/// True if `text` takes more than one byte in UTF-8.
pub fn is_longer_than_a_byte(text: &str) -> (r: bool)
    ensures
        r == longer_than_a_byte(text@),
{
    let n = text.unicode_len();
    if n > 1 {
        true
    } else if n == 1 {
        let c = text.get_char(0);
        (c as u32) >= 0x80
    } else {
        false
    }
}

/// Appends a percentage or a throughput that goes to `side`, with a space
/// between it and the value.
fn write_adornments<D: DisplayValue>(
    d: &D,
    w: &mut String,
    percent: Option<(Location, usize)>,
    throughput: Option<(Location, Throughput)>,
    side: Location,
)
    ensures
        final(w)@ == old(w)@ + (match percent {
            Some((at, p)) => if at == side {
                if side == Location::BeforeValue {
                    crate::unit::traits::percentage_text(p) + seq![' ']
                } else {
                    seq![' '] + crate::unit::traits::percentage_text(p)
                }
            } else {
                Seq::empty()
            },
            None => Seq::empty(),
        }) + (match throughput {
            Some((at, t)) => if at == side {
                if side == Location::BeforeValue {
                    crate::unit::traits::throughput_text(d, t) + seq![' ']
                } else {
                    seq![' '] + crate::unit::traits::throughput_text(d, t)
                }
            } else {
                Seq::empty()
            },
            None => Seq::empty(),
        }),
{
    let ghost start = w@;
    match percent {
        Some((at, p)) => {
            if at == side {
                match side {
                    Location::BeforeValue => {
                        d.display_percentage(w, p);
                        push_char(w, ' ');
                        assert(w@ =~= start + (crate::unit::traits::percentage_text(p) + seq![' ']));
                    },
                    Location::AfterUnit => {
                        push_char(w, ' ');
                        d.display_percentage(w, p);
                        assert(w@ =~= start + (seq![' '] + crate::unit::traits::percentage_text(p)));
                    },
                }
            } else {
                assert(w@ =~= start + Seq::<char>::empty());
            }
        },
        None => {
            assert(w@ =~= start + Seq::<char>::empty());
        },
    }
    let ghost middle = w@;
    match throughput {
        Some((at, t)) => {
            if at == side {
                match side {
                    Location::BeforeValue => {
                        d.display_throughput(w, t);
                        push_char(w, ' ');
                        assert(w@ =~= middle + (crate::unit::traits::throughput_text(d, t) + seq![
                            ' ',
                        ]));
                    },
                    Location::AfterUnit => {
                        push_char(w, ' ');
                        d.display_throughput(w, t);
                        assert(w@ =~= middle + (seq![' '] + crate::unit::traits::throughput_text(
                            d,
                            t,
                        )));
                    },
                }
            } else {
                assert(w@ =~= middle + Seq::<char>::empty());
            }
        },
        None => {
            assert(w@ =~= middle + Seq::<char>::empty());
        },
    }
}

/// Appends the values of a display.
fn write_values<D: DisplayValue>(
    d: &D,
    w: &mut String,
    percent: Option<(Location, usize)>,
    throughput: Option<(Location, Throughput)>,
    value: Step,
    upper: Option<Step>,
)
    ensures
        final(w)@ == old(w)@ + values_text(d, percent, throughput, value, upper),
{
    write_adornments(d, w, percent, throughput, Location::BeforeValue);
    d.display_current_value(w, value, upper);
    match upper {
        Some(u) => {
            d.separator(w, value, upper);
            d.display_upper_bound(w, u, value);
        },
        None => {},
    }
    assert(w@ =~= old(w)@ + values_text(d, percent, throughput, value, upper));
}

/// Appends the unit of a display and what goes behind it.
fn write_unit_side<D: DisplayValue>(
    d: &D,
    w: &mut String,
    percent: Option<(Location, usize)>,
    throughput: Option<(Location, Throughput)>,
    with_values: bool,
    value: Step,
)
    ensures
        final(w)@ == old(w)@ + unit_side_text(d, percent, throughput, with_values, value),
{
    let mut buf = String::new();
    if with_values {
        push_char(&mut buf, ' ');
    }
    d.display_unit(&mut buf, value);
    assert(buf@ =~= if with_values {
        seq![' '] + d.unit_text(value)
    } else {
        d.unit_text(value)
    });
    if is_longer_than_a_byte(buf.as_str()) {
        crate::text::push_str(w, buf.as_str());
    }
    assert(w@ =~= old(w)@ + unit_part(d, with_values, value));
    write_adornments(d, w, percent, throughput, Location::AfterUnit);
    assert(w@ =~= old(w)@ + unit_side_text(d, percent, throughput, with_values, value));
}

/// Appends the text of a display as the formatter `d` writes it.
pub fn write_display<D: DisplayValue>(
    d: &D,
    w: &mut String,
    mode: Option<Mode>,
    what: What,
    value: Step,
    upper: Option<Step>,
    throughput: Option<Throughput>,
)
    ensures
        final(w)@ == old(w)@ + display_text(d, mode, what, value, upper, throughput),
{
    let percent = percent_to_show(mode, value, upper);
    let tp = throughput_to_show(mode, throughput);
    let ghost start = w@;
    if what.values() {
        write_values(d, w, percent, tp, value, upper);
    } else {
        assert(w@ =~= start + Seq::<char>::empty());
    }
    let ghost middle = w@;
    if what.unit() {
        write_unit_side(d, w, percent, tp, what.values(), value);
    } else {
        assert(w@ =~= middle + Seq::<char>::empty());
    }
    assert(w@ =~= start + ((if what != What::Unit {
        values_text(d, percent, tp, value, upper)
    } else {
        Seq::empty()
    }) + (if what != What::Values {
        unit_side_text(d, percent, tp, what != What::Unit, value)
    } else {
        Seq::empty()
    })));
}

/// The percentage to show and its place.
fn percent_to_show(mode: Option<Mode>, value: Step, upper: Option<Step>) -> (r: Option<
    (Location, usize),
>)
    ensures
        r == shown_percent(mode, value, upper),
{
    match (upper, mode) {
        (Some(u), Some(m)) => match m.percent_location() {
            Some(location) => Some((location, percentage(value, u))),
            None => None,
        },
        _ => None,
    }
}

/// The throughput to show and its place.
fn throughput_to_show(mode: Option<Mode>, throughput: Option<Throughput>) -> (r: Option<
    (Location, Throughput),
>)
    ensures
        r == shown_throughput(mode, throughput),
{
    match (throughput, mode) {
        (Some(t), Some(m)) => match m.throughput_location() {
            Some(location) => Some((location, t)),
            None => None,
        },
        _ => None,
    }
}

/// A value, its upper bound and its throughput, ready to be written in the
/// way of a unit.
#[derive(Copy, Clone, Debug)]
pub struct UnitDisplay<'a> {
    pub(crate) current_value: Step,
    pub(crate) upper_bound: Option<Step>,
    pub(crate) throughput: Option<Throughput>,
    pub(crate) parent: &'a Unit,
    pub(crate) display: What,
}

impl<'a> UnitDisplay<'a> {
    /// A display of `current_value` with its `upper_bound` and its
    /// throughput in the way of `parent`, values and unit.
    pub fn new(
        parent: &'a Unit,
        current_value: Step,
        upper_bound: Option<Step>,
        throughput: Option<Throughput>,
    ) -> (r: UnitDisplay<'a>)
        ensures
            r.what() == What::ValuesAndUnit,
            forall|what: What| #[trigger]
                r.showing(what).text() == display_text(
                    &parent.kind(),
                    parent.mode(),
                    what,
                    current_value,
                    upper_bound,
                    throughput,
                ),
            r.showing(What::ValuesAndUnit) == r,
    {
        UnitDisplay { current_value, upper_bound, throughput, parent, display: What::ValuesAndUnit }
    }

    /// What `to_text` returns.
    pub closed spec fn text(self) -> Seq<char> {
        display_text(
            &self.parent.kind(),
            self.parent.mode(),
            self.display,
            self.current_value,
            self.upper_bound,
            self.throughput,
        )
    }

    /// The same display, restricted to `what`.
    pub closed spec fn showing(self, what: What) -> UnitDisplay<'a> {
        UnitDisplay { display: what, ..self }
    }

    /// Which parts are written.
    pub closed spec fn what(self) -> What {
        self.display
    }

    /// Display everything, values and the unit.
    pub fn all(self) -> (r: UnitDisplay<'a>)
        ensures
            r == self.showing(What::ValuesAndUnit),
            r.what() == What::ValuesAndUnit,
    {
        UnitDisplay { display: What::ValuesAndUnit, ..self }
    }

    /// Display only values.
    pub fn values(self) -> (r: UnitDisplay<'a>)
        ensures
            r == self.showing(What::Values),
            r.what() == What::Values,
    {
        UnitDisplay { display: What::Values, ..self }
    }

    /// Display only the unit.
    pub fn unit(self) -> (r: UnitDisplay<'a>)
        ensures
            r == self.showing(What::Unit),
            r.what() == What::Unit,
    {
        UnitDisplay { display: What::Unit, ..self }
    }

    /// Appends the display to `w`.
    pub fn write_to(&self, w: &mut String)
        ensures
            final(w)@ == old(w)@ + self.text(),
    {
        let kind: Kind = self.parent.kind_of();
        write_display(
            &kind,
            w,
            self.parent.mode_of(),
            self.display,
            self.current_value,
            self.upper_bound,
            self.throughput,
        );
    }

    /// The display as text.
    pub fn to_text(&self) -> (r: String)
        ensures
            r@ == self.text(),
    {
        let mut w = String::new();
        self.write_to(&mut w);
        assert(w@ =~= self.text());
        w
    }
}

} // verus!
