//! Large numbers in a form that is easy to read, as in `7.50MB objects`.
use crate::progress::Step;
use crate::text::{push_str, push_without, without};
use crate::unit::{DisplayValue, Dynamic};
use vstd::prelude::*;

verus! {

/// Whether a thousand or 1024 of one unit make the next.
#[derive(Copy, Clone, PartialEq, Eq, Structural, Debug)]
pub enum Scale {
    /// A thousand, with units like `kB`.
    Decimal,
    /// 1024, with units like `KiB`.
    Binary,
}

/// What is counted: the unit that is written for a number below the first
/// multiple.
#[derive(Copy, Clone, PartialEq, Eq, Structural, Debug)]
pub enum Counted {
    /// Bits, as in `kbit`.
    Bit,
    /// Bytes, as in `kB`.
    Byte,
}

/// A multiple of the unit at which every number is written, however large
/// or small it is.
#[derive(Copy, Clone, PartialEq, Eq, Structural, Debug)]
pub enum Multiple {
    /// The unit itself.
    One,
    /// The first multiple of the unit, as in `kB`.
    First,
    /// The second multiple, as in `MB`.
    Second,
    /// The third multiple, as in `GB`.
    Third,
    /// The fourth multiple, as in `TB`.
    Fourth,
    /// The fifth multiple, as in `PB`.
    Fifth,
    /// The sixth multiple, as in `EB`.
    Sixth,
    /// The seventh multiple, as in `ZB`.
    Seventh,
    /// The eighth multiple, as in `YB`.
    Eighth,
}

/// How a number is scaled and written.
#[derive(Copy, Clone, PartialEq, Eq, Structural, Debug)]
pub struct FormatSizeOptions {
    /// What is counted.
    pub base_unit: Counted,
    /// The scale to divide by.
    pub kilo: Scale,
    /// The set of units to write.
    pub units: Scale,
    /// The number of decimal places if the decimal part is not zero.
    pub decimal_places: u8,
    /// The number of zeroes to write if the decimal part is zero.
    pub decimal_zeroes: u8,
    /// The multiple at which every number is written, if it is not to be
    /// the largest that the number reaches.
    pub fixed_at: Option<Multiple>,
    /// Whether to write the unit in full, as in `Kilobyte`.
    pub long_units: bool,
    /// Whether a space separates value and unit.
    pub space_after_value: bool,
}

/// A formatter for numbers in a format easily read by humans.
#[derive(Copy, Clone, PartialEq, Eq, Debug)]
pub struct Human {
    /// The name of the represented unit, like `items` or `objects`.
    pub name: &'static str,
    /// How the number is scaled and written.
    pub format_options: FormatSizeOptions,
}

/// Powers of a thousand with two decimal places, as in `1.50 MB`.
pub fn decimal_options() -> (r: FormatSizeOptions)
    ensures
        r == (FormatSizeOptions {
            base_unit: Counted::Byte,
            kilo: Scale::Decimal,
            units: Scale::Decimal,
            decimal_places: 2,
            decimal_zeroes: 0,
            fixed_at: None,
            long_units: false,
            space_after_value: true,
        }),
{
    FormatSizeOptions {
        base_unit: Counted::Byte,
        kilo: Scale::Decimal,
        units: Scale::Decimal,
        decimal_places: 2,
        decimal_zeroes: 0,
        fixed_at: None,
        long_units: false,
        space_after_value: true,
    }
}

/// Powers of 1024 with two decimal places, as in `1.50 MiB`.
pub fn binary_options() -> (r: FormatSizeOptions)
    ensures
        r == (FormatSizeOptions {
            base_unit: Counted::Byte,
            kilo: Scale::Binary,
            units: Scale::Binary,
            decimal_places: 2,
            decimal_zeroes: 0,
            fixed_at: None,
            long_units: false,
            space_after_value: true,
        }),
{
    FormatSizeOptions {
        base_unit: Counted::Byte,
        kilo: Scale::Binary,
        units: Scale::Binary,
        decimal_places: 2,
        decimal_zeroes: 0,
        fixed_at: None,
        long_units: false,
        space_after_value: true,
    }
}

/// The text that `humansize::format_size` gives for `value` under `options`,
/// as in `1.50 MB`.
pub uninterp spec fn formatted_size(value: usize, options: FormatSizeOptions) -> Seq<char>;

#[verifier::external_type_specification]
#[verifier::external_body]
pub struct ExBaseUnit(humansize::BaseUnit);

#[verifier::external_type_specification]
#[verifier::external_body]
pub struct ExKilo(humansize::Kilo);

#[verifier::external_type_specification]
#[verifier::external_body]
pub struct ExFixedAt(humansize::FixedAt);

/// The base unit as humansize has it.
#[verifier::external_body]
fn outside_base_unit(base_unit: Counted) -> humansize::BaseUnit {
    match base_unit {
        Counted::Bit => humansize::BaseUnit::Bit,
        Counted::Byte => humansize::BaseUnit::Byte,
    }
}

/// The scale as humansize has it.
#[verifier::external_body]
fn outside_kilo(kilo: Scale) -> humansize::Kilo {
    match kilo {
        Scale::Decimal => humansize::Kilo::Decimal,
        Scale::Binary => humansize::Kilo::Binary,
    }
}

/// The multiple as humansize has it.
#[verifier::external_body]
fn outside_fixed_at(fixed_at: Multiple) -> humansize::FixedAt {
    match fixed_at {
        Multiple::One => humansize::FixedAt::Base,
        Multiple::First => humansize::FixedAt::Kilo,
        Multiple::Second => humansize::FixedAt::Mega,
        Multiple::Third => humansize::FixedAt::Giga,
        Multiple::Fourth => humansize::FixedAt::Tera,
        Multiple::Fifth => humansize::FixedAt::Peta,
        Multiple::Sixth => humansize::FixedAt::Exa,
        Multiple::Seventh => humansize::FixedAt::Zetta,
        Multiple::Eighth => humansize::FixedAt::Yotta,
    }
}

/// Calls `humansize::format_size` for a count with the options that
/// humansize makes of the eight settings of `options`, and with nothing
/// behind the unit. The text is a function of the number and the settings
/// alone.
#[verifier::external_body]
fn format_size(value: usize, options: FormatSizeOptions) -> (r: String)
    ensures
        r@ == formatted_size(value, options),
{
    let made = humansize::FormatSizeOptions::default()
        .base_unit(outside_base_unit(options.base_unit))
        .kilo(outside_kilo(options.kilo))
        .units(outside_kilo(options.units))
        .decimal_places(usize::from(options.decimal_places))
        .decimal_zeroes(usize::from(options.decimal_zeroes))
        .fixed_at(options.fixed_at.map(outside_fixed_at))
        .long_units(options.long_units)
        .space_after_value(options.space_after_value);
    humansize::format_size(value, made)
}

impl Human {
    /// A formatter that writes numbers under `format_options` and calls the
    /// unit `name`.
    pub fn new(format_options: FormatSizeOptions, name: &'static str) -> (r: Human)
        ensures
            r.name == name,
            r.format_options == format_options,
    {
        Human { name, format_options }
    }

    /// A scaled number without spaces.
    pub open spec fn text(&self, value: Step) -> Seq<char> {
        without(formatted_size(value, self.format_options), ' ')
    }

    /// Appends `value` as a scaled number without spaces.
    pub fn format_bytes(&self, w: &mut String, value: Step)
        ensures
            final(w)@ == old(w)@ + self.text(value),
    {
        let string = format_size(value, self.format_options);
        push_without(w, string.as_str(), ' ');
    }
}

impl DisplayValue for Human {
    open spec fn current_value_text(&self, value: Step, upper: Option<Step>) -> Seq<char> {
        self.text(value)
    }

    open spec fn separator_text(&self, value: Step, upper: Option<Step>) -> Seq<char> {
        seq!['/']
    }

    open spec fn upper_bound_text(&self, upper_bound: Step, value: Step) -> Seq<char> {
        self.text(upper_bound)
    }

    open spec fn unit_text(&self, value: Step) -> Seq<char> {
        self.name@
    }

    open spec fn dynamic_form(&self) -> Dynamic {
        Dynamic::Human(*self)
    }

    fn display_current_value(&self, w: &mut String, value: Step, upper: Option<Step>) {
        self.format_bytes(w, value);
    }

    fn separator(&self, w: &mut String, value: Step, upper: Option<Step>) {
        crate::text::push_char(w, '/');
    }

    fn display_upper_bound(&self, w: &mut String, upper_bound: Step, value: Step) {
        self.format_bytes(w, upper_bound);
    }

    fn display_unit(&self, w: &mut String, value: Step) {
        push_str(w, self.name);
    }

    fn into_dynamic(self) -> Dynamic {
        Dynamic::Human(self)
    }
}

} // verus!
