//! A duration written as a magnitude and a unit: `100ms`, `5s`, `2h`, `10d`.
//!
//! A [`ConfigDuration`] keeps its canonical value, a signed count of
//! milliseconds, and the unit it was written in. The unit only decides how the
//! duration is rendered; equality and order go by the canonical value alone.
//!
//! Text is a duration only as a whole: decimal digits, then at most one
//! suffix. A sign, a space, a decimal point or any other character, before the
//! magnitude or after it, makes the text an error.

use crate::decimal::{all_digits, decimal, digits_value, no_digits, signed_decimal};
use crate::decimal::{format_decimal, parse_decimal, spec_parse_decimal, MagnitudeFault};
use crate::decimal::{lemma_decimal_is_digits, lemma_decimal_value};
use crate::decimal::lemma_digits_and_rest_split_one_way;
use crate::error::ParseErrorKind;
use crate::order::order_of;
use crate::pattern::{capture_pair, compile, pattern_around, regex_captures, regex_source};
use crate::pattern::{spec_alternation, spec_pattern, InvalidPatternError};
use crate::text::{after_prefix, is_prefix, same_text};
use regex::Regex;
use std::cmp::Ordering;
use vstd::prelude::*;
use vstd::std_specs::cmp::{PartialEqSpec, PartialOrdSpec};
use vstd::string::*;

verus! {

/// The units of a duration, in the order in which the pattern tries them.
#[derive(Debug, Clone, Copy, PartialEq, Eq, PartialOrd, Ord, Hash, Structural)]
pub enum Unit {
    /// One millisecond; written `ms`. The unit of a bare magnitude.
    Milliseconds,
    /// 1000 milliseconds; written `s`.
    Seconds,
    /// 60 seconds; written `m`.
    Minutes,
    /// 60 minutes; written `h`.
    Hours,
    /// 24 hours; written `d`.
    Days,
}

impl Default for Unit {
    fn default() -> (r: Unit)
        ensures
            r == Unit::spec_default(),
    {
        Unit::Milliseconds
    }
}

impl Unit {
    /// The unit of a value written without a suffix.
    pub open spec fn spec_default() -> Unit {
        Unit::Milliseconds
    }

    /// The suffix by which the unit is written and recognised.
    pub open spec fn spec_suffix(self) -> Seq<char> {
        match self {
            Unit::Milliseconds => "ms"@,
            Unit::Seconds => "s"@,
            Unit::Minutes => "m"@,
            Unit::Hours => "h"@,
            Unit::Days => "d"@,
        }
    }

    /// How many milliseconds one of the unit lasts.
    pub open spec fn spec_scale(self) -> int {
        match self {
            Unit::Milliseconds => 1,
            Unit::Seconds => 1000,
            Unit::Minutes => 60_000,
            Unit::Hours => 3_600_000,
            Unit::Days => 86_400_000,
        }
    }

    /// Every unit, in declaration order.
    pub open spec fn spec_all_units() -> Seq<Unit> {
        seq![Unit::Milliseconds, Unit::Seconds, Unit::Minutes, Unit::Hours, Unit::Days]
    }

    /// The suffixes of all units, in declaration order.
    pub open spec fn spec_suffixes() -> Seq<Seq<char>> {
        Seq::new(Self::spec_all_units().len(), |i: int| Self::spec_all_units()[i].spec_suffix())
    }

    /// The unit that `suffix` names, if it names one.
    pub open spec fn spec_from_suffix(suffix: Seq<char>) -> Option<Unit> {
        if suffix == Unit::Milliseconds.spec_suffix() {
            Some(Unit::Milliseconds)
        } else if suffix == Unit::Seconds.spec_suffix() {
            Some(Unit::Seconds)
        } else if suffix == Unit::Minutes.spec_suffix() {
            Some(Unit::Minutes)
        } else if suffix == Unit::Hours.spec_suffix() {
            Some(Unit::Hours)
        } else if suffix == Unit::Days.spec_suffix() {
            Some(Unit::Days)
        } else {
            None
        }
    }

    /// The text of the pattern that splits a duration into magnitude and unit.
    pub open spec fn spec_regex_string() -> Seq<char> {
        spec_pattern(spec_alternation(Self::spec_suffixes()))
    }

    /// The suffix by which the unit is written.
    pub fn suffix(self) -> (r: &'static str)
        ensures
            r@ == self.spec_suffix(),
    {
        match self {
            Unit::Milliseconds => "ms",
            Unit::Seconds => "s",
            Unit::Minutes => "m",
            Unit::Hours => "h",
            Unit::Days => "d",
        }
    }

    /// How many milliseconds one of the unit lasts.
    pub fn scale(self) -> (r: u64)
        ensures
            r == self.spec_scale(),
    {
        match self {
            Unit::Milliseconds => 1,
            Unit::Seconds => 1000,
            Unit::Minutes => 60_000,
            Unit::Hours => 3_600_000,
            Unit::Days => 86_400_000,
        }
    }

    /// Every unit, in declaration order.
    pub fn all_units() -> (r: Vec<Unit>)
        ensures
            r@ == Self::spec_all_units(),
    {
        let mut units: Vec<Unit> = Vec::new();
        units.push(Unit::Milliseconds);
        units.push(Unit::Seconds);
        units.push(Unit::Minutes);
        units.push(Unit::Hours);
        units.push(Unit::Days);
        assert(units@ =~= Self::spec_all_units());
        units
    }

    /// Resolves a suffix to its unit.
    ///
    /// Succeeds exactly on the five suffixes; any other text is an
    /// unrecognised unit, reported with the text itself.
    pub fn from_str(s: &str) -> (r: Result<Unit, InvalidDurationError>)
        ensures
            match r {
                Ok(unit) => Self::spec_from_suffix(s@) == Some(unit),
                Err(error) => Self::spec_from_suffix(s@) is None && error@ == (
                    ParseErrorKind::UnrecognizedUnit,
                    s@,
                ),
            },
    {
        if same_text(s, Unit::Milliseconds.suffix()) {
            Ok(Unit::Milliseconds)
        } else if same_text(s, Unit::Seconds.suffix()) {
            Ok(Unit::Seconds)
        } else if same_text(s, Unit::Minutes.suffix()) {
            Ok(Unit::Minutes)
        } else if same_text(s, Unit::Hours.suffix()) {
            Ok(Unit::Hours)
        } else if same_text(s, Unit::Days.suffix()) {
            Ok(Unit::Days)
        } else {
            Err(
                InvalidDurationError {
                    kind: ParseErrorKind::UnrecognizedUnit,
                    text: String::from_str(s),
                },
            )
        }
    }

    /// Resolves the unit of a duration whose text goes on with `rest` after
    /// the magnitude, where `unit` was captured as the unit.
    pub fn after_magnitude(rest: &str, unit: Option<String>) -> (r: Result<
        Unit,
        InvalidDurationError,
    >)
        ensures
            match r {
                Ok(found) => ConfigDuration::spec_unit_after(rest@, unit.deep_view()) == Ok::<
                    Unit,
                    (ParseErrorKind, Seq<char>),
                >(found),
                Err(error) => ConfigDuration::spec_unit_after(rest@, unit.deep_view()) == Err::<
                    Unit,
                    (ParseErrorKind, Seq<char>),
                >(error@),
            },
    {
        let unrecognized = match unit {
            None => {
                if rest.is_empty() {
                    return Ok(Unit::default());
                }
                true
            },
            Some(suffix) => !same_text(rest, suffix.as_str()),
        };
        if unrecognized {
            Err(
                InvalidDurationError {
                    kind: ParseErrorKind::UnrecognizedUnit,
                    text: String::from_str(rest),
                },
            )
        } else {
            Self::from_str(rest)
        }
    }

    /// Writes the pattern: a run of digits named `magnitude`, then, optionally,
    /// one of the suffixes, named `unit`.
    pub fn create_regex_string() -> (r: String)
        ensures
            r@ == Self::spec_regex_string(),
    {
        let units = Self::all_units();
        let mut options = String::new();
        let mut i: usize = 0;
        while i < units.len()
            invariant
                units@ == Self::spec_all_units(),
                i <= units.len(),
                options@ == spec_alternation(Self::spec_suffixes().take(i as int)),
            decreases units.len() - i,
        {
            if i > 0 {
                options.append("|");
            }
            options.append(units[i].suffix());
            proof {
                let before = Self::spec_suffixes().take(i as int);
                let after = Self::spec_suffixes().take(i + 1);
                assert(after.drop_last() =~= before);
                assert(after.last() == units@[i as int].spec_suffix());
                assert(options@ =~= spec_alternation(after));
            }
            i = i + 1;
        }
        assert(Self::spec_suffixes().take(i as int) =~= Self::spec_suffixes());
        pattern_around(options.as_str())
    }

    /// Compiles the pattern.
    ///
    /// Whether the engine accepts the pattern is its own decision; the
    /// expression that comes back was made from the pattern of this registry.
    pub fn build_regex() -> (r: Result<Regex, InvalidPatternError>)
        ensures
            match r {
                Ok(regex) => regex_source(&regex) == Self::spec_regex_string(),
                Err(error) => error.pattern@ == Self::spec_regex_string(),
            },
    {
        compile(Self::create_regex_string())
    }
}

/// Why a piece of text is not a duration: the kind of the failure and the
/// piece of the input that caused it.
#[derive(Debug, PartialEq, Eq)]
pub struct InvalidDurationError {
    /// What went wrong.
    pub kind: ParseErrorKind,
    /// The offending text: the whole input where it is malformed, else the
    /// magnitude or the unit that was found.
    pub text: String,
}

impl View for InvalidDurationError {
    type V = (ParseErrorKind, Seq<char>);

    open spec fn view(&self) -> (ParseErrorKind, Seq<char>) {
        (self.kind, self.text@)
    }
}

impl InvalidDurationError {
    /// A short description of the failure.
    pub fn message(&self) -> (r: &'static str)
        ensures
            r@ == (match self.kind {
                ParseErrorKind::MalformedInput => "Unable to parse duration"@,
                _ => "Invalid Size"@,
            }),
    {
        match self.kind {
            ParseErrorKind::MalformedInput => "Unable to parse duration",
            _ => "Invalid Size",
        }
    }
}

/// A duration: a count of milliseconds and the unit it is expressed in.
#[derive(Debug, Clone, Copy)]
pub struct ConfigDuration {
    /// The canonical value, in milliseconds.
    pub duration: i64,
    /// The unit in which the duration is written.
    pub unit: Unit,
}

/// The outcome of a parse with the error seen as its kind and offending text.
pub open spec fn outcome_view(r: Result<ConfigDuration, InvalidDurationError>) -> Result<
    ConfigDuration,
    (ParseErrorKind, Seq<char>),
> {
    match r {
        Ok(value) => Ok(value),
        Err(error) => Err(error@),
    }
}

/// The size of a count of milliseconds, without its sign.
fn absolute(ticks: i64) -> (r: u64)
    ensures
        r == (if ticks < 0 {
            -ticks
        } else {
            ticks as int
        }),
{
    if ticks >= 0 {
        ticks as u64
    } else {
        let below: i64 = -(ticks + 1);
        below as u64 + 1
    }
}

impl ConfigDuration {
    /// The canonical value as a number.
    pub open spec fn spec_ticks(self) -> int {
        self.duration as int
    }

    /// How many whole units the duration lasts: the canonical value divided
    /// by the unit's scale, with the remainder dropped towards zero.
    pub open spec fn spec_magnitude(self) -> int {
        if self.duration >= 0 {
            self.duration as int / self.unit.spec_scale()
        } else {
            -((-(self.duration as int)) / self.unit.spec_scale())
        }
    }

    /// The text of the duration: the magnitude in base ten, then the suffix.
    pub open spec fn spec_text(self) -> Seq<char> {
        signed_decimal(self.spec_magnitude()) + self.unit.spec_suffix()
    }

    /// The duration of `count` units of `unit`, where the canonical value can
    /// hold it.
    pub open spec fn spec_of_units(
        count: nat,
        unit: Unit,
        magnitude: Seq<char>,
    ) -> Result<ConfigDuration, (ParseErrorKind, Seq<char>)> {
        if count * unit.spec_scale() <= i64::MAX {
            Ok(ConfigDuration { duration: (count * unit.spec_scale()) as i64, unit })
        } else {
            Err((ParseErrorKind::InvalidMagnitude(MagnitudeFault::TooLarge), magnitude))
        }
    }

    /// Whether `text` splits after `digits` characters into the magnitude and
    /// the unit of `value`: a run of digits that denotes how many units the
    /// duration lasts, and then either nothing, for a duration in the default
    /// unit, or the suffix of the unit.
    pub open spec fn spec_splits_at(text: Seq<char>, digits: int, value: ConfigDuration) -> bool {
        &&& 1 <= digits <= text.len()
        &&& all_digits(text.take(digits))
        &&& digits_value(text.take(digits)) * value.unit.spec_scale() == value.duration
        &&& if digits == text.len() {
            value.unit == Unit::spec_default()
        } else {
            Unit::spec_from_suffix(text.skip(digits)) == Some(value.unit)
        }
    }

    /// Whether the whole of `text` is a way of writing `value`: decimal
    /// digits, then at most one suffix, and nothing else.
    pub open spec fn spec_denotes(text: Seq<char>, value: ConfigDuration) -> bool {
        exists|digits: int| #[trigger] Self::spec_splits_at(text, digits, value)
    }

    /// The unit of a duration whose text goes on with `rest` after the
    /// magnitude, where `unit` was captured as the unit.
    ///
    /// With nothing captured and nothing left, the unit is the default one.
    /// Otherwise what was captured must be all that is left, and a suffix of
    /// the registry; any other rest is an unrecognised unit.
    pub open spec fn spec_unit_after(rest: Seq<char>, unit: Option<Seq<char>>) -> Result<
        Unit,
        (ParseErrorKind, Seq<char>),
    > {
        if rest.len() == 0 && unit is None {
            Ok(Unit::spec_default())
        } else if unit == Some(rest) && Unit::spec_from_suffix(rest) is Some {
            Ok(Unit::spec_from_suffix(rest)->Some_0)
        } else {
            Err((ParseErrorKind::UnrecognizedUnit, rest))
        }
    }

    /// The duration that `input` denotes, given the pieces captured in it.
    ///
    /// Without a captured magnitude, or with anything before the magnitude,
    /// the input is malformed. The magnitude must then be a number, and what
    /// follows it must be nothing or exactly one suffix of the registry, the
    /// one that was captured as the unit. The canonical value is the magnitude
    /// times the unit's scale, and a magnitude for which it would pass the
    /// largest count of milliseconds is too large. A magnitude that is no
    /// number is reported before a faulty unit.
    pub open spec fn spec_from_captures(
        input: Seq<char>,
        captured: Option<(Option<Seq<char>>, Option<Seq<char>>)>,
    ) -> Result<ConfigDuration, (ParseErrorKind, Seq<char>)> {
        match captured {
            Some((Some(magnitude), unit)) => if !is_prefix(magnitude, input) {
                Err((ParseErrorKind::MalformedInput, input))
            } else {
                match spec_parse_decimal(magnitude, i64::MAX as nat) {
                    Err(fault) => Err((ParseErrorKind::InvalidMagnitude(fault), magnitude)),
                    Ok(count) => match Self::spec_unit_after(
                        input.skip(magnitude.len() as int),
                        unit,
                    ) {
                        Ok(unit) => Self::spec_of_units(count, unit, magnitude),
                        Err(error) => Err(error),
                    },
                }
            },
            _ => Err((ParseErrorKind::MalformedInput, input)),
        }
    }

    /// The canonical value, in milliseconds.
    pub fn into_inner(self) -> (r: i64)
        ensures
            r == self.duration,
    {
        self.duration
    }

    /// Orders two durations by their canonical values.
    pub fn cmp(&self, other: &ConfigDuration) -> (r: Ordering)
        ensures
            r == order_of(self.spec_ticks(), other.spec_ticks()),
    {
        if self.duration < other.duration {
            Ordering::Less
        } else if self.duration == other.duration {
            Ordering::Equal
        } else {
            Ordering::Greater
        }
    }

    /// Writes the duration as its magnitude in its unit, followed by the suffix.
    pub fn to_string(&self) -> (r: String)
        ensures
            r@ == self.spec_text(),
    {
        let count: u64 = absolute(self.duration) / self.unit.scale();
        let mut text = if self.duration < 0 && count > 0 {
            String::from_str("-")
        } else {
            String::new()
        };
        proof {
            reveal_strlit("-");
            assert("-"@ =~= seq!['-']);
            if self.duration < 0 {
                assert(self.spec_magnitude() == -(count as int));
            } else {
                assert(self.spec_magnitude() == count as int);
            }
        }
        let digits = format_decimal(count);
        text.append(digits.as_str());
        assert(text@ =~= signed_decimal(self.spec_magnitude()));
        text.append(self.unit.suffix());
        text
    }

    /// The duration of `count` units of `unit`, where the canonical value can
    /// hold it; `magnitude` is the text that `count` was read from.
    fn of_units(count: u64, unit: Unit, magnitude: String) -> (r: Result<
        ConfigDuration,
        InvalidDurationError,
    >)
        ensures
            outcome_view(r) == Self::spec_of_units(count as nat, unit, magnitude@),
    {
        let scale: u64 = unit.scale();
        if count > (i64::MAX as u64) / scale {
            assert(count * scale > i64::MAX) by (nonlinear_arith)
                requires
                    scale > 0,
                    count > (i64::MAX as u64) / scale,
            ;
            Err(
                InvalidDurationError {
                    kind: ParseErrorKind::InvalidMagnitude(MagnitudeFault::TooLarge),
                    text: magnitude,
                },
            )
        } else {
            assert(count * scale <= i64::MAX) by (nonlinear_arith)
                requires
                    scale > 0,
                    count <= (i64::MAX as u64) / scale,
            ;
            Ok(ConfigDuration { duration: (count * scale) as i64, unit })
        }
    }

    /// Builds the duration that `input` denotes from what the pattern captured
    /// in it.
    ///
    /// A duration comes back only where the captured pieces make up the whole
    /// of `input`, so only for text that is digits and at most one suffix.
    pub fn from_captures(input: &str, captured: Option<(Option<String>, Option<String>)>) -> (r:
        Result<ConfigDuration, InvalidDurationError>)
        ensures
            outcome_view(r) == Self::spec_from_captures(input@, captured.deep_view()),
            r matches Ok(value) ==> Self::spec_denotes(input@, value),
    {
        proof {
            lemma_read_value_is_denoted(input@, captured.deep_view());
        }
        let (magnitude, unit) = match captured {
            Some((Some(magnitude), unit)) => (magnitude, unit),
            _ => {
                return Err(
                    InvalidDurationError {
                        kind: ParseErrorKind::MalformedInput,
                        text: String::from_str(input),
                    },
                );
            },
        };
        let rest = match after_prefix(input, magnitude.as_str()) {
            Some(rest) => rest,
            None => {
                return Err(
                    InvalidDurationError {
                        kind: ParseErrorKind::MalformedInput,
                        text: String::from_str(input),
                    },
                );
            },
        };
        let count: u64 = match parse_decimal(magnitude.as_str(), i64::MAX as u64) {
            Ok(number) => number,
            Err(fault) => {
                return Err(
                    InvalidDurationError {
                        kind: ParseErrorKind::InvalidMagnitude(fault),
                        text: magnitude,
                    },
                );
            },
        };
        match Unit::after_magnitude(rest, unit) {
            Ok(unit) => Self::of_units(count, unit, magnitude),
            Err(error) => Err(error),
        }
    }

    /// Reads a duration from text with a compiled pattern, the one that
    /// [`Unit::build_regex`] gives.
    ///
    /// The engine searches `s` for the pattern; which magnitude and unit it
    /// captures is the engine's own finding. The result is the duration that
    /// `s` denotes given those two pieces, or the error that they call for.
    /// Whatever the engine finds, a duration comes back only for text that is
    /// digits and at most one suffix, and it is the duration so written.
    pub fn from_str(units_regex: &Regex, s: &str) -> (r: Result<
        ConfigDuration,
        InvalidDurationError,
    >)
        ensures
            outcome_view(r) == Self::spec_from_captures(
                s@,
                regex_captures(units_regex, s@, "magnitude"@, "unit"@),
            ),
            r matches Ok(value) ==> Self::spec_denotes(s@, value),
    {
        Self::from_captures(s, capture_pair(units_regex, s, "magnitude", "unit"))
    }
}

impl PartialEq for ConfigDuration {
    fn eq(&self, other: &ConfigDuration) -> (r: bool) {
        self.duration == other.duration
    }
}

impl vstd::std_specs::cmp::PartialEqSpecImpl for ConfigDuration {
    open spec fn obeys_eq_spec() -> bool {
        true
    }

    /// Two durations are equal when they last the same time.
    open spec fn eq_spec(&self, other: &ConfigDuration) -> bool {
        self.spec_ticks() == other.spec_ticks()
    }
}

impl Eq for ConfigDuration {

}

impl PartialOrd for ConfigDuration {
    fn partial_cmp(&self, other: &ConfigDuration) -> (r: Option<Ordering>) {
        Some(self.cmp(other))
    }
}

impl vstd::std_specs::cmp::PartialOrdSpecImpl for ConfigDuration {
    open spec fn obeys_partial_cmp_spec() -> bool {
        true
    }

    /// Two durations are ordered as their canonical values are.
    open spec fn partial_cmp_spec(&self, other: &ConfigDuration) -> Option<Ordering> {
        Some(order_of(self.spec_ticks(), other.spec_ticks()))
    }
}

impl From<i64> for ConfigDuration {
    /// The duration of `duration` milliseconds, written in milliseconds.
    fn from(duration: i64) -> (r: ConfigDuration) {
        ConfigDuration { duration, unit: Unit::Milliseconds }
    }
}

impl vstd::std_specs::convert::FromSpecImpl<i64> for ConfigDuration {
    open spec fn obeys_from_spec() -> bool {
        true
    }

    open spec fn from_spec(duration: i64) -> ConfigDuration {
        ConfigDuration { duration, unit: Unit::Milliseconds }
    }
}

/// The suffixes, character by character.
pub proof fn lemma_suffix_characters()
    ensures
        Unit::Milliseconds.spec_suffix() == seq!['m', 's'],
        Unit::Seconds.spec_suffix() == seq!['s'],
        Unit::Minutes.spec_suffix() == seq!['m'],
        Unit::Hours.spec_suffix() == seq!['h'],
        Unit::Days.spec_suffix() == seq!['d'],
{
    reveal_strlit("ms");
    reveal_strlit("s");
    reveal_strlit("m");
    reveal_strlit("h");
    reveal_strlit("d");
    assert("ms"@ =~= seq!['m', 's']);
    assert("s"@ =~= seq!['s']);
    assert("m"@ =~= seq!['m']);
    assert("h"@ =~= seq!['h']);
    assert("d"@ =~= seq!['d']);
}

/// Different units are written with different suffixes.
pub proof fn lemma_suffixes_distinct(a: Unit, b: Unit)
    requires
        a.spec_suffix() == b.spec_suffix(),
    ensures
        a == b,
{
    lemma_suffix_characters();
    assert(Unit::Milliseconds.spec_suffix().len() == 2);
    assert(Unit::Seconds.spec_suffix().len() == 1);
    assert(Unit::Minutes.spec_suffix().len() == 1);
    assert(Unit::Hours.spec_suffix().len() == 1);
    assert(Unit::Days.spec_suffix().len() == 1);
    assert(Unit::Seconds.spec_suffix()[0] == 's');
    assert(Unit::Minutes.spec_suffix()[0] == 'm');
    assert(Unit::Hours.spec_suffix()[0] == 'h');
    assert(Unit::Days.spec_suffix()[0] == 'd');
}

/// A suffix resolves to the unit it belongs to, and only a unit's own suffix
/// resolves to it.
pub proof fn lemma_from_suffix_inverts_suffix(unit: Unit, suffix: Seq<char>)
    ensures
        Unit::spec_from_suffix(suffix) == Some(unit) <==> suffix == unit.spec_suffix(),
{
    if suffix == unit.spec_suffix() {
        if Unit::spec_from_suffix(suffix) != Some(unit) {
            let other = Unit::spec_from_suffix(suffix)->Some_0;
            lemma_suffixes_distinct(other, unit);
        }
    }
}

/// The registry lists every unit, each once.
pub proof fn lemma_all_units_complete(unit: Unit)
    ensures
        Unit::spec_all_units().contains(unit),
        Unit::spec_all_units().no_duplicates(),
{
    let units = Unit::spec_all_units();
    match unit {
        Unit::Milliseconds => assert(units[0] == unit),
        Unit::Seconds => assert(units[1] == unit),
        Unit::Minutes => assert(units[2] == unit),
        Unit::Hours => assert(units[3] == unit),
        Unit::Days => assert(units[4] == unit),
    }
}

/// Every suffix is made of ASCII letters, so the pattern holds it literally.
pub proof fn lemma_suffix_is_alphabetic(unit: Unit, i: int)
    requires
        0 <= i < unit.spec_suffix().len(),
    ensures
        'A' <= unit.spec_suffix()[i] <= 'Z' || 'a' <= unit.spec_suffix()[i] <= 'z',
{
    lemma_suffix_characters();
}

/// No suffix holds a digit, so a suffix never runs into the magnitude before it.
pub proof fn lemma_suffix_has_no_digit(unit: Unit)
    ensures
        no_digits(unit.spec_suffix()),
        unit.spec_suffix().len() > 0,
{
    lemma_suffix_characters();
    assert forall|i: int| 0 <= i < unit.spec_suffix().len() implies !crate::decimal::is_digit(
        #[trigger] unit.spec_suffix()[i],
    ) by {
        lemma_suffix_is_alphabetic(unit, i);
    }
}

/// No suffix is the beginning of one that the pattern tries after it: `ms`
/// stands before `m`, so a duration in milliseconds is never read as minutes
/// with an `s` left over.
pub proof fn lemma_no_suffix_shadows_a_later_one(i: int, j: int)
    requires
        0 <= i < j < Unit::spec_suffixes().len(),
    ensures
        !is_prefix(Unit::spec_suffixes()[i], Unit::spec_suffixes()[j]),
{
    lemma_suffix_characters();
    let earlier = Unit::spec_suffixes()[i];
    let later = Unit::spec_suffixes()[j];
    if earlier.len() <= later.len() {
        assert(later.take(earlier.len() as int)[0] == later[0]);
        assert(earlier[0] != later[0]);
    }
}

/// The pattern of this registry, written out.
pub proof fn lemma_regex_string_is()
    ensures
        Unit::spec_regex_string() == "(?<magnitude>[0-9]+)(?<unit>ms|s|m|h|d)?"@,
{
    lemma_suffix_characters();
    reveal_strlit("|");
    reveal_strlit("(?<magnitude>[0-9]+)(?<unit>");
    reveal_strlit(")?");
    reveal_strlit("(?<magnitude>[0-9]+)(?<unit>ms|s|m|h|d)?");
    let suffixes = Unit::spec_suffixes();
    let four = suffixes.drop_last();
    let three = four.drop_last();
    let two = three.drop_last();
    assert(two.drop_last() =~= seq![suffixes[0]]);
    reveal_with_fuel(spec_alternation, 6);
    assert(Unit::spec_regex_string() =~= "(?<magnitude>[0-9]+)(?<unit>ms|s|m|h|d)?"@);
}

/// A duration that is read from captured pieces is denoted by the whole
/// input: nothing stands before the magnitude, and nothing after it but the
/// suffix.
pub proof fn lemma_read_value_is_denoted(
    input: Seq<char>,
    captured: Option<(Option<Seq<char>>, Option<Seq<char>>)>,
)
    ensures
        ConfigDuration::spec_from_captures(input, captured) matches Ok(value)
            ==> ConfigDuration::spec_denotes(input, value),
{
    if let Ok(value) = ConfigDuration::spec_from_captures(input, captured) {
        let magnitude = captured->Some_0.0->Some_0;
        let digits = magnitude.len() as int;
        let rest = input.skip(digits);
        if rest.len() > 0 {
            assert(digits < input.len());
        } else {
            assert(digits == input.len());
            if captured->Some_0.1 is Some {
                let named = Unit::spec_from_suffix(rest)->Some_0;
                lemma_from_suffix_inverts_suffix(named, rest);
                lemma_suffix_has_no_digit(named);
            }
        }
        assert(ConfigDuration::spec_splits_at(input, digits, value));
    }
}

/// Text that denotes a duration is a run of digits followed by nothing or by
/// one suffix of the registry.
pub proof fn lemma_denoted_text_is_digits_and_suffix(text: Seq<char>, value: ConfigDuration)
    requires
        ConfigDuration::spec_denotes(text, value),
    ensures
        exists|digits: Seq<char>, suffix: Seq<char>|
            #![trigger digits + suffix]
            {
                &&& text == digits + suffix
                &&& digits.len() >= 1
                &&& all_digits(digits)
                &&& digits_value(digits) * value.unit.spec_scale() == value.duration
                &&& (suffix.len() == 0 && value.unit == Unit::spec_default()
                    || Unit::spec_from_suffix(suffix) == Some(value.unit))
            },
{
    let i = choose|i: int| #[trigger] ConfigDuration::spec_splits_at(text, i, value);
    assert(text.take(i) + text.skip(i) =~= text);
}

/// Text denotes at most one duration.
pub proof fn lemma_text_denotes_one_value(text: Seq<char>, a: ConfigDuration, b: ConfigDuration)
    requires
        ConfigDuration::spec_denotes(text, a),
        ConfigDuration::spec_denotes(text, b),
    ensures
        a == b,
{
    let i = choose|i: int| #[trigger] ConfigDuration::spec_splits_at(text, i, a);
    let j = choose|j: int| #[trigger] ConfigDuration::spec_splits_at(text, j, b);
    lemma_rest_has_no_digit(text, i, a);
    lemma_rest_has_no_digit(text, j, b);
    assert(text.take(i) + text.skip(i) =~= text);
    assert(text.take(j) + text.skip(j) =~= text);
    lemma_digits_and_rest_split_one_way(text.take(i), text.skip(i), text.take(j), text.skip(j));
    assert(i == j);
}

/// Where text splits into the magnitude and the unit of a duration, no digit
/// stands after the split.
proof fn lemma_rest_has_no_digit(text: Seq<char>, digits: int, value: ConfigDuration)
    requires
        ConfigDuration::spec_splits_at(text, digits, value),
    ensures
        no_digits(text.skip(digits)),
{
    if digits < text.len() {
        lemma_from_suffix_inverts_suffix(value.unit, text.skip(digits));
        lemma_suffix_has_no_digit(value.unit);
    }
}

/// The text that a duration of whole units is written as denotes that
/// duration, and no other.
pub proof fn lemma_written_text_denotes_the_value(count: nat, unit: Unit)
    requires
        count * unit.spec_scale() <= i64::MAX,
    ensures
        ({
            let value = ConfigDuration { duration: (count * unit.spec_scale()) as i64, unit };
            ConfigDuration::spec_denotes(value.spec_text(), value)
        }),
{
    let value = ConfigDuration { duration: (count * unit.spec_scale()) as i64, unit };
    lemma_captures_round_trip(count, unit);
    lemma_read_value_is_denoted(
        value.spec_text(),
        Some((Some(decimal(count)), Some(unit.spec_suffix()))),
    );
}

/// The magnitude and suffix that a duration of whole units is written with,
/// captured in its text, give back that duration.
///
/// This is the round trip of a duration through its text, from the point
/// where the text has been split: `spec_text` is the two pieces joined.
pub proof fn lemma_captures_round_trip(count: nat, unit: Unit)
    requires
        count * unit.spec_scale() <= i64::MAX,
    ensures
        ({
            let value = ConfigDuration { duration: (count * unit.spec_scale()) as i64, unit };
            &&& value.spec_text() == decimal(count) + unit.spec_suffix()
            &&& ConfigDuration::spec_from_captures(
                value.spec_text(),
                Some((Some(decimal(count)), Some(unit.spec_suffix()))),
            ) == Ok::<ConfigDuration, (ParseErrorKind, Seq<char>)>(value)
        }),
{
    let scale = unit.spec_scale();
    assert(count <= count * scale) by (nonlinear_arith)
        requires
            scale >= 1,
    ;
    assert((count * scale) / scale == count) by (nonlinear_arith)
        requires
            scale >= 1,
    ;
    lemma_decimal_is_digits(count);
    lemma_decimal_value(count);
    lemma_from_suffix_inverts_suffix(unit, unit.spec_suffix());
    let digits = decimal(count);
    let text = digits + unit.spec_suffix();
    assert(text.take(digits.len() as int) =~= digits);
    assert(text.skip(digits.len() as int) =~= unit.spec_suffix());
}

/// The text of a duration of whole units reads in one way only: whichever
/// run of digits and whichever suffix of the registry make up the text between
/// them, they are the magnitude and the suffix it was written with, and give
/// back the duration.
pub proof fn lemma_text_reads_one_way(
    count: nat,
    unit: Unit,
    magnitude: Seq<char>,
    suffix: Seq<char>,
)
    requires
        count * unit.spec_scale() <= i64::MAX,
        all_digits(magnitude),
        Unit::spec_from_suffix(suffix) is Some,
        magnitude + suffix == decimal(count) + unit.spec_suffix(),
    ensures
        magnitude == decimal(count),
        suffix == unit.spec_suffix(),
        ConfigDuration::spec_from_captures(
            decimal(count) + unit.spec_suffix(),
            Some((Some(magnitude), Some(suffix))),
        ) == Ok::<ConfigDuration, (ParseErrorKind, Seq<char>)>(
            ConfigDuration { duration: (count * unit.spec_scale()) as i64, unit },
        ),
{
    let named = Unit::spec_from_suffix(suffix)->Some_0;
    lemma_from_suffix_inverts_suffix(named, suffix);
    lemma_suffix_has_no_digit(named);
    lemma_suffix_has_no_digit(unit);
    lemma_decimal_is_digits(count);
    lemma_digits_and_rest_split_one_way(magnitude, suffix, decimal(count), unit.spec_suffix());
    lemma_captures_round_trip(count, unit);
}

/// A magnitude written alone, and captured without a unit, gives that many
/// milliseconds.
pub proof fn lemma_bare_magnitude_is_in_default_unit(count: nat)
    requires
        count <= i64::MAX,
    ensures
        ConfigDuration::spec_from_captures(decimal(count), Some((Some(decimal(count)), None)))
            == Ok::<ConfigDuration, (ParseErrorKind, Seq<char>)>(
            ConfigDuration { duration: count as i64, unit: Unit::spec_default() },
        ),
{
    let digits = decimal(count);
    lemma_decimal_is_digits(count);
    lemma_decimal_value(count);
    assert(digits.take(digits.len() as int) =~= digits);
}

/// Text that goes on after its magnitude with anything but one suffix of the
/// registry is rejected for its unit, whatever was captured as the unit.
pub proof fn lemma_unregistered_rest_is_unrecognized(
    input: Seq<char>,
    magnitude: Seq<char>,
    unit: Option<Seq<char>>,
)
    requires
        is_prefix(magnitude, input),
        spec_parse_decimal(magnitude, i64::MAX as nat) is Ok,
        input.len() > magnitude.len(),
        Unit::spec_from_suffix(input.skip(magnitude.len() as int)) is None,
    ensures
        ConfigDuration::spec_from_captures(input, Some((Some(magnitude), unit))) == Err::<
            ConfigDuration,
            (ParseErrorKind, Seq<char>),
        >((ParseErrorKind::UnrecognizedUnit, input.skip(magnitude.len() as int))),
{
}

/// Text with anything before its magnitude is malformed.
pub proof fn lemma_text_before_magnitude_is_malformed(
    input: Seq<char>,
    magnitude: Seq<char>,
    unit: Option<Seq<char>>,
)
    requires
        !is_prefix(magnitude, input),
    ensures
        ConfigDuration::spec_from_captures(input, Some((Some(magnitude), unit))) == Err::<
            ConfigDuration,
            (ParseErrorKind, Seq<char>),
        >((ParseErrorKind::MalformedInput, input)),
{
}

/// Text that was written from a duration is written again unchanged once it
/// has been read: reading drops what the unit cannot express, and nothing more.
pub proof fn lemma_text_is_stable(value: ConfigDuration)
    requires
        value.duration >= 0,
    ensures
        value.spec_text() == decimal(value.spec_magnitude() as nat) + value.unit.spec_suffix(),
        ConfigDuration::spec_from_captures(
            value.spec_text(),
            Some((Some(decimal(value.spec_magnitude() as nat)), Some(value.unit.spec_suffix()))),
        ) matches Ok(read) && read.spec_text() == value.spec_text() && read.unit == value.unit,
{
    let scale = value.unit.spec_scale();
    let count = value.spec_magnitude();
    let ticks = value.duration as int;
    assert(0 <= count && count * scale <= ticks) by (nonlinear_arith)
        requires
            scale >= 1,
            ticks >= 0,
            count == ticks / scale,
    ;
    lemma_captures_round_trip(count as nat, value.unit);
}

/// The magnitude counts whole units and drops the remainder towards zero: it
/// is the whole number closest to zero within one unit of the duration.
pub proof fn lemma_magnitude_drops_the_remainder(value: ConfigDuration)
    ensures
        value.duration >= 0 ==> value.spec_magnitude() * value.unit.spec_scale()
            <= value.spec_ticks() < (value.spec_magnitude() + 1) * value.unit.spec_scale(),
        value.duration < 0 ==> (value.spec_magnitude() - 1) * value.unit.spec_scale()
            < value.spec_ticks() <= value.spec_magnitude() * value.unit.spec_scale(),
{
    let scale = value.unit.spec_scale();
    let ticks = value.spec_ticks();
    let size = if ticks < 0 {
        -ticks
    } else {
        ticks
    };
    let count = size / scale;
    assert(count * scale <= size < (count + 1) * scale) by (nonlinear_arith)
        requires
            scale >= 1,
            size >= 0,
            count == size / scale,
    ;
    assert((-count - 1) * scale == -((count + 1) * scale)) by (nonlinear_arith);
    assert((-count) * scale == -(count * scale)) by (nonlinear_arith);
}

/// Equality and order agree, and neither looks at the unit: two durations are
/// equal exactly when they last the same time.
pub proof fn lemma_equal_iff_ordered_equal(a: ConfigDuration, b: ConfigDuration)
    ensures
        a.eq_spec(&b) <==> a.partial_cmp_spec(&b) == Some(Ordering::Equal),
        a.eq_spec(&b) <==> a.duration == b.duration,
{
}

} // verus!
