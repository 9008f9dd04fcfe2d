//! A byte size written as a magnitude and a unit: `512B`, `4KiB`, `2MiB`.
//!
//! A [`ConfigSize`] keeps the magnitude and the unit it was written in, so that
//! it is rendered as it was read. Its canonical value is the byte count,
//! magnitude times the unit's scale; equality and order go by the byte count
//! alone, so `1KiB` equals `1024B`.
//!
//! Text is a size only as a whole: decimal digits, then at most one suffix.
//! A sign, a space, a decimal point or any other character, before the
//! magnitude or after it, makes the text an error.

use crate::decimal::{decimal, digits_value, format_decimal, parse_decimal, spec_parse_decimal};
use crate::decimal::{all_digits, lemma_decimal_is_digits, lemma_decimal_value};
use crate::decimal::{lemma_digits_and_rest_split_one_way, no_digits};
use crate::error::ParseErrorKind;
use crate::order::order_of;
use crate::pattern::{capture_pair, compile, pattern_around, regex_captures, regex_source};
use crate::pattern::{spec_alternation, spec_pattern, InvalidPatternError};
use crate::text::{after_prefix, is_prefix, same_text};
use regex::Regex;
use std::cmp::Ordering;
use vstd::prelude::*;
use vstd::std_specs::cmp::{PartialEqSpec, PartialOrdSpec};
use vstd::string::*;

verus! {

/// The units of a byte size, in the order in which the pattern tries them.
#[derive(Debug, Clone, Copy, PartialEq, Eq, PartialOrd, Ord, Hash, Structural)]
pub enum Unit {
    /// One byte; written `B`. The unit of a bare magnitude.
    Bytes,
    /// 1024 bytes; written `KiB`.
    Kibibytes,
    /// 2048 bytes; written `MiB`.
    Mebibytes,
}

impl Default for Unit {
    fn default() -> (r: Unit)
        ensures
            r == Unit::spec_default(),
    {
        Unit::Bytes
    }
}

impl Unit {
    /// The unit of a value written without a suffix.
    pub open spec fn spec_default() -> Unit {
        Unit::Bytes
    }

    /// The suffix by which the unit is written and recognised.
    pub open spec fn spec_suffix(self) -> Seq<char> {
        match self {
            Unit::Bytes => "B"@,
            Unit::Kibibytes => "KiB"@,
            Unit::Mebibytes => "MiB"@,
        }
    }

    /// How many bytes one of the unit holds.
    pub open spec fn spec_scale(self) -> nat {
        match self {
            Unit::Bytes => 1,
            Unit::Kibibytes => 1024,
            Unit::Mebibytes => 2048,
        }
    }

    /// Every unit, in declaration order.
    pub open spec fn spec_all_units() -> Seq<Unit> {
        seq![Unit::Bytes, Unit::Kibibytes, Unit::Mebibytes]
    }

    /// The suffixes of all units, in declaration order.
    pub open spec fn spec_suffixes() -> Seq<Seq<char>> {
        Seq::new(Self::spec_all_units().len(), |i: int| Self::spec_all_units()[i].spec_suffix())
    }

    /// The unit that `suffix` names, if it names one.
    pub open spec fn spec_from_suffix(suffix: Seq<char>) -> Option<Unit> {
        if suffix == Unit::Bytes.spec_suffix() {
            Some(Unit::Bytes)
        } else if suffix == Unit::Kibibytes.spec_suffix() {
            Some(Unit::Kibibytes)
        } else if suffix == Unit::Mebibytes.spec_suffix() {
            Some(Unit::Mebibytes)
        } else {
            None
        }
    }

    /// The text of the pattern that splits a size into magnitude and unit.
    pub open spec fn spec_regex_string() -> Seq<char> {
        spec_pattern(spec_alternation(Self::spec_suffixes()))
    }

    /// The suffix by which the unit is written.
    pub fn suffix(self) -> (r: &'static str)
        ensures
            r@ == self.spec_suffix(),
    {
        match self {
            Unit::Bytes => "B",
            Unit::Kibibytes => "KiB",
            Unit::Mebibytes => "MiB",
        }
    }

    /// How many bytes one of the unit holds.
    pub fn scale(self) -> (r: usize)
        ensures
            r == self.spec_scale(),
    {
        match self {
            Unit::Bytes => 1,
            Unit::Kibibytes => 1024,
            Unit::Mebibytes => 2048,
        }
    }

    /// Every unit, in declaration order.
    pub fn all_units() -> (r: Vec<Unit>)
        ensures
            r@ == Self::spec_all_units(),
    {
        let mut units: Vec<Unit> = Vec::new();
        units.push(Unit::Bytes);
        units.push(Unit::Kibibytes);
        units.push(Unit::Mebibytes);
        assert(units@ =~= Self::spec_all_units());
        units
    }

    /// Resolves a suffix to its unit.
    ///
    /// Succeeds exactly on the three suffixes; any other text is an
    /// unrecognised unit, reported with the text itself.
    pub fn from_str(s: &str) -> (r: Result<Unit, InvalidSizeError>)
        ensures
            match r {
                Ok(unit) => Self::spec_from_suffix(s@) == Some(unit),
                Err(error) => Self::spec_from_suffix(s@) is None && error@ == (
                    ParseErrorKind::UnrecognizedUnit,
                    s@,
                ),
            },
    {
        if same_text(s, Unit::Bytes.suffix()) {
            Ok(Unit::Bytes)
        } else if same_text(s, Unit::Kibibytes.suffix()) {
            Ok(Unit::Kibibytes)
        } else if same_text(s, Unit::Mebibytes.suffix()) {
            Ok(Unit::Mebibytes)
        } else {
            Err(InvalidSizeError { kind: ParseErrorKind::UnrecognizedUnit, text: String::from_str(s) })
        }
    }

    /// Resolves the unit of a size whose text goes on with `rest` after the
    /// magnitude, where `unit` was captured as the unit.
    pub fn after_magnitude(rest: &str, unit: Option<String>) -> (r: Result<Unit, InvalidSizeError>)
        ensures
            match r {
                Ok(found) => ConfigSize::spec_unit_after(rest@, unit.deep_view()) == Ok::<
                    Unit,
                    (ParseErrorKind, Seq<char>),
                >(found),
                Err(error) => ConfigSize::spec_unit_after(rest@, unit.deep_view()) == Err::<
                    Unit,
                    (ParseErrorKind, Seq<char>),
                >(error@),
            },
    {
        let unrecognized = match unit {
            None => {
                if rest.is_empty() {
                    return Ok(Unit::default());
                }
                true
            },
            Some(suffix) => !same_text(rest, suffix.as_str()),
        };
        if unrecognized {
            Err(
                InvalidSizeError {
                    kind: ParseErrorKind::UnrecognizedUnit,
                    text: String::from_str(rest),
                },
            )
        } else {
            Self::from_str(rest)
        }
    }

    /// Writes the pattern: a run of digits named `magnitude`, then, optionally,
    /// one of the suffixes, named `unit`.
    pub fn create_regex_string() -> (r: String)
        ensures
            r@ == Self::spec_regex_string(),
    {
        let units = Self::all_units();
        let mut options = String::new();
        let mut i: usize = 0;
        while i < units.len()
            invariant
                units@ == Self::spec_all_units(),
                i <= units.len(),
                options@ == spec_alternation(Self::spec_suffixes().take(i as int)),
            decreases units.len() - i,
        {
            if i > 0 {
                options.append("|");
            }
            options.append(units[i].suffix());
            proof {
                let before = Self::spec_suffixes().take(i as int);
                let after = Self::spec_suffixes().take(i + 1);
                assert(after.drop_last() =~= before);
                assert(after.last() == units@[i as int].spec_suffix());
                assert(options@ =~= spec_alternation(after));
            }
            i = i + 1;
        }
        assert(Self::spec_suffixes().take(i as int) =~= Self::spec_suffixes());
        pattern_around(options.as_str())
    }

    /// Compiles the pattern.
    ///
    /// Whether the engine accepts the pattern is its own decision; the
    /// expression that comes back was made from the pattern of this registry.
    pub fn build_regex() -> (r: Result<Regex, InvalidPatternError>)
        ensures
            match r {
                Ok(regex) => regex_source(&regex) == Self::spec_regex_string(),
                Err(error) => error.pattern@ == Self::spec_regex_string(),
            },
    {
        compile(Self::create_regex_string())
    }
}

/// Why a piece of text is not a byte size: the kind of the failure and the
/// piece of the input that caused it.
#[derive(Debug, PartialEq, Eq)]
pub struct InvalidSizeError {
    /// What went wrong.
    pub kind: ParseErrorKind,
    /// The offending text: the whole input where it is malformed, else the
    /// magnitude or the unit that was found.
    pub text: String,
}

impl View for InvalidSizeError {
    type V = (ParseErrorKind, Seq<char>);

    open spec fn view(&self) -> (ParseErrorKind, Seq<char>) {
        (self.kind, self.text@)
    }
}

impl InvalidSizeError {
    /// A short description of the failure.
    pub fn message(&self) -> (r: &'static str)
        ensures
            r@ == (match self.kind {
                ParseErrorKind::MalformedInput => "Does not meet requirements for a size"@,
                _ => "Invalid Size"@,
            }),
    {
        match self.kind {
            ParseErrorKind::MalformedInput => "Does not meet requirements for a size",
            _ => "Invalid Size",
        }
    }
}

/// A byte size: a magnitude and the unit it is expressed in.
#[derive(Debug, Clone, Copy)]
pub struct ConfigSize {
    /// The magnitude, counted in `unit`.
    pub size: usize,
    /// The unit in which the size is written.
    pub unit: Unit,
}

/// The outcome of a parse with the error seen as its kind and offending text.
pub open spec fn outcome_view(r: Result<ConfigSize, InvalidSizeError>) -> Result<
    ConfigSize,
    (ParseErrorKind, Seq<char>),
> {
    match r {
        Ok(value) => Ok(value),
        Err(error) => Err(error@),
    }
}

impl ConfigSize {
    /// The canonical value: the number of bytes.
    pub open spec fn spec_bytes(self) -> int {
        self.size as int * self.unit.spec_scale() as int
    }

    /// The text of the size: the magnitude in base ten, then the suffix.
    pub open spec fn spec_text(self) -> Seq<char> {
        decimal(self.size as nat) + self.unit.spec_suffix()
    }

    /// The size that stands for a byte count: the count divided by the scale
    /// of the largest unit that divides it.
    pub open spec fn spec_from_bytes(value: usize) -> ConfigSize {
        if value % 2048 == 0 {
            ConfigSize { size: (value / 2048) as usize, unit: Unit::Mebibytes }
        } else if value % 1024 == 0 {
            ConfigSize { size: (value / 1024) as usize, unit: Unit::Kibibytes }
        } else {
            ConfigSize { size: value, unit: Unit::Bytes }
        }
    }

    /// Whether `text` splits after `digits` characters into the magnitude and
    /// the unit of `value`: a run of digits that denotes the magnitude, and
    /// then either nothing, for a size in the default unit, or the suffix of
    /// the unit.
    pub open spec fn spec_splits_at(text: Seq<char>, digits: int, value: ConfigSize) -> bool {
        &&& 1 <= digits <= text.len()
        &&& all_digits(text.take(digits))
        &&& digits_value(text.take(digits)) == value.size
        &&& if digits == text.len() {
            value.unit == Unit::spec_default()
        } else {
            Unit::spec_from_suffix(text.skip(digits)) == Some(value.unit)
        }
    }

    /// Whether the whole of `text` is a way of writing `value`: decimal
    /// digits, then at most one suffix, and nothing else.
    pub open spec fn spec_denotes(text: Seq<char>, value: ConfigSize) -> bool {
        exists|digits: int| #[trigger] Self::spec_splits_at(text, digits, value)
    }

    /// The unit of a size whose text goes on with `rest` after the magnitude,
    /// where `unit` was captured as the unit.
    ///
    /// With nothing captured and nothing left, the unit is the default one.
    /// Otherwise what was captured must be all that is left, and a suffix of
    /// the registry; any other rest is an unrecognised unit.
    pub open spec fn spec_unit_after(rest: Seq<char>, unit: Option<Seq<char>>) -> Result<
        Unit,
        (ParseErrorKind, Seq<char>),
    > {
        if rest.len() == 0 && unit is None {
            Ok(Unit::spec_default())
        } else if unit == Some(rest) && Unit::spec_from_suffix(rest) is Some {
            Ok(Unit::spec_from_suffix(rest)->Some_0)
        } else {
            Err((ParseErrorKind::UnrecognizedUnit, rest))
        }
    }

    /// The size that `input` denotes, given the pieces captured in it.
    ///
    /// Without a captured magnitude, or with anything before the magnitude,
    /// the input is malformed. The magnitude must then be a number that fits
    /// the magnitude's type, and what follows it must be nothing or exactly
    /// one suffix of the registry, the one that was captured as the unit. A
    /// faulty magnitude is reported before a faulty unit.
    pub open spec fn spec_from_captures(
        input: Seq<char>,
        captured: Option<(Option<Seq<char>>, Option<Seq<char>>)>,
    ) -> Result<ConfigSize, (ParseErrorKind, Seq<char>)> {
        match captured {
            Some((Some(magnitude), unit)) => if !is_prefix(magnitude, input) {
                Err((ParseErrorKind::MalformedInput, input))
            } else {
                match spec_parse_decimal(magnitude, usize::MAX as nat) {
                    Err(fault) => Err((ParseErrorKind::InvalidMagnitude(fault), magnitude)),
                    Ok(size) => match Self::spec_unit_after(
                        input.skip(magnitude.len() as int),
                        unit,
                    ) {
                        Ok(unit) => Ok(ConfigSize { size: size as usize, unit }),
                        Err(error) => Err(error),
                    },
                }
            },
            _ => Err((ParseErrorKind::MalformedInput, input)),
        }
    }

    /// A size of `size` bytes.
    pub fn new_from_bytes(size: usize) -> (r: ConfigSize)
        ensures
            r.size == size,
            r.unit == Unit::Bytes,
    {
        ConfigSize { size, unit: Unit::Bytes }
    }

    /// A size of `size` kibibytes.
    pub fn new_from_kibibytes(size: usize) -> (r: ConfigSize)
        ensures
            r.size == size,
            r.unit == Unit::Kibibytes,
    {
        ConfigSize { size, unit: Unit::Kibibytes }
    }

    /// A size of `size` mebibytes.
    pub fn new_from_mebibytes(size: usize) -> (r: ConfigSize)
        ensures
            r.size == size,
            r.unit == Unit::Mebibytes,
    {
        ConfigSize { size, unit: Unit::Mebibytes }
    }

    /// The byte count, for a size whose byte count fits the result.
    pub fn get_as_bytes(&self) -> (r: usize)
        requires
            self.spec_bytes() <= usize::MAX,
        ensures
            r == self.spec_bytes(),
    {
        self.size * self.unit.scale()
    }

    /// The byte count, or `None` where it does not fit the result.
    pub fn checked_as_bytes(&self) -> (r: Option<usize>)
        ensures
            r == (if self.spec_bytes() <= usize::MAX {
                Some(self.spec_bytes() as usize)
            } else {
                None
            }),
    {
        let wide = self.wide_bytes();
        if wide <= usize::MAX as u128 {
            Some(wide as usize)
        } else {
            None
        }
    }

    /// The byte count in a type that holds it whatever the magnitude.
    fn wide_bytes(&self) -> (r: u128)
        ensures
            r == self.spec_bytes(),
    {
        let size: u128 = self.size as u128;
        let scale: u128 = self.unit.scale() as u128;
        assert(size * scale <= 0xffff_ffff_ffff_ffff * 2048) by (nonlinear_arith)
            requires
                size <= 0xffff_ffff_ffff_ffff,
                scale <= 2048,
        ;
        size * scale
    }

    /// Orders two sizes by their byte counts.
    pub fn cmp(&self, other: &ConfigSize) -> (r: Ordering)
        ensures
            r == order_of(self.spec_bytes(), other.spec_bytes()),
    {
        let mine = self.wide_bytes();
        let theirs = other.wide_bytes();
        if mine < theirs {
            Ordering::Less
        } else if mine == theirs {
            Ordering::Equal
        } else {
            Ordering::Greater
        }
    }

    /// Writes the size as its magnitude followed by its suffix.
    pub fn to_string(&self) -> (r: String)
        ensures
            r@ == self.spec_text(),
    {
        let mut text = format_decimal(self.size as u64);
        text.append(self.unit.suffix());
        text
    }

    /// Builds the size that `input` denotes from what the pattern captured in
    /// it.
    ///
    /// A size comes back only where the captured pieces make up the whole of
    /// `input`, so only for text that is digits and at most one suffix.
    pub fn from_captures(input: &str, captured: Option<(Option<String>, Option<String>)>) -> (r:
        Result<ConfigSize, InvalidSizeError>)
        ensures
            outcome_view(r) == Self::spec_from_captures(input@, captured.deep_view()),
            r matches Ok(value) ==> Self::spec_denotes(input@, value),
    {
        proof {
            lemma_read_value_is_denoted(input@, captured.deep_view());
        }
        let (magnitude, unit) = match captured {
            Some((Some(magnitude), unit)) => (magnitude, unit),
            _ => {
                return Err(
                    InvalidSizeError {
                        kind: ParseErrorKind::MalformedInput,
                        text: String::from_str(input),
                    },
                );
            },
        };
        let rest = match after_prefix(input, magnitude.as_str()) {
            Some(rest) => rest,
            None => {
                return Err(
                    InvalidSizeError {
                        kind: ParseErrorKind::MalformedInput,
                        text: String::from_str(input),
                    },
                );
            },
        };
        let size: usize = match parse_decimal(magnitude.as_str(), usize::MAX as u64) {
            Ok(number) => number as usize,
            Err(fault) => {
                return Err(
                    InvalidSizeError {
                        kind: ParseErrorKind::InvalidMagnitude(fault),
                        text: magnitude,
                    },
                );
            },
        };
        match Unit::after_magnitude(rest, unit) {
            Ok(unit) => Ok(ConfigSize { size, unit }),
            Err(error) => Err(error),
        }
    }

    /// Reads a size from text with a compiled pattern, the one that
    /// [`Unit::build_regex`] gives.
    ///
    /// The engine searches `s` for the pattern; which magnitude and unit it
    /// captures is the engine's own finding. The result is the size that `s`
    /// denotes given those two pieces, or the error that they call for.
    /// Whatever the engine finds, a size comes back only for text that is
    /// digits and at most one suffix, and it is the size so written.
    pub fn from_str(units_regex: &Regex, s: &str) -> (r: Result<ConfigSize, InvalidSizeError>)
        ensures
            outcome_view(r) == Self::spec_from_captures(
                s@,
                regex_captures(units_regex, s@, "magnitude"@, "unit"@),
            ),
            r matches Ok(value) ==> Self::spec_denotes(s@, value),
    {
        Self::from_captures(s, capture_pair(units_regex, s, "magnitude", "unit"))
    }
}

impl PartialEq for ConfigSize {
    fn eq(&self, other: &ConfigSize) -> (r: bool) {
        self.wide_bytes() == other.wide_bytes()
    }
}

impl vstd::std_specs::cmp::PartialEqSpecImpl for ConfigSize {
    open spec fn obeys_eq_spec() -> bool {
        true
    }

    /// Two sizes are equal when they hold the same number of bytes.
    open spec fn eq_spec(&self, other: &ConfigSize) -> bool {
        self.spec_bytes() == other.spec_bytes()
    }
}

impl Eq for ConfigSize {

}

impl PartialOrd for ConfigSize {
    fn partial_cmp(&self, other: &ConfigSize) -> (r: Option<Ordering>) {
        Some(self.cmp(other))
    }
}

impl vstd::std_specs::cmp::PartialOrdSpecImpl for ConfigSize {
    open spec fn obeys_partial_cmp_spec() -> bool {
        true
    }

    /// Two sizes are ordered as their byte counts are.
    open spec fn partial_cmp_spec(&self, other: &ConfigSize) -> Option<Ordering> {
        Some(order_of(self.spec_bytes(), other.spec_bytes()))
    }
}

impl From<usize> for ConfigSize {
    /// The size that stands for `value` bytes, in the largest unit that
    /// divides the count.
    fn from(value: usize) -> (r: ConfigSize) {
        if value % 2048 == 0 {
            ConfigSize::new_from_mebibytes(value / 2048)
        } else if value % 1024 == 0 {
            ConfigSize::new_from_kibibytes(value / 1024)
        } else {
            ConfigSize::new_from_bytes(value)
        }
    }
}

impl vstd::std_specs::convert::FromSpecImpl<usize> for ConfigSize {
    open spec fn obeys_from_spec() -> bool {
        true
    }

    open spec fn from_spec(value: usize) -> ConfigSize {
        ConfigSize::spec_from_bytes(value)
    }
}

/// The suffixes, character by character.
pub proof fn lemma_suffix_characters()
    ensures
        Unit::Bytes.spec_suffix() == seq!['B'],
        Unit::Kibibytes.spec_suffix() == seq!['K', 'i', 'B'],
        Unit::Mebibytes.spec_suffix() == seq!['M', 'i', 'B'],
{
    reveal_strlit("B");
    reveal_strlit("KiB");
    reveal_strlit("MiB");
    assert("B"@ =~= seq!['B']);
    assert("KiB"@ =~= seq!['K', 'i', 'B']);
    assert("MiB"@ =~= seq!['M', 'i', 'B']);
}

/// Different units are written with different suffixes.
pub proof fn lemma_suffixes_distinct(a: Unit, b: Unit)
    requires
        a.spec_suffix() == b.spec_suffix(),
    ensures
        a == b,
{
    lemma_suffix_characters();
    if a != b {
        assert(a.spec_suffix()[0] != b.spec_suffix()[0]);
    }
}

/// A suffix resolves to the unit it belongs to, and only a unit's own suffix
/// resolves to it.
pub proof fn lemma_from_suffix_inverts_suffix(unit: Unit, suffix: Seq<char>)
    ensures
        Unit::spec_from_suffix(suffix) == Some(unit) <==> suffix == unit.spec_suffix(),
{
    if suffix == unit.spec_suffix() {
        if Unit::spec_from_suffix(suffix) != Some(unit) {
            let other = Unit::spec_from_suffix(suffix)->Some_0;
            lemma_suffixes_distinct(other, unit);
        }
    }
}

/// The registry lists every unit, each once.
pub proof fn lemma_all_units_complete(unit: Unit)
    ensures
        Unit::spec_all_units().contains(unit),
        Unit::spec_all_units().no_duplicates(),
{
    let units = Unit::spec_all_units();
    match unit {
        Unit::Bytes => assert(units[0] == unit),
        Unit::Kibibytes => assert(units[1] == unit),
        Unit::Mebibytes => assert(units[2] == unit),
    }
}

/// Every suffix is made of ASCII letters, so the pattern holds it literally.
pub proof fn lemma_suffix_is_alphabetic(unit: Unit, i: int)
    requires
        0 <= i < unit.spec_suffix().len(),
    ensures
        'A' <= unit.spec_suffix()[i] <= 'Z' || 'a' <= unit.spec_suffix()[i] <= 'z',
{
    lemma_suffix_characters();
}

/// No suffix holds a digit, so a suffix never runs into the magnitude before it.
pub proof fn lemma_suffix_has_no_digit(unit: Unit)
    ensures
        no_digits(unit.spec_suffix()),
        unit.spec_suffix().len() > 0,
{
    lemma_suffix_characters();
    assert forall|i: int| 0 <= i < unit.spec_suffix().len() implies !crate::decimal::is_digit(
        #[trigger] unit.spec_suffix()[i],
    ) by {
        lemma_suffix_is_alphabetic(unit, i);
    }
}

/// No suffix is the beginning of one that the pattern tries after it, so the
/// first alternative that matches is also the longest.
pub proof fn lemma_no_suffix_shadows_a_later_one(i: int, j: int)
    requires
        0 <= i < j < Unit::spec_suffixes().len(),
    ensures
        !is_prefix(Unit::spec_suffixes()[i], Unit::spec_suffixes()[j]),
{
    lemma_suffix_characters();
    let earlier = Unit::spec_suffixes()[i];
    let later = Unit::spec_suffixes()[j];
    if earlier.len() <= later.len() {
        assert(later.take(earlier.len() as int)[0] == later[0]);
        assert(earlier[0] != later[0]);
    }
}

/// The pattern of this registry, written out.
pub proof fn lemma_regex_string_is()
    ensures
        Unit::spec_regex_string() == "(?<magnitude>[0-9]+)(?<unit>B|KiB|MiB)?"@,
{
    lemma_suffix_characters();
    reveal_strlit("|");
    reveal_strlit("(?<magnitude>[0-9]+)(?<unit>");
    reveal_strlit(")?");
    reveal_strlit("(?<magnitude>[0-9]+)(?<unit>B|KiB|MiB)?");
    let suffixes = Unit::spec_suffixes();
    assert(suffixes.drop_last().drop_last() =~= seq![suffixes[0]]);
    reveal_with_fuel(spec_alternation, 4);
    assert(Unit::spec_regex_string() =~= "(?<magnitude>[0-9]+)(?<unit>B|KiB|MiB)?"@);
}

/// A size that is read from captured pieces is denoted by the whole input:
/// nothing stands before the magnitude, and nothing after it but the suffix.
pub proof fn lemma_read_value_is_denoted(
    input: Seq<char>,
    captured: Option<(Option<Seq<char>>, Option<Seq<char>>)>,
)
    ensures
        ConfigSize::spec_from_captures(input, captured) matches Ok(value)
            ==> ConfigSize::spec_denotes(input, value),
{
    if let Ok(value) = ConfigSize::spec_from_captures(input, captured) {
        let magnitude = captured->Some_0.0->Some_0;
        let digits = magnitude.len() as int;
        let rest = input.skip(digits);
        if rest.len() > 0 {
            assert(digits < input.len());
        } else {
            assert(digits == input.len());
            if captured->Some_0.1 is Some {
                let named = Unit::spec_from_suffix(rest)->Some_0;
                lemma_from_suffix_inverts_suffix(named, rest);
                lemma_suffix_has_no_digit(named);
            }
        }
        assert(ConfigSize::spec_splits_at(input, digits, value));
    }
}

/// Text that denotes a size is a run of digits followed by nothing or by one
/// suffix of the registry.
pub proof fn lemma_denoted_text_is_digits_and_suffix(text: Seq<char>, value: ConfigSize)
    requires
        ConfigSize::spec_denotes(text, value),
    ensures
        exists|digits: Seq<char>, suffix: Seq<char>|
            #![trigger digits + suffix]
            {
                &&& text == digits + suffix
                &&& digits.len() >= 1
                &&& all_digits(digits)
                &&& digits_value(digits) == value.size
                &&& (suffix.len() == 0 && value.unit == Unit::spec_default()
                    || Unit::spec_from_suffix(suffix) == Some(value.unit))
            },
{
    let i = choose|i: int| #[trigger] ConfigSize::spec_splits_at(text, i, value);
    assert(text.take(i) + text.skip(i) =~= text);
}

/// Text denotes at most one size.
pub proof fn lemma_text_denotes_one_value(text: Seq<char>, a: ConfigSize, b: ConfigSize)
    requires
        ConfigSize::spec_denotes(text, a),
        ConfigSize::spec_denotes(text, b),
    ensures
        a == b,
{
    let i = choose|i: int| #[trigger] ConfigSize::spec_splits_at(text, i, a);
    let j = choose|j: int| #[trigger] ConfigSize::spec_splits_at(text, j, b);
    lemma_rest_has_no_digit(text, i, a);
    lemma_rest_has_no_digit(text, j, b);
    assert(text.take(i) + text.skip(i) =~= text);
    assert(text.take(j) + text.skip(j) =~= text);
    lemma_digits_and_rest_split_one_way(text.take(i), text.skip(i), text.take(j), text.skip(j));
    assert(i == j);
}

/// Where text splits into the magnitude and the unit of a size, no digit
/// stands after the split.
proof fn lemma_rest_has_no_digit(text: Seq<char>, digits: int, value: ConfigSize)
    requires
        ConfigSize::spec_splits_at(text, digits, value),
    ensures
        no_digits(text.skip(digits)),
{
    if digits < text.len() {
        lemma_from_suffix_inverts_suffix(value.unit, text.skip(digits));
        lemma_suffix_has_no_digit(value.unit);
    }
}

/// The text that a size is written as denotes that size, and no other.
pub proof fn lemma_written_text_denotes_the_value(value: ConfigSize)
    ensures
        ConfigSize::spec_denotes(value.spec_text(), value),
{
    let digits = decimal(value.size as nat);
    let text = value.spec_text();
    lemma_decimal_is_digits(value.size as nat);
    lemma_decimal_value(value.size as nat);
    lemma_suffix_has_no_digit(value.unit);
    lemma_from_suffix_inverts_suffix(value.unit, value.unit.spec_suffix());
    assert(text.take(digits.len() as int) =~= digits);
    assert(text.skip(digits.len() as int) =~= value.unit.spec_suffix());
    assert(ConfigSize::spec_splits_at(text, digits.len() as int, value));
}

/// The magnitude and suffix that a size is written with, captured in its
/// text, give back that size.
///
/// This is the round trip of a size through its text, from the point where
/// the text has been split: `spec_text` is the two pieces joined.
pub proof fn lemma_captures_round_trip(value: ConfigSize)
    ensures
        value.spec_text() == decimal(value.size as nat) + value.unit.spec_suffix(),
        ConfigSize::spec_from_captures(
            value.spec_text(),
            Some((Some(decimal(value.size as nat)), Some(value.unit.spec_suffix()))),
        ) == Ok::<ConfigSize, (ParseErrorKind, Seq<char>)>(value),
{
    let digits = decimal(value.size as nat);
    let text = value.spec_text();
    lemma_decimal_is_digits(value.size as nat);
    lemma_decimal_value(value.size as nat);
    lemma_from_suffix_inverts_suffix(value.unit, value.unit.spec_suffix());
    assert(text.take(digits.len() as int) =~= digits);
    assert(text.skip(digits.len() as int) =~= value.unit.spec_suffix());
}

/// The text of a size reads in one way only: whichever run of digits and
/// whichever suffix of the registry make up the text between them, they are
/// the magnitude and the suffix it was written with, and give back the size.
pub proof fn lemma_text_reads_one_way(value: ConfigSize, magnitude: Seq<char>, suffix: Seq<char>)
    requires
        all_digits(magnitude),
        Unit::spec_from_suffix(suffix) is Some,
        magnitude + suffix == value.spec_text(),
    ensures
        magnitude == decimal(value.size as nat),
        suffix == value.unit.spec_suffix(),
        ConfigSize::spec_from_captures(value.spec_text(), Some((Some(magnitude), Some(suffix))))
            == Ok::<ConfigSize, (ParseErrorKind, Seq<char>)>(value),
{
    let named = Unit::spec_from_suffix(suffix)->Some_0;
    lemma_from_suffix_inverts_suffix(named, suffix);
    lemma_suffix_has_no_digit(named);
    lemma_suffix_has_no_digit(value.unit);
    lemma_decimal_is_digits(value.size as nat);
    lemma_digits_and_rest_split_one_way(
        magnitude,
        suffix,
        decimal(value.size as nat),
        value.unit.spec_suffix(),
    );
    lemma_captures_round_trip(value);
}

/// A magnitude written alone, and captured without a unit, gives that many of
/// the default unit.
pub proof fn lemma_bare_magnitude_is_in_default_unit(size: usize)
    ensures
        ConfigSize::spec_from_captures(
            decimal(size as nat),
            Some((Some(decimal(size as nat)), None)),
        ) == Ok::<ConfigSize, (ParseErrorKind, Seq<char>)>(
            ConfigSize { size, unit: Unit::spec_default() },
        ),
{
    let digits = decimal(size as nat);
    lemma_decimal_is_digits(size as nat);
    lemma_decimal_value(size as nat);
    assert(digits.take(digits.len() as int) =~= digits);
}

/// Text that goes on after its magnitude with anything but one suffix of the
/// registry is rejected for its unit, whatever was captured as the unit.
pub proof fn lemma_unregistered_rest_is_unrecognized(
    input: Seq<char>,
    magnitude: Seq<char>,
    unit: Option<Seq<char>>,
)
    requires
        is_prefix(magnitude, input),
        spec_parse_decimal(magnitude, usize::MAX as nat) is Ok,
        input.len() > magnitude.len(),
        Unit::spec_from_suffix(input.skip(magnitude.len() as int)) is None,
    ensures
        ConfigSize::spec_from_captures(input, Some((Some(magnitude), unit))) == Err::<
            ConfigSize,
            (ParseErrorKind, Seq<char>),
        >((ParseErrorKind::UnrecognizedUnit, input.skip(magnitude.len() as int))),
{
}

/// Text with anything before its magnitude is malformed.
pub proof fn lemma_text_before_magnitude_is_malformed(
    input: Seq<char>,
    magnitude: Seq<char>,
    unit: Option<Seq<char>>,
)
    requires
        !is_prefix(magnitude, input),
    ensures
        ConfigSize::spec_from_captures(input, Some((Some(magnitude), unit))) == Err::<
            ConfigSize,
            (ParseErrorKind, Seq<char>),
        >((ParseErrorKind::MalformedInput, input)),
{
}

/// The size that stands for a byte count holds that many bytes.
pub proof fn lemma_from_bytes_keeps_the_count(value: usize)
    ensures
        ConfigSize::spec_from_bytes(value).spec_bytes() == value,
{
}

/// Equality and order agree: two sizes are equal exactly when neither is
/// below the other, whatever units they are written in.
pub proof fn lemma_equal_iff_ordered_equal(a: ConfigSize, b: ConfigSize)
    ensures
        a.eq_spec(&b) <==> a.partial_cmp_spec(&b) == Some(Ordering::Equal),
        a.eq_spec(&b) <==> a.spec_bytes() == b.spec_bytes(),
{
}

} // verus!
