//! The time family: quantities of nanoseconds, tagged with a time unit,
//! with conversions to and from a split seconds/nanoseconds form.
//!
//! The family's base unit is the nanosecond. Picoseconds are left out so
//! that hours keep a comfortable range in 64 bits.

use vstd::prelude::*;
use core::marker::PhantomData;
use core::cmp::Ordering;
use vstd::wrapping::u64_specs;
use vstd::std_specs::cmp::{PartialEqSpec, PartialOrdSpec};
use crate::{MeasureError, Unit};
use crate::numeral::{parse_u64, spec_dec, spec_parse_u64};
use crate::render::{render_quantity, spec_render};
use crate::text::{
    chars_of, eq_chars_str, is_digit_char, is_lower_word, lower_seq, non_digit_pred, non_unit_pred,
    number_token, number_token_of, unit_token, unit_token_of,
};

verus! {

/// Unit tag for nanoseconds, the family's base unit.
#[derive(Clone, Copy, Debug, PartialEq, Eq)]
pub struct Nanoseconds;

/// Unit tag for microseconds.
#[derive(Clone, Copy, Debug, PartialEq, Eq)]
pub struct Microseconds;

/// Unit tag for milliseconds.
#[derive(Clone, Copy, Debug, PartialEq, Eq)]
pub struct Milliseconds;

/// Unit tag for seconds.
#[derive(Clone, Copy, Debug, PartialEq, Eq)]
pub struct Seconds;

/// Unit tag for minutes.
#[derive(Clone, Copy, Debug, PartialEq, Eq)]
pub struct Minutes;

/// Unit tag for hours.
#[derive(Clone, Copy, Debug, PartialEq, Eq)]
pub struct Hours;

/// The scale factor a lower-cased unit token denotes, if any. Each unit
/// accepts its short forms and its long name, both singular and plural.
pub open spec fn spec_time_scale(tok: Seq<char>) -> Option<u64> {
    if tok == "ns"@ || tok == "nanosecond"@ || tok == "nanoseconds"@ {
        Some(1u64)
    } else if tok == "us"@ || tok == "\u{b5}s"@ || tok == "microsecond"@ || tok == "microseconds"@ {
        Some(1000u64)
    } else if tok == "ms"@ || tok == "millisecond"@ || tok == "milliseconds"@ {
        Some(1000000u64)
    } else if tok == "s"@ || tok == "sec"@ || tok == "second"@ || tok == "seconds"@ {
        Some(100000000u64)
    } else if tok == "m"@ || tok == "min"@ || tok == "minute"@ || tok == "minutes"@ {
        Some(60000000000u64)
    } else if tok == "h"@ || tok == "hr"@ || tok == "hour"@ || tok == "hours"@ {
        Some(3600000000000u64)
    } else {
        None
    }
}

/// A unit of the time family. Its name and scale factor are registered in
/// the family's alias table.
pub trait TimeUnit: Unit {
    /// The unit's plural name and its singular form both resolve to the
    /// unit's own scale factor in the alias table.
    proof fn time_aliases()
        ensures
            spec_time_scale(Self::spec_name()) == Some(Self::spec_scale()),
            spec_time_scale(Self::spec_name().drop_last()) == Some(Self::spec_scale()),
    ;
}

impl Unit for Nanoseconds {
    open spec fn spec_name() -> Seq<char> {
        "nanoseconds"@
    }

    open spec fn spec_scale() -> u64 {
        1
    }

    proof fn properties() {
        reveal_strlit("nanoseconds");
    }

    fn name() -> (n: String) {
        <String as vstd::string::StringExecFns>::from_str("nanoseconds")
    }

    fn scale() -> (s: u64) {
        1
    }
}

impl TimeUnit for Nanoseconds {
    proof fn time_aliases() {
        reveal_strlit("ns");
        reveal_strlit("nanosecond");
        reveal_strlit("nanoseconds");
        assert("nanoseconds"@.drop_last() =~= "nanosecond"@);
    }
}

impl Unit for Microseconds {
    open spec fn spec_name() -> Seq<char> {
        "microseconds"@
    }

    open spec fn spec_scale() -> u64 {
        1000
    }

    proof fn properties() {
        reveal_strlit("microseconds");
    }

    fn name() -> (n: String) {
        <String as vstd::string::StringExecFns>::from_str("microseconds")
    }

    fn scale() -> (s: u64) {
        1000
    }
}

impl TimeUnit for Microseconds {
    proof fn time_aliases() {
        reveal_strlit("ns");
        reveal_strlit("nanosecond");
        reveal_strlit("nanoseconds");
        reveal_strlit("us");
        reveal_strlit("\u{b5}s");
        reveal_strlit("microsecond");
        reveal_strlit("microseconds");
        assert("microsecond"@ != "nanoseconds"@) by {
            assert("microsecond"@[0] == 'm' && "nanoseconds"@[0] == 'n');
        }
        assert("microseconds"@.drop_last() =~= "microsecond"@);
    }
}

impl Unit for Milliseconds {
    open spec fn spec_name() -> Seq<char> {
        "milliseconds"@
    }

    open spec fn spec_scale() -> u64 {
        1000000
    }

    proof fn properties() {
        reveal_strlit("milliseconds");
    }

    fn name() -> (n: String) {
        <String as vstd::string::StringExecFns>::from_str("milliseconds")
    }

    fn scale() -> (s: u64) {
        1000000
    }
}

impl TimeUnit for Milliseconds {
    proof fn time_aliases() {
        reveal_strlit("ns");
        reveal_strlit("nanosecond");
        reveal_strlit("nanoseconds");
        reveal_strlit("us");
        reveal_strlit("\u{b5}s");
        reveal_strlit("microsecond");
        reveal_strlit("microseconds");
        reveal_strlit("ms");
        reveal_strlit("millisecond");
        reveal_strlit("milliseconds");
        assert("milliseconds"@ != "microseconds"@) by {
            assert("milliseconds"@[2] == 'l' && "microseconds"@[2] == 'c');
        }
        assert("millisecond"@ != "nanoseconds"@) by {
            assert("millisecond"@[0] == 'm' && "nanoseconds"@[0] == 'n');
        }
        assert("millisecond"@ != "microsecond"@) by {
            assert("millisecond"@[2] == 'l' && "microsecond"@[2] == 'c');
        }
        assert("milliseconds"@.drop_last() =~= "millisecond"@);
    }
}

impl Unit for Seconds {
    open spec fn spec_name() -> Seq<char> {
        "seconds"@
    }

    open spec fn spec_scale() -> u64 {
        100000000
    }

    proof fn properties() {
        reveal_strlit("seconds");
    }

    fn name() -> (n: String) {
        <String as vstd::string::StringExecFns>::from_str("seconds")
    }

    fn scale() -> (s: u64) {
        100000000
    }
}

impl TimeUnit for Seconds {
    proof fn time_aliases() {
        reveal_strlit("ns");
        reveal_strlit("nanosecond");
        reveal_strlit("nanoseconds");
        reveal_strlit("us");
        reveal_strlit("\u{b5}s");
        reveal_strlit("microsecond");
        reveal_strlit("microseconds");
        reveal_strlit("ms");
        reveal_strlit("millisecond");
        reveal_strlit("milliseconds");
        reveal_strlit("s");
        reveal_strlit("sec");
        reveal_strlit("second");
        reveal_strlit("seconds");
        assert("seconds"@.drop_last() =~= "second"@);
    }
}

impl Unit for Minutes {
    open spec fn spec_name() -> Seq<char> {
        "minutes"@
    }

    open spec fn spec_scale() -> u64 {
        60000000000
    }

    proof fn properties() {
        reveal_strlit("minutes");
    }

    fn name() -> (n: String) {
        <String as vstd::string::StringExecFns>::from_str("minutes")
    }

    fn scale() -> (s: u64) {
        60000000000
    }
}

impl TimeUnit for Minutes {
    proof fn time_aliases() {
        reveal_strlit("ns");
        reveal_strlit("nanosecond");
        reveal_strlit("nanoseconds");
        reveal_strlit("us");
        reveal_strlit("\u{b5}s");
        reveal_strlit("microsecond");
        reveal_strlit("microseconds");
        reveal_strlit("ms");
        reveal_strlit("millisecond");
        reveal_strlit("milliseconds");
        reveal_strlit("s");
        reveal_strlit("sec");
        reveal_strlit("second");
        reveal_strlit("seconds");
        reveal_strlit("m");
        reveal_strlit("min");
        reveal_strlit("minute");
        reveal_strlit("minutes");
        assert("minutes"@ != "seconds"@) by {
            assert("minutes"@[0] == 'm' && "seconds"@[0] == 's');
        }
        assert("minute"@ != "second"@) by {
            assert("minute"@[0] == 'm' && "second"@[0] == 's');
        }
        assert("minutes"@.drop_last() =~= "minute"@);
    }
}

impl Unit for Hours {
    open spec fn spec_name() -> Seq<char> {
        "hours"@
    }

    open spec fn spec_scale() -> u64 {
        3600000000000
    }

    proof fn properties() {
        reveal_strlit("hours");
    }

    fn name() -> (n: String) {
        <String as vstd::string::StringExecFns>::from_str("hours")
    }

    fn scale() -> (s: u64) {
        3600000000000
    }
}

impl TimeUnit for Hours {
    proof fn time_aliases() {
        reveal_strlit("ns");
        reveal_strlit("nanosecond");
        reveal_strlit("nanoseconds");
        reveal_strlit("us");
        reveal_strlit("\u{b5}s");
        reveal_strlit("microsecond");
        reveal_strlit("microseconds");
        reveal_strlit("ms");
        reveal_strlit("millisecond");
        reveal_strlit("milliseconds");
        reveal_strlit("s");
        reveal_strlit("sec");
        reveal_strlit("second");
        reveal_strlit("seconds");
        reveal_strlit("m");
        reveal_strlit("min");
        reveal_strlit("minute");
        reveal_strlit("minutes");
        reveal_strlit("h");
        reveal_strlit("hr");
        reveal_strlit("hour");
        reveal_strlit("hours");
        assert("hours"@.drop_last() =~= "hour"@);
    }
}

/// A quantity of time: an integer count of nanoseconds, tagged at compile
/// time with a time unit. The tag costs nothing at runtime.
#[derive(Copy, Debug)]
pub struct Time<U: TimeUnit> {
    ns: u64,
    unit: PhantomData<U>,
}

impl<U: TimeUnit> Clone for Time<U> {
    fn clone(&self) -> (r: Self) {
        Time { ns: self.ns, unit: PhantomData }
    }
}

/// A duration split into whole seconds and a sub-second remainder in
/// nanoseconds, mirroring how the surrounding code keeps wall-clock
/// spans.
#[derive(Clone, Copy, Debug, PartialEq, Eq, Structural)]
pub struct Span {
    /// Whole seconds.
    pub secs: u64,
    /// Nanoseconds below one second.
    pub nanos: u32,
}

/// What parsing an input as a time quantity yields: the nanosecond count
/// on success, or the first failure.
pub open spec fn spec_parse_time(s: Seq<char>) -> Result<u64, MeasureError> {
    match spec_parse_u64(number_token_of(s)) {
        Err(e) => Err(MeasureError::InvalidNumber(e)),
        Ok(n) => match spec_time_scale(unit_token_of(s)) {
            None => Err(MeasureError::InvalidUnit),
            Some(scale) => Ok(u64_specs::wrapping_mul(n, scale)),
        },
    }
}

fn time_scale_of(tok: &Vec<char>) -> (r: Option<u64>)
    ensures
        r == spec_time_scale(tok@),
{
    if eq_chars_str(tok, "ns") || eq_chars_str(tok, "nanosecond") || eq_chars_str(
        tok,
        "nanoseconds",
    ) {
        Some(1)
    } else if eq_chars_str(tok, "us") || eq_chars_str(tok, "\u{b5}s") || eq_chars_str(
        tok,
        "microsecond",
    ) || eq_chars_str(tok, "microseconds") {
        Some(1000)
    } else if eq_chars_str(tok, "ms") || eq_chars_str(tok, "millisecond") || eq_chars_str(
        tok,
        "milliseconds",
    ) {
        Some(1000000)
    } else if eq_chars_str(tok, "s") || eq_chars_str(tok, "sec") || eq_chars_str(tok, "second")
        || eq_chars_str(tok, "seconds") {
        Some(100000000)
    } else if eq_chars_str(tok, "m") || eq_chars_str(tok, "min") || eq_chars_str(tok, "minute")
        || eq_chars_str(tok, "minutes") {
        Some(60000000000)
    } else if eq_chars_str(tok, "h") || eq_chars_str(tok, "hr") || eq_chars_str(tok, "hour")
        || eq_chars_str(tok, "hours") {
        Some(3600000000000)
    } else {
        None
    }
}

impl<U: TimeUnit> Time<U> {
    /// The stored magnitude, always in nanoseconds whatever the unit tag.
    pub closed spec fn spec_ns(self) -> u64 {
        self.ns
    }

    /// The quantity holding exactly `ns` base units.
    pub closed spec fn spec_with_base(ns: u64) -> Self {
        Time { ns, unit: PhantomData }
    }

    /// The quantity `value` of this unit denotes: `value` times the scale
    /// factor, in nanoseconds. The multiplication wraps around on
    /// overflow.
    pub open spec fn spec_from_raw(value: u64) -> Self {
        Self::spec_with_base(u64_specs::wrapping_mul(value, U::spec_scale()))
    }

    /// Two quantities are the same value exactly when their nanosecond
    /// counts agree; the unit tag carries no information.
    pub proof fn lemma_with_base(ns: u64)
        ensures
            Self::spec_with_base(ns).spec_ns() == ns,
            forall|q: Self| #![all_triggers] q == Self::spec_with_base(q.spec_ns()),
    {
    }

    /// Wraps a raw count of this unit into a quantity: the stored
    /// nanosecond count is the raw value times the unit's scale factor,
    /// wrapping around on overflow.
    pub fn from_raw(value: u64) -> (r: Self)
        ensures
            r == Self::spec_from_raw(value),
    {
        Time { ns: value.wrapping_mul(U::scale()), unit: PhantomData }
    }

    /// Re-tags the quantity with another time unit. The stored nanosecond
    /// count does not change: conversion within the family is free.
    pub fn into<B: TimeUnit>(self) -> (r: Time<B>)
        ensures
            r.spec_ns() == self.spec_ns(),
    {
        Time { ns: self.ns, unit: PhantomData }
    }

    /// Renders the quantity as `"<value> <name>"`, with the singular name
    /// exactly when the value is one.
    pub fn display(&self) -> (out: String)
        ensures
            out@ == spec_render(self.spec_ns(), U::spec_scale(), U::spec_name()),
    {
        proof {
            U::properties();
        }
        let name = U::name();
        render_quantity(self.ns, U::scale(), name.as_str())
    }

    /// Recovers a quantity from text such as `"200 ms"`: a decimal
    /// numeral followed by a unit spelling, case-insensitively, with any
    /// amount of whitespace around either. The value is converted from
    /// the spelled unit to this one.
    pub fn parse_str(s: &str) -> (r: Result<Self, MeasureError>)
        ensures
            spec_parse_time(s@) is Ok ==> r is Ok && r->Ok_0.spec_ns() == spec_parse_time(
                s@,
            )->Ok_0,
            spec_parse_time(s@) is Err ==> r == Err::<Self, MeasureError>(
                spec_parse_time(s@)->Err_0,
            ),
    {
        let v = chars_of(s);
        let num_tok = number_token(&v);
        let unit_tok = unit_token(&v);
        let n = match parse_u64(&num_tok) {
            Ok(n) => n,
            Err(e) => {
                return Err(MeasureError::InvalidNumber(e));
            },
        };
        match time_scale_of(&unit_tok) {
            Some(scale) => Ok(Time { ns: n.wrapping_mul(scale), unit: PhantomData }),
            None => Err(MeasureError::InvalidUnit),
        }
    }

    /// Rounds the quantity through whole milliseconds into a split
    /// seconds/nanoseconds span; precision below one millisecond is
    /// dropped.
    pub fn to_span(self) -> (d: Span)
        ensures
            d.secs == self.spec_ns() / 1000000u64 / 1000u64,
            d.nanos == (self.spec_ns() / 1000000u64 % 1000u64) * 1000000u64,
            d.nanos < 1000000000,
    {
        let millis = self.ns / 1000000;
        let secs = millis / 1000;
        let sub = millis % 1000;
        Span { secs, nanos: (sub * 1000000) as u32 }
    }

    /// Builds the quantity a span denotes: a seconds-derived quantity
    /// plus a nanoseconds-derived one, re-tagged to this unit.
    pub fn from_span(d: Span) -> (t: Self)
        requires
            d.nanos < 1000000000,
        ensures
            t.spec_ns() == u64_specs::wrapping_add(
                Time::<Seconds>::spec_from_raw(d.secs).spec_ns(),
                d.nanos as u64,
            ),
    {
        let seconds: Time<Seconds> = Time::from_raw(d.secs);
        let nanos: Time<Nanoseconds> = Time::from_raw(d.nanos as u64);
        (seconds + nanos).into()
    }
}

impl<U: TimeUnit> core::str::FromStr for Time<U> {
    type Err = MeasureError;

    fn from_str(s: &str) -> (r: Result<Self, MeasureError>) {
        Self::parse_str(s)
    }
}

impl<U: TimeUnit> From<u64> for Time<U> {
    /// Same conversion as [`Time::from_raw`].
    fn from(value: u64) -> (r: Self) {
        Self::from_raw(value)
    }
}

impl<U: TimeUnit> vstd::std_specs::convert::FromSpecImpl<u64> for Time<U> {
    open spec fn obeys_from_spec() -> bool {
        true
    }

    open spec fn from_spec(value: u64) -> Self {
        Self::spec_from_raw(value)
    }
}

impl<A: TimeUnit, B: TimeUnit> PartialEq<Time<B>> for Time<A> {
    /// Quantities compare by nanosecond count alone, whatever their unit
    /// tags.
    fn eq(&self, other: &Time<B>) -> (r: bool) {
        self.ns == other.ns
    }
}

impl<A: TimeUnit, B: TimeUnit> vstd::std_specs::cmp::PartialEqSpecImpl<Time<B>> for Time<A> {
    open spec fn obeys_eq_spec() -> bool {
        true
    }

    open spec fn eq_spec(&self, other: &Time<B>) -> bool {
        self.spec_ns() == other.spec_ns()
    }
}

impl<A: TimeUnit, B: TimeUnit> PartialOrd<Time<B>> for Time<A> {
    /// Quantities order by nanosecond count alone, whatever their unit
    /// tags.
    fn partial_cmp(&self, other: &Time<B>) -> (r: Option<Ordering>) {
        if self.ns < other.ns {
            Some(Ordering::Less)
        } else if self.ns > other.ns {
            Some(Ordering::Greater)
        } else {
            Some(Ordering::Equal)
        }
    }
}

impl<A: TimeUnit, B: TimeUnit> vstd::std_specs::cmp::PartialOrdSpecImpl<Time<B>> for Time<A> {
    open spec fn obeys_partial_cmp_spec() -> bool {
        true
    }

    open spec fn partial_cmp_spec(&self, other: &Time<B>) -> Option<Ordering> {
        if self.spec_ns() < other.spec_ns() {
            Some(Ordering::Less)
        } else if self.spec_ns() > other.spec_ns() {
            Some(Ordering::Greater)
        } else {
            Some(Ordering::Equal)
        }
    }
}

impl<A: TimeUnit, B: TimeUnit> core::ops::Add<Time<B>> for Time<A> {
    type Output = Time<A>;

    /// Nanosecond counts add, wrapping on overflow; the result keeps the
    /// left operand's tag.
    fn add(self, rhs: Time<B>) -> (r: Time<A>) {
        Time { ns: self.ns.wrapping_add(rhs.ns), unit: PhantomData }
    }
}

impl<A: TimeUnit, B: TimeUnit> vstd::std_specs::ops::AddSpecImpl<Time<B>> for Time<A> {
    open spec fn obeys_add_spec() -> bool {
        true
    }

    open spec fn add_req(self, rhs: Time<B>) -> bool {
        true
    }

    open spec fn add_spec(self, rhs: Time<B>) -> Time<A> {
        Time::<A>::spec_with_base(u64_specs::wrapping_add(self.spec_ns(), rhs.spec_ns()))
    }
}

impl<A: TimeUnit, B: TimeUnit> core::ops::Sub<Time<B>> for Time<A> {
    type Output = Time<A>;

    /// Nanosecond counts subtract, wrapping on underflow; the result
    /// keeps the left operand's tag.
    fn sub(self, rhs: Time<B>) -> (r: Time<A>) {
        Time { ns: self.ns.wrapping_sub(rhs.ns), unit: PhantomData }
    }
}

impl<A: TimeUnit, B: TimeUnit> vstd::std_specs::ops::SubSpecImpl<Time<B>> for Time<A> {
    open spec fn obeys_sub_spec() -> bool {
        true
    }

    open spec fn sub_req(self, rhs: Time<B>) -> bool {
        true
    }

    open spec fn sub_spec(self, rhs: Time<B>) -> Time<A> {
        Time::<A>::spec_with_base(u64_specs::wrapping_sub(self.spec_ns(), rhs.spec_ns()))
    }
}

impl<A: TimeUnit, B: TimeUnit> core::ops::Mul<Time<B>> for Time<A> {
    type Output = Time<A>;

    /// Nanosecond counts multiply, wrapping on overflow; the result keeps
    /// the left operand's tag.
    fn mul(self, rhs: Time<B>) -> (r: Time<A>) {
        Time { ns: self.ns.wrapping_mul(rhs.ns), unit: PhantomData }
    }
}

impl<A: TimeUnit, B: TimeUnit> vstd::std_specs::ops::MulSpecImpl<Time<B>> for Time<A> {
    open spec fn obeys_mul_spec() -> bool {
        true
    }

    open spec fn mul_req(self, rhs: Time<B>) -> bool {
        true
    }

    open spec fn mul_spec(self, rhs: Time<B>) -> Time<A> {
        Time::<A>::spec_with_base(u64_specs::wrapping_mul(self.spec_ns(), rhs.spec_ns()))
    }
}

impl<A: TimeUnit, B: TimeUnit> core::ops::Div<Time<B>> for Time<A> {
    type Output = Time<A>;

    /// Nanosecond counts divide (truncating); the divisor must not be
    /// zero.
    fn div(self, rhs: Time<B>) -> (r: Time<A>) {
        Time { ns: self.ns / rhs.ns, unit: PhantomData }
    }
}

impl<A: TimeUnit, B: TimeUnit> vstd::std_specs::ops::DivSpecImpl<Time<B>> for Time<A> {
    open spec fn obeys_div_spec() -> bool {
        true
    }

    open spec fn div_req(self, rhs: Time<B>) -> bool {
        rhs.spec_ns() != 0
    }

    open spec fn div_spec(self, rhs: Time<B>) -> Time<A> {
        Time::<A>::spec_with_base((self.spec_ns() / rhs.spec_ns()) as u64)
    }
}

/// Wraps a raw unsigned integer directly into a time quantity of a given
/// unit. Each helper returns exactly what [`Time::from_raw`] of the
/// corresponding unit returns.
pub trait ToTime: Sized {
    /// The raw value being wrapped.
    spec fn spec_raw(self) -> u64;

    fn nanoseconds(self) -> (r: Time<Nanoseconds>)
        ensures
            r == Time::<Nanoseconds>::spec_from_raw(self.spec_raw()),
    ;

    fn microseconds(self) -> (r: Time<Microseconds>)
        ensures
            r == Time::<Microseconds>::spec_from_raw(self.spec_raw()),
    ;

    fn milliseconds(self) -> (r: Time<Milliseconds>)
        ensures
            r == Time::<Milliseconds>::spec_from_raw(self.spec_raw()),
    ;

    fn seconds(self) -> (r: Time<Seconds>)
        ensures
            r == Time::<Seconds>::spec_from_raw(self.spec_raw()),
    ;

    fn minutes(self) -> (r: Time<Minutes>)
        ensures
            r == Time::<Minutes>::spec_from_raw(self.spec_raw()),
    ;

    fn hours(self) -> (r: Time<Hours>)
        ensures
            r == Time::<Hours>::spec_from_raw(self.spec_raw()),
    ;
}

impl ToTime for u64 {
    open spec fn spec_raw(self) -> u64 {
        self
    }

    fn nanoseconds(self) -> (r: Time<Nanoseconds>) {
        Time::from_raw(self)
    }

    fn microseconds(self) -> (r: Time<Microseconds>) {
        Time::from_raw(self)
    }

    fn milliseconds(self) -> (r: Time<Milliseconds>) {
        Time::from_raw(self)
    }

    fn seconds(self) -> (r: Time<Seconds>) {
        Time::from_raw(self)
    }

    fn minutes(self) -> (r: Time<Minutes>) {
        Time::from_raw(self)
    }

    fn hours(self) -> (r: Time<Hours>) {
        Time::from_raw(self)
    }
}

/// Round trip: a quantity built from a raw value of some time unit,
/// rendered by the formatter and parsed back, is exactly the original
/// quantity, whenever the scaled value fits in 64 bits.
pub proof fn lemma_time_round_trip<U: TimeUnit>(n: u64)
    requires
        n * U::spec_scale() <= u64::MAX,
    ensures
        spec_parse_time(
            spec_render(Time::<U>::spec_from_raw(n).spec_ns(), U::spec_scale(), U::spec_name()),
        ) == Ok::<u64, MeasureError>(Time::<U>::spec_from_raw(n).spec_ns()),
{
    U::properties();
    U::time_aliases();
    let scale = U::spec_scale();
    let name = U::spec_name();
    let base = Time::<U>::spec_from_raw(n).spec_ns();
    assert(base == u64_specs::wrapping_mul(n, scale));
    assert((n as nat * scale as nat) % 0x10000000000000000nat == n as nat * scale as nat) by {
        vstd::arithmetic::div_mod::lemma_small_mod(n as nat * scale as nat, 0x10000000000000000nat);
    }
    assert(base == n * scale);
    vstd::arithmetic::div_mod::lemma_fundamental_div_mod_converse(
        base as int,
        scale as int,
        n as int,
        0,
    );
    let q = base as nat / scale as nat;
    let r = base as nat % scale as nat;
    assert(q == n && r == 0);
    let dec = spec_dec(n as nat);
    crate::numeral::lemma_dec_digits(n as nat);
    let label = if base == scale {
        name.drop_last()
    } else {
        name
    };
    assert(is_lower_word(label));
    assert(label.len() >= 1);
    let rendered = spec_render(base, scale, name);
    assert(rendered == dec + seq![' '] + label);
    let dl = dec.len() as int;
    let total = rendered.len() as int;
    assert(total == dl + 1 + label.len());
    assert(forall|k: int| 0 <= k < dl ==> rendered[k] == dec[k]);
    assert(rendered[dl] == ' ');
    assert(forall|k: int| dl + 1 <= k < total ==> rendered[k] == label[k - dl - 1]);

    // the number token is exactly the numeral
    assert(forall|k: int| dl <= k < total ==> non_digit_pred()(#[trigger] rendered[k])) by {
        assert forall|k: int| dl <= k < total implies non_digit_pred()(#[trigger] rendered[k]) by {
            if k == dl {
                assert(!is_digit_char(' '));
            } else {
                let c = label[k - dl - 1];
                assert('a' <= c && c <= 'z');
                assert(!is_digit_char(c));
            }
        }
    }
    assert(is_digit_char(rendered[0]) && is_digit_char(rendered[dl - 1]));
    crate::text::lemma_trim_bounds(rendered, non_digit_pred(), 0, dl);
    assert(rendered.subrange(0, dl) =~= dec);
    assert(number_token_of(rendered) == dec);
    crate::numeral::lemma_parse_dec(n);

    // the unit token is exactly the label
    assert(forall|k: int| 0 <= k < dl + 1 ==> non_unit_pred()(#[trigger] rendered[k])) by {
        assert forall|k: int| 0 <= k < dl + 1 implies non_unit_pred()(#[trigger] rendered[k]) by {
            if k == dl {
                assert(!crate::text::is_unit_char(' '));
            } else {
                let c = dec[k];
                assert(is_digit_char(c));
                assert(!crate::text::is_unit_char(c));
            }
        }
    }
    assert(crate::text::is_unit_char(rendered[dl + 1]) && crate::text::is_unit_char(
        rendered[total - 1],
    )) by {
        assert('a' <= label[0] && label[0] <= 'z');
        assert('a' <= label[label.len() - 1] && label[label.len() - 1] <= 'z');
    }
    crate::text::lemma_trim_bounds(rendered, non_unit_pred(), dl + 1, total);
    assert(rendered.subrange(dl + 1, total) =~= label);
    crate::text::lemma_lower_fixed(label);
    assert(unit_token_of(rendered) == label);
    assert(spec_time_scale(label) == Some(scale));
    assert(u64_specs::wrapping_mul(n, scale) == base);
}

/// Two time quantities, whatever their unit tags, are equal exactly when
/// their nanosecond counts are equal, and order by nanosecond count:
/// comparison ignores the tags entirely.
pub proof fn lemma_time_cross_unit_compare<A: TimeUnit, B: TimeUnit>(a: Time<A>, b: Time<B>)
    ensures
        a.eq_spec(&b) <==> a.spec_ns() == b.spec_ns(),
        a.partial_cmp_spec(&b) == Some(Ordering::Less) <==> a.spec_ns() < b.spec_ns(),
        a.partial_cmp_spec(&b) == Some(Ordering::Greater) <==> a.spec_ns() > b.spec_ns(),
        a.partial_cmp_spec(&b) == Some(Ordering::Equal) <==> a.spec_ns() == b.spec_ns(),
{
}

/// Case insensitivity: lower-casing the whole input — so in particular
/// writing the unit in any mixture of cases — parses to the same result.
pub proof fn lemma_time_parse_case_fold(s: Seq<char>)
    ensures
        spec_parse_time(lower_seq(s)) == spec_parse_time(s),
{
    crate::text::lemma_tokens_lower(s);
    crate::numeral::lemma_parse_u64_lower(number_token_of(s));
}

/// Whitespace tolerance: a character that can belong to neither token —
/// any whitespace, in particular — may be added at either end of the
/// input without changing the parse.
pub proof fn lemma_time_parse_padding(s: Seq<char>, c: char)
    requires
        !is_digit_char(c),
        !crate::text::is_unit_char(c),
    ensures
        spec_parse_time(seq![c] + s) == spec_parse_time(s),
        spec_parse_time(s + seq![c]) == spec_parse_time(s),
{
    crate::text::lemma_tokens_padding(s, c);
}

} // verus!
