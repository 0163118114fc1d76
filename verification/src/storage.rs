//! The storage family: quantities of bytes, tagged with a storage unit.
//!
//! The family's base unit is the byte. `kb`, `mb` and `gb` are the
//! 1024-based factors; the explicit binary-prefix spellings `kib`, `mib`
//! and `gib` denote the same factors, so either spelling parses to the
//! same quantity.

use vstd::prelude::*;
use core::marker::PhantomData;
use core::cmp::Ordering;
use vstd::wrapping::u64_specs;
use vstd::std_specs::cmp::{PartialEqSpec, PartialOrdSpec};
use crate::{MeasureError, Unit};
use crate::numeral::{parse_u64, spec_dec, spec_parse_u64};
use crate::render::{render_quantity, spec_render};
use crate::text::{
    chars_of, eq_chars_str, is_digit_char, is_lower_word, lower_seq, non_digit_pred, non_unit_pred,
    number_token, number_token_of, unit_token, unit_token_of,
};

verus! {

/// Unit tag for single bytes.
#[derive(Clone, Copy, Debug, PartialEq, Eq)]
pub struct Bytes;

/// Unit tag for kilobytes of 1024 bytes.
#[derive(Clone, Copy, Debug, PartialEq, Eq)]
pub struct Kilobytes;

/// Unit tag for kibibytes: the binary-prefix spelling of [`Kilobytes`].
#[derive(Clone, Copy, Debug, PartialEq, Eq)]
pub struct Kibibytes;

/// Unit tag for megabytes of 1024 * 1024 bytes.
#[derive(Clone, Copy, Debug, PartialEq, Eq)]
pub struct Megabytes;

/// Unit tag for mebibytes: the binary-prefix spelling of [`Megabytes`].
#[derive(Clone, Copy, Debug, PartialEq, Eq)]
pub struct Mebibytes;

/// Unit tag for gigabytes of 1024 * 1024 * 1024 bytes.
#[derive(Clone, Copy, Debug, PartialEq, Eq)]
pub struct Gigabytes;

/// Unit tag for gibibytes: the binary-prefix spelling of [`Gigabytes`].
#[derive(Clone, Copy, Debug, PartialEq, Eq)]
pub struct Gibibytes;

/// The scale factor a lower-cased unit token denotes, if any. Each unit
/// accepts its short form and its long name, both singular and plural.
pub open spec fn spec_storage_scale(tok: Seq<char>) -> Option<u64> {
    if tok == "b"@ || tok == "byte"@ || tok == "bytes"@ {
        Some(1u64)
    } else if tok == "kb"@ || tok == "kilobyte"@ || tok == "kilobytes"@ {
        Some(1024u64)
    } else if tok == "kib"@ || tok == "kibibyte"@ || tok == "kibibytes"@ {
        Some(1024u64)
    } else if tok == "mb"@ || tok == "megabyte"@ || tok == "megabytes"@ {
        Some(1048576u64)
    } else if tok == "mib"@ || tok == "mebibyte"@ || tok == "mebibytes"@ {
        Some(1048576u64)
    } else if tok == "gb"@ || tok == "gigabyte"@ || tok == "gigabytes"@ {
        Some(1073741824u64)
    } else if tok == "gib"@ || tok == "gibibyte"@ || tok == "gibibytes"@ {
        Some(1073741824u64)
    } else {
        None
    }
}

/// A unit of the storage family. Its name and scale factor are registered
/// in the family's alias table.
pub trait StorageUnit: Unit {
    /// The unit's plural name and its singular form both resolve to the
    /// unit's own scale factor in the alias table.
    proof fn storage_aliases()
        ensures
            spec_storage_scale(Self::spec_name()) == Some(Self::spec_scale()),
            spec_storage_scale(Self::spec_name().drop_last()) == Some(Self::spec_scale()),
    ;
}

impl Unit for Bytes {
    open spec fn spec_name() -> Seq<char> {
        "bytes"@
    }

    open spec fn spec_scale() -> u64 {
        1
    }

    proof fn properties() {
        reveal_strlit("bytes");
    }

    fn name() -> (n: String) {
        <String as vstd::string::StringExecFns>::from_str("bytes")
    }

    fn scale() -> (s: u64) {
        1
    }
}

impl StorageUnit for Bytes {
    proof fn storage_aliases() {
        reveal_strlit("bytes");
        reveal_strlit("byte");
        reveal_strlit("b");
        assert("bytes"@.drop_last() =~= "byte"@);
    }
}

impl Unit for Kilobytes {
    open spec fn spec_name() -> Seq<char> {
        "kilobytes"@
    }

    open spec fn spec_scale() -> u64 {
        1024
    }

    proof fn properties() {
        reveal_strlit("kilobytes");
    }

    fn name() -> (n: String) {
        <String as vstd::string::StringExecFns>::from_str("kilobytes")
    }

    fn scale() -> (s: u64) {
        1024
    }
}

impl StorageUnit for Kilobytes {
    proof fn storage_aliases() {
        reveal_strlit("kilobytes");
        reveal_strlit("kilobyte");
        reveal_strlit("kb");
        reveal_strlit("bytes");
        reveal_strlit("byte");
        reveal_strlit("b");
        assert("kilobytes"@.drop_last() =~= "kilobyte"@);
    }
}

impl Unit for Kibibytes {
    open spec fn spec_name() -> Seq<char> {
        "kibibytes"@
    }

    open spec fn spec_scale() -> u64 {
        1024
    }

    proof fn properties() {
        reveal_strlit("kibibytes");
    }

    fn name() -> (n: String) {
        <String as vstd::string::StringExecFns>::from_str("kibibytes")
    }

    fn scale() -> (s: u64) {
        1024
    }
}

impl StorageUnit for Kibibytes {
    proof fn storage_aliases() {
        reveal_strlit("kibibytes");
        reveal_strlit("kibibyte");
        reveal_strlit("kib");
        reveal_strlit("kilobytes");
        reveal_strlit("kilobyte");
        reveal_strlit("kb");
        reveal_strlit("bytes");
        reveal_strlit("byte");
        reveal_strlit("b");
        assert("kibibytes"@.drop_last() =~= "kibibyte"@);
    }
}

impl Unit for Megabytes {
    open spec fn spec_name() -> Seq<char> {
        "megabytes"@
    }

    open spec fn spec_scale() -> u64 {
        1048576
    }

    proof fn properties() {
        reveal_strlit("megabytes");
    }

    fn name() -> (n: String) {
        <String as vstd::string::StringExecFns>::from_str("megabytes")
    }

    fn scale() -> (s: u64) {
        1048576
    }
}

impl StorageUnit for Megabytes {
    proof fn storage_aliases() {
        reveal_strlit("megabytes");
        reveal_strlit("megabyte");
        reveal_strlit("mb");
        reveal_strlit("kibibytes");
        reveal_strlit("kibibyte");
        reveal_strlit("kib");
        reveal_strlit("kilobytes");
        reveal_strlit("kilobyte");
        reveal_strlit("kb");
        reveal_strlit("bytes");
        reveal_strlit("byte");
        reveal_strlit("b");
        assert("megabytes"@ != "kilobytes"@) by {
            assert("megabytes"@[0] == 'm' && "kilobytes"@[0] == 'k');
        }
        assert("megabytes"@ != "kibibytes"@) by {
            assert("megabytes"@[0] == 'm' && "kibibytes"@[0] == 'k');
        }
        assert("megabyte"@ != "kilobyte"@) by {
            assert("megabyte"@[0] == 'm' && "kilobyte"@[0] == 'k');
        }
        assert("megabyte"@ != "kibibyte"@) by {
            assert("megabyte"@[0] == 'm' && "kibibyte"@[0] == 'k');
        }
        assert("megabytes"@.drop_last() =~= "megabyte"@);
    }
}

impl Unit for Mebibytes {
    open spec fn spec_name() -> Seq<char> {
        "mebibytes"@
    }

    open spec fn spec_scale() -> u64 {
        1048576
    }

    proof fn properties() {
        reveal_strlit("mebibytes");
    }

    fn name() -> (n: String) {
        <String as vstd::string::StringExecFns>::from_str("mebibytes")
    }

    fn scale() -> (s: u64) {
        1048576
    }
}

impl StorageUnit for Mebibytes {
    proof fn storage_aliases() {
        reveal_strlit("mebibytes");
        reveal_strlit("mebibyte");
        reveal_strlit("mib");
        reveal_strlit("megabytes");
        reveal_strlit("megabyte");
        reveal_strlit("mb");
        reveal_strlit("kibibytes");
        reveal_strlit("kibibyte");
        reveal_strlit("kib");
        reveal_strlit("kilobytes");
        reveal_strlit("kilobyte");
        reveal_strlit("kb");
        reveal_strlit("bytes");
        reveal_strlit("byte");
        reveal_strlit("b");
        assert("mebibytes"@ != "kilobytes"@) by {
            assert("mebibytes"@[0] == 'm' && "kilobytes"@[0] == 'k');
        }
        assert("mebibytes"@ != "kibibytes"@) by {
            assert("mebibytes"@[0] == 'm' && "kibibytes"@[0] == 'k');
        }
        assert("mebibytes"@ != "megabytes"@) by {
            assert("mebibytes"@[2] == 'b' && "megabytes"@[2] == 'g');
        }
        assert("mebibyte"@ != "kilobyte"@) by {
            assert("mebibyte"@[0] == 'm' && "kilobyte"@[0] == 'k');
        }
        assert("mebibyte"@ != "kibibyte"@) by {
            assert("mebibyte"@[0] == 'm' && "kibibyte"@[0] == 'k');
        }
        assert("mebibyte"@ != "megabyte"@) by {
            assert("mebibyte"@[2] == 'b' && "megabyte"@[2] == 'g');
        }
        assert("mebibytes"@.drop_last() =~= "mebibyte"@);
    }
}

impl Unit for Gigabytes {
    open spec fn spec_name() -> Seq<char> {
        "gigabytes"@
    }

    open spec fn spec_scale() -> u64 {
        1073741824
    }

    proof fn properties() {
        reveal_strlit("gigabytes");
    }

    fn name() -> (n: String) {
        <String as vstd::string::StringExecFns>::from_str("gigabytes")
    }

    fn scale() -> (s: u64) {
        1073741824
    }
}

impl StorageUnit for Gigabytes {
    proof fn storage_aliases() {
        reveal_strlit("gigabytes");
        reveal_strlit("gigabyte");
        reveal_strlit("gb");
        reveal_strlit("mebibytes");
        reveal_strlit("mebibyte");
        reveal_strlit("mib");
        reveal_strlit("megabytes");
        reveal_strlit("megabyte");
        reveal_strlit("mb");
        reveal_strlit("kibibytes");
        reveal_strlit("kibibyte");
        reveal_strlit("kib");
        reveal_strlit("kilobytes");
        reveal_strlit("kilobyte");
        reveal_strlit("kb");
        reveal_strlit("bytes");
        reveal_strlit("byte");
        reveal_strlit("b");
        assert("gigabytes"@ != "kilobytes"@) by {
            assert("gigabytes"@[0] == 'g' && "kilobytes"@[0] == 'k');
        }
        assert("gigabytes"@ != "kibibytes"@) by {
            assert("gigabytes"@[0] == 'g' && "kibibytes"@[0] == 'k');
        }
        assert("gigabytes"@ != "megabytes"@) by {
            assert("gigabytes"@[0] == 'g' && "megabytes"@[0] == 'm');
        }
        assert("gigabytes"@ != "mebibytes"@) by {
            assert("gigabytes"@[0] == 'g' && "mebibytes"@[0] == 'm');
        }
        assert("gigabyte"@ != "kilobyte"@) by {
            assert("gigabyte"@[0] == 'g' && "kilobyte"@[0] == 'k');
        }
        assert("gigabyte"@ != "kibibyte"@) by {
            assert("gigabyte"@[0] == 'g' && "kibibyte"@[0] == 'k');
        }
        assert("gigabyte"@ != "megabyte"@) by {
            assert("gigabyte"@[0] == 'g' && "megabyte"@[0] == 'm');
        }
        assert("gigabyte"@ != "mebibyte"@) by {
            assert("gigabyte"@[0] == 'g' && "mebibyte"@[0] == 'm');
        }
        assert("gigabytes"@.drop_last() =~= "gigabyte"@);
    }
}

impl Unit for Gibibytes {
    open spec fn spec_name() -> Seq<char> {
        "gibibytes"@
    }

    open spec fn spec_scale() -> u64 {
        1073741824
    }

    proof fn properties() {
        reveal_strlit("gibibytes");
    }

    fn name() -> (n: String) {
        <String as vstd::string::StringExecFns>::from_str("gibibytes")
    }

    fn scale() -> (s: u64) {
        1073741824
    }
}

impl StorageUnit for Gibibytes {
    proof fn storage_aliases() {
        reveal_strlit("gibibytes");
        reveal_strlit("gibibyte");
        reveal_strlit("gib");
        reveal_strlit("gigabytes");
        reveal_strlit("gigabyte");
        reveal_strlit("gb");
        reveal_strlit("mebibytes");
        reveal_strlit("mebibyte");
        reveal_strlit("mib");
        reveal_strlit("megabytes");
        reveal_strlit("megabyte");
        reveal_strlit("mb");
        reveal_strlit("kibibytes");
        reveal_strlit("kibibyte");
        reveal_strlit("kib");
        reveal_strlit("kilobytes");
        reveal_strlit("kilobyte");
        reveal_strlit("kb");
        reveal_strlit("bytes");
        reveal_strlit("byte");
        reveal_strlit("b");
        assert("gibibytes"@ != "kilobytes"@) by {
            assert("gibibytes"@[0] == 'g' && "kilobytes"@[0] == 'k');
        }
        assert("gibibytes"@ != "kibibytes"@) by {
            assert("gibibytes"@[0] == 'g' && "kibibytes"@[0] == 'k');
        }
        assert("gibibytes"@ != "megabytes"@) by {
            assert("gibibytes"@[0] == 'g' && "megabytes"@[0] == 'm');
        }
        assert("gibibytes"@ != "mebibytes"@) by {
            assert("gibibytes"@[0] == 'g' && "mebibytes"@[0] == 'm');
        }
        assert("gibibytes"@ != "gigabytes"@) by {
            assert("gibibytes"@[2] == 'b' && "gigabytes"@[2] == 'g');
        }
        assert("gibibyte"@ != "kilobyte"@) by {
            assert("gibibyte"@[0] == 'g' && "kilobyte"@[0] == 'k');
        }
        assert("gibibyte"@ != "kibibyte"@) by {
            assert("gibibyte"@[0] == 'g' && "kibibyte"@[0] == 'k');
        }
        assert("gibibyte"@ != "megabyte"@) by {
            assert("gibibyte"@[0] == 'g' && "megabyte"@[0] == 'm');
        }
        assert("gibibyte"@ != "mebibyte"@) by {
            assert("gibibyte"@[0] == 'g' && "mebibyte"@[0] == 'm');
        }
        assert("gibibyte"@ != "gigabyte"@) by {
            assert("gibibyte"@[2] == 'b' && "gigabyte"@[2] == 'g');
        }
        assert("gibibytes"@.drop_last() =~= "gibibyte"@);
    }
}

/// A quantity of storage: an integer count of bytes, tagged at compile
/// time with a storage unit. The tag costs nothing at runtime.
#[derive(Copy, Debug)]
pub struct Storage<U: StorageUnit> {
    bytes: u64,
    unit: PhantomData<U>,
}

impl<U: StorageUnit> Clone for Storage<U> {
    fn clone(&self) -> (r: Self) {
        Storage { bytes: self.bytes, unit: PhantomData }
    }
}

/// What parsing an input as a storage quantity yields: the byte count on
/// success, or the first failure.
pub open spec fn spec_parse_storage(s: Seq<char>) -> Result<u64, MeasureError> {
    match spec_parse_u64(number_token_of(s)) {
        Err(e) => Err(MeasureError::InvalidNumber(e)),
        Ok(n) => match spec_storage_scale(unit_token_of(s)) {
            None => Err(MeasureError::InvalidUnit),
            Some(scale) => Ok(u64_specs::wrapping_mul(n, scale)),
        },
    }
}

fn storage_scale_of(tok: &Vec<char>) -> (r: Option<u64>)
    ensures
        r == spec_storage_scale(tok@),
{
    if eq_chars_str(tok, "b") || eq_chars_str(tok, "byte") || eq_chars_str(tok, "bytes") {
        Some(1)
    } else if eq_chars_str(tok, "kb") || eq_chars_str(tok, "kilobyte") || eq_chars_str(
        tok,
        "kilobytes",
    ) {
        Some(1024)
    } else if eq_chars_str(tok, "kib") || eq_chars_str(tok, "kibibyte") || eq_chars_str(
        tok,
        "kibibytes",
    ) {
        Some(1024)
    } else if eq_chars_str(tok, "mb") || eq_chars_str(tok, "megabyte") || eq_chars_str(
        tok,
        "megabytes",
    ) {
        Some(1048576)
    } else if eq_chars_str(tok, "mib") || eq_chars_str(tok, "mebibyte") || eq_chars_str(
        tok,
        "mebibytes",
    ) {
        Some(1048576)
    } else if eq_chars_str(tok, "gb") || eq_chars_str(tok, "gigabyte") || eq_chars_str(
        tok,
        "gigabytes",
    ) {
        Some(1073741824)
    } else if eq_chars_str(tok, "gib") || eq_chars_str(tok, "gibibyte") || eq_chars_str(
        tok,
        "gibibytes",
    ) {
        Some(1073741824)
    } else {
        None
    }
}

impl<U: StorageUnit> Storage<U> {
    /// The stored magnitude, always in bytes whatever the unit tag.
    pub closed spec fn spec_bytes(self) -> u64 {
        self.bytes
    }

    /// The quantity holding exactly `bytes` base units.
    pub closed spec fn spec_with_base(bytes: u64) -> Self {
        Storage { bytes, unit: PhantomData }
    }

    /// The quantity `value` of this unit denotes: `value` times the scale
    /// factor, in bytes. The multiplication wraps around on overflow.
    pub open spec fn spec_from_raw(value: u64) -> Self {
        Self::spec_with_base(u64_specs::wrapping_mul(value, U::spec_scale()))
    }

    /// Two quantities are the same value exactly when their byte counts
    /// agree; the unit tag carries no information.
    pub proof fn lemma_with_base(bytes: u64)
        ensures
            Self::spec_with_base(bytes).spec_bytes() == bytes,
            forall|q: Self| #![all_triggers] q == Self::spec_with_base(q.spec_bytes()),
    {
    }

    /// Wraps a raw count of this unit into a quantity: the stored byte
    /// count is the raw value times the unit's scale factor, wrapping
    /// around on overflow.
    pub fn from_raw(value: u64) -> (r: Self)
        ensures
            r == Self::spec_from_raw(value),
    {
        Storage { bytes: value.wrapping_mul(U::scale()), unit: PhantomData }
    }

    /// Re-tags the quantity with another storage unit. The stored byte
    /// count does not change: conversion within the family is free.
    pub fn into<B: StorageUnit>(self) -> (r: Storage<B>)
        ensures
            r.spec_bytes() == self.spec_bytes(),
    {
        Storage { bytes: self.bytes, unit: PhantomData }
    }

    /// Renders the quantity as `"<value> <name>"`, with the singular name
    /// exactly when the value is one.
    pub fn display(&self) -> (out: String)
        ensures
            out@ == spec_render(self.spec_bytes(), U::spec_scale(), U::spec_name()),
    {
        proof {
            U::properties();
        }
        let name = U::name();
        render_quantity(self.bytes, U::scale(), name.as_str())
    }

    /// Recovers a quantity from text such as `"15 GB"`: a decimal numeral
    /// followed by a unit spelling, case-insensitively, with any amount of
    /// whitespace around either. The value is converted from the spelled
    /// unit to this one.
    pub fn parse_str(s: &str) -> (r: Result<Self, MeasureError>)
        ensures
            spec_parse_storage(s@) is Ok ==> r is Ok && r->Ok_0.spec_bytes() == spec_parse_storage(
                s@,
            )->Ok_0,
            spec_parse_storage(s@) is Err ==> r == Err::<Self, MeasureError>(
                spec_parse_storage(s@)->Err_0,
            ),
    {
        let v = chars_of(s);
        let num_tok = number_token(&v);
        let unit_tok = unit_token(&v);
        let n = match parse_u64(&num_tok) {
            Ok(n) => n,
            Err(e) => {
                return Err(MeasureError::InvalidNumber(e));
            },
        };
        match storage_scale_of(&unit_tok) {
            Some(scale) => Ok(Storage { bytes: n.wrapping_mul(scale), unit: PhantomData }),
            None => Err(MeasureError::InvalidUnit),
        }
    }
}

impl<U: StorageUnit> core::str::FromStr for Storage<U> {
    type Err = MeasureError;

    fn from_str(s: &str) -> (r: Result<Self, MeasureError>) {
        Self::parse_str(s)
    }
}

impl<U: StorageUnit> From<u64> for Storage<U> {
    /// Same conversion as [`Storage::from_raw`].
    fn from(value: u64) -> (r: Self) {
        Self::from_raw(value)
    }
}

impl<U: StorageUnit> vstd::std_specs::convert::FromSpecImpl<u64> for Storage<U> {
    open spec fn obeys_from_spec() -> bool {
        true
    }

    open spec fn from_spec(value: u64) -> Self {
        Self::spec_from_raw(value)
    }
}

impl<A: StorageUnit, B: StorageUnit> PartialEq<Storage<B>> for Storage<A> {
    /// Quantities compare by byte count alone, whatever their unit tags.
    fn eq(&self, other: &Storage<B>) -> (r: bool) {
        self.bytes == other.bytes
    }
}

impl<A: StorageUnit, B: StorageUnit> vstd::std_specs::cmp::PartialEqSpecImpl<Storage<B>> for Storage<A> {
    open spec fn obeys_eq_spec() -> bool {
        true
    }

    open spec fn eq_spec(&self, other: &Storage<B>) -> bool {
        self.spec_bytes() == other.spec_bytes()
    }
}

impl<A: StorageUnit, B: StorageUnit> PartialOrd<Storage<B>> for Storage<A> {
    /// Quantities order by byte count alone, whatever their unit tags.
    fn partial_cmp(&self, other: &Storage<B>) -> (r: Option<Ordering>) {
        if self.bytes < other.bytes {
            Some(Ordering::Less)
        } else if self.bytes > other.bytes {
            Some(Ordering::Greater)
        } else {
            Some(Ordering::Equal)
        }
    }
}

impl<A: StorageUnit, B: StorageUnit> vstd::std_specs::cmp::PartialOrdSpecImpl<Storage<B>> for Storage<A> {
    open spec fn obeys_partial_cmp_spec() -> bool {
        true
    }

    open spec fn partial_cmp_spec(&self, other: &Storage<B>) -> Option<Ordering> {
        if self.spec_bytes() < other.spec_bytes() {
            Some(Ordering::Less)
        } else if self.spec_bytes() > other.spec_bytes() {
            Some(Ordering::Greater)
        } else {
            Some(Ordering::Equal)
        }
    }
}

impl<A: StorageUnit, B: StorageUnit> core::ops::Add<Storage<B>> for Storage<A> {
    type Output = Storage<A>;

    /// Byte counts add, wrapping on overflow; the result keeps the left
    /// operand's tag.
    fn add(self, rhs: Storage<B>) -> (r: Storage<A>) {
        Storage { bytes: self.bytes.wrapping_add(rhs.bytes), unit: PhantomData }
    }
}

impl<A: StorageUnit, B: StorageUnit> vstd::std_specs::ops::AddSpecImpl<Storage<B>> for Storage<A> {
    open spec fn obeys_add_spec() -> bool {
        true
    }

    open spec fn add_req(self, rhs: Storage<B>) -> bool {
        true
    }

    open spec fn add_spec(self, rhs: Storage<B>) -> Storage<A> {
        Storage::<A>::spec_with_base(u64_specs::wrapping_add(self.spec_bytes(), rhs.spec_bytes()))
    }
}

impl<A: StorageUnit, B: StorageUnit> core::ops::Sub<Storage<B>> for Storage<A> {
    type Output = Storage<A>;

    /// Byte counts subtract, wrapping on underflow; the result keeps the
    /// left operand's tag.
    fn sub(self, rhs: Storage<B>) -> (r: Storage<A>) {
        Storage { bytes: self.bytes.wrapping_sub(rhs.bytes), unit: PhantomData }
    }
}

impl<A: StorageUnit, B: StorageUnit> vstd::std_specs::ops::SubSpecImpl<Storage<B>> for Storage<A> {
    open spec fn obeys_sub_spec() -> bool {
        true
    }

    open spec fn sub_req(self, rhs: Storage<B>) -> bool {
        true
    }

    open spec fn sub_spec(self, rhs: Storage<B>) -> Storage<A> {
        Storage::<A>::spec_with_base(u64_specs::wrapping_sub(self.spec_bytes(), rhs.spec_bytes()))
    }
}

impl<A: StorageUnit, B: StorageUnit> core::ops::Mul<Storage<B>> for Storage<A> {
    type Output = Storage<A>;

    /// Byte counts multiply, wrapping on overflow; the result keeps the
    /// left operand's tag.
    fn mul(self, rhs: Storage<B>) -> (r: Storage<A>) {
        Storage { bytes: self.bytes.wrapping_mul(rhs.bytes), unit: PhantomData }
    }
}

impl<A: StorageUnit, B: StorageUnit> vstd::std_specs::ops::MulSpecImpl<Storage<B>> for Storage<A> {
    open spec fn obeys_mul_spec() -> bool {
        true
    }

    open spec fn mul_req(self, rhs: Storage<B>) -> bool {
        true
    }

    open spec fn mul_spec(self, rhs: Storage<B>) -> Storage<A> {
        Storage::<A>::spec_with_base(u64_specs::wrapping_mul(self.spec_bytes(), rhs.spec_bytes()))
    }
}

impl<A: StorageUnit, B: StorageUnit> core::ops::Div<Storage<B>> for Storage<A> {
    type Output = Storage<A>;

    /// Byte counts divide (truncating); the divisor must not be zero.
    fn div(self, rhs: Storage<B>) -> (r: Storage<A>) {
        Storage { bytes: self.bytes / rhs.bytes, unit: PhantomData }
    }
}

impl<A: StorageUnit, B: StorageUnit> vstd::std_specs::ops::DivSpecImpl<Storage<B>> for Storage<A> {
    open spec fn obeys_div_spec() -> bool {
        true
    }

    open spec fn div_req(self, rhs: Storage<B>) -> bool {
        rhs.spec_bytes() != 0
    }

    open spec fn div_spec(self, rhs: Storage<B>) -> Storage<A> {
        Storage::<A>::spec_with_base((self.spec_bytes() / rhs.spec_bytes()) as u64)
    }
}

/// Wraps a raw unsigned integer directly into a storage quantity of a
/// given unit. Each helper returns exactly what [`Storage::from_raw`] of
/// the corresponding unit returns.
pub trait ToStorage: Sized {
    /// The raw value being wrapped.
    spec fn spec_raw(self) -> u64;

    fn bytes(self) -> (r: Storage<Bytes>)
        ensures
            r == Storage::<Bytes>::spec_from_raw(self.spec_raw()),
    ;

    fn kilobytes(self) -> (r: Storage<Kilobytes>)
        ensures
            r == Storage::<Kilobytes>::spec_from_raw(self.spec_raw()),
    ;

    fn kibibytes(self) -> (r: Storage<Kibibytes>)
        ensures
            r == Storage::<Kibibytes>::spec_from_raw(self.spec_raw()),
    ;

    fn megabytes(self) -> (r: Storage<Megabytes>)
        ensures
            r == Storage::<Megabytes>::spec_from_raw(self.spec_raw()),
    ;

    fn mebibytes(self) -> (r: Storage<Mebibytes>)
        ensures
            r == Storage::<Mebibytes>::spec_from_raw(self.spec_raw()),
    ;

    fn gigabytes(self) -> (r: Storage<Gigabytes>)
        ensures
            r == Storage::<Gigabytes>::spec_from_raw(self.spec_raw()),
    ;

    fn gibibytes(self) -> (r: Storage<Gibibytes>)
        ensures
            r == Storage::<Gibibytes>::spec_from_raw(self.spec_raw()),
    ;
}

impl ToStorage for u64 {
    open spec fn spec_raw(self) -> u64 {
        self
    }

    fn bytes(self) -> (r: Storage<Bytes>) {
        Storage::from_raw(self)
    }

    fn kilobytes(self) -> (r: Storage<Kilobytes>) {
        Storage::from_raw(self)
    }

    fn kibibytes(self) -> (r: Storage<Kibibytes>) {
        Storage::from_raw(self)
    }

    fn megabytes(self) -> (r: Storage<Megabytes>) {
        Storage::from_raw(self)
    }

    fn mebibytes(self) -> (r: Storage<Mebibytes>) {
        Storage::from_raw(self)
    }

    fn gigabytes(self) -> (r: Storage<Gigabytes>) {
        Storage::from_raw(self)
    }

    fn gibibytes(self) -> (r: Storage<Gibibytes>) {
        Storage::from_raw(self)
    }
}

/// Round trip: a quantity built from a raw value of some storage unit,
/// rendered by the formatter and parsed back, is exactly the original
/// quantity, whenever the scaled value fits in 64 bits.
pub proof fn lemma_storage_round_trip<U: StorageUnit>(n: u64)
    requires
        n * U::spec_scale() <= u64::MAX,
    ensures
        spec_parse_storage(
            spec_render(
                Storage::<U>::spec_from_raw(n).spec_bytes(),
                U::spec_scale(),
                U::spec_name(),
            ),
        ) == Ok::<u64, MeasureError>(Storage::<U>::spec_from_raw(n).spec_bytes()),
{
    U::properties();
    U::storage_aliases();
    let scale = U::spec_scale();
    let name = U::spec_name();
    let base = Storage::<U>::spec_from_raw(n).spec_bytes();
    assert(base == u64_specs::wrapping_mul(n, scale));
    assert((n as nat * scale as nat) % 0x10000000000000000nat == n as nat * scale as nat) by {
        vstd::arithmetic::div_mod::lemma_small_mod(n as nat * scale as nat, 0x10000000000000000nat);
    }
    assert(base == n * scale);
    vstd::arithmetic::div_mod::lemma_fundamental_div_mod_converse(
        base as int,
        scale as int,
        n as int,
        0,
    );
    let q = base as nat / scale as nat;
    let r = base as nat % scale as nat;
    assert(q == n && r == 0);
    let dec = spec_dec(n as nat);
    crate::numeral::lemma_dec_digits(n as nat);
    let label = if base == scale {
        name.drop_last()
    } else {
        name
    };
    assert(is_lower_word(label));
    assert(label.len() >= 1);
    let rendered = spec_render(base, scale, name);
    assert(rendered == dec + seq![' '] + label);
    let dl = dec.len() as int;
    let total = rendered.len() as int;
    assert(total == dl + 1 + label.len());
    assert(forall|k: int| 0 <= k < dl ==> rendered[k] == dec[k]);
    assert(rendered[dl] == ' ');
    assert(forall|k: int| dl + 1 <= k < total ==> rendered[k] == label[k - dl - 1]);

    // the number token is exactly the numeral
    assert(forall|k: int| dl <= k < total ==> non_digit_pred()(#[trigger] rendered[k])) by {
        assert forall|k: int| dl <= k < total implies non_digit_pred()(#[trigger] rendered[k]) by {
            if k == dl {
                assert(!is_digit_char(' '));
            } else {
                let c = label[k - dl - 1];
                assert('a' <= c && c <= 'z');
                assert(!is_digit_char(c));
            }
        }
    }
    assert(is_digit_char(rendered[0]) && is_digit_char(rendered[dl - 1]));
    crate::text::lemma_trim_bounds(rendered, non_digit_pred(), 0, dl);
    assert(rendered.subrange(0, dl) =~= dec);
    assert(number_token_of(rendered) == dec);
    crate::numeral::lemma_parse_dec(n);

    // the unit token is exactly the label
    assert(forall|k: int| 0 <= k < dl + 1 ==> non_unit_pred()(#[trigger] rendered[k])) by {
        assert forall|k: int| 0 <= k < dl + 1 implies non_unit_pred()(#[trigger] rendered[k]) by {
            if k == dl {
                assert(!crate::text::is_unit_char(' '));
            } else {
                let c = dec[k];
                assert(is_digit_char(c));
                assert(!crate::text::is_unit_char(c));
            }
        }
    }
    assert(crate::text::is_unit_char(rendered[dl + 1]) && crate::text::is_unit_char(
        rendered[total - 1],
    )) by {
        assert('a' <= label[0] && label[0] <= 'z');
        assert('a' <= label[label.len() - 1] && label[label.len() - 1] <= 'z');
    }
    crate::text::lemma_trim_bounds(rendered, non_unit_pred(), dl + 1, total);
    assert(rendered.subrange(dl + 1, total) =~= label);
    crate::text::lemma_lower_fixed(label);
    assert(unit_token_of(rendered) == label);
    assert(spec_storage_scale(label) == Some(scale));
    assert(u64_specs::wrapping_mul(n, scale) == base);
}

/// Two storage quantities, whatever their unit tags, are equal exactly
/// when their byte counts are equal, and order by byte count: comparison
/// ignores the tags entirely.
pub proof fn lemma_storage_cross_unit_compare<A: StorageUnit, B: StorageUnit>(
    a: Storage<A>,
    b: Storage<B>,
)
    ensures
        a.eq_spec(&b) <==> a.spec_bytes() == b.spec_bytes(),
        a.partial_cmp_spec(&b) == Some(Ordering::Less) <==> a.spec_bytes() < b.spec_bytes(),
        a.partial_cmp_spec(&b) == Some(Ordering::Greater) <==> a.spec_bytes() > b.spec_bytes(),
        a.partial_cmp_spec(&b) == Some(Ordering::Equal) <==> a.spec_bytes() == b.spec_bytes(),
{
}

/// Case insensitivity: lower-casing the whole input — so in particular
/// writing the unit in any mixture of cases — parses to the same result.
pub proof fn lemma_storage_parse_case_fold(s: Seq<char>)
    ensures
        spec_parse_storage(lower_seq(s)) == spec_parse_storage(s),
{
    crate::text::lemma_tokens_lower(s);
    crate::numeral::lemma_parse_u64_lower(number_token_of(s));
}

/// Whitespace tolerance: a character that can belong to neither token —
/// any whitespace, in particular — may be added at either end of the
/// input without changing the parse, so `"15GB"`, `" 15 gb "` and
/// `"15 gb"` agree.
pub proof fn lemma_storage_parse_padding(s: Seq<char>, c: char)
    requires
        !is_digit_char(c),
        !crate::text::is_unit_char(c),
    ensures
        spec_parse_storage(seq![c] + s) == spec_parse_storage(s),
        spec_parse_storage(s + seq![c]) == spec_parse_storage(s),
{
    crate::text::lemma_tokens_padding(s, c);
}

} // verus!
