//! A calendar month and its packed integer encoding.

use vstd::prelude::*;

verus! {

/// A calendar month: a year plus a one-based month number.
#[derive(Debug, Clone, PartialEq)]
pub struct Month {
    pub year: i32,
    pub month: i32,
}

/// Quotient of `m` by 12 rounded toward zero, as Rust's `/` computes it.
pub open spec fn div12_trunc(m: int) -> int {
    if m >= 0 {
        m / 12
    } else {
        -((-m) / 12)
    }
}

/// Remainder of `m` by 12 carrying the sign of `m`, as Rust's `%` computes it.
pub open spec fn rem12_trunc(m: int) -> int {
    if m >= 0 {
        m % 12
    } else {
        -((-m) % 12)
    }
}

impl Month {
    /// Decode a month index (months counted from January 2000) into a
    /// calendar month.
    pub fn from_i32(month: i32) -> (r: Self)
        ensures
            r.year == div12_trunc(month as int) + 2000,
            r.month == rem12_trunc(month as int) + 1,
    {
        Self { year: month / 12 + 2000, month: month % 12 + 1 }
    }

    /// Encode the calendar month as a month index counting from January 2000.
    pub fn to_i32(&self) -> (r: i32)
        requires
            i32::MIN <= self.year - 2000 <= i32::MAX,
            i32::MIN <= (self.year - 2000) * 12 <= i32::MAX,
            i32::MIN <= (self.year - 2000) * 12 + self.month <= i32::MAX,
            i32::MIN <= (self.year - 2000) * 12 + self.month - 1,
        ensures
            r == (self.year - 2000) * 12 + self.month - 1,
    {
        (self.year - 2000) * 12 + self.month - 1
    }
}

/// Law: the truncating quotient and remainder by 12 recompose to the
/// original index. With the contracts of [`Month::from_i32`] and
/// [`Month::to_i32`], encoding a decoded month index returns the index.
pub proof fn lemma_month_index_roundtrip(m: int)
    ensures
        12 * div12_trunc(m) + rem12_trunc(m) == m,
{
    if m >= 0 {
        vstd::arithmetic::div_mod::lemma_fundamental_div_mod(m, 12);
    } else {
        vstd::arithmetic::div_mod::lemma_fundamental_div_mod(-m, 12);
    }
}

/// A calendar month as supplied by a client, before adoption as a [`Month`].
#[derive(Debug, Clone)]
pub struct MonthInput {
    pub year: i32,
    pub month: i32,
}

impl From<MonthInput> for Month {
    /// Adopt a client-supplied month field for field.
    fn from(value: MonthInput) -> (r: Month) {
        Month { year: value.year, month: value.month }
    }
}

impl vstd::std_specs::convert::FromSpecImpl<MonthInput> for Month {
    open spec fn obeys_from_spec() -> bool {
        true
    }

    open spec fn from_spec(value: MonthInput) -> Month {
        Month { year: value.year, month: value.month }
    }
}

} // verus!
