//! Birth dates: the century rule, the gender offset of the day, and the
//! calendar that decides which dates exist.
use vstd::prelude::*;
use crate::tables::month_of_letter;
use crate::tables::month_number;
use crate::types::{BirthDate, FiscalCodeError, Gender};

verus! {

pub open spec fn is_leap_year(y: int) -> bool {
    y % 4 == 0 && (y % 100 != 0 || y % 400 == 0)
}

pub open spec fn days_in_month(y: int, m: int) -> int {
    if m == 2 {
        if is_leap_year(y) { 29 } else { 28 }
    } else if m == 4 || m == 6 || m == 9 || m == 11 {
        30
    } else {
        31
    }
}

/// Whether year `y`, month `m` and day `d` name a date of the proleptic
/// Gregorian calendar within the years that chrono's `NaiveDate` covers.
pub open spec fn calendar_date_exists(y: int, m: int, d: int) -> bool {
    &&& -262143 <= y && y <= 262142
    &&& 1 <= m && m <= 12
    &&& 1 <= d && d <= days_in_month(y, m)
}

#[verifier::external_type_specification]
#[verifier::external_body]
pub struct ExNaiveDate(chrono::NaiveDate);

/// Relies on `chrono::NaiveDate::from_ymd_opt`: `Some` exactly for the dates
/// that exist, within chrono's range of years.
pub assume_specification[ chrono::NaiveDate::from_ymd_opt ](year: i32, month: u32, day: u32) -> (r:
    Option<chrono::NaiveDate>)
    ensures
        r is Some <==> calendar_date_exists(year as int, month as int, day as int),
;

/// The start of the century that holds `t`: `t` less its last two digits.
pub open spec fn century_start(t: int) -> int {
    t - t % 100
}

/// The full year of a two-digit year `yy` seen from the year `today`: the
/// year of today's century that ends in `yy`, moved back a century unless it
/// is before `today`.
pub open spec fn birth_year(yy: int, today: int) -> int {
    let candidate = century_start(today) + yy;
    if candidate < today {
        candidate
    } else {
        candidate - 100
    }
}

/// The gender that a day-plus-offset value encodes.
pub open spec fn gender_of(v: int) -> Gender {
    if v > 40 {
        Gender::Female
    } else {
        Gender::Male
    }
}

/// The day of the month that a day-plus-offset value encodes.
pub open spec fn day_of(v: int) -> int {
    if v > 40 {
        v - 40
    } else {
        v
    }
}

/// The birth date that a two-digit year, a month letter and a day-plus-offset
/// value encode, seen from the year `today`.
pub open spec fn birth_date(yy: int, month: char, v: int, today: int) -> Result<
    BirthDate,
    FiscalCodeError,
> {
    match month_of_letter(month) {
        None => Err(FiscalCodeError::InvalidMonth),
        Some(m) => {
            let d = day_of(v);
            let y = birth_year(yy, today);
            if !(1 <= d && d <= 31) {
                Err(FiscalCodeError::InvalidDay)
            } else if !calendar_date_exists(y, m, d) {
                Err(FiscalCodeError::InvalidDate)
            } else {
                Ok(BirthDate { year: y as i32, month: m as u32, day: d as u32 })
            }
        },
    }
}

/// The gender that the day-plus-offset field encodes.
pub fn gender(birth_day_gender: u8) -> (r: Gender)
    ensures
        r == gender_of(birth_day_gender as int),
{
    if birth_day_gender > 40 {
        Gender::Female
    } else {
        Gender::Male
    }
}

fn resolve_year(birth_year_two_digits: u8, today: i32) -> (r: i64)
    requires
        birth_year_two_digits < 100,
    ensures
        r as int == birth_year(birth_year_two_digits as int, today as int),
{
    let t = today as i64;
    let last_two: i64 = if t >= 0 {
        t % 100
    } else if (-t) % 100 == 0 {
        0
    } else {
        100 - (-t) % 100
    };
    let century = t - last_two;
    let candidate = century + birth_year_two_digits as i64;
    if candidate < t {
        candidate
    } else {
        candidate - 100
    }
}

/// Decodes the birth date from the year, month and day-plus-offset fields,
/// with the century chosen relative to the year `today`.
pub fn born_on(birth_year_two_digits: u8, birth_month: char, birth_day_gender: u8, today: i32) -> (r:
    Result<BirthDate, FiscalCodeError>)
    requires
        birth_year_two_digits < 100,
    ensures
        r == birth_date(birth_year_two_digits as int, birth_month, birth_day_gender as int, today as int),
{
    let month = match month_number(birth_month) {
        Some(m) => m,
        None => {
            return Err(FiscalCodeError::InvalidMonth);
        },
    };
    let day: u8 = if birth_day_gender > 40 {
        birth_day_gender - 40
    } else {
        birth_day_gender
    };
    let year = resolve_year(birth_year_two_digits, today);
    if day < 1 || day > 31 {
        return Err(FiscalCodeError::InvalidDay);
    }
    if year < i32::MIN as i64 || year > i32::MAX as i64 {
        return Err(FiscalCodeError::InvalidDate);
    }
    match chrono::NaiveDate::from_ymd_opt(year as i32, month, day as u32) {
        Some(_) => Ok(BirthDate { year: year as i32, month, day: day as u32 }),
        None => Err(FiscalCodeError::InvalidDate),
    }
}

/// The century rule gives the latest year before `today` whose last two
/// digits are `yy`: it lies before `today`, and the year a century later
/// does not.
pub proof fn lemma_birth_year_recent(yy: int, today: int)
    requires
        0 <= yy < 100,
    ensures
        birth_year(yy, today) < today,
        today <= birth_year(yy, today) + 100,
        (birth_year(yy, today) - yy) % 100 == 0,
{
    let q = today / 100;
    vstd::arithmetic::div_mod::lemma_fundamental_div_mod(today, 100);
    assert(century_start(today) == q * 100);
    vstd::arithmetic::div_mod::lemma_mod_multiples_basic(q, 100);
    vstd::arithmetic::div_mod::lemma_mod_multiples_basic(q - 1, 100);
    assert((q - 1) * 100 == q * 100 - 100) by (nonlinear_arith);
}

} // verus!
