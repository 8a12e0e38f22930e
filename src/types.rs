//! The values that decoding produces and the ways it can fail.
use vstd::prelude::*;

verus! {

#[derive(Clone, Copy, Debug, PartialEq, Eq, Structural)]
pub enum Gender {
    Female,
    Male,
}

impl Gender {
    /// The one-letter symbol of the gender: `F` or `M`.
    pub fn symbol(&self) -> (r: &'static str)
        ensures
            r@ == (match self {
                Gender::Female => "F"@,
                Gender::Male => "M"@,
            }),
    {
        match self {
            Gender::Female => "F",
            Gender::Male => "M",
        }
    }
}

/// A day of the proleptic Gregorian calendar.
#[derive(Clone, Copy, Debug, PartialEq, Eq, Structural)]
pub struct BirthDate {
    pub year: i32,
    pub month: u32,
    pub day: u32,
}

/// A birth place as the place registry records it.
#[derive(Clone, Debug)]
pub struct PlaceOfBirth {
    pub country_code: String,
    pub country_name: String,
    pub city: Option<String>,
    pub state: Option<String>,
}

fn copy_text(s: &Option<String>) -> (r: Option<String>)
    ensures
        r == *s,
{
    match s {
        Some(t) => Some(t.clone()),
        None => None,
    }
}

impl PlaceOfBirth {
    /// A field-by-field copy of the record.
    pub fn duplicate(&self) -> (r: PlaceOfBirth)
        ensures
            r == *self,
    {
        PlaceOfBirth {
            country_code: self.country_code.clone(),
            country_name: self.country_name.clone(),
            city: copy_text(&self.city),
            state: copy_text(&self.state),
        }
    }
}

/// What a standard fiscal code tells of its holder.
#[derive(Clone, Debug)]
pub struct FiscalCodeInfo {
    pub born_on: BirthDate,
    pub gender: Gender,
    pub place_of_birth: PlaceOfBirth,
}

/// Why a code was rejected.
#[derive(Clone, Copy, Debug, PartialEq, Eq, Structural)]
pub enum FiscalCodeError {
    /// The normalized code has neither 11 nor 16 characters.
    InvalidLength,
    /// A character does not belong to the class its position asks for.
    InvalidFormat,
    /// The trailing check character or digit does not match the body.
    InvalidChecksum,
    /// The month letter is not one of the twelve month letters.
    InvalidMonth,
    /// The day, once the gender offset is removed, is not in `1..=31`.
    InvalidDay,
    /// The year, month and day name no calendar date.
    InvalidDate,
    /// The place code is not in the registry.
    UnknownBirthPlace,
    /// Provisional codes carry nothing to decode.
    UnsupportedOperation,
}

} // verus!
