//! Validation and decoding of Italian personal fiscal codes: the 16-character
//! standard form, omocodia letters included, and the 11-digit provisional form.
pub mod calendar;
pub mod checksum;
pub mod code;
pub mod registry;
pub mod tables;
pub mod text;
pub mod types;

pub use calendar::{born_on, gender};
pub use checksum::{calculate_check_character, calculate_check_character_temporary};
pub use code::{
    canonicalize, check_normalized, info, place_of_birth, validate, validate_or_error,
};
pub use registry::PlaceRegistry;
pub use text::normalized;
pub use types::{BirthDate, FiscalCodeError, FiscalCodeInfo, Gender, PlaceOfBirth};
