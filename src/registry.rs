//! The place registry: birth places keyed by their 4-character place code.
use vstd::prelude::*;
use std::collections::HashMap;
use crate::tables::{digit_value, is_digit, is_digit_char, is_upper, is_upper_char};
use crate::types::PlaceOfBirth;

verus! {

broadcast use vstd::std_specs::hash::group_hash_axioms;

/// Whether `code` is a place code: one letter and three digits.
pub open spec fn is_place_code(code: Seq<char>) -> bool {
    &&& code.len() == 4
    &&& is_upper(code[0])
    &&& is_digit(code[1])
    &&& is_digit(code[2])
    &&& is_digit(code[3])
}

/// The registry key of a place code: the letter's ordinal in thousands, then
/// the three-digit number.
pub open spec fn place_key(code: Seq<char>) -> int {
    ((code[0] as u32) as int - 65) * 1000 + digit_value(code[1]) * 100 + digit_value(code[2]) * 10
        + digit_value(code[3])
}

/// Computes the key of a place code, or `None` where it is not one.
pub fn place_key_of(code: &[char]) -> (r: Option<u32>)
    ensures
        r matches Some(k) ==> is_place_code(code@) && k as int == place_key(code@),
        r is None ==> !is_place_code(code@),
{
    if code.len() != 4 || !is_upper_char(code[0]) || !is_digit_char(code[1]) || !is_digit_char(
        code[2],
    ) || !is_digit_char(code[3]) {
        return None;
    }
    let k = ((code[0] as u32) - 65) * 1000 + ((code[1] as u32) - 48) * 100 + ((code[2] as u32)
        - 48) * 10 + ((code[3] as u32) - 48);
    Some(k)
}

/// An immutable-after-loading mapping from place codes to birth places.
pub struct PlaceRegistry {
    places: HashMap<u32, PlaceOfBirth>,
}

impl View for PlaceRegistry {
    type V = Map<u32, PlaceOfBirth>;

    closed spec fn view(&self) -> Map<u32, PlaceOfBirth> {
        self.places@
    }
}

impl PlaceRegistry {
    /// An empty registry.
    pub fn new() -> (r: PlaceRegistry)
        ensures
            r@ == Map::<u32, PlaceOfBirth>::empty(),
    {
        PlaceRegistry { places: HashMap::new() }
    }

    /// Records `place` under the place code `code`, replacing an earlier
    /// record; leaves the registry as it was and returns `false` where `code`
    /// is not a place code.
    pub fn insert(&mut self, code: &str, place: PlaceOfBirth) -> (r: bool)
        ensures
            r == is_place_code(code@),
            r ==> final(self)@ == old(self)@.insert(place_key(code@) as u32, place),
            !r ==> final(self)@ == old(self)@,
    {
        let n = code.unicode_len();
        if n != 4 {
            return false;
        }
        let chars = [code.get_char(0), code.get_char(1), code.get_char(2), code.get_char(3)];
        assert(chars@ == code@);
        match place_key_of(&chars) {
            Some(k) => {
                self.places.insert(k, place);
                true
            },
            None => false,
        }
    }

    /// The record kept under `key`, copied out.
    pub fn get_by_key(&self, key: u32) -> (r: Option<PlaceOfBirth>)
        ensures
            r == (if self@.contains_key(key) {
                Some(self@[key])
            } else {
                None::<PlaceOfBirth>
            }),
    {
        match self.places.get(&key) {
            Some(p) => Some(p.duplicate()),
            None => None,
        }
    }

    /// The record kept under the place code `code`, copied out.
    pub fn get(&self, code: &str) -> (r: Option<PlaceOfBirth>)
        ensures
            r == (if is_place_code(code@) && self@.contains_key(place_key(code@) as u32) {
                Some(self@[place_key(code@) as u32])
            } else {
                None::<PlaceOfBirth>
            }),
    {
        let n = code.unicode_len();
        if n != 4 {
            return None;
        }
        let chars = [code.get_char(0), code.get_char(1), code.get_char(2), code.get_char(3)];
        assert(chars@ == code@);
        match place_key_of(&chars) {
            Some(k) => self.get_by_key(k),
            None => None,
        }
    }

    /// Whether the registry holds a record for the place code `code`.
    pub fn contains(&self, code: &str) -> (r: bool)
        ensures
            r == (is_place_code(code@) && self@.contains_key(place_key(code@) as u32)),
    {
        let n = code.unicode_len();
        if n != 4 {
            return false;
        }
        let chars = [code.get_char(0), code.get_char(1), code.get_char(2), code.get_char(3)];
        assert(chars@ == code@);
        match place_key_of(&chars) {
            Some(k) => self.places.contains_key(&k),
            None => false,
        }
    }

    /// The number of place codes in the registry.
    pub fn len(&self) -> (r: usize)
        ensures
            r as int == self@.len(),
    {
        self.places.len()
    }
}

} // verus!
