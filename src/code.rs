//! Structure of the two code forms, omocodia resolution, and the checks and
//! decoding built on them.
use vstd::prelude::*;
use crate::calendar::{birth_date, born_on, gender, gender_of};
use crate::checksum::{
    calculate_check_character, calculate_check_character_temporary, provisional_check_value,
    standard_check_char, weight_sum,
};
use crate::registry::{is_place_code, place_key, place_key_of, PlaceRegistry};
use crate::tables::{
    digit, digit_char, digit_value, is_digit, is_digit_char, is_upper, is_upper_char,
    letter_of, omocodia_digit, omocodia_letter, omocodia_value,
};
use crate::text::{
    is_upper_alnum, lemma_normalize_upper_alnum, lemma_trimmed_idempotent, normalize, normalized,
    trimmed,
};
use crate::types::{FiscalCodeError, FiscalCodeInfo, PlaceOfBirth};

verus! {

/// The positions of a standard code that hold digits, and where an omocodia
/// letter may stand in place of one.
pub open spec fn is_omocodia_position(i: int) -> bool {
    i == 6 || i == 7 || i == 9 || i == 10 || i == 12 || i == 13 || i == 14
}

pub open spec fn canonical_char(i: int, c: char) -> char {
    if is_omocodia_position(i) && omocodia_digit(c) is Some {
        digit_char(omocodia_digit(c)->0)
    } else {
        c
    }
}

/// The code with each omocodia letter at a digit position turned back into
/// its digit.
pub open spec fn canonical(code: Seq<char>) -> Seq<char> {
    Seq::new(code.len(), |i: int| canonical_char(i, code[i]))
}

/// The fixed grouping of a canonical standard code: three letters, three
/// letters, two digits, a letter, two digits, a letter and three digits, and
/// a letter.
pub open spec fn well_formed_standard(c: Seq<char>) -> bool {
    &&& c.len() == 16
    &&& forall|i: int|
        0 <= i < 16 ==> if is_omocodia_position(i) {
            is_digit(#[trigger] c[i])
        } else {
            is_upper(c[i])
        }
}

pub open spec fn two_digits(a: char, b: char) -> int {
    digit_value(a) * 10 + digit_value(b)
}

/// The registry's record for a place code.
pub open spec fn place_lookup(town: Seq<char>, places: Map<u32, PlaceOfBirth>) -> Result<
    PlaceOfBirth,
    FiscalCodeError,
> {
    if is_place_code(town) && places.contains_key(place_key(town) as u32) {
        Ok(places[place_key(town) as u32])
    } else {
        Err(FiscalCodeError::UnknownBirthPlace)
    }
}

/// What a well-formed canonical code decodes to.
pub open spec fn decode_canonical(c: Seq<char>, places: Map<u32, PlaceOfBirth>, today: int) -> Result<
    FiscalCodeInfo,
    FiscalCodeError,
> {
    let v = two_digits(c[9], c[10]);
    match birth_date(two_digits(c[6], c[7]), c[8], v, today) {
        Err(e) => Err(e),
        Ok(date) => match place_lookup(c.subrange(11, 15), places) {
            Err(e) => Err(e),
            Ok(p) => Ok(FiscalCodeInfo { born_on: date, gender: gender_of(v), place_of_birth: p }),
        },
    }
}

/// What a normalized standard code decodes to, or why it is rejected.
pub open spec fn decode_standard(code: Seq<char>, places: Map<u32, PlaceOfBirth>, today: int) -> Result<
    FiscalCodeInfo,
    FiscalCodeError,
> {
    if code.len() != 16 {
        Err(FiscalCodeError::InvalidLength)
    } else if !well_formed_standard(canonical(code)) {
        Err(FiscalCodeError::InvalidFormat)
    } else if code[15] != standard_check_char(code.subrange(0, 15)) {
        Err(FiscalCodeError::InvalidChecksum)
    } else {
        decode_canonical(canonical(code), places, today)
    }
}

pub open spec fn all_digits(s: Seq<char>) -> bool {
    forall|i: int| 0 <= i < s.len() ==> is_digit(#[trigger] s[i])
}

/// The check of an 11-character code.
pub open spec fn check_provisional(code: Seq<char>) -> Result<(), FiscalCodeError> {
    if !all_digits(code) {
        Err(FiscalCodeError::InvalidFormat)
    } else if code[10] != digit_char(provisional_check_value(code.subrange(0, 10))) {
        Err(FiscalCodeError::InvalidChecksum)
    } else {
        Ok(())
    }
}

/// The check of a normalized code of either form.
pub open spec fn check_code(code: Seq<char>, places: Map<u32, PlaceOfBirth>, today: int) -> Result<
    (),
    FiscalCodeError,
> {
    if code.len() == 11 {
        check_provisional(code)
    } else {
        match decode_standard(code, places, today) {
            Ok(_) => Ok(()),
            Err(e) => Err(e),
        }
    }
}

/// Decoding of a normalized code of either form: provisional codes have
/// nothing to decode.
pub open spec fn decode_code(code: Seq<char>, places: Map<u32, PlaceOfBirth>, today: int) -> Result<
    FiscalCodeInfo,
    FiscalCodeError,
> {
    if code.len() == 11 && all_digits(code) {
        Err(FiscalCodeError::UnsupportedOperation)
    } else {
        decode_standard(code, places, today)
    }
}

/// Turns each omocodia letter at a digit position back into its digit.
pub fn canonicalize(code: &Vec<char>) -> (r: Vec<char>)
    ensures
        r@ == canonical(code@),
{
    let mut r: Vec<char> = Vec::new();
    let mut i: usize = 0;
    while i < code.len()
        invariant
            i <= code@.len(),
            r@ == canonical(code@).subrange(0, i as int),
        decreases code.len() - i,
    {
        let c = code[i];
        let positional = i == 6 || i == 7 || i == 9 || i == 10 || i == 12 || i == 13 || i == 14;
        let out = if positional {
            match omocodia_value(c) {
                Some(d) => digit(d),
                None => c,
            }
        } else {
            c
        };
        r.push(out);
        i = i + 1;
    }
    assert(r@ == canonical(code@));
    r
}

/// Whether a canonical code has the fixed grouping of a standard code.
pub fn is_well_formed(c: &Vec<char>) -> (r: bool)
    ensures
        r == well_formed_standard(c@),
{
    if c.len() != 16 {
        return false;
    }
    let mut i: usize = 0;
    while i < 16
        invariant
            i <= 16,
            c@.len() == 16,
            forall|j: int|
                0 <= j < i ==> if is_omocodia_position(j) {
                    is_digit(#[trigger] c@[j])
                } else {
                    is_upper(c@[j])
                },
        decreases 16 - i,
    {
        let positional = i == 6 || i == 7 || i == 9 || i == 10 || i == 12 || i == 13 || i == 14;
        let ok = if positional {
            is_digit_char(c[i])
        } else {
            is_upper_char(c[i])
        };
        if !ok {
            assert(!(if is_omocodia_position(i as int) {
                is_digit(c@[i as int])
            } else {
                is_upper(c@[i as int])
            }));
            return false;
        }
        i = i + 1;
    }
    true
}

/// Looks up the birth place of a place code in the registry.
pub fn place_of_birth(birth_town: &[char], places: &PlaceRegistry) -> (r: Result<
    PlaceOfBirth,
    FiscalCodeError,
>)
    ensures
        r == place_lookup(birth_town@, places@),
{
    match place_key_of(birth_town) {
        Some(k) => match places.get_by_key(k) {
            Some(p) => Ok(p),
            None => Err(FiscalCodeError::UnknownBirthPlace),
        },
        None => Err(FiscalCodeError::UnknownBirthPlace),
    }
}

fn two_digit_value(a: char, b: char) -> (r: u8)
    requires
        is_digit(a),
        is_digit(b),
    ensures
        r as int == two_digits(a, b),
        r < 100,
{
    (((a as u32) - 48) * 10 + ((b as u32) - 48)) as u8
}

/// Parses, checks and decodes a normalized 16-character code.
pub fn decode_standard_code(code: &Vec<char>, places: &PlaceRegistry, today: i32) -> (r: Result<
    FiscalCodeInfo,
    FiscalCodeError,
>)
    ensures
        r == decode_standard(code@, places@, today as int),
{
    if code.len() != 16 {
        return Err(FiscalCodeError::InvalidLength);
    }
    let c = canonicalize(code);
    if !is_well_formed(&c) {
        return Err(FiscalCodeError::InvalidFormat);
    }
    let body = [
        code[0], code[1], code[2], code[3], code[4], code[5], code[6], code[7], code[8], code[9],
        code[10], code[11], code[12], code[13], code[14],
    ];
    assert(body@ == code@.subrange(0, 15));
    assert forall|i: int| 0 <= i < 15 implies #[trigger] is_upper(body@[i]) || is_digit(
        body@[i],
    ) by {
        assert(c@[i] == canonical_char(i, code@[i]));
        if is_omocodia_position(i) && omocodia_digit(code@[i]) is Some {
            assert(is_upper(code@[i]));
        }
    }
    let expected = calculate_check_character(&body);
    if expected != Some(code[15]) {
        return Err(FiscalCodeError::InvalidChecksum);
    }
    let v = two_digit_value(c[9], c[10]);
    let date = match born_on(two_digit_value(c[6], c[7]), c[8], v, today) {
        Ok(d) => d,
        Err(e) => {
            return Err(e);
        },
    };
    let town = [c[11], c[12], c[13], c[14]];
    assert(town@ == c@.subrange(11, 15));
    let place = match place_of_birth(&town, places) {
        Ok(p) => p,
        Err(e) => {
            return Err(e);
        },
    };
    Ok(FiscalCodeInfo { born_on: date, gender: gender(v), place_of_birth: place })
}

/// Checks a normalized 11-character code.
pub fn check_provisional_code(code: &Vec<char>) -> (r: Result<(), FiscalCodeError>)
    requires
        code@.len() == 11,
    ensures
        r == check_provisional(code@),
{
    let body = [
        code[0], code[1], code[2], code[3], code[4], code[5], code[6], code[7], code[8], code[9],
    ];
    assert(body@ == code@.subrange(0, 10));
    match calculate_check_character_temporary(&body) {
        None => Err(FiscalCodeError::InvalidFormat),
        Some(expected) => {
            if !is_digit_char(code[10]) {
                return Err(FiscalCodeError::InvalidFormat);
            }
            assert(all_digits(code@));
            if expected != code[10] {
                Err(FiscalCodeError::InvalidChecksum)
            } else {
                Ok(())
            }
        },
    }
}

/// The characters of a normalized code, where it has 11 or 16 of them.
fn code_chars(s: &String) -> (r: Option<Vec<char>>)
    ensures
        r matches Some(v) ==> v@ == s@ && (s@.len() == 11 || s@.len() == 16),
        r is None ==> s@.len() != 11 && s@.len() != 16,
{
    let t = s.as_str();
    let n = t.unicode_len();
    if n != 11 && n != 16 {
        return None;
    }
    let mut v: Vec<char> = Vec::new();
    let mut i: usize = 0;
    while i < n
        invariant
            n as int == t@.len(),
            t@ == s@,
            i <= n,
            v@ == t@.subrange(0, i as int),
        decreases n - i,
    {
        v.push(t.get_char(i));
        i = i + 1;
    }
    assert(v@ == t@);
    Some(v)
}

/// Checks a normalized code of either form, with the century of a birth
/// year chosen relative to the year `today`.
pub fn check_normalized(code: &Vec<char>, places: &PlaceRegistry, today: i32) -> (r: Result<
    (),
    FiscalCodeError,
>)
    ensures
        r == check_code(code@, places@, today as int),
{
    if code.len() == 11 {
        check_provisional_code(code)
    } else {
        match decode_standard_code(code, places, today) {
            Ok(_) => Ok(()),
            Err(e) => Err(e),
        }
    }
}

/// Checks a code of either form, with the century of a birth year chosen
/// relative to the year `today`.
pub fn validate_or_error(code: &str, places: &PlaceRegistry, today: i32) -> (r: Result<
    (),
    FiscalCodeError,
>)
    ensures
        r == check_code(normalize(code@), places@, today as int),
{
    let s = normalized(code);
    match code_chars(&s) {
        None => Err(FiscalCodeError::InvalidLength),
        Some(v) => check_normalized(&v, places, today),
    }
}

/// Whether a code of either form is valid, the century of a birth year
/// chosen relative to the year `today`.
pub fn validate(code: &str, places: &PlaceRegistry, today: i32) -> (r: bool)
    ensures
        r == check_code(normalize(code@), places@, today as int) is Ok,
{
    validate_or_error(code, places, today).is_ok()
}

/// Decodes a standard code, with the century of the birth year chosen
/// relative to the year `today`.
pub fn info(code: &str, places: &PlaceRegistry, today: i32) -> (r: Result<
    FiscalCodeInfo,
    FiscalCodeError,
>)
    ensures
        r == decode_code(normalize(code@), places@, today as int),
{
    let s = normalized(code);
    match code_chars(&s) {
        None => Err(FiscalCodeError::InvalidLength),
        Some(v) => {
            if v.len() == 11 {
                let mut i: usize = 0;
                while i < 11
                    invariant
                        v@.len() == 11,
                        v@ == normalize(code@),
                        i <= 11,
                        forall|j: int| 0 <= j < i ==> is_digit(#[trigger] v@[j]),
                    decreases 11 - i,
                {
                    if !is_digit_char(v[i]) {
                        assert(!all_digits(v@));
                        return Err(FiscalCodeError::InvalidLength);
                    }
                    i = i + 1;
                }
                Err(FiscalCodeError::UnsupportedOperation)
            } else {
                decode_standard_code(&v, places, today)
            }
        },
    }
}

/// A 15-character body whose characters, omocodia letters resolved, fit the
/// fixed grouping.
pub open spec fn well_formed_body(body: Seq<char>) -> bool {
    &&& body.len() == 15
    &&& forall|i: int|
        0 <= i < 15 ==> if is_omocodia_position(i) {
            is_digit(#[trigger] canonical_char(i, body[i]))
        } else {
            is_upper(body[i])
        }
}

proof fn lemma_letter_is_upper(r: int)
    requires
        0 <= r < 26,
    ensures
        is_upper(letter_of(r)),
{
}

/// Of the 26 letters that can close a well-formed body, the check is passed
/// by exactly one, the body's check character: every other letter is
/// rejected as a checksum error.
pub proof fn lemma_single_check_letter(
    body: Seq<char>,
    last: char,
    places: Map<u32, PlaceOfBirth>,
    today: int,
)
    requires
        well_formed_body(body),
        is_upper(last),
    ensures
        is_upper(standard_check_char(body)),
        (decode_standard(body.push(last), places, today) == Err::<FiscalCodeInfo, FiscalCodeError>(
            FiscalCodeError::InvalidChecksum,
        )) <==> last != standard_check_char(body),
{
    lemma_letter_is_upper(weight_sum(body) % 26);
    let code = body.push(last);
    assert(code.subrange(0, 15) == body);
    let c = canonical(code);
    assert forall|i: int| 0 <= i < 16 implies if is_omocodia_position(i) {
        is_digit(#[trigger] c[i])
    } else {
        is_upper(c[i])
    } by {
        if i < 15 {
            assert(code[i] == body[i]);
        }
    }
}

proof fn lemma_digit_round_trip(d: char)
    requires
        is_digit(d),
    ensures
        omocodia_digit(omocodia_letter(digit_value(d))) == Some(digit_value(d)),
        digit_char(digit_value(d)) == d,
{
}

/// Writing, at any set of digit positions, the omocodia letter of the code's
/// canonical digit, and closing the new body with its own check character,
/// gives a code that decodes exactly as the original does.
pub proof fn lemma_omocodia_substitution(
    code: Seq<char>,
    positions: Set<int>,
    altered: Seq<char>,
    places: Map<u32, PlaceOfBirth>,
    today: int,
)
    requires
        decode_standard(code, places, today) is Ok,
        altered.len() == 16,
        forall|i: int|
            0 <= i < 15 ==> #[trigger] altered[i] == (if positions.contains(i)
                && is_omocodia_position(i) {
                omocodia_letter(digit_value(canonical(code)[i]))
            } else {
                code[i]
            }),
        altered[15] == standard_check_char(altered.subrange(0, 15)),
    ensures
        decode_standard(altered, places, today) == decode_standard(code, places, today),
{
    let cc = canonical(code);
    let ca = canonical(altered);
    lemma_letter_is_upper(weight_sum(altered.subrange(0, 15)) % 26);
    assert forall|i: int| 0 <= i < 15 implies #[trigger] ca[i] == cc[i] by {
        if positions.contains(i) && is_omocodia_position(i) {
            lemma_digit_round_trip(cc[i]);
        }
    }
    assert forall|i: int| 0 <= i < 16 implies if is_omocodia_position(i) {
        is_digit(#[trigger] ca[i])
    } else {
        is_upper(ca[i])
    } by {
        if i < 15 {
            assert(ca[i] == cc[i]);
        }
    }
    assert(ca.subrange(11, 15) == cc.subrange(11, 15));
    assert(ca[6] == cc[6] && ca[7] == cc[7] && ca[8] == cc[8] && ca[9] == cc[9] && ca[10]
        == cc[10]);
}

/// Whether a code passes the check does not change when its surrounding
/// whitespace is removed first.
pub proof fn lemma_check_ignores_surrounding_whitespace(
    s: Seq<char>,
    places: Map<u32, PlaceOfBirth>,
    today: int,
)
    ensures
        check_code(normalize(trimmed(s)), places, today) == check_code(normalize(s), places, today),
{
    lemma_trimmed_idempotent(s);
}

/// A standard code whose canonical form is well formed is written in ASCII
/// capitals and digits.
proof fn lemma_well_formed_is_upper_alnum(code: Seq<char>)
    requires
        code.len() == 16,
        well_formed_standard(canonical(code)),
    ensures
        is_upper_alnum(code),
{
    assert forall|i: int| 0 <= i < code.len() implies is_upper(#[trigger] code[i]) || is_digit(
        code[i],
    ) by {
        assert(canonical(code)[i] == canonical_char(i, code[i]));
        if is_omocodia_position(i) && omocodia_digit(code[i]) is Some {
            assert(is_upper(code[i]));
        }
    }
}

/// A code that passes the check keeps its verdict, and its decoding, when
/// it is normalized a second time.
pub proof fn lemma_valid_code_normal_form_is_stable(
    s: Seq<char>,
    places: Map<u32, PlaceOfBirth>,
    today: int,
)
    requires
        check_code(normalize(s), places, today) is Ok,
    ensures
        normalize(normalize(s)) == normalize(s),
{
    let n = normalize(s);
    if n.len() == 11 {
        assert(is_upper_alnum(n));
    } else {
        lemma_well_formed_is_upper_alnum(n);
    }
    lemma_normalize_upper_alnum(n);
}

/// The checksum law seen from the check of raw input: a well-formed body
/// closed by a capital letter is rejected as a checksum error exactly when
/// that letter is not the body's check character, itself a capital letter.
pub proof fn lemma_check_single_check_letter(
    body: Seq<char>,
    last: char,
    places: Map<u32, PlaceOfBirth>,
    today: int,
)
    requires
        well_formed_body(body),
        is_upper(last),
    ensures
        is_upper(standard_check_char(body)),
        (check_code(normalize(body.push(last)), places, today) == Err::<(), FiscalCodeError>(
            FiscalCodeError::InvalidChecksum,
        )) <==> last != standard_check_char(body),
{
    let code = body.push(last);
    assert forall|i: int| 0 <= i < code.len() implies is_upper(#[trigger] code[i]) || is_digit(
        code[i],
    ) by {
        if i < 15 {
            assert(code[i] == body[i]);
            let k = canonical_char(i, body[i]);
            assert(if is_omocodia_position(i) { is_digit(k) } else { is_upper(body[i]) });
            if is_omocodia_position(i) {
                assert(is_digit(canonical_char(i, body[i])));
                if omocodia_digit(body[i]) is Some {
                    assert(is_upper(body[i]));
                }
            }
        } else {
            assert(code[i] == last);
        }
    }
    lemma_normalize_upper_alnum(code);
    lemma_single_check_letter(body, last, places, today);
}

/// The omocodia law seen from raw input: take a code that passes the check,
/// write at any set of digit positions of its normal form the omocodia letter
/// of the canonical digit, and close the new body with its own check
/// character; the result passes the check and decodes as the original does.
pub proof fn lemma_check_omocodia_substitution(
    s: Seq<char>,
    positions: Set<int>,
    altered: Seq<char>,
    places: Map<u32, PlaceOfBirth>,
    today: int,
)
    requires
        check_code(normalize(s), places, today) is Ok,
        normalize(s).len() == 16,
        altered.len() == 16,
        forall|i: int|
            0 <= i < 15 ==> #[trigger] altered[i] == (if positions.contains(i)
                && is_omocodia_position(i) {
                omocodia_letter(digit_value(canonical(normalize(s))[i]))
            } else {
                normalize(s)[i]
            }),
        altered[15] == standard_check_char(altered.subrange(0, 15)),
    ensures
        check_code(normalize(altered), places, today) is Ok,
        decode_code(normalize(altered), places, today) == decode_code(normalize(s), places, today),
{
    let n = normalize(s);
    lemma_well_formed_is_upper_alnum(n);
    lemma_omocodia_substitution(n, positions, altered, places, today);
    lemma_letter_is_upper(weight_sum(altered.subrange(0, 15)) % 26);
    assert forall|i: int| 0 <= i < altered.len() implies is_upper(#[trigger] altered[i])
        || is_digit(altered[i]) by {
        if i < 15 {
            assert(altered[i] == (if positions.contains(i) && is_omocodia_position(i) {
                omocodia_letter(digit_value(canonical(n)[i]))
            } else {
                n[i]
            }));
            assert(is_upper(n[i]) || is_digit(n[i]));
        }
    }
    lemma_normalize_upper_alnum(altered);
}

} // verus!
