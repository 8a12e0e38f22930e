//! Check characters of standard codes and check digits of provisional codes.
use vstd::prelude::*;
use vstd::arithmetic::div_mod::lemma_add_mod_noop;
use crate::tables::{
    digit, digit_char, digit_value, is_digit, is_digit_char, is_upper, is_upper_char, letter,
    letter_of, odd_weight, ordinal_of, position_weight,
};

verus! {

pub open spec fn is_alphanumeric(c: char) -> bool {
    is_digit(c) || is_upper(c)
}

/// Sum of the positional weights of a code body.
pub open spec fn weight_sum(body: Seq<char>) -> int
    decreases body.len(),
{
    if body.len() == 0 {
        0
    } else {
        weight_sum(body.drop_last()) + position_weight(body.len() - 1, body.last())
    }
}

/// The check character that a standard code body calls for.
pub open spec fn standard_check_char(body: Seq<char>) -> char {
    letter_of(weight_sum(body) % 26)
}

/// Folding of a doubled digit: a two-digit value loses 9.
pub open spec fn fold_doubled(x: int) -> int {
    if x >= 10 { x - 9 } else { x }
}

/// Contribution of the digit at 0-based position `i` to the provisional sum:
/// odd 1-based positions count as they are, even ones doubled and folded.
pub open spec fn provisional_term(i: int, c: char) -> int {
    if i % 2 == 0 {
        digit_value(c)
    } else {
        fold_doubled(2 * digit_value(c))
    }
}

pub open spec fn provisional_sum(digits: Seq<char>) -> int
    decreases digits.len(),
{
    if digits.len() == 0 {
        0
    } else {
        provisional_sum(digits.drop_last()) + provisional_term(
            digits.len() - 1,
            digits.last(),
        )
    }
}

/// The check digit (0..=9) that a provisional code body calls for.
pub open spec fn provisional_check_value(digits: Seq<char>) -> int {
    (10 - provisional_sum(digits) % 10) % 10
}

/// Computes the check character of a standard code body; `None` where a
/// character lies outside `0-9A-Z`.
pub fn calculate_check_character(body: &[char]) -> (r: Option<char>)
    ensures
        r == (if forall|i: int| 0 <= i < body@.len() ==> is_alphanumeric(#[trigger] body@[i]) {
            Some(standard_check_char(body@))
        } else {
            None::<char>
        }),
{
    let mut sum: u32 = 0;
    let mut i: usize = 0;
    while i < body.len()
        invariant
            i <= body@.len(),
            sum < 26,
            sum as int == weight_sum(body@.subrange(0, i as int)) % 26,
            forall|j: int| 0 <= j < i ==> is_alphanumeric(#[trigger] body@[j]),
        decreases body.len() - i,
    {
        let c = body[i];
        if !is_digit_char(c) && !is_upper_char(c) {
            return None;
        }
        let o = ordinal_of(c);
        let w = if i % 2 == 0 {
            odd_weight(o)
        } else {
            o
        };
        proof {
            let p = body@.subrange(0, i as int + 1);
            assert(p.drop_last() == body@.subrange(0, i as int));
            assert(p.last() == c);
            assert(w as int == position_weight(i as int, c));
            lemma_add_mod_noop(weight_sum(body@.subrange(0, i as int)), w as int, 26);
        }
        sum = (sum + w) % 26;
        i = i + 1;
    }
    assert(body@.subrange(0, body@.len() as int) == body@);
    Some(letter(sum))
}

/// Computes the check digit of a provisional code body; `None` where a
/// character is not a decimal digit.
pub fn calculate_check_character_temporary(digits: &[char]) -> (r: Option<char>)
    ensures
        r == (if forall|i: int| 0 <= i < digits@.len() ==> is_digit(#[trigger] digits@[i]) {
            Some(digit_char(provisional_check_value(digits@)))
        } else {
            None::<char>
        }),
{
    let mut sum: u32 = 0;
    let mut i: usize = 0;
    while i < digits.len()
        invariant
            i <= digits@.len(),
            sum < 10,
            sum as int == provisional_sum(digits@.subrange(0, i as int)) % 10,
            forall|j: int| 0 <= j < i ==> is_digit(#[trigger] digits@[j]),
        decreases digits.len() - i,
    {
        let c = digits[i];
        if !is_digit_char(c) {
            return None;
        }
        let d = (c as u32) - 48;
        let t = if i % 2 == 0 {
            d
        } else if 2 * d >= 10 {
            2 * d - 9
        } else {
            2 * d
        };
        proof {
            let p = digits@.subrange(0, i as int + 1);
            assert(p.drop_last() == digits@.subrange(0, i as int));
            assert(p.last() == c);
            assert(t as int == provisional_term(i as int, c));
            lemma_add_mod_noop(provisional_sum(digits@.subrange(0, i as int)), t as int, 10);
        }
        sum = (sum + t) % 10;
        i = i + 1;
    }
    assert(digits@.subrange(0, digits@.len() as int) == digits@);
    Some(digit((10 - sum) % 10))
}

} // verus!
