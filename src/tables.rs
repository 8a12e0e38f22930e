//! Fixed alphabets and lookup tables of the fiscal code.
use vstd::prelude::*;

verus! {

pub open spec fn is_digit(c: char) -> bool {
    48 <= (c as u32) && (c as u32) <= 57
}

pub open spec fn is_upper(c: char) -> bool {
    65 <= (c as u32) && (c as u32) <= 90
}

/// Value of a decimal digit character.
pub open spec fn digit_value(c: char) -> int {
    (c as u32) as int - 48
}

/// Position of an alphanumeric character in its own alphabet: digits give
/// 0..=9, letters give 0..=25; anything else gives 0.
pub open spec fn ordinal(c: char) -> int {
    if is_digit(c) {
        digit_value(c)
    } else if is_upper(c) {
        (c as u32) as int - 65
    } else {
        0
    }
}

/// Weight of a character in an odd (1-based) position of the body, by ordinal.
pub open spec fn odd_weight_of_ordinal(o: int) -> int {
    if o == 0 { 1 } else if o == 1 { 0 } else if o == 2 { 5 } else if o == 3 { 7 }
    else if o == 4 { 9 } else if o == 5 { 13 } else if o == 6 { 15 } else if o == 7 { 17 }
    else if o == 8 { 19 } else if o == 9 { 21 } else if o == 10 { 2 } else if o == 11 { 4 }
    else if o == 12 { 18 } else if o == 13 { 20 } else if o == 14 { 11 } else if o == 15 { 3 }
    else if o == 16 { 6 } else if o == 17 { 8 } else if o == 18 { 12 } else if o == 19 { 14 }
    else if o == 20 { 16 } else if o == 21 { 10 } else if o == 22 { 22 } else if o == 23 { 25 }
    else if o == 24 { 24 } else { 23 }
}

/// Weight of a character at 0-based position `i` of the body: even indices are
/// odd 1-based positions and use the odd table; the others weigh their ordinal.
pub open spec fn position_weight(i: int, c: char) -> int {
    if i % 2 == 0 {
        odd_weight_of_ordinal(ordinal(c))
    } else {
        ordinal(c)
    }
}

/// Month number (1..=12) of a month letter.
pub open spec fn month_of_letter(c: char) -> Option<int> {
    if c == 'A' { Some(1) } else if c == 'B' { Some(2) } else if c == 'C' { Some(3) }
    else if c == 'D' { Some(4) } else if c == 'E' { Some(5) } else if c == 'H' { Some(6) }
    else if c == 'L' { Some(7) } else if c == 'M' { Some(8) } else if c == 'P' { Some(9) }
    else if c == 'R' { Some(10) } else if c == 'S' { Some(11) } else if c == 'T' { Some(12) }
    else { None }
}

/// The digit that an omocodia letter stands for.
pub open spec fn omocodia_digit(c: char) -> Option<int> {
    if c == 'L' { Some(0) } else if c == 'M' { Some(1) } else if c == 'N' { Some(2) }
    else if c == 'P' { Some(3) } else if c == 'Q' { Some(4) } else if c == 'R' { Some(5) }
    else if c == 'S' { Some(6) } else if c == 'T' { Some(7) } else if c == 'U' { Some(8) }
    else if c == 'V' { Some(9) } else { None }
}

/// The omocodia letter that replaces digit `d`.
pub open spec fn omocodia_letter(d: int) -> char {
    if d == 0 { 'L' } else if d == 1 { 'M' } else if d == 2 { 'N' } else if d == 3 { 'P' }
    else if d == 4 { 'Q' } else if d == 5 { 'R' } else if d == 6 { 'S' } else if d == 7 { 'T' }
    else if d == 8 { 'U' } else { 'V' }
}

/// The letter `A`..=`Z` whose ordinal is `r`.
pub open spec fn letter_of(r: int) -> char {
    if r == 0 { 'A' } else if r == 1 { 'B' } else if r == 2 { 'C' } else if r == 3 { 'D' }
    else if r == 4 { 'E' } else if r == 5 { 'F' } else if r == 6 { 'G' } else if r == 7 { 'H' }
    else if r == 8 { 'I' } else if r == 9 { 'J' } else if r == 10 { 'K' } else if r == 11 { 'L' }
    else if r == 12 { 'M' } else if r == 13 { 'N' } else if r == 14 { 'O' } else if r == 15 { 'P' }
    else if r == 16 { 'Q' } else if r == 17 { 'R' } else if r == 18 { 'S' } else if r == 19 { 'T' }
    else if r == 20 { 'U' } else if r == 21 { 'V' } else if r == 22 { 'W' } else if r == 23 { 'X' }
    else if r == 24 { 'Y' } else { 'Z' }
}

/// The character of decimal digit `d`.
pub open spec fn digit_char(d: int) -> char {
    if d == 0 { '0' } else if d == 1 { '1' } else if d == 2 { '2' } else if d == 3 { '3' }
    else if d == 4 { '4' } else if d == 5 { '5' } else if d == 6 { '6' } else if d == 7 { '7' }
    else if d == 8 { '8' } else { '9' }
}

pub fn is_digit_char(c: char) -> (r: bool)
    ensures
        r == is_digit(c),
{
    '0' <= c && c <= '9'
}

pub fn is_upper_char(c: char) -> (r: bool)
    ensures
        r == is_upper(c),
{
    'A' <= c && c <= 'Z'
}

pub fn ordinal_of(c: char) -> (r: u32)
    ensures
        r as int == ordinal(c),
        r < 26,
{
    if is_digit_char(c) {
        (c as u32) - 48
    } else if is_upper_char(c) {
        (c as u32) - 65
    } else {
        0
    }
}

pub fn odd_weight(o: u32) -> (r: u32)
    ensures
        r as int == odd_weight_of_ordinal(o as int),
        r < 26,
{
    match o {
        0 => 1, 1 => 0, 2 => 5, 3 => 7, 4 => 9, 5 => 13, 6 => 15, 7 => 17, 8 => 19,
        9 => 21, 10 => 2, 11 => 4, 12 => 18, 13 => 20, 14 => 11, 15 => 3, 16 => 6,
        17 => 8, 18 => 12, 19 => 14, 20 => 16, 21 => 10, 22 => 22, 23 => 25, 24 => 24,
        _ => 23,
    }
}

pub fn month_number(c: char) -> (r: Option<u32>)
    ensures
        r matches Some(m) ==> month_of_letter(c) == Some(m as int),
        r is None ==> month_of_letter(c) is None,
{
    match c {
        'A' => Some(1), 'B' => Some(2), 'C' => Some(3), 'D' => Some(4), 'E' => Some(5),
        'H' => Some(6), 'L' => Some(7), 'M' => Some(8), 'P' => Some(9), 'R' => Some(10),
        'S' => Some(11), 'T' => Some(12), _ => None,
    }
}

pub fn omocodia_value(c: char) -> (r: Option<u32>)
    ensures
        r matches Some(d) ==> omocodia_digit(c) == Some(d as int),
        r is None ==> omocodia_digit(c) is None,
{
    match c {
        'L' => Some(0), 'M' => Some(1), 'N' => Some(2), 'P' => Some(3), 'Q' => Some(4),
        'R' => Some(5), 'S' => Some(6), 'T' => Some(7), 'U' => Some(8), 'V' => Some(9),
        _ => None,
    }
}

pub fn letter(r: u32) -> (c: char)
    requires
        r < 26,
    ensures
        c == letter_of(r as int),
        is_upper(c),
        ordinal(c) == r as int,
{
    match r {
        0 => 'A', 1 => 'B', 2 => 'C', 3 => 'D', 4 => 'E', 5 => 'F', 6 => 'G', 7 => 'H',
        8 => 'I', 9 => 'J', 10 => 'K', 11 => 'L', 12 => 'M', 13 => 'N', 14 => 'O',
        15 => 'P', 16 => 'Q', 17 => 'R', 18 => 'S', 19 => 'T', 20 => 'U', 21 => 'V',
        22 => 'W', 23 => 'X', 24 => 'Y', _ => 'Z',
    }
}

pub fn digit(d: u32) -> (c: char)
    requires
        d < 10,
    ensures
        c == digit_char(d as int),
        is_digit(c),
        digit_value(c) == d as int,
{
    match d {
        0 => '0', 1 => '1', 2 => '2', 3 => '3', 4 => '4', 5 => '5', 6 => '6', 7 => '7',
        8 => '8', _ => '9',
    }
}

} // verus!
