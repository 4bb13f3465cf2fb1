//! Calendar dates as the snapshot labels carry them.

use crate::text::{digit_char, digit_text};
use vstd::prelude::*;
use vstd::string::*;

verus! {

/// A day of the Gregorian calendar, `YYYY-MM-DD`.
///
/// Only the year is held to a range (2000 to 2199) when a date is parsed;
/// month and day are kept as written.
#[derive(Debug, Copy, Clone, PartialOrd, PartialEq)]
pub struct Date {
    pub y: u16,
    pub m: u8,
    pub d: u8,
}

/// Whether Unicode counts `c` as a letter or a number.
pub uninterp spec fn is_alphanumeric(c: char) -> bool;

/// Whether `c` counts as a letter or a number. Of the characters of ASCII
/// these are the letters `A` to `Z` and `a` to `z` and the digits; of all
/// others Unicode decides.
pub open spec fn counts_as_alphanumeric(c: char) -> bool {
    let code = c as u32;
    if code < 128 {
        48 <= code <= 57 || 65 <= code <= 90 || 97 <= code <= 122
    } else {
        is_alphanumeric(c)
    }
}

/// `char::is_alphanumeric`: whether the character is alphabetic or numeric
/// by its Unicode properties. In ASCII the alphabetic characters are the
/// letters and the numeric ones the digits.
#[verifier::external_body]
fn char_is_alphanumeric(c: char) -> (yes: bool)
    ensures
        yes == is_alphanumeric(c),
        (c as u32) < 128 ==> yes == counts_as_alphanumeric(c),
{
    c.is_alphanumeric()
}

/// Where the part of `s` that begins at `from` ends: at the first character
/// from there on that is neither letter nor number, or at the end of `s`.
pub open spec fn part_end(s: Seq<char>, from: int) -> int
    decreases s.len() - from,
{
    if from < 0 || from >= s.len() {
        s.len() as int
    } else if !counts_as_alphanumeric(s[from]) {
        from
    } else {
        part_end(s, from + 1)
    }
}

/// Whether `c` is one of `0` to `9`.
pub open spec fn is_digit(c: char) -> bool {
    48 <= c as u32 <= 57
}

/// Whether `s` holds decimal digits only.
pub open spec fn all_digits(s: Seq<char>) -> bool {
    forall|i: int| 0 <= i < s.len() ==> is_digit(#[trigger] s[i])
}

/// The number that the decimal digits `s` write.
pub open spec fn decimal_value(s: Seq<char>) -> nat
    decreases s.len(),
{
    if s.len() == 0 {
        0
    } else {
        (decimal_value(s.drop_last()) * 10 + (s.last() as u32 - 48)) as nat
    }
}

/// What parsing `s` as an unsigned integer no greater than `max` gives: one
/// `+` may lead; at least one digit must follow, and nothing else.
pub open spec fn parse_unsigned(s: Seq<char>, max: nat) -> Option<nat> {
    let digits = if s.len() > 0 && s[0] == '+' {
        s.subrange(1, s.len() as int)
    } else {
        s
    };
    if digits.len() > 0 && all_digits(digits) && decimal_value(digits) <= max {
        Some(decimal_value(digits))
    } else {
        None
    }
}

/// Finds the end of the part of `s` that begins at `from`.
fn scan_part(s: &str, len: usize, from: usize) -> (end: usize)
    requires
        len == s@.len(),
        from <= len,
    ensures
        end == part_end(s@, from as int),
        from <= end <= len,
{
    let mut at: usize = from;
    while at < len && char_is_alphanumeric(s.get_char(at))
        invariant
            len == s@.len(),
            from <= at <= len,
            part_end(s@, at as int) == part_end(s@, from as int),
        decreases len - at,
    {
        at = at + 1;
    }
    at
}

/// Reads an integer that sixteen bits hold.
pub fn parse_u16(text: &str) -> (value: Option<u16>)
    ensures
        match parse_unsigned(text@, 0xffff) {
            Some(n) => value == Some(n as u16),
            None => value.is_none(),
        },
{
    match parse_number(text, 0xffff) {
        Some(n) => Some(n as u16),
        None => None,
    }
}

/// Reads an integer that eight bits hold.
pub fn parse_u8(text: &str) -> (value: Option<u8>)
    ensures
        match parse_unsigned(text@, 0xff) {
            Some(n) => value == Some(n as u8),
            None => value.is_none(),
        },
{
    match parse_number(text, 0xff) {
        Some(n) => Some(n as u8),
        None => None,
    }
}

/// Reads an unsigned integer no greater than `max`.
fn parse_number(s: &str, max: u32) -> (value: Option<u32>)
    requires
        max <= 0xffff,
    ensures
        match parse_unsigned(s@, max as nat) {
            Some(n) => value == Some(n as u32),
            None => value.is_none(),
        },
{
    let len: usize = s.unicode_len();
    let mut at: usize = 0;
    if at < len && s.get_char(at) == '+' {
        at = at + 1;
    }
    let start: usize = at;
    let ghost digits = s@.subrange(start as int, len as int);
    assert(digits =~= if s@.len() > 0 && s@[0] == '+' {
        s@.subrange(1, s@.len() as int)
    } else {
        s@
    });
    if start == len {
        return None;
    }
    let mut total: u32 = 0;
    let mut over: bool = false;
    while at < len
        invariant
            start <= at <= len,
            len == s@.len(),
            max <= 0xffff,
            digits == s@.subrange(start as int, len as int),
            digits.len() > 0,
            parse_unsigned(s@, max as nat) == (if all_digits(digits) && decimal_value(digits)
                <= max {
                Some(decimal_value(digits))
            } else {
                None
            }),
            all_digits(s@.subrange(start as int, at as int)),
            over ==> decimal_value(s@.subrange(start as int, at as int)) > max,
            !over ==> total == decimal_value(s@.subrange(start as int, at as int)) && total <= max,
        decreases len - at,
    {
        let code: u32 = s.get_char(at) as u32;
        let ghost seen = s@.subrange(start as int, at as int);
        let ghost next = s@.subrange(start as int, at as int + 1);
        assert(next.drop_last() =~= seen);
        if code < 48 || code > 57 {
            assert(digits[at as int - start as int] == s@[at as int]);
            return None;
        }
        if !over {
            let grown: u32 = total * 10 + (code - 48);
            if grown > max {
                over = true;
            } else {
                total = grown;
            }
        }
        at = at + 1;
    }
    if over {
        None
    } else {
        Some(total)
    }
}

/// Four digits of `value`, or five where four do not hold it.
pub open spec fn digits_4(value: int) -> Seq<char> {
    let low = seq![
        digit_char(value / 1000 % 10),
        digit_char(value / 100 % 10),
        digit_char(value / 10 % 10),
        digit_char(value % 10),
    ];
    if value >= 10000 {
        seq![digit_char(value / 10000)] + low
    } else {
        low
    }
}

/// Two digits of `value`, or three where two do not hold it.
pub open spec fn digits_2(value: int) -> Seq<char> {
    let low = seq![digit_char(value / 10 % 10), digit_char(value % 10)];
    if value >= 100 {
        seq![digit_char(value / 100)] + low
    } else {
        low
    }
}

impl Date {
    /// The position of the date in calendar order: year first, then month,
    /// then day.
    pub open spec fn ordinal(self) -> int {
        (self.y as int * 256 + self.m as int) * 256 + self.d as int
    }

    /// The date that three parts write, if they write one: each part must be
    /// an integer, the year from 2000 to 2199, month and day at most 255.
    pub open spec fn of_parts(year: Seq<char>, month: Seq<char>, day: Seq<char>) -> Option<Date> {
        match (
            parse_unsigned(year, 0xffff),
            parse_unsigned(month, 0xff),
            parse_unsigned(day, 0xff),
        ) {
            (Some(y), Some(m), Some(d)) => if 2000 <= y <= 2199 {
                Some(Date { y: y as u16, m: m as u8, d: d as u8 })
            } else {
                None
            },
            _ => None,
        }
    }

    /// The date that `s` writes, if it writes one.
    ///
    /// Characters that are neither letters nor numbers separate the parts of
    /// `s`. The first three parts are year, month and day. Further parts are
    /// not looked at.
    pub open spec fn parsed(s: Seq<char>) -> Option<Date> {
        let end0 = part_end(s, 0);
        let end1 = part_end(s, end0 + 1);
        let end2 = part_end(s, end1 + 1);
        if end0 < s.len() && end1 < s.len() {
            Date::of_parts(
                s.subrange(0, end0),
                s.subrange(end0 + 1, end1),
                s.subrange(end1 + 1, end2),
            )
        } else {
            None
        }
    }

    /// The date as `YYYY-MM-DD`, each field padded with zeros to its width.
    pub open spec fn text(self) -> Seq<char> {
        digits_4(self.y as int) + seq!['-'] + digits_2(self.m as int) + seq!['-'] + digits_2(
            self.d as int,
        )
    }

    /// Reads a date such as `2018-09-26`.
    pub fn from_str(s: &str) -> (date: Option<Date>)
        ensures
            date == Date::parsed(s@),
    {
        let len: usize = s.unicode_len();
        let end0: usize = scan_part(s, len, 0);
        if end0 >= len {
            return None;
        }
        let end1: usize = scan_part(s, len, end0 + 1);
        if end1 >= len {
            return None;
        }
        let end2: usize = scan_part(s, len, end1 + 1);
        Date::from_parts(
            s.substring_char(0, end0),
            s.substring_char(end0 + 1, end1),
            s.substring_char(end1 + 1, end2),
        )
    }

    /// Makes a date of its three parts as they are written.
    pub fn from_parts(year: &str, month: &str, day: &str) -> (date: Option<Date>)
        ensures
            date == Date::of_parts(year@, month@, day@),
    {
        let y: u16 = match parse_u16(year) {
            Some(y) => y,
            None => return None,
        };
        if y < 2000 || y > 2199 {
            return None;
        }
        let m: u8 = match parse_u8(month) {
            Some(m) => m,
            None => return None,
        };
        let d: u8 = match parse_u8(day) {
            Some(d) => d,
            None => return None,
        };
        Some(Date { y, m, d })
    }

    /// Writes the date as `YYYY-MM-DD`.
    pub fn to_string(&self) -> (text: String)
        ensures
            text@ == self.text(),
    {
        proof {
            reveal_strlit("-");
        }
        let mut text = String::new();
        let y: u16 = self.y;
        if y >= 10000 {
            text.append(digit_text((y / 10000) as u8));
        }
        text.append(digit_text((y / 1000 % 10) as u8));
        text.append(digit_text((y / 100 % 10) as u8));
        text.append(digit_text((y / 10 % 10) as u8));
        text.append(digit_text((y % 10) as u8));
        text.append("-");
        append_two_digits(&mut text, self.m);
        text.append("-");
        append_two_digits(&mut text, self.d);
        text
    }

    /// Whether `self` is the same day as `other` or a later one.
    pub fn is_at_or_after(&self, other: &Date) -> (later: bool)
        ensures
            later == (self.ordinal() >= other.ordinal()),
    {
        if self.y != other.y {
            self.y > other.y
        } else if self.m != other.m {
            self.m > other.m
        } else {
            self.d >= other.d
        }
    }
}

/// Appends `value` in two digits, three where two do not hold it.
fn append_two_digits(text: &mut String, value: u8)
    ensures
        final(text)@ == old(text)@ + digits_2(value as int),
{
    if value >= 100 {
        text.append(digit_text(value / 100));
    }
    text.append(digit_text(value / 10 % 10));
    text.append(digit_text(value % 10));
}

/// A date that is written is read back: writing a date whose year lies in
/// the range that reading accepts, and reading what was written, gives the
/// date again.
pub proof fn lemma_written_dates_are_read(date: Date)
    requires
        2000 <= date.y <= 2199,
    ensures
        Date::parsed(date.text()) == Some(date),
{
    let year = digits_4(date.y as int);
    let month = digits_2(date.m as int);
    let day = digits_2(date.d as int);
    lemma_year_value(date.y as int);
    lemma_digits_value(date.m as int);
    lemma_digits_value(date.d as int);
    lemma_parts_of_a_date(date.text(), year, month, day);
}

/// A text made of three runs of digits with a hyphen between them has those
/// runs as its first three parts.
proof fn lemma_parts_of_a_date(s: Seq<char>, year: Seq<char>, month: Seq<char>, day: Seq<char>)
    requires
        s == year + seq!['-'] + month + seq!['-'] + day,
        all_digits(year),
        all_digits(month),
        all_digits(day),
    ensures
        Date::parsed(s) == Date::of_parts(year, month, day),
{
    let first = year.len() as int;
    let second = first + 1 + month.len();
    assert(s.len() == second + 1 + day.len());
    assert(s.subrange(0, first) =~= year);
    assert(s.subrange(first + 1, second) =~= month);
    assert(s.subrange(second + 1, s.len() as int) =~= day);
    assert(s[first] == '-');
    assert(s[second] == '-');
    lemma_part_of_digits(s, 0, year);
    lemma_part_of_digits(s, first + 1, month);
    lemma_part_of_digits(s, second + 1, day);
}

/// The character of a digit is a digit and writes it.
proof fn lemma_digit_char(value: int)
    requires
        0 <= value <= 9,
    ensures
        is_digit(digit_char(value)),
        digit_char(value) as u32 - 48 == value,
{
}

/// Appending a digit to digits gives digits, of ten times the value and the
/// digit more.
proof fn lemma_digit_appended(digits: Seq<char>, value: int)
    requires
        all_digits(digits),
        0 <= value <= 9,
    ensures
        all_digits(digits.push(digit_char(value))),
        decimal_value(digits.push(digit_char(value))) == decimal_value(digits) * 10 + value,
{
    lemma_digit_char(value);
    let longer = digits.push(digit_char(value));
    assert(longer.drop_last() =~= digits);
    assert forall|i: int| 0 <= i < longer.len() implies is_digit(#[trigger] longer[i]) by {
        if i < digits.len() {
            assert(longer[i] == digits[i]);
        }
    }
}

/// The four digits of a year of four digits are digits and write the year.
proof fn lemma_year_value(value: int)
    requires
        1000 <= value <= 9999,
    ensures
        digits_4(value).len() == 4,
        all_digits(digits_4(value)),
        decimal_value(digits_4(value)) == value,
{
    let a = value / 1000 % 10;
    let b = value / 100 % 10;
    let c = value / 10 % 10;
    let d = value % 10;
    let none = Seq::<char>::empty();
    lemma_digit_appended(none, a);
    lemma_digit_appended(none.push(digit_char(a)), b);
    lemma_digit_appended(none.push(digit_char(a)).push(digit_char(b)), c);
    lemma_digit_appended(none.push(digit_char(a)).push(digit_char(b)).push(digit_char(c)), d);
    assert(digits_4(value) =~= none.push(digit_char(a)).push(digit_char(b)).push(
        digit_char(c),
    ).push(digit_char(d)));
    assert(((a * 10 + b) * 10 + c) * 10 + d == value);
}

/// The digits of a number that eight bits hold are digits and write the
/// number.
proof fn lemma_digits_value(value: int)
    requires
        0 <= value <= 255,
    ensures
        2 <= digits_2(value).len() <= 3,
        all_digits(digits_2(value)),
        decimal_value(digits_2(value)) == value,
{
    let a = value / 100;
    let b = value / 10 % 10;
    let c = value % 10;
    let none = Seq::<char>::empty();
    if value >= 100 {
        lemma_digit_appended(none, a);
        lemma_digit_appended(none.push(digit_char(a)), b);
        lemma_digit_appended(none.push(digit_char(a)).push(digit_char(b)), c);
        assert(digits_2(value) =~= none.push(digit_char(a)).push(digit_char(b)).push(
            digit_char(c),
        ));
    } else {
        lemma_digit_appended(none, b);
        lemma_digit_appended(none.push(digit_char(b)), c);
        assert(digits_2(value) =~= none.push(digit_char(b)).push(digit_char(c)));
    }
}

/// A run of digits that stands in `s` at `from`, and is followed by a
/// hyphen or by the end of `s`, is one part of `s`.
proof fn lemma_part_of_digits(s: Seq<char>, from: int, digits: Seq<char>)
    requires
        0 <= from,
        from + digits.len() <= s.len(),
        all_digits(digits),
        s.subrange(from, from + digits.len()) == digits,
        from + digits.len() < s.len() ==> s[from + digits.len()] == '-',
    ensures
        part_end(s, from) == from + digits.len(),
    decreases digits.len(),
{
    if digits.len() > 0 {
        assert(s[from] == digits[0]);
        assert(is_digit(digits[0]));
        let rest = digits.subrange(1, digits.len() as int);
        assert(s.subrange(from + 1, from + 1 + rest.len()) =~= rest);
        assert forall|i: int| 0 <= i < rest.len() implies is_digit(#[trigger] rest[i]) by {
            assert(rest[i] == digits[i + 1]);
        }
        lemma_part_of_digits(s, from + 1, rest);
    }
}

} // verus!
