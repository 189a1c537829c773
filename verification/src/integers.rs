//! Integers in JSON: as numbers, or as decimal numerals in text.
use crate::json::{Json, JsonView, NumberView};
use crate::text::{chars_of, concat2};
use vstd::prelude::*;
use vstd::string::StringExecFns;

verus! {

/// The value of a decimal digit.
pub open spec fn digit_value(c: char) -> Option<int> {
    if '0' <= c <= '9' {
        Some(c as int - '0' as int)
    } else {
        None
    }
}

/// Reads digits from the left into an integer from `min` to `max`, or gives the message for the
/// first character that is no digit or takes the integer out of that range.
pub open spec fn scan_digits(digits: Seq<char>, negative: bool, min: int, max: int) -> Result<
    int,
    Seq<char>,
>
    decreases digits.len(),
{
    if digits.len() == 0 {
        Ok(0)
    } else {
        match scan_digits(digits.drop_last(), negative, min, max) {
            Ok(value) => match digit_value(digits.last()) {
                Some(d) => if negative && value * 10 - d < min {
                    Err("number too small to fit in target type"@)
                } else if negative {
                    Ok(value * 10 - d)
                } else if value * 10 + d > max {
                    Err("number too large to fit in target type"@)
                } else {
                    Ok(value * 10 + d)
                },
                None => Err("invalid digit found in string"@),
            },
            Err(message) => Err(message),
        }
    }
}

/// Reads a numeral: digits after an optional sign, where a minus sign needs a range that has
/// negative integers.
pub open spec fn scan_integer(text: Seq<char>, min: int, max: int) -> Result<int, Seq<char>> {
    if text.len() == 0 {
        Err("cannot parse integer from empty string"@)
    } else if text.len() == 1 && (text[0] == '+' || text[0] == '-') {
        Err("invalid digit found in string"@)
    } else if text[0] == '+' {
        scan_digits(text.skip(1), false, min, max)
    } else if text[0] == '-' && min < 0 {
        scan_digits(text.skip(1), true, min, max)
    } else {
        scan_digits(text, false, min, max)
    }
}

/// The integer from `min` to `max` that a JSON value stands for.
pub open spec fn json_integer(value: JsonView, min: int, max: int) -> Result<int, Seq<char>> {
    match value {
        JsonView::Number(NumberView::Integer(i)) => if min <= i <= max {
            Ok(i)
        } else {
            Err("out of range integral type conversion attempted"@)
        },
        JsonView::String(text) => scan_integer(text, min, max),
        _ => Err("couldn't parse int from "@ + crate::document::value_debug(value)),
    }
}

/// An integer, or why there is none.
pub open spec fn integer_outcome(result: Result<i128, String>) -> Result<int, Seq<char>> {
    match result {
        Ok(i) => Ok(i as int),
        Err(message) => Err(message@),
    }
}

pub proof fn lemma_scan_stops(digits: Seq<char>, n: int, negative: bool, min: int, max: int)
    requires
        0 <= n <= digits.len(),
        scan_digits(digits.take(n), negative, min, max) is Err,
    ensures
        scan_digits(digits, negative, min, max) == scan_digits(
            digits.take(n),
            negative,
            min,
            max,
        ),
    decreases digits.len() - n,
{
    if n < digits.len() {
        assert(digits.take(n + 1).drop_last() =~= digits.take(n));
        lemma_scan_stops(digits, n + 1, negative, min, max);
    } else {
        assert(digits.take(n) =~= digits);
    }
}

proof fn lemma_scan_range(digits: Seq<char>, negative: bool, min: int, max: int)
    requires
        min <= 0 <= max,
    ensures
        scan_digits(digits, negative, min, max) matches Ok(i) ==> min <= i <= max && (if negative {
            i <= 0
        } else {
            i >= 0
        }),
    decreases digits.len(),
{
    if digits.len() > 0 {
        lemma_scan_range(digits.drop_last(), negative, min, max);
    }
}

/// Reads the digits from `start` on.
fn read_digits(chars: &Vec<char>, start: usize, negative: bool, min: i128, max: i128) -> (result:
    Result<i128, String>)
    requires
        start <= chars.len(),
        i64::MIN <= min <= 0 <= max <= u64::MAX,
    ensures
        integer_outcome(result) == scan_digits(
            chars@.skip(start as int),
            negative,
            min as int,
            max as int,
        ),
{
    let ghost digits = chars@.skip(start as int);
    let mut value: i128 = 0;
    let mut i: usize = start;
    assert(digits.take(0) =~= Seq::empty());
    while i < chars.len()
        invariant
            start <= i <= chars.len(),
            i64::MIN <= min <= 0 <= max <= u64::MAX,
            min <= value <= max,
            digits == chars@.skip(start as int),
            integer_outcome(Ok(value)) == scan_digits(
                digits.take(i - start),
                negative,
                min as int,
                max as int,
            ),
        decreases chars.len() - i,
    {
        let c = chars[i];
        proof {
            assert(digits.take(i - start + 1).drop_last() =~= digits.take(i - start));
            lemma_scan_range(digits.take(i - start + 1), negative, min as int, max as int);
            if scan_digits(digits.take(i - start + 1), negative, min as int, max as int) is Err {
                lemma_scan_stops(digits, i - start + 1, negative, min as int, max as int);
            }
        }
        if c < '0' || c > '9' {
            return Err(String::from_str("invalid digit found in string"));
        }
        let d: i128 = (c as u32 - '0' as u32) as i128;
        if negative {
            value = value * 10 - d;
            if value < min {
                return Err(String::from_str("number too small to fit in target type"));
            }
        } else {
            value = value * 10 + d;
            if value > max {
                return Err(String::from_str("number too large to fit in target type"));
            }
        }
        i = i + 1;
    }
    assert(digits.take(digits.len() as int) =~= digits);
    Ok(value)
}

/// Reads the numeral of an integer from `min` to `max`.
pub fn parse_integer(text: &str, min: i128, max: i128) -> (result: Result<i128, String>)
    requires
        i64::MIN <= min <= 0 <= max <= u64::MAX,
    ensures
        integer_outcome(result) == scan_integer(text@, min as int, max as int),
        result matches Ok(i) ==> min <= i <= max,
{
    let chars = chars_of(text);
    proof {
        lemma_scan_range(text@, false, min as int, max as int);
        lemma_scan_range(text@.skip(1), false, min as int, max as int);
        lemma_scan_range(text@.skip(1), true, min as int, max as int);
        assert(text@.skip(0) =~= text@);
    }
    if chars.len() == 0 {
        Err(String::from_str("cannot parse integer from empty string"))
    } else if chars.len() == 1 && (chars[0] == '+' || chars[0] == '-') {
        Err(String::from_str("invalid digit found in string"))
    } else if chars[0] == '+' {
        read_digits(&chars, 1, false, min, max)
    } else if chars[0] == '-' && min < 0 {
        read_digits(&chars, 1, true, min, max)
    } else {
        read_digits(&chars, 0, false, min, max)
    }
}

/// Reads an integer from `min` to `max` from a JSON number or from text.
pub fn integer_from_json(value: Json, min: i128, max: i128) -> (result: Result<i128, String>)
    requires
        i64::MIN <= min <= 0 <= max <= u64::MAX,
    ensures
        integer_outcome(result) == json_integer(value@, min as int, max as int),
        result matches Ok(i) ==> min <= i <= max,
{
    match &value {
        Json::Number(number) => match crate::document::integer_of_number(number) {
            Some(i) => {
                return if min <= i && i <= max {
                    Ok(i)
                } else {
                    Err(String::from_str("out of range integral type conversion attempted"))
                };
            },
            None => {},
        },
        Json::String(text) => {
            return parse_integer(text.as_str(), min, max);
        },
        _ => {},
    }
    let shown = crate::document::describe_json(value);
    Err(concat2("couldn't parse int from ", shown.as_str()))
}

} // verus!
