//! What holds of numerals and of the pieces of paths.
use vstd::prelude::*;

verus! {

/// Whether a character is a decimal digit.
pub open spec fn is_digit(c: char) -> bool {
    '0' <= c <= '9'
}

/// The number that digits write, where each counts ten times what the next counts.
pub open spec fn positional(digits: Seq<char>) -> int
    decreases digits.len(),
{
    if digits.len() == 0 {
        0
    } else {
        positional(digits.drop_last()) * 10 + (digits.last() as int - '0' as int)
    }
}

/// The numeral of a number has only digits, starts with no zero that it could do without, and writes
/// that number.
pub proof fn law_decimals_write_their_number(n: nat)
    ensures
        crate::text::decimal(n).len() > 0,
        forall|i: int|
            0 <= i < crate::text::decimal(n).len() ==> is_digit(
                #[trigger] crate::text::decimal(n)[i],
            ),
        crate::text::decimal(n).len() > 1 ==> crate::text::decimal(n)[0] != '0',
        positional(crate::text::decimal(n)) == n,
    decreases n,
{
    let digits = crate::text::decimal(n);
    if n < 10 {
        assert(digits.drop_last() =~= Seq::empty());
        assert(positional(digits.drop_last()) == 0);
    } else {
        law_decimals_write_their_number(n / 10);
        let shorter = crate::text::decimal(n / 10);
        assert(digits.drop_last() =~= shorter);
        if shorter.len() == 1 {
            assert(shorter.drop_last() =~= Seq::empty());
            assert(positional(shorter.drop_last()) == 0);
            assert(shorter[0] != '0');
        }
        assert forall|i: int| 0 <= i < digits.len() implies is_digit(#[trigger] digits[i]) by {
            if i < digits.len() - 1 {
                assert(digits[i] == shorter[i]);
            }
        }
    }
}

/// A path is the slashes that it starts with, followed by the rest, which starts with none.
pub proof fn law_leading_slashes_are_dropped(path: Seq<char>)
    ensures
        ({
            let rest = crate::text::without_leading_slashes(path);
            &&& rest.len() <= path.len()
            &&& path.skip(path.len() - rest.len()) == rest
            &&& forall|i: int| 0 <= i < path.len() - rest.len() ==> path[i] == '/'
            &&& rest.len() > 0 ==> rest[0] != '/'
        }),
    decreases path.len(),
{
    if path.len() > 0 && path[0] == '/' {
        let shorter = path.skip(1);
        law_leading_slashes_are_dropped(shorter);
        let rest = crate::text::without_leading_slashes(shorter);
        let n = crate::text::leading_slashes(shorter) as int;
        lemma_slashes_within(shorter);
        assert(path.skip(n + 1) =~= shorter.skip(n));
        assert(path.skip(path.len() - rest.len()) =~= rest);
        assert forall|i: int| 0 <= i < path.len() - rest.len() implies path[i] == '/' by {
            if i > 0 {
                assert(path[i] == shorter[i - 1]);
            }
        }
    } else {
        assert(path.skip(0) =~= path);
    }
}

/// A path does not start with more slashes than it has characters.
pub proof fn lemma_slashes_within(path: Seq<char>)
    ensures
        crate::text::leading_slashes(path) <= path.len(),
    decreases path.len(),
{
    if path.len() > 0 {
        lemma_slashes_within(path.skip(1));
    }
}

/// A path is cut at a slash exactly where it has one, and the slash and the two parts make the path;
/// the first cut leaves no slash before it, the last none after it.
pub proof fn law_cuts_are_at_slashes(path: Seq<char>)
    ensures
        crate::text::cut_first_slash(path) is Some <==> path.contains('/'),
        crate::text::cut_last_slash(path) is Some <==> path.contains('/'),
        crate::text::cut_first_slash(path) matches Some((before, after)) ==> path == before
            + seq!['/'] + after && !before.contains('/'),
        crate::text::cut_last_slash(path) matches Some((before, after)) ==> path == before
            + seq!['/'] + after && !after.contains('/'),
{
    path.index_of_first_ensures('/');
    path.index_of_last_ensures('/');
    if path.contains('/') {
        let i = path.index_of_first('/')->0;
        assert(path =~= path.take(i) + seq!['/'] + path.skip(i + 1));
        let j = path.index_of_last('/')->0;
        assert(path =~= path.take(j) + seq!['/'] + path.skip(j + 1));
        let after = path.skip(j + 1);
        if after.contains('/') {
            let k = choose|k: int| 0 <= k < after.len() && after[k] == '/';
            assert(path[j + 1 + k] == '/');
        }
        let before = path.take(i);
        if before.contains('/') {
            let k = choose|k: int| 0 <= k < before.len() && before[k] == '/';
            assert(path[k] == '/');
        }
    }
}

/// The number that more digits write is not smaller.
pub proof fn lemma_positional_grows(digits: Seq<char>, n: int, m: int)
    requires
        0 <= n <= m <= digits.len(),
        forall|i: int| 0 <= i < m ==> is_digit(#[trigger] digits[i]),
    ensures
        0 <= positional(digits.take(n)) <= positional(digits.take(m)),
    decreases m,
{
    if n == m {
        if n > 0 {
            lemma_positional_grows(digits, n - 1, n - 1);
            assert(digits.take(n).drop_last() =~= digits.take(n - 1));
            assert(digits.take(n).last() == digits[n - 1]);
        }
    } else {
        lemma_positional_grows(digits, n, m - 1);
        assert(digits.take(m).drop_last() =~= digits.take(m - 1));
        assert(digits.take(m).last() == digits[m - 1]);
    }
}

/// What digits read as: the number that they write, or that it is out of range.
proof fn lemma_scan_prefix(digits: Seq<char>, n: int, negative: bool, min: int, max: int)
    requires
        min <= 0 <= max,
        0 <= n <= digits.len(),
        forall|i: int| 0 <= i < n ==> is_digit(#[trigger] digits[i]),
    ensures
        crate::integers::scan_digits(digits.take(n), negative, min, max) == in_range(
            positional(digits.take(n)),
            negative,
            min,
            max,
        ),
    decreases n,
{
    if n == 0 {
        assert(digits.take(0) =~= Seq::empty());
    } else {
        lemma_scan_prefix(digits, n - 1, negative, min, max);
        lemma_positional_grows(digits, n - 1, n);
        assert(digits.take(n).drop_last() =~= digits.take(n - 1));
        assert(digits.take(n).last() == digits[n - 1]);
        assert(is_digit(digits[n - 1]));
    }
}

/// A number or, after a minus sign, its opposite, where it is in a range; else the message that says
/// on which side it is out of it.
pub open spec fn in_range(number: int, negative: bool, min: int, max: int) -> Result<
    int,
    Seq<char>,
> {
    if negative && -number < min {
        Err("number too small to fit in target type"@)
    } else if !negative && number > max {
        Err("number too large to fit in target type"@)
    } else if negative {
        Ok(-number)
    } else {
        Ok(number)
    }
}

/// What a text reads as of which the first digits are followed by nothing, or by something else: the
/// number that the digits write if it is in range and nothing follows.
pub open spec fn digits_read_as(
    digits: Seq<char>,
    n: int,
    negative: bool,
    min: int,
    max: int,
) -> Result<int, Seq<char>> {
    match in_range(positional(digits.take(n)), negative, min, max) {
        Err(message) => Err(message),
        Ok(number) => if n < digits.len() {
            Err("invalid digit found in string"@)
        } else {
            Ok(number)
        },
    }
}

/// Digits read as the number that they write, up to the first character that is no digit.
proof fn lemma_scan(digits: Seq<char>, n: int, negative: bool, min: int, max: int)
    requires
        min <= 0 <= max,
        0 <= n <= digits.len(),
        forall|i: int| 0 <= i < n ==> is_digit(#[trigger] digits[i]),
        n < digits.len() ==> !is_digit(digits[n]),
    ensures
        crate::integers::scan_digits(digits, negative, min, max) == digits_read_as(
            digits,
            n,
            negative,
            min,
            max,
        ),
{
    lemma_scan_prefix(digits, n, negative, min, max);
    if crate::integers::scan_digits(digits.take(n), negative, min, max) is Err {
        crate::integers::lemma_scan_stops(digits, n, negative, min, max);
    } else if n < digits.len() {
        assert(digits.take(n + 1).drop_last() =~= digits.take(n));
        assert(digits.take(n + 1).last() == digits[n]);
        crate::integers::lemma_scan_stops(digits, n + 1, negative, min, max);
    } else {
        assert(digits.take(n) =~= digits);
    }
}

/// A text of digits after an optional sign reads as the number that it writes, where that is in the
/// range that is asked for; a minus sign needs a range with negative numbers. Of several reasons to
/// refuse a text, the leftmost counts.
pub proof fn law_numerals_are_read(
    sign: Option<char>,
    digits: Seq<char>,
    n: int,
    min: int,
    max: int,
)
    requires
        min <= 0 <= max,
        sign == None::<char> || sign == Some('+') || sign == Some('-'),
        digits.len() > 0,
        sign is None ==> digits[0] != '+' && digits[0] != '-',
        0 <= n <= digits.len(),
        forall|i: int| 0 <= i < n ==> is_digit(#[trigger] digits[i]),
        n < digits.len() ==> !is_digit(digits[n]),
    ensures
        crate::integers::scan_integer(
            match sign {
                Some(c) => seq![c] + digits,
                None => digits,
            },
            min,
            max,
        ) == (if sign == Some('-') && min == 0 {
            Err("invalid digit found in string"@)
        } else {
            digits_read_as(digits, n, sign == Some('-'), min, max)
        }),
{
    match sign {
        Some(c) => {
            let text = seq![c] + digits;
            assert(text.skip(1) =~= digits);
            lemma_scan(digits, n, c == '-', min, max);
            if c == '-' && min == 0 {
                assert(text[0] == '-');
                lemma_scan(text, 0, false, min, max);
                assert(text.take(0) =~= Seq::empty());
            }
        },
        None => {
            lemma_scan(digits, n, false, min, max);
        },
    }
}

/// A text without digits is no integer.
pub proof fn law_texts_without_digits_are_refused(text: Seq<char>, min: int, max: int)
    requires
        text.len() == 0 || text == seq!['+'] || text == seq!['-'],
    ensures
        crate::integers::scan_integer(text, min, max) == Err::<int, Seq<char>>(
            if text.len() == 0 {
                "cannot parse integer from empty string"@
            } else {
                "invalid digit found in string"@
            },
        ),
{
}

} // verus!
