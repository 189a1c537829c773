//! Text: decimal numerals, concatenation, and cutting a path at its slashes.
use vstd::prelude::*;
use vstd::string::{StrSliceExecFns, StringExecFns};

verus! {

/// `String::push` appends one character.
pub assume_specification[ std::string::String::push ](text: &mut std::string::String, c: char)
    ensures
        final(text)@ == old(text)@.push(c),
;

/// The character that writes the digit `d`.
pub open spec fn digit(d: nat) -> char {
    if d == 0 {
        '0'
    } else if d == 1 {
        '1'
    } else if d == 2 {
        '2'
    } else if d == 3 {
        '3'
    } else if d == 4 {
        '4'
    } else if d == 5 {
        '5'
    } else if d == 6 {
        '6'
    } else if d == 7 {
        '7'
    } else if d == 8 {
        '8'
    } else {
        '9'
    }
}

/// The decimal numeral of `n`, without leading zeros.
pub open spec fn decimal(n: nat) -> Seq<char>
    decreases n,
{
    if n < 10 {
        seq![digit(n)]
    } else {
        decimal(n / 10).push(digit(n % 10))
    }
}

fn digit_char(d: usize) -> (c: char)
    requires
        d < 10,
    ensures
        c == digit(d as nat),
{
    match d {
        0 => '0',
        1 => '1',
        2 => '2',
        3 => '3',
        4 => '4',
        5 => '5',
        6 => '6',
        7 => '7',
        8 => '8',
        _ => '9',
    }
}

/// Writes `n` in decimal.
pub fn write_decimal(n: usize) -> (text: String)
    ensures
        text@ == decimal(n as nat),
    decreases n,
{
    if n < 10 {
        let mut text = String::new();
        text.push(digit_char(n));
        assert(text@ =~= seq![digit(n as nat)]);
        text
    } else {
        let mut text = write_decimal(n / 10);
        text.push(digit_char(n % 10));
        text
    }
}

/// A text of one character.
pub fn single(c: char) -> (text: String)
    ensures
        text@ == seq![c],
{
    let mut text = String::new();
    text.push(c);
    assert(text@ =~= seq![c]);
    text
}

/// Whether two texts are the same.
pub fn same_text(a: &String, b: &str) -> (same: bool)
    ensures
        same == (a@ == b@),
{
    *a == String::from_str(b)
}

/// The two texts, one after the other.
pub fn concat2(a: &str, b: &str) -> (text: String)
    ensures
        text@ == a@ + b@,
{
    let mut text = String::from_str(a);
    text.append(b);
    text
}

/// The three texts, one after the other.
pub fn concat3(a: &str, b: &str, c: &str) -> (text: String)
    ensures
        text@ == a@ + b@ + c@,
{
    let mut text = concat2(a, b);
    text.append(c);
    text
}

/// The four texts, one after the other.
pub fn concat4(a: &str, b: &str, c: &str, d: &str) -> (text: String)
    ensures
        text@ == a@ + b@ + c@ + d@,
{
    let mut text = concat3(a, b, c);
    text.append(d);
    text
}

/// The characters of a text.
pub fn chars_of(text: &str) -> (chars: Vec<char>)
    ensures
        chars@ == text@,
{
    let mut chars: Vec<char> = Vec::new();
    for c in iter: text.chars()
        invariant
            iter.seq() == text@,
            chars@ == text@.take(iter.index()),
    {
        chars.push(c);
    }
    assert(text@.take(text@.len() as int) =~= text@);
    chars
}

/// How many slashes a path starts with.
pub open spec fn leading_slashes(path: Seq<char>) -> nat
    decreases path.len(),
{
    if path.len() > 0 && path[0] == '/' {
        1 + leading_slashes(path.skip(1))
    } else {
        0
    }
}

/// A path without the slashes that it starts with.
pub open spec fn without_leading_slashes(path: Seq<char>) -> Seq<char> {
    path.skip(leading_slashes(path) as int)
}

/// What stands before and after the first slash of a path, if it has one.
pub open spec fn cut_first_slash(path: Seq<char>) -> Option<(Seq<char>, Seq<char>)> {
    match path.index_of_first('/') {
        Some(i) => Some((path.take(i), path.skip(i + 1))),
        None => None,
    }
}

/// What stands before and after the last slash of a path, if it has one.
pub open spec fn cut_last_slash(path: Seq<char>) -> Option<(Seq<char>, Seq<char>)> {
    match path.index_of_last('/') {
        Some(i) => Some((path.take(i), path.skip(i + 1))),
        None => None,
    }
}

/// The length of a run of slashes followed by something else, or by nothing.
proof fn lemma_leading_slashes(path: Seq<char>, n: int)
    requires
        0 <= n <= path.len(),
        forall|i: int| 0 <= i < n ==> path[i] == '/',
        n < path.len() ==> path[n] != '/',
    ensures
        leading_slashes(path) == n,
    decreases n,
{
    if n > 0 {
        let rest = path.skip(1);
        lemma_leading_slashes(rest, n - 1);
    }
}

/// Drops the slashes that a path starts with.
pub fn trim_leading_slashes(path: &str) -> (rest: &str)
    ensures
        rest@ == without_leading_slashes(path@),
{
    let chars = chars_of(path);
    let mut n: usize = 0;
    while n < chars.len() && chars[n] == '/'
        invariant
            chars@ == path@,
            n <= chars.len(),
            forall|i: int| 0 <= i < n ==> path@[i] == '/',
        decreases chars.len() - n,
    {
        n = n + 1;
    }
    proof {
        lemma_leading_slashes(path@, n as int);
        assert(path@.subrange(n as int, path@.len() as int) =~= path@.skip(n as int));
    }
    path.substring_char(n, chars.len())
}

/// Cuts a path at its first slash.
pub fn split_first_slash(path: &str) -> (parts: Option<(&str, &str)>)
    ensures
        match parts {
            Some((before, after)) => cut_first_slash(path@) == Some((before@, after@)),
            None => cut_first_slash(path@) is None,
        },
{
    let chars = chars_of(path);
    proof {
        path@.index_of_first_ensures('/');
    }
    let mut i: usize = 0;
    while i < chars.len()
        invariant
            chars@ == path@,
            i <= chars.len(),
            forall|j: int| 0 <= j < i ==> path@[j] != '/',
        decreases chars.len() - i,
    {
        if chars[i] == '/' {
            proof {
                path@.index_of_first_ensures('/');
                assert(path@.subrange(0, i as int) =~= path@.take(i as int));
                assert(path@.subrange(i + 1, path@.len() as int) =~= path@.skip(i + 1));
            }
            return Some((path.substring_char(0, i), path.substring_char(i + 1, chars.len())));
        }
        i = i + 1;
    }
    None
}

/// Cuts a path at its last slash.
pub fn split_last_slash(path: &str) -> (parts: Option<(&str, &str)>)
    ensures
        match parts {
            Some((before, after)) => cut_last_slash(path@) == Some((before@, after@)),
            None => cut_last_slash(path@) is None,
        },
{
    let chars = chars_of(path);
    proof {
        path@.index_of_last_ensures('/');
    }
    let mut n: usize = chars.len();
    while n > 0
        invariant
            chars@ == path@,
            n <= chars.len(),
            forall|j: int| n <= j < path@.len() ==> path@[j] != '/',
        decreases n,
    {
        n = n - 1;
        if chars[n] == '/' {
            proof {
                path@.index_of_last_ensures('/');
                assert(path@.subrange(0, n as int) =~= path@.take(n as int));
                assert(path@.subrange(n + 1, path@.len() as int) =~= path@.skip(n + 1));
            }
            return Some((path.substring_char(0, n), path.substring_char(n + 1, chars.len())));
        }
    }
    None
}

} // verus!
