//! The numerals that a profile may hold.
//!
//! A numeral is text that reads as a decimal floating-point number:
//!
//! ```text
//! Numeral  ::= Sign? ( Named | Decimal )
//! Named    ::= 'inf' | 'infinity' | 'nan'        (in either case of each letter)
//! Decimal  ::= ( Digit+ | Digit+ '.' Digit* | Digit* '.' Digit+ ) Exponent?
//! Exponent ::= ( 'e' | 'E' ) Sign? Digit+
//! Sign     ::= '+' | '-'
//! Digit    ::= '0' ... '9'
//! ```
//!
//! Nothing here computes the number that a numeral stands for; the functions
//! only tell numerals from other text.

use vstd::prelude::*;

verus! {

/// Whether `c` is one of the ten decimal digits.
pub open spec fn is_digit(c: char) -> bool {
    c == '0' || c == '1' || c == '2' || c == '3' || c == '4' || c == '5' || c == '6' || c == '7'
        || c == '8' || c == '9'
}

/// Whether `c` is a plus or a minus sign.
pub open spec fn is_sign(c: char) -> bool {
    c == '+' || c == '-'
}

/// How many digits stand in a row in `s` from position `from` on.
pub open spec fn digit_run(s: Seq<char>, from: int) -> int
    decreases s.len() - from,
{
    if 0 <= from < s.len() && is_digit(s[from]) {
        1 + digit_run(s, from + 1)
    } else {
        0
    }
}

/// Whether position `at` of `s` holds the letter given in its two cases.
pub open spec fn letter_at(s: Seq<char>, at: int, lower: char, upper: char) -> bool {
    0 <= at < s.len() && (s[at] == lower || s[at] == upper)
}

/// Whether `s` from `from` to its end spells `inf`, `infinity` or `nan`, in
/// either case of each letter.
pub open spec fn is_named_from(s: Seq<char>, from: int) -> bool {
    let inf = letter_at(s, from, 'i', 'I') && letter_at(s, from + 1, 'n', 'N') && letter_at(
        s,
        from + 2,
        'f',
        'F',
    );
    let inity = letter_at(s, from + 3, 'i', 'I') && letter_at(s, from + 4, 'n', 'N') && letter_at(
        s,
        from + 5,
        'i',
        'I',
    ) && letter_at(s, from + 6, 't', 'T') && letter_at(s, from + 7, 'y', 'Y');
    let nan = letter_at(s, from, 'n', 'N') && letter_at(s, from + 1, 'a', 'A') && letter_at(
        s,
        from + 2,
        'n',
        'N',
    );
    ||| s.len() == from + 3 && (inf || nan)
    ||| s.len() == from + 8 && inf && inity
}

/// Whether `s` from `from` to its end is an exponent: the letter `e`, an
/// optional sign, and at least one digit.
pub open spec fn is_exponent_from(s: Seq<char>, from: int) -> bool {
    let digits = if from + 1 < s.len() && is_sign(s[from + 1]) {
        from + 2
    } else {
        from + 1
    };
    &&& letter_at(s, from, 'e', 'E')
    &&& digit_run(s, digits) >= 1
    &&& digits + digit_run(s, digits) == s.len()
}

/// Whether `s` from `from` to its end is a decimal: digits with at most one
/// point among them, at least one digit in all, and an optional exponent.
pub open spec fn is_decimal_from(s: Seq<char>, from: int) -> bool {
    let whole = digit_run(s, from);
    let point = from + whole < s.len() && s[from + whole] == '.';
    let fraction = if point {
        digit_run(s, from + whole + 1)
    } else {
        0
    };
    let end = from + whole + (if point {
        1int
    } else {
        0int
    }) + fraction;
    &&& whole + fraction >= 1
    &&& end == s.len() || is_exponent_from(s, end)
}

/// Whether `s` is a numeral.
pub open spec fn is_numeral(s: Seq<char>) -> bool {
    let from = if s.len() > 0 && is_sign(s[0]) {
        1int
    } else {
        0int
    };
    is_decimal_from(s, from) || is_named_from(s, from)
}

fn digit_char(c: char) -> (yes: bool)
    ensures
        yes == is_digit(c),
{
    c == '0' || c == '1' || c == '2' || c == '3' || c == '4' || c == '5' || c == '6' || c == '7'
        || c == '8' || c == '9'
}

fn sign_char(c: char) -> (yes: bool)
    ensures
        yes == is_sign(c),
{
    c == '+' || c == '-'
}

fn has_letter(text: &str, n: usize, at: usize, lower: char, upper: char) -> (yes: bool)
    requires
        n == text@.len(),
    ensures
        yes == letter_at(text@, at as int, lower, upper),
{
    if at < n {
        let c = text.get_char(at);
        c == lower || c == upper
    } else {
        false
    }
}

fn count_digits(text: &str, n: usize, from: usize) -> (count: usize)
    requires
        n == text@.len(),
        from <= n,
    ensures
        count == digit_run(text@, from as int),
        from + count <= n,
{
    let mut i: usize = from;
    while i < n
        invariant
            n == text@.len(),
            from <= i <= n,
            digit_run(text@, from as int) == (i - from) + digit_run(text@, i as int),
        ensures
            digit_run(text@, i as int) == 0,
        decreases n - i,
    {
        if !digit_char(text.get_char(i)) {
            break;
        }
        i += 1;
    }
    i - from
}

fn named_from(text: &str, n: usize, from: usize) -> (yes: bool)
    requires
        n == text@.len(),
        from <= 1,
        from <= n,
    ensures
        yes == is_named_from(text@, from as int),
{
    if n == from + 3 {
        let inf = has_letter(text, n, from, 'i', 'I') && has_letter(text, n, from + 1, 'n', 'N')
            && has_letter(text, n, from + 2, 'f', 'F');
        let nan = has_letter(text, n, from, 'n', 'N') && has_letter(text, n, from + 1, 'a', 'A')
            && has_letter(text, n, from + 2, 'n', 'N');
        inf || nan
    } else if n == from + 8 {
        has_letter(text, n, from, 'i', 'I') && has_letter(text, n, from + 1, 'n', 'N')
            && has_letter(text, n, from + 2, 'f', 'F') && has_letter(text, n, from + 3, 'i', 'I')
            && has_letter(text, n, from + 4, 'n', 'N') && has_letter(text, n, from + 5, 'i', 'I')
            && has_letter(text, n, from + 6, 't', 'T') && has_letter(text, n, from + 7, 'y', 'Y')
    } else {
        false
    }
}

fn exponent_from(text: &str, n: usize, from: usize) -> (yes: bool)
    requires
        n == text@.len(),
        from < n,
    ensures
        yes == is_exponent_from(text@, from as int),
{
    if !has_letter(text, n, from, 'e', 'E') {
        return false;
    }
    let digits: usize = if from + 1 < n && sign_char(text.get_char(from + 1)) {
        from + 2
    } else {
        from + 1
    };
    let count = count_digits(text, n, digits);
    count >= 1 && digits + count == n
}

fn decimal_from(text: &str, n: usize, from: usize) -> (yes: bool)
    requires
        n == text@.len(),
        from <= n,
    ensures
        yes == is_decimal_from(text@, from as int),
{
    let whole = count_digits(text, n, from);
    let point = from + whole < n && text.get_char(from + whole) == '.';
    let mut end: usize = from + whole;
    let mut fraction: usize = 0;
    if point {
        fraction = count_digits(text, n, from + whole + 1);
        end = from + whole + 1 + fraction;
    }
    if whole + fraction < 1 {
        return false;
    }
    end == n || exponent_from(text, n, end)
}

/// Tells whether `text` is a numeral.
pub fn numeral(text: &str) -> (yes: bool)
    ensures
        yes == is_numeral(text@),
{
    let n: usize = text.unicode_len();
    let from: usize = if n > 0 && sign_char(text.get_char(0)) {
        1
    } else {
        0
    };
    decimal_from(text, n, from) || named_from(text, n, from)
}

} // verus!
