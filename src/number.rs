//! Numeric literals of the configuration language.
//!
//! A real number is kept as the literal text that the configuration wrote; the
//! grammar accepted here is the one that `f32::from_str` documents, so every
//! accepted literal converts to a float. Counts and sizes are unsigned integers.
use vstd::prelude::*;

verus! {

pub open spec fn is_digit(c: char) -> bool {
    '0' <= c && c <= '9'
}

pub open spec fn is_sign(c: char) -> bool {
    c == '+' || c == '-'
}

/// First index at or after `i` that is not a decimal digit.
pub open spec fn digits_end(s: Seq<char>, i: int) -> int
    decreases s.len() - i,
{
    if 0 <= i < s.len() && is_digit(s[i]) {
        digits_end(s, i + 1)
    } else {
        i
    }
}

/// `s[i..]` is empty or an exponent: `e` or `E`, an optional sign, then digits.
pub open spec fn is_exponent_tail(s: Seq<char>, i: int) -> bool {
    i == s.len() || (i < s.len() && (s[i] == 'e' || s[i] == 'E') && {
        let j = if i + 1 < s.len() && is_sign(s[i + 1]) {
            i + 2
        } else {
            i + 1
        };
        j < s.len() && digits_end(s, j) == s.len()
    })
}

/// `s[i..]` is digits with an optional point, holding at least one digit, then an
/// optional exponent.
pub open spec fn is_decimal_tail(s: Seq<char>, i: int) -> bool {
    let a = digits_end(s, i);
    if a < s.len() && s[a] == '.' {
        let b = digits_end(s, a + 1);
        (a > i || b > a + 1) && is_exponent_tail(s, b)
    } else {
        a > i && is_exponent_tail(s, a)
    }
}

/// `c` is the letter `lo`, in lower or upper case `up`.
pub open spec fn is_letter(c: char, lo: char, up: char) -> bool {
    c == lo || c == up
}

/// `s[i..]` is `inf`, `infinity` or `nan`, in any case.
pub open spec fn is_special_tail(s: Seq<char>, i: int) -> bool {
    let n = s.len() - i;
    let inf = n >= 3 && is_letter(s[i], 'i', 'I') && is_letter(s[i + 1], 'n', 'N') && is_letter(
        s[i + 2],
        'f',
        'F',
    );
    (n == 3 && inf) || (n == 8 && inf && is_letter(s[i + 3], 'i', 'I') && is_letter(
        s[i + 4],
        'n',
        'N',
    ) && is_letter(s[i + 5], 'i', 'I') && is_letter(s[i + 6], 't', 'T') && is_letter(
        s[i + 7],
        'y',
        'Y',
    )) || (n == 3 && is_letter(s[i], 'n', 'N') && is_letter(s[i + 1], 'a', 'A') && is_letter(
        s[i + 2],
        'n',
        'N',
    ))
}

/// Where the part after an optional sign begins.
pub open spec fn unsigned_start(s: Seq<char>) -> int {
    if s.len() > 0 && is_sign(s[0]) {
        1
    } else {
        0
    }
}

/// A real-number literal: an optional sign, then `inf`, `infinity`, `nan` or a decimal
/// number with an optional exponent.
pub open spec fn is_real_literal(s: Seq<char>) -> bool {
    is_decimal_tail(s, unsigned_start(s)) || is_special_tail(s, unsigned_start(s))
}

/// Some digit of the mantissa, before any exponent, is not zero.
pub open spec fn nonzero_mantissa(s: Seq<char>, i: int) -> bool
    decreases s.len() - i,
{
    if i < 0 || i >= s.len() || s[i] == 'e' || s[i] == 'E' {
        false
    } else if '1' <= s[i] && s[i] <= '9' {
        true
    } else {
        nonzero_mantissa(s, i + 1)
    }
}

/// A finite literal whose value is not below zero: a deviation of a normal distribution.
pub open spec fn is_deviation_literal(s: Seq<char>) -> bool {
    is_decimal_tail(s, unsigned_start(s)) && !(s.len() > 0 && s[0] == '-' && nonzero_mantissa(s, 1))
}

fn digit(c: char) -> (r: bool)
    ensures
        r == is_digit(c),
{
    '0' <= c && c <= '9'
}

fn letter(c: char, lo: char, up: char) -> (r: bool)
    ensures
        r == is_letter(c, lo, up),
{
    c == lo || c == up
}

fn skip_digits(s: &Vec<char>, from: usize) -> (r: usize)
    requires
        from <= s@.len(),
    ensures
        r as int == digits_end(s@, from as int),
        from <= r <= s@.len(),
{
    let mut i: usize = from;
    while i < s.len() && digit(s[i])
        invariant
            from <= i <= s@.len(),
            digits_end(s@, i as int) == digits_end(s@, from as int),
        decreases s@.len() - i,
    {
        i += 1;
    }
    i
}

fn exponent_tail(s: &Vec<char>, i: usize) -> (r: bool)
    requires
        i <= s@.len(),
    ensures
        r == is_exponent_tail(s@, i as int),
{
    if i == s.len() {
        return true;
    }
    if s[i] != 'e' && s[i] != 'E' {
        return false;
    }
    let j: usize = if i + 1 < s.len() && (s[i + 1] == '+' || s[i + 1] == '-') {
        i + 2
    } else {
        i + 1
    };
    j < s.len() && skip_digits(s, j) == s.len()
}

fn decimal_tail(s: &Vec<char>, i: usize) -> (r: bool)
    requires
        i <= s@.len(),
    ensures
        r == is_decimal_tail(s@, i as int),
{
    let a = skip_digits(s, i);
    if a < s.len() && s[a] == '.' {
        let b = skip_digits(s, a + 1);
        (a > i || b > a + 1) && exponent_tail(s, b)
    } else {
        a > i && exponent_tail(s, a)
    }
}

fn special_tail(s: &Vec<char>, i: usize) -> (r: bool)
    requires
        i <= s@.len(),
    ensures
        r == is_special_tail(s@, i as int),
{
    let n = s.len() - i;
    let inf = n >= 3 && letter(s[i], 'i', 'I') && letter(s[i + 1], 'n', 'N') && letter(
        s[i + 2],
        'f',
        'F',
    );
    (n == 3 && inf) || (n == 8 && inf && letter(s[i + 3], 'i', 'I') && letter(s[i + 4], 'n', 'N')
        && letter(s[i + 5], 'i', 'I') && letter(s[i + 6], 't', 'T') && letter(s[i + 7], 'y', 'Y'))
        || (n == 3 && letter(s[i], 'n', 'N') && letter(s[i + 1], 'a', 'A') && letter(
        s[i + 2],
        'n',
        'N',
    ))
}

fn sign_len(s: &Vec<char>) -> (r: usize)
    ensures
        r as int == unsigned_start(s@),
{
    if s.len() > 0 && (s[0] == '+' || s[0] == '-') {
        1
    } else {
        0
    }
}

/// Whether `s` is a real-number literal.
pub fn real_literal(s: &Vec<char>) -> (r: bool)
    ensures
        r == is_real_literal(s@),
{
    let i = sign_len(s);
    decimal_tail(s, i) || special_tail(s, i)
}

fn mantissa_nonzero(s: &Vec<char>, from: usize) -> (r: bool)
    ensures
        r == nonzero_mantissa(s@, from as int),
{
    let mut i: usize = from;
    while i < s.len()
        invariant
            from <= i,
            nonzero_mantissa(s@, i as int) == nonzero_mantissa(s@, from as int),
        decreases s@.len() - i,
    {
        let c = s[i];
        if c == 'e' || c == 'E' {
            return false;
        }
        if '1' <= c && c <= '9' {
            return true;
        }
        i += 1;
    }
    false
}

/// Whether `s` is a literal that a normal distribution accepts as its deviation.
pub fn deviation_literal(s: &Vec<char>) -> (r: bool)
    ensures
        r == is_deviation_literal(s@),
{
    let i = sign_len(s);
    decimal_tail(s, i) && !(s.len() > 0 && s[0] == '-' && mantissa_nonzero(s, 1))
}

/// The number that a string of decimal digits writes.
pub open spec fn digits_value(s: Seq<char>) -> nat
    decreases s.len(),
{
    if s.len() == 0 {
        0
    } else {
        digits_value(s.drop_last()) * 10 + ((s.last() as u32) - ('0' as u32)) as nat
    }
}

/// All characters of `s` are decimal digits.
pub open spec fn all_digits(s: Seq<char>) -> bool {
    forall|k: int| 0 <= k < s.len() ==> is_digit(#[trigger] s[k])
}

/// The unsigned integer that `s` writes, as `usize::from_str` reads it: an optional
/// `+`, then at least one digit, with a value that fits.
pub open spec fn unsigned_of(s: Seq<char>) -> Option<usize> {
    let d = if s.len() > 0 && s[0] == '+' {
        s.drop_first()
    } else {
        s
    };
    if d.len() > 0 && all_digits(d) && digits_value(d) <= usize::MAX {
        Some(digits_value(d) as usize)
    } else {
        None
    }
}

proof fn lemma_digits_value_grows(s: Seq<char>, i: int)
    requires
        0 <= i <= s.len(),
        all_digits(s),
    ensures
        digits_value(s.take(i)) <= digits_value(s),
    decreases s.len() - i,
{
    if i < s.len() {
        lemma_digits_value_grows(s, i + 1);
        assert(s.take(i + 1).drop_last() =~= s.take(i));
    } else {
        assert(s.take(i) =~= s);
    }
}

/// Reads an unsigned integer.
pub fn parse_unsigned(s: &Vec<char>) -> (r: Option<usize>)
    ensures
        r == unsigned_of(s@),
{
    let start: usize = if s.len() > 0 && s[0] == '+' {
        1
    } else {
        0
    };
    let ghost d = s@.subrange(start as int, s@.len() as int);
    assert(d =~= (if s@.len() > 0 && s@[0] == '+' {
        s@.drop_first()
    } else {
        s@
    }));
    if start == s.len() {
        return None;
    }
    let mut value: usize = 0;
    let mut i: usize = start;
    while i < s.len()
        invariant
            start <= i <= s@.len(),
            d == s@.subrange(start as int, s@.len() as int),
            d == (if s@.len() > 0 && s@[0] == '+' {
                s@.drop_first()
            } else {
                s@
            }),
            all_digits(d.take(i - start)),
            value as nat == digits_value(d.take(i - start)),
        decreases s@.len() - i,
    {
        let c = s[i];
        assert(d.take(i - start + 1).drop_last() =~= d.take(i - start));
        assert(d[i - start] == c);
        if !digit(c) {
            assert(!is_digit(d[i - start]));
            return None;
        }
        assert(d.take(i - start + 1).last() == c);
        assert(all_digits(d.take(i - start + 1))) by {
            assert forall|k: int| 0 <= k < d.take(i - start + 1).len() implies is_digit(
                #[trigger] d.take(i - start + 1)[k],
            ) by {
                if k < i - start {
                    assert(d.take(i - start + 1)[k] == d.take(i - start)[k]);
                }
            }
        }
        assert(digits_value(d.take(i - start + 1)) == value * 10 + (c as u32 - '0' as u32));
        let next = match value.checked_mul(10) {
            Some(v) => v.checked_add((c as u32 - '0' as u32) as usize),
            None => None,
        };
        match next {
            Some(v) => {
                value = v;
            },
            None => {
                proof {
                    if all_digits(d) {
                        lemma_digits_value_grows(d, i - start + 1);
                    }
                }
                return None;
            },
        }
        i += 1;
    }
    assert(d.take(i - start) =~= d);
    Some(value)
}

} // verus!
