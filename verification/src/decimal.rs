//! Natural numbers in decimal notation: how an index is written into a file
//! name or a configuration line, and how it is read back.

use vstd::prelude::*;
use vstd::string::*;
use crate::text::{chars_of, push_char};

verus! {

/// Whether `c` is one of `0` to `9`.
pub open spec fn is_digit(c: char) -> bool {
    '0' <= c && c <= '9'
}

/// The digit that stands for `d`, for `d` below ten.
pub open spec fn digit_char(d: nat) -> char {
    if d == 0 {
        '0'
    } else if d == 1 {
        '1'
    } else if d == 2 {
        '2'
    } else if d == 3 {
        '3'
    } else if d == 4 {
        '4'
    } else if d == 5 {
        '5'
    } else if d == 6 {
        '6'
    } else if d == 7 {
        '7'
    } else if d == 8 {
        '8'
    } else {
        '9'
    }
}

/// The value of the digit `c`.
pub open spec fn digit_value(c: char) -> nat {
    (c as int - '0' as int) as nat
}

/// `n` written in decimal, without sign or leading zeros.
pub open spec fn decimal(n: nat) -> Seq<char>
    decreases n,
{
    if n < 10 {
        seq![digit_char(n)]
    } else {
        decimal(n / 10).push(digit_char(n % 10))
    }
}

/// The number that a string of digits denotes; leading zeros count for
/// nothing and the empty string denotes zero.
pub open spec fn decimal_value(s: Seq<char>) -> nat
    decreases s.len(),
{
    if s.len() == 0 {
        0
    } else {
        decimal_value(s.drop_last()) * 10 + digit_value(s.last())
    }
}

/// Whether `s` holds digits only.
pub open spec fn all_digits(s: Seq<char>) -> bool {
    forall|i: int| 0 <= i < s.len() ==> is_digit(#[trigger] s[i])
}

/// What a text denotes as an unsigned number: an optional `+`, then at least
/// one digit and nothing else. Anything else denotes no number.
pub open spec fn parse_decimal(s: Seq<char>) -> Option<nat> {
    let digits = if s.len() > 0 && s[0] == '+' {
        s.drop_first()
    } else {
        s
    };
    if digits.len() > 0 && all_digits(digits) {
        Some(decimal_value(digits))
    } else {
        None
    }
}

fn digit_to_char(d: usize) -> (c: char)
    requires
        d < 10,
    ensures
        c == digit_char(d as nat),
{
    if d == 0 {
        '0'
    } else if d == 1 {
        '1'
    } else if d == 2 {
        '2'
    } else if d == 3 {
        '3'
    } else if d == 4 {
        '4'
    } else if d == 5 {
        '5'
    } else if d == 6 {
        '6'
    } else if d == 7 {
        '7'
    } else if d == 8 {
        '8'
    } else {
        '9'
    }
}

/// Appends `n` in decimal to `s`.
pub fn push_decimal(s: &mut String, n: usize)
    ensures
        final(s)@ == old(s)@ + decimal(n as nat),
    decreases n,
{
    if n >= 10 {
        push_decimal(s, n / 10);
        push_char(s, digit_to_char(n % 10));
        assert(s@ =~= old(s)@ + decimal(n as nat));
    } else {
        push_char(s, digit_to_char(n));
        assert(s@ =~= old(s)@ + decimal(n as nat));
    }
}

/// `n` written in decimal.
pub fn usize_to_string(n: usize) -> (out: String)
    ensures
        out@ == decimal(n as nat),
{
    let mut out = String::new();
    push_decimal(&mut out, n);
    assert(out@ =~= decimal(n as nat));
    out
}

/// Reads an unsigned number. `None` where the text denotes no number, or one
/// that does not fit the machine word.
pub fn parse_usize(s: &str) -> (r: Option<usize>)
    ensures
        r == match parse_decimal(s@) {
            Some(n) => if n <= usize::MAX {
                Some(n as usize)
            } else {
                None
            },
            None => None,
        },
{
    let x = chars_of(s);
    let start: usize = if x.len() > 0 && x[0] == '+' {
        1
    } else {
        0
    };
    if start == x.len() {
        return None;
    }
    let ghost digits = x@.subrange(start as int, x@.len() as int);
    assert(digits =~= if s@.len() > 0 && s@[0] == '+' {
        s@.drop_first()
    } else {
        s@
    });
    let mut i: usize = start;
    let mut acc: usize = 0;
    let mut overflow = false;
    while i < x.len()
        invariant
            start <= i <= x.len(),
            x@ == s@,
            digits == x@.subrange(start as int, x@.len() as int),
            digits == if s@.len() > 0 && s@[0] == '+' {
                s@.drop_first()
            } else {
                s@
            },
            all_digits(digits.take(i - start)),
            !overflow ==> acc == decimal_value(digits.take(i - start)),
            overflow ==> decimal_value(digits.take(i - start)) > usize::MAX,
        decreases x.len() - i,
    {
        let c = x[i];
        if !(c >= '0' && c <= '9') {
            assert(digits[i - start] == c);
            assert(!all_digits(digits));
            return None;
        }
        let d: usize = (c as u32 - '0' as u32) as usize;
        proof {
            let t = digits.take(i - start + 1);
            assert(t.drop_last() =~= digits.take(i - start));
            assert(t.last() == c);
            assert(decimal_value(t) == decimal_value(digits.take(i - start)) * 10 + d);
            assert forall|k: int| 0 <= k < t.len() implies is_digit(#[trigger] t[k]) by {
                if k < t.len() - 1 {
                    assert(digits.take(i - start)[k] == t[k]);
                }
            }
        }
        if !overflow {
            match acc.checked_mul(10) {
                Some(m) => match m.checked_add(d) {
                    Some(v) => {
                        acc = v;
                    },
                    None => {
                        overflow = true;
                    },
                },
                None => {
                    overflow = true;
                },
            }
        }
        i += 1;
    }
    assert(digits.take(i - start) =~= digits);
    if overflow {
        None
    } else {
        Some(acc)
    }
}

/// Writing a number down and reading it back gives the number.
pub proof fn lemma_decimal_round_trip(n: nat)
    ensures
        all_digits(decimal(n)),
        decimal(n).len() > 0,
        decimal_value(decimal(n)) == n,
        parse_decimal(decimal(n)) == Some(n),
    decreases n,
{
    if n < 10 {
        let s = decimal(n);
        assert(s.drop_last() =~= Seq::<char>::empty());
        assert(decimal_value(s.drop_last()) == 0);
    } else {
        lemma_decimal_round_trip(n / 10);
        let s = decimal(n);
        assert(s.drop_last() =~= decimal(n / 10));
        assert(s.last() == digit_char(n % 10));
    }
    assert(decimal(n)[0] != '+');
}

} // verus!
