//! Integers as literals write them: an optional sign and decimal digits.

use vstd::prelude::*;
use vstd::string::*;

verus! {

/// The value of a decimal digit; nothing for another character.
pub open spec fn digit_value(c: char) -> Option<int> {
    if c == '0' {
        Some(0)
    } else if c == '1' {
        Some(1)
    } else if c == '2' {
        Some(2)
    } else if c == '3' {
        Some(3)
    } else if c == '4' {
        Some(4)
    } else if c == '5' {
        Some(5)
    } else if c == '6' {
        Some(6)
    } else if c == '7' {
        Some(7)
    } else if c == '8' {
        Some(8)
    } else if c == '9' {
        Some(9)
    } else {
        None
    }
}

/// Whether every character from `from` on is a decimal digit.
pub open spec fn all_digits(s: Seq<char>, from: int) -> bool {
    forall|i: int| from <= i < s.len() ==> (#[trigger] digit_value(s[i])) is Some
}

/// The number that the digits from `from` up to `upto` write.
pub open spec fn number(s: Seq<char>, from: int, upto: int) -> int
    decreases upto - from,
{
    if upto <= from {
        0
    } else {
        number(s, from, upto - 1) * 10 + match digit_value(s[upto - 1]) {
            Some(d) => d,
            None => 0,
        }
    }
}

/// Where the digits of a text start: after a sign, if it has one.
pub open spec fn digits_from(s: Seq<char>) -> int {
    if s.len() > 0 && (s[0] == '-' || s[0] == '+') {
        1
    } else {
        0
    }
}

/// The integer that a text writes: an optional sign followed by one
/// decimal digit at least and nothing else.
pub open spec fn integer_value(s: Seq<char>) -> Option<int> {
    let from = digits_from(s);
    if from >= s.len() || !all_digits(s, from) {
        None
    } else if s[0] == '-' {
        Some(-number(s, from, s.len() as int))
    } else {
        Some(number(s, from, s.len() as int))
    }
}

/// The integer, where it is one that the machine can hold.
pub open spec fn held(v: Option<int>) -> Option<i128> {
    match v {
        Some(x) => if i128::MIN <= x <= i128::MAX {
            Some(x as i128)
        } else {
            None
        },
        None => None,
    }
}

/// More digits never write a smaller number.
pub proof fn lemma_number_grows(s: Seq<char>, from: int, k: int, upto: int)
    requires
        from <= k <= upto,
    ensures
        0 <= number(s, from, k) <= number(s, from, upto),
    decreases upto - k,
{
    lemma_number_nonnegative(s, from, k);
    if k < upto {
        lemma_number_grows(s, from, k, upto - 1);
    }
}

proof fn lemma_number_nonnegative(s: Seq<char>, from: int, upto: int)
    ensures
        0 <= number(s, from, upto),
    decreases upto - from,
{
    if upto > from {
        lemma_number_nonnegative(s, from, upto - 1);
    }
}

fn digit_of(c: char) -> (d: Option<u128>)
    ensures
        d is Some <==> digit_value(c) is Some,
        d matches Some(x) ==> digit_value(c) == Some(x as int) && x < 10,
{
    if c == '0' {
        Some(0)
    } else if c == '1' {
        Some(1)
    } else if c == '2' {
        Some(2)
    } else if c == '3' {
        Some(3)
    } else if c == '4' {
        Some(4)
    } else if c == '5' {
        Some(5)
    } else if c == '6' {
        Some(6)
    } else if c == '7' {
        Some(7)
    } else if c == '8' {
        Some(8)
    } else if c == '9' {
        Some(9)
    } else {
        None
    }
}

/// Reads the integer that a text writes. Returns `None` for a text that
/// writes no integer and for an integer that the machine cannot hold.
pub fn parse_integer(text: &str) -> (r: Option<i128>)
    ensures
        r == held(integer_value(text@)),
{
    let n = text.unicode_len();
    if n == 0 {
        return None;
    }
    let first = text.get_char(0);
    let negative = first == '-';
    let from: usize = if first == '-' || first == '+' {
        1
    } else {
        0
    };
    if from >= n {
        return None;
    }
    let ghost s = text@;
    let mut magnitude: u128 = 0;
    let mut overflow = false;
    let mut k: usize = from;
    while k < n
        invariant
            from <= k <= n,
            n == s.len(),
            s == text@,
            from == digits_from(s),
            forall|i: int| from <= i < k ==> (#[trigger] digit_value(s[i])) is Some,
            !overflow ==> magnitude == number(s, from as int, k as int),
            overflow ==> number(s, from as int, k as int) > u128::MAX,
        decreases n - k,
    {
        let d = match digit_of(text.get_char(k)) {
            Some(d) => d,
            None => {
                assert(!all_digits(s, from as int));
                return None;
            },
        };
        proof {
            lemma_number_grows(s, from as int, k as int, k + 1);
        }
        if !overflow {
            match magnitude.checked_mul(10) {
                Some(m) => match m.checked_add(d) {
                    Some(sum) => {
                        magnitude = sum;
                    },
                    None => {
                        overflow = true;
                    },
                },
                None => {
                    overflow = true;
                },
            }
        }
        k += 1;
    }
    assert(all_digits(s, from as int));
    if overflow {
        return None;
    }
    if negative {
        if magnitude <= i128::MAX as u128 {
            Some(-(magnitude as i128))
        } else if magnitude == i128::MAX as u128 + 1 {
            Some(i128::MIN)
        } else {
            None
        }
    } else {
        if magnitude <= i128::MAX as u128 {
            Some(magnitude as i128)
        } else {
            None
        }
    }
}

} // verus!
