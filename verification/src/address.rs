//! Reading numbers from text: memory addresses in hexadecimal notation and
//! line numbers in decimal notation.

use vstd::prelude::*;
use vstd::string::StrSliceExecFns;

verus! {

/// The value of a hexadecimal digit, of either case.
pub open spec fn hex_digit(c: char) -> Option<nat> {
    let n = c as u32;
    if 48 <= n <= 57 {
        Some((n - 48) as nat)
    } else if 97 <= n <= 102 {
        Some((n - 87) as nat)
    } else if 65 <= n <= 70 {
        Some((n - 55) as nat)
    } else {
        None
    }
}

/// The value of a digit in the given radix, if `c` is one.
pub open spec fn digit_in(c: char, radix: nat) -> Option<nat> {
    match hex_digit(c) {
        Some(d) => if d < radix {
            Some(d)
        } else {
            None
        },
        None => None,
    }
}

/// Every character is a digit in the given radix.
pub open spec fn all_digits(s: Seq<char>, radix: nat) -> bool {
    forall|i: int| 0 <= i < s.len() ==> (#[trigger] digit_in(s[i], radix)).is_some()
}

/// The number that a run of digits writes in the given radix.
pub open spec fn value_in(s: Seq<char>, radix: nat) -> nat
    decreases s.len(),
{
    if s.len() == 0 {
        0
    } else {
        value_in(s.drop_last(), radix) * radix + match digit_in(s.last(), radix) {
            Some(d) => d,
            None => 0,
        }
    }
}

/// What is left of a notation without one leading plus sign.
pub open spec fn unsigned(s: Seq<char>) -> Seq<char> {
    if s.len() > 0 && s[0] == '+' {
        s.skip(1)
    } else {
        s
    }
}

/// The number that a notation stands for in the given radix: there is one
/// if and only if, behind at most one plus sign, it has at least one digit,
/// only digits, and a value that a machine word can hold.
pub open spec fn number_in(s: Seq<char>, radix: nat) -> Option<usize> {
    let digits = unsigned(s);
    if digits.len() > 0 && all_digits(digits, radix) && value_in(digits, radix) <= usize::MAX {
        Some(value_in(digits, radix) as usize)
    } else {
        None
    }
}

/// The notation starts with `0x`, in either case.
pub open spec fn has_hex_prefix(s: Seq<char>) -> bool {
    s.len() >= 2 && s[0] == '0' && (s[1] == 'x' || s[1] == 'X')
}

/// The address that a notation stands for: the hexadecimal number behind a
/// leading `0x`, if there is one.
pub open spec fn address_of(s: Seq<char>) -> Option<usize> {
    if has_hex_prefix(s) {
        number_in(s.skip(2), 16)
    } else {
        number_in(s, 16)
    }
}

/// More digits never write a smaller number.
proof fn lemma_prefix_value(s: Seq<char>, k: int, radix: nat)
    requires
        0 <= k <= s.len(),
        radix >= 1,
    ensures
        value_in(s.take(k), radix) <= value_in(s, radix),
    decreases s.len() - k,
{
    if k < s.len() {
        lemma_prefix_value(s, k + 1, radix);
        assert(s.take(k + 1).drop_last() =~= s.take(k));
        let shorter = value_in(s.take(k), radix);
        assert(shorter <= shorter * radix) by (nonlinear_arith)
            requires
                radix >= 1,
        ;
    } else {
        assert(s.take(k) =~= s);
    }
}

/// The value of one digit, if `c` is one in the radix: sixteen if
/// `hexadecimal`, else ten.
fn digit_value(c: char, hexadecimal: bool) -> (value: Option<usize>)
    ensures
        value.is_some() == digit_in(c, if hexadecimal { 16nat } else { 10nat }).is_some(),
        value.is_some() ==> value.unwrap() == digit_in(
            c,
            if hexadecimal { 16nat } else { 10nat },
        ).unwrap() && value.unwrap() < 16,
{
    let n: u32 = c as u32;
    if 48 <= n && n <= 57 {
        Some((n - 48) as usize)
    } else if hexadecimal && 97 <= n && n <= 102 {
        Some((n - 87) as usize)
    } else if hexadecimal && 65 <= n && n <= 70 {
        Some((n - 55) as usize)
    } else {
        None
    }
}

/// Reads the number written by the characters of `text` from `start` on.
fn parse_from(text: &str, start: usize, hexadecimal: bool) -> (number: Option<usize>)
    requires
        start <= text@.len(),
    ensures
        number == number_in(text@.skip(start as int), if hexadecimal { 16nat } else { 10nat }),
{
    let ghost radix = if hexadecimal { 16nat } else { 10nat };
    let length: usize = text.unicode_len();
    let mut first: usize = start;
    if first < length && text.get_char(first) == '+' {
        first += 1;
    }
    let ghost digits = unsigned(text@.skip(start as int));
    assert(digits =~= text@.skip(first as int));
    if first == length {
        return None;
    }
    let mut value: usize = 0;
    let mut i: usize = first;
    while i < length
        invariant
            first <= i <= length,
            length == text@.len(),
            radix == if hexadecimal { 16nat } else { 10nat },
            digits == text@.skip(first as int),
            digits == unsigned(text@.skip(start as int)),
            value == value_in(digits.take(i - first), radix),
            forall|k: int| 0 <= k < i - first ==> (#[trigger] digit_in(digits[k], radix)).is_some(),
        decreases length - i,
    {
        let c = text.get_char(i);
        let ghost longer = digits.take(i - first + 1);
        assert(digits[i - first] == c);
        assert(longer.drop_last() =~= digits.take(i - first));
        assert(longer.last() == c);
        match digit_value(c, hexadecimal) {
            None => {
                assert(digit_in(digits[i - first], radix).is_none());
                return None;
            },
            Some(d) => {
                proof {
                    lemma_prefix_value(digits, i - first + 1, radix);
                }
                if hexadecimal {
                    assert(value_in(longer, radix) == value * 16 + d);
                    if value > (usize::MAX - d) / 16 {
                        return None;
                    }
                    value = value * 16 + d;
                } else {
                    assert(value_in(longer, radix) == value * 10 + d);
                    if value > (usize::MAX - d) / 10 {
                        return None;
                    }
                    value = value * 10 + d;
                }
            },
        }
        i += 1;
    }
    assert(digits.take(i - first) =~= digits);
    Some(value)
}

/// Reads an address in hexadecimal notation, with or without a leading
/// `0x`.
pub fn parse_address(addr: &str) -> (address: Option<usize>)
    ensures
        address == address_of(addr@),
{
    let length: usize = addr.unicode_len();
    let mut start: usize = 0;
    if length >= 2 && addr.get_char(0) == '0' {
        let second = addr.get_char(1);
        if second == 'x' || second == 'X' {
            start = 2;
        }
    }
    assert(start == 0 ==> addr@.skip(0) =~= addr@);
    parse_from(addr, start, true)
}

/// Reads a number in decimal notation, such as a line number.
pub fn parse_decimal(text: &str) -> (number: Option<usize>)
    ensures
        number == number_in(text@, 10),
{
    assert(text@.skip(0) =~= text@);
    parse_from(text, 0, false)
}

} // verus!
