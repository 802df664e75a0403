//! Parsing integers and booleans from text, as `str::parse` does for the
//! integer types and `bool`.
use vstd::prelude::*;

verus! {

/// Why a text is not an integer of the asked-for type.
#[derive(Debug, Clone, Copy, PartialEq, Eq, Structural)]
pub enum IntErrorKind {
    /// The text is empty.
    Empty,
    /// The text holds a character that is not a digit where one is needed.
    InvalidDigit,
    /// The number is larger than the type holds.
    PosOverflow,
    /// The number is smaller than the type holds.
    NegOverflow,
}

/// The value of the ASCII digit `c`.
pub open spec fn digit_value(c: u8) -> int {
    c - 48
}

/// Whether `c` is an ASCII digit.
pub open spec fn is_digit(c: u8) -> bool {
    48 <= c <= 57
}

/// Reads the digits `d` onto `acc` from the first on: each digit must be
/// one, and each step's value must stay within `min..=max`, else the first
/// failure is the result.
pub open spec fn scan_digits(d: Seq<u8>, negative: bool, min: int, max: int, acc: int) -> Result<int, IntErrorKind>
    decreases d.len(),
{
    if d.len() == 0 {
        Ok(acc)
    } else if !is_digit(d[0]) {
        Err(IntErrorKind::InvalidDigit)
    } else {
        let next = if negative { acc * 10 - digit_value(d[0]) } else { acc * 10 + digit_value(d[0]) };
        if negative && next < min {
            Err(IntErrorKind::NegOverflow)
        } else if !negative && next > max {
            Err(IntErrorKind::PosOverflow)
        } else {
            scan_digits(d.skip(1), negative, min, max, next)
        }
    }
}

/// The integer in `min..=max` that the text `b` denotes in decimal: an
/// optional sign (`-` only where `min` is negative), then digits.
pub open spec fn parse_int_spec(b: Seq<u8>, min: int, max: int) -> Result<int, IntErrorKind> {
    if b.len() == 0 {
        Err(IntErrorKind::Empty)
    } else if (b[0] == 43u8 || b[0] == 45u8) && b.len() == 1 {
        Err(IntErrorKind::InvalidDigit)
    } else if b[0] == 43u8 {
        scan_digits(b.skip(1), false, min, max, 0)
    } else if b[0] == 45u8 && min < 0 {
        scan_digits(b.skip(1), true, min, max, 0)
    } else {
        scan_digits(b, false, min, max, 0)
    }
}

/// Parses the decimal integer in `b`, which must lie in `min..=max`.
pub fn parse_int(b: &[u8], min: i128, max: i128) -> (r: Result<i128, IntErrorKind>)
    requires
        -18446744073709551616 <= min <= 0 <= max <= 18446744073709551615,
    ensures
        match parse_int_spec(b@, min as int, max as int) {
            Ok(v) => r is Ok && r->Ok_0 as int == v,
            Err(e) => r == Err::<i128, IntErrorKind>(e),
        },
        r matches Ok(v) ==> min <= v <= max,
{
    if b.len() == 0 {
        return Err(IntErrorKind::Empty);
    }
    if (b[0] == 43u8 || b[0] == 45u8) && b.len() == 1 {
        return Err(IntErrorKind::InvalidDigit);
    }
    let (negative, start): (bool, usize) = if b[0] == 43u8 {
        (false, 1)
    } else if b[0] == 45u8 && min < 0 {
        (true, 1)
    } else {
        (false, 0)
    };
    let ghost whole = parse_int_spec(b@, min as int, max as int);
    proof {
        assert(b@.skip(0) =~= b@);
        assert(whole == scan_digits(b@.skip(start as int), negative, min as int, max as int, 0));
    }
    let mut acc: i128 = 0;
    let mut i: usize = start;
    while i < b.len()
        invariant
            start <= i <= b@.len(),
            -18446744073709551616 <= min <= 0 <= max <= 18446744073709551615,
            min <= acc <= max,
            negative ==> acc <= 0,
            !negative ==> acc >= 0,
            whole == parse_int_spec(b@, min as int, max as int),
            whole == scan_digits(b@.skip(i as int), negative, min as int, max as int, acc as int),
        decreases b@.len() - i,
    {
        let c = b[i];
        proof {
            assert(b@.skip(i as int)[0] == c);
            assert(b@.skip(i as int).skip(1) =~= b@.skip(i + 1));
        }
        if !(48u8 <= c && c <= 57u8) {
            return Err(IntErrorKind::InvalidDigit);
        }
        let digit = (c - 48u8) as i128;
        let next = if negative { acc * 10 - digit } else { acc * 10 + digit };
        if negative && next < min {
            return Err(IntErrorKind::NegOverflow);
        }
        if !negative && next > max {
            return Err(IntErrorKind::PosOverflow);
        }
        acc = next;
        i = i + 1;
    }
    proof {
        assert(b@.skip(i as int).len() == 0);
    }
    Ok(acc)
}

/// The boolean that `b` spells: exactly `true` or `false`.
pub open spec fn parse_bool_spec(b: Seq<u8>) -> Option<bool> {
    if b == seq![116u8, 114u8, 117u8, 101u8] {
        Some(true)
    } else if b == seq![102u8, 97u8, 108u8, 115u8, 101u8] {
        Some(false)
    } else {
        None
    }
}

/// Parses `true` or `false`.
pub fn parse_bool(b: &[u8]) -> (r: Option<bool>)
    ensures
        r == parse_bool_spec(b@),
{
    if b.len() == 4 && b[0] == 116u8 && b[1] == 114u8 && b[2] == 117u8 && b[3] == 101u8 {
        assert(b@ =~= seq![116u8, 114u8, 117u8, 101u8]);
        Some(true)
    } else if b.len() == 5 && b[0] == 102u8 && b[1] == 97u8 && b[2] == 108u8 && b[3] == 115u8 && b[4] == 101u8 {
        assert(b@ =~= seq![102u8, 97u8, 108u8, 115u8, 101u8]);
        Some(false)
    } else {
        proof {
            if b@ == seq![116u8, 114u8, 117u8, 101u8] {
                assert(b@.len() == 4 && b@[0] == 116u8 && b@[1] == 114u8 && b@[2] == 117u8 && b@[3] == 101u8);
            }
            if b@ == seq![102u8, 97u8, 108u8, 115u8, 101u8] {
                assert(b@.len() == 5 && b@[0] == 102u8 && b@[1] == 97u8);
                assert(b@[2] == 108u8 && b@[3] == 115u8 && b@[4] == 101u8);
            }
        }
        None
    }
}

/// Whether two byte strings are equal.
pub fn bytes_eq(a: &[u8], b: &[u8]) -> (r: bool)
    ensures
        r == (a@ == b@),
{
    if a.len() != b.len() {
        return false;
    }
    let mut i: usize = 0;
    while i < a.len()
        invariant
            a@.len() == b@.len(),
            i <= a@.len(),
            forall|j: int| 0 <= j < i ==> a@[j] == b@[j],
        decreases a@.len() - i,
    {
        if a[i] != b[i] {
            return false;
        }
        i = i + 1;
    }
    assert(a@ =~= b@);
    true
}

} // verus!
