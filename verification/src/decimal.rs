//! Numbers written out in decimal digits.

use crate::fixed::{magnitude, Fixed};
use vstd::prelude::*;
use vstd::string::StringExecFns;

verus! {

/// The character of the decimal digit `d`.
pub open spec fn digit_char(d: int) -> char {
    if d == 0 {
        '0'
    } else if d == 1 {
        '1'
    } else if d == 2 {
        '2'
    } else if d == 3 {
        '3'
    } else if d == 4 {
        '4'
    } else if d == 5 {
        '5'
    } else if d == 6 {
        '6'
    } else if d == 7 {
        '7'
    } else if d == 8 {
        '8'
    } else {
        '9'
    }
}

/// The decimal digits of `n`, without leading zeros; one zero for zero.
pub open spec fn digits(n: nat) -> Seq<char>
    decreases n,
{
    if n < 10 {
        seq![digit_char(n as int)]
    } else {
        digits(n / 10).push(digit_char((n % 10) as int))
    }
}

/// The last `width` decimal digits of `n`, with leading zeros.
pub open spec fn padded_digits(n: nat, width: nat) -> Seq<char>
    decreases width,
{
    if width == 0 {
        Seq::empty()
    } else {
        padded_digits(n / 10, (width - 1) as nat).push(digit_char((n % 10) as int))
    }
}

/// Ten to the power `k`.
pub open spec fn power_of_ten(k: nat) -> nat
    decreases k,
{
    if k == 0 {
        1
    } else {
        10 * power_of_ten((k - 1) as nat)
    }
}

/// The quotient `n / d` rounded to the nearest integer, ties to the even
/// one. Meaningful for `d > 0`.
pub open spec fn round_half_even(n: nat, d: nat) -> nat {
    let q = n / d;
    let r = n % d;
    if 2 * r > d || (2 * r == d && q % 2 == 1) {
        q + 1
    } else {
        q
    }
}

/// The value `v` written with `places` digits after the point (at most
/// nine), rounded to the nearest such number, ties to the even one. A
/// negative value keeps its sign even where it rounds to zero.
pub open spec fn decimal(v: Fixed, places: nat) -> Seq<char> {
    let unit = power_of_ten((9 - places) as nat);
    let scaled = round_half_even(vstd::math::abs(v@) as nat, unit);
    let whole = scaled / power_of_ten(places);
    let part = scaled % power_of_ten(places);
    let sign = if v@ < 0 {
        seq!['-']
    } else {
        Seq::<char>::empty()
    };
    if places == 0 {
        sign + digits(whole)
    } else {
        sign + digits(whole) + seq!['.'] + padded_digits(part, places)
    }
}

/// The text of one decimal digit.
fn digit(d: u8) -> (r: &'static str)
    requires
        d < 10,
    ensures
        r@ == seq![digit_char(d as int)],
{
    proof {
        reveal_strlit("0");
        reveal_strlit("1");
        reveal_strlit("2");
        reveal_strlit("3");
        reveal_strlit("4");
        reveal_strlit("5");
        reveal_strlit("6");
        reveal_strlit("7");
        reveal_strlit("8");
        reveal_strlit("9");
    }
    let r = if d == 0 {
        "0"
    } else if d == 1 {
        "1"
    } else if d == 2 {
        "2"
    } else if d == 3 {
        "3"
    } else if d == 4 {
        "4"
    } else if d == 5 {
        "5"
    } else if d == 6 {
        "6"
    } else if d == 7 {
        "7"
    } else if d == 8 {
        "8"
    } else {
        "9"
    };
    assert(r@ =~= seq![digit_char(d as int)]);
    r
}

/// Appends the decimal digits of `n` to `out`.
pub fn push_digits(out: &mut String, n: u64)
    ensures
        final(out)@ == old(out)@ + digits(n as nat),
    decreases n,
{
    if n >= 10 {
        push_digits(out, n / 10);
    }
    out.append(digit((n % 10) as u8));
    assert(out@ =~= old(out)@ + digits(n as nat));
}

/// Appends the last `width` decimal digits of `n` to `out`, with leading
/// zeros.
pub fn push_padded_digits(out: &mut String, n: u64, width: u8)
    ensures
        final(out)@ == old(out)@ + padded_digits(n as nat, width as nat),
    decreases width,
{
    if width > 0 {
        push_padded_digits(out, n / 10, width - 1);
        out.append(digit((n % 10) as u8));
    }
    assert(out@ =~= old(out)@ + padded_digits(n as nat, width as nat));
}

/// Ten to the power `k`, for `k` up to nine.
pub fn ten_to(k: u8) -> (r: u64)
    requires
        k <= 9,
    ensures
        r == power_of_ten(k as nat),
        1 <= r <= 1_000_000_000,
{
    let mut r: u64 = 1;
    let mut i: u8 = 0;
    while i < k
        invariant
            i <= k <= 9,
            r == power_of_ten(i as nat),
            1 <= r,
            i == 0 ==> r == 1,
            i == 1 ==> r == 10,
            i == 2 ==> r == 100,
            i == 3 ==> r == 1_000,
            i == 4 ==> r == 10_000,
            i == 5 ==> r == 100_000,
            i == 6 ==> r == 1_000_000,
            i == 7 ==> r == 10_000_000,
            i == 8 ==> r == 100_000_000,
            i == 9 ==> r == 1_000_000_000,
        decreases k - i,
    {
        r = r * 10;
        i += 1;
    }
    r
}

/// Writes `v` with `places` digits after the point, rounded to the
/// nearest such number, ties to the even one.
pub fn to_decimal(v: Fixed, places: u8) -> (r: String)
    requires
        places <= 9,
    ensures
        r@ == decimal(v, places as nat),
{
    let unit: u64 = ten_to(9 - places);
    let size: u64 = magnitude(v) as u64;
    let q = size / unit;
    let rest = size % unit;
    let scaled: u64 = if 2 * rest > unit || (2 * rest == unit && q % 2 == 1) {
        q + 1
    } else {
        q
    };
    let base = ten_to(places);
    let mut r = String::new();
    if v.raw < 0 {
        proof {
            reveal_strlit("-");
        }
        r.append("-");
        assert(r@ =~= seq!['-']);
    }
    push_digits(&mut r, scaled / base);
    if places > 0 {
        proof {
            reveal_strlit(".");
        }
        let ghost before = r@;
        r.append(".");
        assert(r@ =~= before + seq!['.']);
        push_padded_digits(&mut r, scaled % base, places);
    }
    assert(r@ =~= decimal(v, places as nat));
    r
}

/// The whole number `n` in decimal digits, with a minus sign where it is
/// negative.
pub open spec fn integer(n: int) -> Seq<char> {
    if n < 0 {
        seq!['-'] + digits((-n) as nat)
    } else {
        digits(n as nat)
    }
}

/// Writes a whole number in decimal digits.
pub fn integer_text(n: i32) -> (r: String)
    ensures
        r@ == integer(n as int),
{
    let mut r = String::new();
    if n < 0 {
        proof {
            reveal_strlit("-");
        }
        r.append("-");
        assert(r@ =~= seq!['-']);
        push_digits(&mut r, (-(n as i64)) as u64);
    } else {
        push_digits(&mut r, n as u64);
        assert(r@ =~= digits(n as nat));
    }
    r
}

} // verus!
