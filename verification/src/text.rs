//! Decimal text: integers, zero-padded integers and ratios with two decimals,
//! each defined as a sequence of characters and appended to a `String`.

use vstd::prelude::*;

verus! {

/// The character of the decimal digit `d` (`'0'` for anything above nine).
pub open spec fn digit(d: nat) -> char {
    if d == 1 {
        '1'
    } else if d == 2 {
        '2'
    } else if d == 3 {
        '3'
    } else if d == 4 {
        '4'
    } else if d == 5 {
        '5'
    } else if d == 6 {
        '6'
    } else if d == 7 {
        '7'
    } else if d == 8 {
        '8'
    } else if d == 9 {
        '9'
    } else {
        '0'
    }
}

/// `n` in decimal, without leading zeros (`"0"` for zero).
pub open spec fn decimal(n: nat) -> Seq<char>
    decreases n,
{
    if n < 10 {
        seq![digit(n)]
    } else {
        decimal(n / 10).push(digit(n % 10))
    }
}

/// The last `width` decimal digits of `n`, zeros included: `n` padded with
/// zeros on the left when it has fewer digits than `width`.
pub open spec fn padded(n: nat, width: nat) -> Seq<char>
    decreases width,
{
    if width == 0 {
        Seq::empty()
    } else {
        padded(n / 10, (width - 1) as nat).push(digit(n % 10))
    }
}

/// `num / den` rounded to the nearest integer; a quotient that lies exactly
/// half way goes to the even neighbour.
pub open spec fn rounded_div(num: nat, den: nat) -> nat
    recommends
        den > 0,
{
    let q = num / den;
    let r = num % den;
    if 2 * r < den {
        q
    } else if 2 * r > den {
        q + 1
    } else if q % 2 == 0 {
        q
    } else {
        q + 1
    }
}

/// `num / den` with two decimals: the quotient in hundredths, rounded by
/// `rounded_div`, written as integer part, a point, and two digits.
pub open spec fn ratio(num: nat, den: nat) -> Seq<char>
    recommends
        den > 0,
{
    let h = rounded_div(100 * num, den);
    decimal(h / 100) + seq!['.'] + padded(h % 100, 2)
}

/// Appends one decimal digit.
pub fn push_digit(s: &mut String, d: u8)
    requires
        d < 10,
    ensures
        final(s)@ == old(s)@.push(digit(d as nat)),
{
    proof {
        reveal_strlit("0");
        reveal_strlit("1");
        reveal_strlit("2");
        reveal_strlit("3");
        reveal_strlit("4");
        reveal_strlit("5");
        reveal_strlit("6");
        reveal_strlit("7");
        reveal_strlit("8");
        reveal_strlit("9");
    }
    let text = if d == 0 {
        "0"
    } else if d == 1 {
        "1"
    } else if d == 2 {
        "2"
    } else if d == 3 {
        "3"
    } else if d == 4 {
        "4"
    } else if d == 5 {
        "5"
    } else if d == 6 {
        "6"
    } else if d == 7 {
        "7"
    } else if d == 8 {
        "8"
    } else {
        "9"
    };
    assert(text@ =~= seq![digit(d as nat)]);
    s.append(text);
    assert(s@ =~= old(s)@.push(digit(d as nat)));
}

/// Appends `n` in decimal.
pub fn push_decimal(s: &mut String, n: u128)
    ensures
        final(s)@ == old(s)@ + decimal(n as nat),
    decreases n,
{
    if n >= 10 {
        push_decimal(s, n / 10);
    }
    push_digit(s, (n % 10) as u8);
    assert(s@ =~= old(s)@ + decimal(n as nat));
}

/// Appends the last `width` decimal digits of `n`.
pub fn push_padded(s: &mut String, n: u128, width: u8)
    ensures
        final(s)@ == old(s)@ + padded(n as nat, width as nat),
    decreases width,
{
    if width > 0 {
        push_padded(s, n / 10, width - 1);
        push_digit(s, (n % 10) as u8);
    }
    assert(s@ =~= old(s)@ + padded(n as nat, width as nat));
}

/// `num / den` to the nearest integer, ties to even.
pub fn div_rounded(num: u128, den: u128) -> (r: u128)
    requires
        den > 0,
    ensures
        r == rounded_div(num as nat, den as nat),
{
    let q: u128 = num / den;
    let r: u128 = num % den;
    if r == 0 {
        return q;
    }
    // A remainder means that `den` is at least 2, so `q + 1` fits.
    assert(q < u128::MAX) by (nonlinear_arith)
        requires
            q == num / den,
            den >= 2,
            num <= u128::MAX,
    ;
    // `2 * r` against `den` without leaving the type: `r < den`.
    let rest: u128 = den - r;
    if r < rest {
        q
    } else if r > rest {
        q + 1
    } else if q % 2 == 0 {
        q
    } else {
        q + 1
    }
}

/// Appends `num / den` with two decimals.
pub fn push_ratio(s: &mut String, num: u128, den: u128)
    requires
        den > 0,
        100 * num <= u128::MAX,
    ensures
        final(s)@ == old(s)@ + ratio(num as nat, den as nat),
{
    let h: u128 = div_rounded(100 * num, den);
    push_decimal(s, h / 100);
    s.append(".");
    push_padded(s, h % 100, 2);
    proof {
        reveal_strlit(".");
        assert("."@ =~= seq!['.']);
        assert(s@ =~= old(s)@ + ratio(num as nat, den as nat));
    }
}

} // verus!
