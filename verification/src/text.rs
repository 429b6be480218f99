//! Textual form of fixed-point amounts for the final report: the whole part
//! in decimal and the fractional digits with trailing zeros omitted, so every
//! amount is rendered at its natural precision.

use vstd::prelude::*;
use crate::client::Amount;

verus! {

/// The ASCII digit for one decimal digit value.
pub open spec fn digit_byte(d: int) -> u8 {
    (48 + d) as u8
}

/// The decimal digits of `n`, most significant first, without leading zeros
/// (a single zero digit for zero).
pub open spec fn spec_digits(n: nat) -> Seq<u8>
    decreases n,
{
    if n < 10 {
        seq![digit_byte(n as int)]
    } else {
        spec_digits(n / 10).push(digit_byte((n % 10) as int))
    }
}

/// The last `width` decimal digits of `n`, most significant first, with
/// leading zeros kept.
pub open spec fn spec_fixed_digits(n: nat, width: nat) -> Seq<u8>
    decreases width,
{
    if width == 0 {
        Seq::empty()
    } else {
        spec_fixed_digits(n / 10, (width - 1) as nat).push(digit_byte((n % 10) as int))
    }
}

/// A `width`-digit fraction with its trailing zeros omitted.
pub open spec fn spec_fraction_digits(frac: nat, width: nat) -> Seq<u8>
    decreases width,
{
    if width == 0 {
        Seq::empty()
    } else if frac % 10 == 0 {
        spec_fraction_digits(frac / 10, (width - 1) as nat)
    } else {
        spec_fixed_digits(frac, width)
    }
}

/// The text of a non-negative count of ten-thousandths: the whole part, then,
/// unless the fraction is zero, a point and the fractional digits with
/// trailing zeros omitted.
pub open spec fn spec_magnitude_text(m: nat) -> Seq<u8> {
    if m % 10000 == 0 {
        spec_digits(m / 10000)
    } else {
        spec_digits(m / 10000) + seq![46u8] + spec_fraction_digits(m % 10000, 4)
    }
}

/// The text of an amount: a minus sign for negative values, then the
/// magnitude.
pub open spec fn spec_amount_text(units: int) -> Seq<u8> {
    if units < 0 {
        seq![45u8] + spec_magnitude_text((-units) as nat)
    } else {
        spec_magnitude_text(units as nat)
    }
}

/// The same text viewed as the characters of a string.
pub open spec fn spec_amount_chars(units: int) -> Seq<char> {
    spec_amount_text(units).map_values(|b: u8| b as char)
}

/// Every byte of `spec_digits` is an ASCII digit.
proof fn lemma_digits_ascii(n: nat)
    ensures
        forall|i: int| 0 <= i < spec_digits(n).len() ==> 48 <= #[trigger] spec_digits(n)[i] <= 57,
    decreases n,
{
    if n >= 10 {
        lemma_digits_ascii(n / 10);
        assert forall|i: int| 0 <= i < spec_digits(n).len() implies 48 <= #[trigger] spec_digits(
            n,
        )[i] <= 57 by {
            if i < spec_digits(n / 10).len() {
                assert(spec_digits(n)[i] == spec_digits(n / 10)[i]);
            }
        }
    }
}

/// Every byte of `spec_fixed_digits` is an ASCII digit.
proof fn lemma_fixed_digits_ascii(n: nat, width: nat)
    ensures
        forall|i: int|
            0 <= i < spec_fixed_digits(n, width).len() ==> 48 <= #[trigger] spec_fixed_digits(
                n,
                width,
            )[i] <= 57,
    decreases width,
{
    if width > 0 {
        lemma_fixed_digits_ascii(n / 10, (width - 1) as nat);
        assert forall|i: int|
            0 <= i < spec_fixed_digits(n, width).len() implies 48 <= #[trigger] spec_fixed_digits(
            n,
            width,
        )[i] <= 57 by {
            if i < spec_fixed_digits(n / 10, (width - 1) as nat).len() {
                assert(spec_fixed_digits(n, width)[i] == spec_fixed_digits(
                    n / 10,
                    (width - 1) as nat,
                )[i]);
            }
        }
    }
}

/// Every byte of `spec_fraction_digits` is an ASCII digit.
proof fn lemma_fraction_digits_ascii(frac: nat, width: nat)
    ensures
        forall|i: int|
            0 <= i < spec_fraction_digits(frac, width).len() ==> 48
                <= #[trigger] spec_fraction_digits(frac, width)[i] <= 57,
    decreases width,
{
    if width > 0 {
        if frac % 10 == 0 {
            lemma_fraction_digits_ascii(frac / 10, (width - 1) as nat);
            assert forall|i: int|
                0 <= i < spec_fraction_digits(frac, width).len() implies 48
                <= #[trigger] spec_fraction_digits(frac, width)[i] <= 57 by {
                assert(spec_fraction_digits(frac, width)[i] == spec_fraction_digits(
                    frac / 10,
                    (width - 1) as nat,
                )[i]);
            }
        } else {
            lemma_fixed_digits_ascii(frac, width);
        }
    }
}

/// Every byte of an amount's text is printable ASCII: a digit, the minus
/// sign, or the decimal point.
proof fn lemma_amount_text_ascii(units: int)
    ensures
        forall|i: int|
            0 <= i < spec_amount_text(units).len() ==> #[trigger] spec_amount_text(units)[i] < 128,
{
    let m: nat = if units < 0 {
        (-units) as nat
    } else {
        units as nat
    };
    lemma_digits_ascii(m / 10000);
    lemma_fraction_digits_ascii(m % 10000, 4);
}

/// Append the decimal digits of `n`, most significant first.
fn push_digits(out: &mut Vec<u8>, n: u64)
    ensures
        final(out)@ == old(out)@ + spec_digits(n as nat),
    decreases n,
{
    if n < 10 {
        out.push(48 + n as u8);
        proof {
            assert(out@ =~= old(out)@ + spec_digits(n as nat));
        }
    } else {
        push_digits(out, n / 10);
        out.push(48 + (n % 10) as u8);
        proof {
            assert(out@ =~= old(out)@ + spec_digits(n as nat));
        }
    }
}

/// Append the last `width` decimal digits of `n`, leading zeros kept.
fn push_fixed_digits(out: &mut Vec<u8>, n: u64, width: u64)
    ensures
        final(out)@ == old(out)@ + spec_fixed_digits(n as nat, width as nat),
    decreases width,
{
    if width > 0 {
        push_fixed_digits(out, n / 10, width - 1);
        out.push(48 + (n % 10) as u8);
    }
    proof {
        assert(out@ =~= old(out)@ + spec_fixed_digits(n as nat, width as nat));
    }
}

/// The bytes of an amount's text.
pub fn amount_bytes(units: Amount) -> (r: Vec<u8>)
    ensures
        r@ == spec_amount_text(units as int),
{
    let mut out: Vec<u8> = Vec::new();
    let mag: u64;
    if units < 0 {
        out.push(45);
        proof {
            assert(0 < -(units as int) <= u64::MAX);
        }
        mag = (-(units as i128)) as u64;
    } else {
        mag = units as u64;
    }
    let whole = mag / 10000;
    let frac = mag % 10000;
    push_digits(&mut out, whole);
    if frac > 0 {
        out.push(46);
        let mut f = frac;
        let mut width: u64 = 4;
        while f % 10 == 0
            invariant
                0 < f <= 9999,
                1 <= width <= 4,
                width <= 3 ==> f <= 999,
                width <= 2 ==> f <= 99,
                width <= 1 ==> f <= 9,
                spec_fraction_digits(f as nat, width as nat) == spec_fraction_digits(
                    frac as nat,
                    4,
                ),
            decreases width,
        {
            f = f / 10;
            width = width - 1;
        }
        push_fixed_digits(&mut out, f, width);
    }
    proof {
        assert(out@ =~= spec_amount_text(units as int));
    }
    out
}

/// Relies on `String::from_utf8`: bytes that are all ASCII are valid UTF-8
/// and decode to exactly the characters with those code points.
#[verifier::external_body]
fn ascii_string(bytes: Vec<u8>) -> (s: String)
    requires
        forall|i: int| 0 <= i < bytes@.len() ==> bytes@[i] < 128,
    ensures
        s@ == bytes@.map_values(|b: u8| b as char),
{
    String::from_utf8(bytes).unwrap_or_default()
}

/// The textual form of an amount: a minus sign if it is negative, the whole
/// part in decimal, and, when the fraction is nonzero, a point followed by
/// the fractional digits with trailing zeros omitted.
pub fn amount_text(units: Amount) -> (s: String)
    ensures
        s@ == spec_amount_chars(units as int),
{
    let bytes = amount_bytes(units);
    proof {
        lemma_amount_text_ascii(units as int);
    }
    ascii_string(bytes)
}

} // verus!
