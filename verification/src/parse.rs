//! Parsing of amount fields: the text of a non-negative fixed-point number
//! is turned into its count of ten-thousandths, the representation every
//! balance uses.

use vstd::prelude::*;
use crate::client::Amount;

verus! {

/// Whether `b` is an ASCII decimal digit.
pub open spec fn is_digit(b: u8) -> bool {
    48 <= b <= 57
}

/// The value of one ASCII decimal digit.
pub open spec fn digit_value(b: u8) -> int {
    b - 48
}

/// The number a string of decimal digits denotes, most significant first.
pub open spec fn digits_value(s: Seq<u8>) -> int
    decreases s.len(),
{
    if s.len() == 0 {
        0
    } else {
        digits_value(s.drop_last()) * 10 + digit_value(s.last())
    }
}

/// Whether every byte of `s` is an ASCII decimal digit.
pub open spec fn all_digits(s: Seq<u8>) -> bool {
    forall|i: int| 0 <= i < s.len() ==> is_digit(#[trigger] s[i])
}

/// Whether `p` splits `s` into a whole part, a decimal point and a fraction:
/// at least one digit on each side of a point at `p`, and nothing but zeros
/// past the fourth fractional place, which lies below the resolution of the
/// representation.
pub open spec fn point_split_at(s: Seq<u8>, p: int) -> bool {
    &&& 1 <= p
    &&& p + 1 < s.len()
    &&& s[p] == 46
    &&& all_digits(s.take(p))
    &&& all_digits(s.skip(p + 1))
    &&& forall|j: int| p + 5 <= j < s.len() ==> #[trigger] s[j] == 48
}

/// The texts the amount grammar accepts: one or more digits, optionally
/// followed by a decimal point and at least one fractional digit, where any
/// digit past the fourth fractional place must be a zero.
pub open spec fn valid_amount(s: Seq<u8>) -> bool {
    ||| (s.len() >= 1 && all_digits(s))
    ||| (exists|p: int| point_split_at(s, p))
}

/// The fraction digits padded with zeros, or cut, to exactly four places.
pub open spec fn four_places(f: Seq<u8>) -> Seq<u8> {
    if f.len() >= 4 {
        f.take(4)
    } else {
        f + Seq::new((4 - f.len()) as nat, |i: int| 48u8)
    }
}

/// The count of ten-thousandths a valid amount text denotes.
pub open spec fn amount_value(s: Seq<u8>) -> int {
    if all_digits(s) {
        digits_value(s) * 10000
    } else {
        let p = choose|p: int| point_split_at(s, p);
        digits_value(s.take(p)) * 10000 + digits_value(four_places(s.skip(p + 1)))
    }
}

/// A string of digits denotes a non-negative number.
proof fn lemma_digits_value_nonneg(s: Seq<u8>)
    requires
        all_digits(s),
    ensures
        digits_value(s) >= 0,
    decreases s.len(),
{
    if s.len() > 0 {
        assert forall|i: int| 0 <= i < s.drop_last().len() implies is_digit(
            #[trigger] s.drop_last()[i],
        ) by {
            assert(s.drop_last()[i] == s[i]);
        }
        lemma_digits_value_nonneg(s.drop_last());
    }
}

/// At most one position of `s` can split it into whole part, point and
/// fraction: every byte around another candidate point is a digit.
proof fn lemma_point_split_unique(s: Seq<u8>, p1: int, p2: int)
    requires
        point_split_at(s, p1),
        point_split_at(s, p2),
    ensures
        p1 == p2,
{
    if p1 < p2 {
        assert(s.skip(p1 + 1)[p2 - p1 - 1] == s[p2]);
    }
    if p2 < p1 {
        assert(s.skip(p2 + 1)[p1 - p2 - 1] == s[p1]);
    }
}

/// Appending a zero digit multiplies a digit string's value by ten.
proof fn lemma_digits_value_push_zero(s: Seq<u8>)
    ensures
        digits_value(s.push(48)) == digits_value(s) * 10,
{
    assert(s.push(48).drop_last() =~= s);
    assert(s.push(48).last() == 48);
}

/// Parse the text of a non-negative amount into its count of
/// ten-thousandths. Returns nothing exactly when the text is not of the
/// grammar, or its value outgrows the representation.
pub fn parse_amount(s: &[u8]) -> (r: Option<Amount>)
    ensures
        match r {
            Some(u) => {
                &&& valid_amount(s@)
                &&& 0 <= u
                &&& u == amount_value(s@)
            },
            None => !valid_amount(s@) || amount_value(s@) > i64::MAX,
        },
{
    let n = s.len();
    if n == 0 {
        return None;
    }
    let mut i: usize = 0;
    let mut whole: i64 = 0;
    let mut whole_overflow: bool = false;
    while i < n && 48 <= s[i] && s[i] <= 57
        invariant
            0 <= i <= n,
            n == s@.len(),
            all_digits(s@.take(i as int)),
            !whole_overflow ==> whole == digits_value(s@.take(i as int)),
            whole_overflow ==> digits_value(s@.take(i as int)) > i64::MAX,
            0 <= whole,
        decreases n - i,
    {
        let d = s[i] - 48;
        proof {
            assert(s@.take(i + 1).drop_last() =~= s@.take(i as int));
            assert(s@.take(i + 1).last() == s@[i as int]);
        }
        if !whole_overflow {
            match whole.checked_mul(10) {
                Some(w10) => match w10.checked_add(d as i64) {
                    Some(w) => {
                        whole = w;
                    },
                    None => {
                        whole_overflow = true;
                    },
                },
                None => {
                    whole_overflow = true;
                },
            }
        }
        i += 1;
    }
    if i == n {
        // the whole text is one digit string
        proof {
            assert(s@.take(n as int) =~= s@);
        }
        if whole_overflow {
            return None;
        }
        match whole.checked_mul(10000) {
            Some(u) => {
                return Some(u);
            },
            None => {
                return None;
            },
        }
    }
    // a non-digit stopped the scan
    if s[i] != 46 || i == 0 || i + 1 == n {
        // not a decimal point, or no digit on one of its sides: no split of
        // this text can satisfy the grammar
        proof {
            assert(!is_digit(s@[i as int]));
            assert forall|p: int| !point_split_at(s@, p) by {
                if 1 <= p && p + 1 < s@.len() && s@[p] == 46 {
                    if p < i {
                        assert(is_digit(s@.take(i as int)[p]));
                    } else if p > i && s@[i as int] != 46 {
                        assert(s@.take(p)[i as int] == s@[i as int]);
                    }
                }
            }
        }
        return None;
    }
    let point: usize = i;
    if whole_overflow {
        // whichever way the fraction turns out, the value cannot fit
        proof {
            if valid_amount(s@) {
                let p = choose|p: int| point_split_at(s@, p);
                assert(point_split_at(s@, p));
                if p < point {
                    assert(is_digit(s@.take(point as int)[p]));
                }
                if p > point {
                    assert(s@.take(p)[point as int] == 46u8);
                }
                assert(p == point);
                assert forall|k: int|
                    0 <= k < s@.skip(p + 1).len() implies is_digit(
                    #[trigger] s@.skip(p + 1)[k],
                ) by {}
                lemma_digits_value_nonneg(four_places(s@.skip(p + 1)));
            }
        }
        return None;
    }
    let mut j: usize = point + 1;
    let mut frac: i64 = 0;
    let mut places: usize = 0;
    while j < n
        invariant
            n == s@.len(),
            point + 1 <= j <= n,
            1 <= point < n,
            s@[point as int] == 46,
            all_digits(s@.take(point as int)),
            whole == digits_value(s@.take(point as int)),
            0 <= whole,
            forall|k: int| point < k < j ==> is_digit(#[trigger] s@[k]),
            forall|k: int| point + 5 <= k < j ==> #[trigger] s@[k] == 48,
            places <= 4,
            j - point - 1 <= 4 ==> places == j - point - 1,
            j - point - 1 > 4 ==> places == 4,
            frac == digits_value(s@.subrange(point + 1, point + 1 + places as int)),
            places <= 3 ==> frac <= 999,
            places <= 2 ==> frac <= 99,
            places <= 1 ==> frac <= 9,
            places == 0 ==> frac == 0,
            0 <= frac <= 9999,
        decreases n - j,
    {
        let b = s[j];
        if b < 48 || b > 57 {
            // a non-digit inside the fraction: no split satisfies the grammar
            proof {
                assert(!is_digit(s@[j as int]));
                assert(!all_digits(s@)) by {
                    assert(!is_digit(s@[point as int]));
                }
                assert forall|p: int| !point_split_at(s@, p) by {
                    if 1 <= p && p + 1 < s@.len() && s@[p] == 46 {
                        if p < point {
                            assert(is_digit(s@.take(point as int)[p]));
                        } else if p > point {
                            assert(s@.take(p)[point as int] == 46u8);
                        } else {
                            assert(s@.skip(p + 1)[j - p - 1] == s@[j as int]);
                        }
                    }
                }
            }
            return None;
        }
        if places < 4 {
            proof {
                let f = s@.subrange(point + 1, point + 2 + places as int);
                assert(f.drop_last() =~= s@.subrange(point + 1, point + 1 + places as int));
                assert(f.last() == s@[j as int]);
            }
            frac = frac * 10 + (b - 48) as i64;
            places = places + 1;
        } else if b != 48 {
            // a nonzero digit below the resolution of the representation
            proof {
                assert(!all_digits(s@)) by {
                    assert(!is_digit(s@[point as int]));
                }
                assert forall|p: int| !point_split_at(s@, p) by {
                    if 1 <= p && p + 1 < s@.len() && s@[p] == 46 {
                        if p < point {
                            assert(is_digit(s@.take(point as int)[p]));
                        } else if p > point {
                            assert(s@.take(p)[point as int] == 46u8);
                        }
                    }
                }
            }
            return None;
        }
        j += 1;
    }
    // the text splits at `point`; scale the fraction out to four places
    proof {
        assert forall|k: int| 0 <= k < s@.skip(point + 1).len() implies is_digit(
            #[trigger] s@.skip(point + 1)[k],
        ) by {
            assert(s@.skip(point + 1)[k] == s@[point + 1 + k]);
        }
        assert(point_split_at(s@, point as int)) by {
            assert forall|k: int| point + 5 <= k < s@.len() implies #[trigger] s@[k] == 48 by {}
        }
    }
    let frac_len = n - point - 1;
    if frac_len == 1 {
        frac = frac * 1000;
    } else if frac_len == 2 {
        frac = frac * 100;
    } else if frac_len == 3 {
        frac = frac * 10;
    }
    proof {
        let f = s@.skip(point + 1);
        if frac_len >= 4 {
            assert(four_places(f) =~= s@.subrange(point + 1, point + 5));
        } else {
            let stated = s@.subrange(point + 1, point + 1 + frac_len as int);
            assert(f =~= stated);
            if frac_len == 1 {
                assert(four_places(f) =~= f.push(48).push(48).push(48));
                lemma_digits_value_push_zero(f);
                lemma_digits_value_push_zero(f.push(48));
                lemma_digits_value_push_zero(f.push(48).push(48));
            } else if frac_len == 2 {
                assert(four_places(f) =~= f.push(48).push(48));
                lemma_digits_value_push_zero(f);
                lemma_digits_value_push_zero(f.push(48));
            } else {
                assert(four_places(f) =~= f.push(48));
                lemma_digits_value_push_zero(f);
            }
        }
        let p = choose|p: int| point_split_at(s@, p);
        lemma_point_split_unique(s@, p, point as int);
        assert(!all_digits(s@)) by {
            assert(!is_digit(s@[point as int]));
        }
    }
    match whole.checked_mul(10000) {
        Some(scaled) => match scaled.checked_add(frac) {
            Some(u) => Some(u),
            None => None,
        },
        None => None,
    }
}

} // verus!
