//! Signed decimal number tokens, held exactly as a sign, an integer
//! mantissa and a power-of-ten scale, so that the library stays free of
//! machine floating point. The value denoted is
//! `(-1)^negative * mantissa / 10^scale`.
use crate::numbers::{digit_val, digits_val, is_digit, lemma_digits_val_take_le};
use vstd::prelude::*;

verus! {

/// Whether `b` (a sign-stripped decimal body) is well formed: nonempty,
/// only digits and at most one `.`, with at least one digit.
pub open spec fn is_decimal_body(b: Seq<char>) -> bool {
    &&& forall|i: int| 0 <= i < b.len() ==> is_digit(#[trigger] b[i]) || b[i] == '.'
    &&& exists|i: int| 0 <= i < b.len() && is_digit(#[trigger] b[i])
    &&& forall|i: int, j: int|
        #![trigger b[i], b[j]]
        0 <= i < j < b.len() ==> !(b[i] == '.' && b[j] == '.')
}

/// Position of the decimal point in `b`, or `b.len()` if there is none.
pub open spec fn dot_pos(b: Seq<char>) -> int {
    if exists|i: int| 0 <= i < b.len() && #[trigger] b[i] == '.' {
        choose|i: int| 0 <= i < b.len() && #[trigger] b[i] == '.'
    } else {
        b.len() as int
    }
}

/// The digits before the decimal point.
pub open spec fn int_digits(b: Seq<char>) -> Seq<char> {
    b.take(dot_pos(b))
}

/// The digits after the decimal point.
pub open spec fn frac_digits(b: Seq<char>) -> Seq<char> {
    if dot_pos(b) == b.len() {
        Seq::empty()
    } else {
        b.skip(dot_pos(b) + 1)
    }
}

/// All digits of the body, with the decimal point removed.
pub open spec fn mantissa_digits(b: Seq<char>) -> Seq<char> {
    int_digits(b) + frac_digits(b)
}

/// The mantissa a body denotes: its digits read as one base-ten number.
pub open spec fn mantissa_of(b: Seq<char>) -> nat {
    digits_val(mantissa_digits(b))
}

/// How many digits follow the decimal point.
pub open spec fn scale_of(b: Seq<char>) -> nat {
    frac_digits(b).len()
}

/// The token with one leading sign character stripped.
pub open spec fn decimal_body(s: Seq<char>) -> Seq<char> {
    if s.len() > 0 && (s[0] == '+' || s[0] == '-') {
        s.drop_first()
    } else {
        s
    }
}

/// Whether the token carries a minus sign.
pub open spec fn is_negative_token(s: Seq<char>) -> bool {
    s.len() > 0 && s[0] == '-'
}

/// Whether `s` is a decimal number token: an optional sign, then a well
/// formed body.
pub open spec fn is_decimal_token(s: Seq<char>) -> bool {
    is_decimal_body(decimal_body(s))
}

/// An exact signed decimal number: `(-1)^negative * mantissa / 10^scale`.
#[derive(Clone, Copy, Debug, PartialEq, Eq, Structural)]
pub struct Decimal {
    pub negative: bool,
    pub mantissa: u128,
    pub scale: usize,
}

/// The decimal a token denotes, when it is well formed and representable.
pub open spec fn decimal_of(s: Seq<char>) -> Option<Decimal> {
    let b = decimal_body(s);
    if is_decimal_token(s) && mantissa_of(b) <= u128::MAX && scale_of(b) <= usize::MAX {
        Some(
            (Decimal {
                negative: is_negative_token(s),
                mantissa: mantissa_of(b) as u128,
                scale: scale_of(b) as usize,
            }),
        )
    } else {
        None
    }
}

/// The digits met while scanning the first `k` characters of a body,
/// given whether a decimal point was met and where.
spec fn scanned_digits(b: Seq<char>, dot_seen: bool, dp: int, k: int) -> Seq<char> {
    if dot_seen {
        b.take(dp) + b.subrange(dp + 1, k)
    } else {
        b.take(k)
    }
}

/// In a well-formed body whose prefix was scanned up to a digit at `k`,
/// the scanned digits extended by that digit are a prefix of the body's
/// mantissa digits, so the full mantissa is at least their value.
proof fn lemma_mantissa_extends_scan(b: Seq<char>, dot_seen: bool, dp: int, k: int)
    requires
        0 <= k < b.len(),
        is_digit(b[k]),
        dot_seen ==> 0 <= dp < k && b[dp] == '.' && (forall|t: int|
            0 <= t < k && t != dp ==> is_digit(#[trigger] b[t])),
        !dot_seen ==> forall|t: int| 0 <= t < k ==> is_digit(#[trigger] b[t]),
        is_decimal_body(b),
    ensures
        mantissa_of(b) >= digits_val(scanned_digits(b, dot_seen, dp, k)) * 10 + digit_val(b[k]),
{
    let md = mantissa_digits(b);
    let d = scanned_digits(b, dot_seen, dp, k);
    if dot_seen {
        lemma_unique_dot(b, dp);
        assert(md.take(k) =~= b.take(dp) + b.subrange(dp + 1, k + 1));
        assert(md.take(k).drop_last() =~= d);
        assert(md.take(k).last() == b[k]);
        lemma_digits_val_take_le(md, k);
    } else {
        let q = dot_pos(b);
        if exists|i: int| 0 <= i < b.len() && #[trigger] b[i] == '.' {
            assert(b[q] == '.');
            assert(!is_digit(b[q]));
            assert(q > k);
        }
        assert(md.take(k + 1) =~= b.take(k + 1));
        assert(md.take(k + 1).drop_last() =~= d);
        assert(md.take(k + 1).last() == b[k]);
        lemma_digits_val_take_le(md, k + 1);
    }
}

/// A known decimal point of a well-formed body is its only one, so it is
/// the one `dot_pos` names.
proof fn lemma_unique_dot(b: Seq<char>, dp: int)
    requires
        0 <= dp < b.len(),
        b[dp] == '.',
        is_decimal_body(b),
    ensures
        dot_pos(b) == dp,
{
    let q = dot_pos(b);
    assert(b[q] == '.');
    if q < dp {
        assert(!(b[q] == '.' && b[dp] == '.'));
    } else if q > dp {
        assert(!(b[dp] == '.' && b[q] == '.'));
    }
}

impl Decimal {
    /// Parses a decimal number token: an optional `+` or `-` sign, then
    /// digits with at most one decimal point and at least one digit.
    /// Returns its exact value whenever the mantissa is representable.
    pub fn from_str(s: &str) -> (r: Option<Decimal>)
        ensures
            r == decimal_of(s@),
    {
        let len = s.unicode_len();
        let mut i: usize = 0;
        let mut negative = false;
        if len > 0 {
            let c0 = s.get_char(0);
            if c0 == '+' || c0 == '-' {
                i = 1;
                negative = c0 == '-';
            }
        }
        let ghost off = i as int;
        let ghost b = decimal_body(s@);
        proof {
            if off == 1 {
                assert(b =~= s@.skip(1));
            } else {
                assert(b =~= s@.skip(0));
            }
            assert(s@.skip(off).len() == s@.len() - off);
        }
        let mut mantissa: u128 = 0;
        let mut frac: usize = 0;
        let mut dot_seen = false;
        let mut digit_seen = false;
        let ghost mut dp: int = 0;
        while i < len
            invariant
                off <= i <= len,
                len == s@.len(),
                b == s@.skip(off),
                b.len() == s@.len() - off,
                b == decimal_body(s@),
                negative == is_negative_token(s@),
                forall|t: int| 0 <= t < i - off ==> is_digit(#[trigger] b[t]) || b[t] == '.',
                digit_seen <==> exists|t: int| 0 <= t < i - off && is_digit(#[trigger] b[t]),
                dot_seen ==> 0 <= dp < i - off && b[dp] == '.' && (forall|t: int|
                    0 <= t < i - off && t != dp ==> is_digit(#[trigger] b[t])),
                !dot_seen ==> forall|t: int| 0 <= t < i - off ==> is_digit(#[trigger] b[t]),
                dot_seen ==> frac == i - off - dp - 1,
                !dot_seen ==> frac == 0,
                mantissa == digits_val(scanned_digits(b, dot_seen, dp, i - off)),
            decreases len - i,
        {
            let ghost k = i - off;
            let c = s.get_char(i);
            proof {
                assert(s@.skip(off)[k] == s@[k + off]);
                assert(b[k] == s@[i as int]);
            }
            let cu = c as u32;
            if c == '.' {
                if dot_seen {
                    proof {
                        assert(!is_decimal_body(b));
                    }
                    return None;
                }
                dot_seen = true;
                proof {
                    dp = k;
                    assert(scanned_digits(b, true, dp, k + 1) =~= scanned_digits(
                        b,
                        false,
                        0,
                        k,
                    ));
                }
            } else if 48 <= cu && cu <= 57 {
                let d = (cu - 48) as u128;
                proof {
                    let ext = scanned_digits(b, dot_seen, dp, k + 1);
                    assert(ext.drop_last() =~= scanned_digits(b, dot_seen, dp, k));
                    assert(ext.last() == b[k]);
                }
                let scaled = match mantissa.checked_mul(10) {
                    Some(x) => x,
                    None => {
                        proof {
                            if is_decimal_body(b) {
                                lemma_mantissa_extends_scan(b, dot_seen, dp, k);
                            }
                        }
                        return None;
                    },
                };
                mantissa = match scaled.checked_add(d) {
                    Some(x) => x,
                    None => {
                        proof {
                            if is_decimal_body(b) {
                                lemma_mantissa_extends_scan(b, dot_seen, dp, k);
                            }
                        }
                        return None;
                    },
                };
                digit_seen = true;
                if dot_seen {
                    frac = frac + 1;
                }
            } else {
                proof {
                    assert(!(is_digit(b[k]) || b[k] == '.'));
                    assert(!is_decimal_body(b));
                }
                return None;
            }
            i = i + 1;
        }
        proof {
            assert(b.len() == len - off);
        }
        if !digit_seen {
            proof {
                assert(!is_decimal_body(b));
            }
            return None;
        }
        proof {
            assert(is_decimal_body(b));
            if dot_seen {
                lemma_unique_dot(b, dp);
                assert(mantissa_digits(b) =~= scanned_digits(b, true, dp, b.len() as int));
                assert(frac_digits(b).len() == b.len() - dp - 1);
            } else {
                if exists|t: int| 0 <= t < b.len() && #[trigger] b[t] == '.' {
                    let q = dot_pos(b);
                    assert(b[q] == '.');
                    assert(!is_digit(b[q]));
                }
                assert(dot_pos(b) == b.len());
                assert(mantissa_digits(b) =~= scanned_digits(b, false, dp, b.len() as int));
            }
        }
        Some(Decimal { negative, mantissa, scale: frac })
    }

    /// The same decimal with the sign discarded.
    pub fn abs(&self) -> (r: Decimal)
        ensures
            r == spec_abs(*self),
    {
        Decimal { negative: false, mantissa: self.mantissa, scale: self.scale }
    }

    /// A whole number as a decimal.
    pub fn from_u64(v: u64) -> (r: Decimal)
        ensures
            r == (Decimal { negative: false, mantissa: v as u128, scale: 0 as usize }),
    {
        Decimal { negative: false, mantissa: v as u128, scale: 0 }
    }

    /// A whole number as a decimal.
    pub fn from_u128(v: u128) -> (r: Decimal)
        ensures
            r == (Decimal { negative: false, mantissa: v, scale: 0 as usize }),
    {
        Decimal { negative: false, mantissa: v, scale: 0 }
    }
}

/// A decimal with its sign discarded.
pub open spec fn spec_abs(d: Decimal) -> Decimal {
    Decimal { negative: false, mantissa: d.mantissa, scale: d.scale }
}

} // verus!
