//! Decimal digit strings and unsigned integer tokens.
use vstd::prelude::*;

verus! {

/// Whether a character is a decimal digit.
pub open spec fn is_digit(c: char) -> bool {
    48 <= c as u32 && c as u32 <= 57
}

/// Numeric value of a decimal digit character.
pub open spec fn digit_val(c: char) -> nat {
    (c as u32 - 48) as nat
}

/// Whether every character of `s` is a decimal digit.
pub open spec fn all_digits(s: Seq<char>) -> bool {
    forall|i: int| 0 <= i < s.len() ==> is_digit(#[trigger] s[i])
}

/// Value of a digit string read in base ten, most significant digit first.
pub open spec fn digits_val(s: Seq<char>) -> nat
    decreases s.len(),
{
    if s.len() == 0 {
        0
    } else {
        digits_val(s.drop_last()) * 10 + digit_val(s.last())
    }
}

/// The value of a digit string is at least the value of any of its prefixes.
pub proof fn lemma_digits_val_take_le(s: Seq<char>, j: int)
    requires
        0 <= j <= s.len(),
    ensures
        digits_val(s.take(j)) <= digits_val(s),
    decreases s.len(),
{
    if j == s.len() {
        assert(s.take(j) =~= s);
    } else if s.len() > 0 {
        assert(s.drop_last().take(j) =~= s.take(j));
        lemma_digits_val_take_le(s.drop_last(), j);
    }
}

/// The digit portion of an unsigned integer token: one leading `+` is
/// allowed, as the standard library's unsigned parser allows it.
pub open spec fn uint_digits(s: Seq<char>) -> Seq<char> {
    if s.len() > 0 && s[0] == '+' {
        s.drop_first()
    } else {
        s
    }
}

/// Whether `s` is an unsigned integer token: an optional leading `+`
/// followed by one or more decimal digits.
pub open spec fn is_uint_token(s: Seq<char>) -> bool {
    uint_digits(s).len() > 0 && all_digits(uint_digits(s))
}

/// Value of an unsigned integer token.
pub open spec fn uint_val(s: Seq<char>) -> nat {
    digits_val(uint_digits(s))
}

/// Parses the suffix `s[start..]` as a base-ten number.
/// Returns its value exactly when it is a nonempty digit string whose
/// value fits in a `u64`.
fn parse_digits(s: &str, start: usize, len: usize) -> (r: Option<u64>)
    requires
        len == s@.len(),
        start <= len,
    ensures
        ({
            let d = s@.skip(start as int);
            match r {
                Some(v) => d.len() > 0 && all_digits(d) && digits_val(d) <= u64::MAX && v
                    == digits_val(d),
                None => !(d.len() > 0 && all_digits(d) && digits_val(d) <= u64::MAX),
            }
        }),
{
    let ghost d = s@.skip(start as int);
    if start == len {
        return None;
    }
    let mut acc: u64 = 0;
    let mut i: usize = start;
    while i < len
        invariant
            start <= i <= len,
            len == s@.len(),
            d == s@.skip(start as int),
            acc == digits_val(d.take(i - start)),
            all_digits(d.take(i - start)),
        decreases len - i,
    {
        let c = s.get_char(i);
        let cu = c as u32;
        proof {
            assert(d.take(i - start + 1).drop_last() =~= d.take(i - start));
            assert(d.take(i - start + 1).last() == d[i - start]);
            assert(d[i - start] == s@[i as int]);
        }
        if cu < 48 || cu > 57 {
            proof {
                assert(!is_digit(d[i - start]));
            }
            return None;
        }
        let digit = (cu - 48) as u64;
        let scaled = match acc.checked_mul(10) {
            Some(x) => x,
            None => {
                proof {
                    lemma_digits_val_take_le(d, i - start + 1);
                }
                return None;
            },
        };
        acc = match scaled.checked_add(digit) {
            Some(x) => x,
            None => {
                proof {
                    lemma_digits_val_take_le(d, i - start + 1);
                }
                return None;
            },
        };
        i = i + 1;
    }
    proof {
        assert(d.take(len - start) =~= d);
    }
    Some(acc)
}

/// Parses an unsigned integer token (optional leading `+`, then digits).
/// Returns its value exactly when the token is well formed and the value
/// fits in a `u64`.
pub fn parse_u64(s: &str) -> (r: Option<u64>)
    ensures
        match r {
            Some(v) => is_uint_token(s@) && uint_val(s@) <= u64::MAX && v == uint_val(s@),
            None => !(is_uint_token(s@) && uint_val(s@) <= u64::MAX),
        },
{
    let len = s.unicode_len();
    let start: usize = if len > 0 && s.get_char(0) == '+' {
        1
    } else {
        0
    };
    proof {
        if start == 1 {
            assert(s@.skip(1) =~= s@.drop_first());
        } else {
            assert(s@.skip(0) =~= s@);
        }
    }
    parse_digits(s, start, len)
}

} // verus!
