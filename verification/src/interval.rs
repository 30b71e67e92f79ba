//! Interval tokens: the query tool abbreviates large "when"/"poll"
//! values with a unit suffix (`35m` for 2100 seconds), so intervals are
//! normalized to seconds at parse time.
use crate::numbers::{is_uint_token, parse_u64, uint_val};
use vstd::prelude::*;

verus! {

/// Whether `s` is a bare integer whose value fits in a `u64`.
pub open spec fn plain_fits(s: Seq<char>) -> bool {
    is_uint_token(s) && uint_val(s) <= u64::MAX
}

/// Whether `s` is an integer followed by the suffix `suf`, whose value
/// scaled by `scale` fits in a `u64`.
pub open spec fn suffix_fits(s: Seq<char>, suf: char, scale: nat) -> bool {
    s.len() > 0 && s.last() == suf && is_uint_token(s.drop_last()) && uint_val(s.drop_last())
        * scale <= u64::MAX
}

/// Normalized value in seconds of an interval token: a bare integer, or
/// an integer with suffix `m` (minutes), `h` (hours) or `d` (days). The
/// interpretations are tried in that order and the first success wins;
/// an interpretation whose scaled value does not fit in a `u64` does not
/// succeed.
pub open spec fn interval_of(s: Seq<char>) -> Option<u64> {
    if plain_fits(s) {
        Some(uint_val(s) as u64)
    } else if suffix_fits(s, 'm', 60) {
        Some((uint_val(s.drop_last()) * 60) as u64)
    } else if suffix_fits(s, 'h', 3600) {
        Some((uint_val(s.drop_last()) * 3600) as u64)
    } else if suffix_fits(s, 'd', 86400) {
        Some((uint_val(s.drop_last()) * 86400) as u64)
    } else {
        None
    }
}

/// A normalized time interval in whole seconds.
#[derive(Clone, Copy, Debug, PartialEq, Eq, Structural)]
pub struct Interval {
    pub interval: u64,
}

impl Interval {
    /// Parses an interval token, normalizing suffixed forms to seconds.
    pub fn from_str(s: &str) -> (r: Option<Interval>)
        ensures
            match r {
                Some(iv) => interval_of(s@) == Some(iv.interval),
                None => interval_of(s@) is None,
            },
    {
        if let Some(v) = parse_u64(s) {
            return Some(Interval { interval: v });
        }
        let len = s.unicode_len();
        if len == 0 {
            return None;
        }
        let last = s.get_char(len - 1);
        let head = s.substring_char(0, len - 1);
        proof {
            assert(head@ =~= s@.drop_last());
        }
        let base = match parse_u64(head) {
            Some(v) => v,
            None => {
                return None;
            },
        };
        let scale: u64 = if last == 'm' {
            60
        } else if last == 'h' {
            3600
        } else if last == 'd' {
            86400
        } else {
            return None;
        };
        match base.checked_mul(scale) {
            Some(x) => Some(Interval { interval: x }),
            None => None,
        }
    }
}

/// Law: a bare integer token normalizes to itself, and a token
/// `<int><suffix>` with suffix `m`, `h` or `d` normalizes to the integer
/// times 60, 3600 or 86400 respectively (whenever the scaled value is
/// representable).
pub proof fn lemma_interval_normalization(s: Seq<char>)
    ensures
        plain_fits(s) ==> interval_of(s) == Some(uint_val(s) as u64),
        suffix_fits(s, 'm', 60) ==> interval_of(s) == Some((uint_val(s.drop_last()) * 60) as u64),
        suffix_fits(s, 'h', 3600) ==> interval_of(s) == Some(
            (uint_val(s.drop_last()) * 3600) as u64,
        ),
        suffix_fits(s, 'd', 86400) ==> interval_of(s) == Some(
            (uint_val(s.drop_last()) * 86400) as u64,
        ),
{
    if s.len() > 0 && (s.last() == 'm' || s.last() == 'h' || s.last() == 'd') {
        lemma_suffixed_token_is_not_plain(s, s.last());
    }
}

/// A token ending in a unit suffix is not a bare integer, so the bare
/// interpretation never shadows a suffixed one.
proof fn lemma_suffixed_token_is_not_plain(s: Seq<char>, suf: char)
    requires
        suf == 'm' || suf == 'h' || suf == 'd',
        s.len() > 0,
        s.last() == suf,
    ensures
        !is_uint_token(s),
{
    let d = crate::numbers::uint_digits(s);
    if d.len() > 0 {
        assert(d.last() == s.last());
        assert(!crate::numbers::is_digit(d[d.len() - 1]));
    }
}

} // verus!
