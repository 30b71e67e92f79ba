//! Parsing one status line of the query tool's peer listing.
use crate::decimal::{decimal_of, Decimal};
use crate::error::NtpError;
use crate::interval::{interval_of, Interval};
use crate::reach::{reach_of, Reach};
use crate::tokens::{split_whitespace, tokens_of};
use vstd::prelude::*;

verus! {

/// One parsed status line: the six consumed fields of a peer row.
#[derive(Clone, Copy, Debug, PartialEq, Eq, Structural)]
pub struct NtpInfo {
    pub when: Interval,
    pub poll: Interval,
    pub reach: Reach,
    pub delay: Decimal,
    pub offset: Decimal,
    pub jitter: Decimal,
}

/// What parsing a status line yields. The fields "when", "poll",
/// "reach", "delay", "offset" and "jitter" sit at whitespace-delimited
/// positions 4 through 9; a missing or unconvertible field fails with
/// the error naming the first such field. A present reach field always
/// converts, so it can only be missing.
pub open spec fn spec_parse_ntp_line(s: Seq<char>) -> Result<NtpInfo, NtpError> {
    let toks = tokens_of(s);
    if toks.len() <= 4 || interval_of(toks[4]) is None {
        Err(NtpError::BadWhen)
    } else if toks.len() <= 5 || interval_of(toks[5]) is None {
        Err(NtpError::BadPoll)
    } else if toks.len() <= 6 {
        Err(NtpError::BadReach)
    } else if toks.len() <= 7 || decimal_of(toks[7]) is None {
        Err(NtpError::BadDelay)
    } else if toks.len() <= 8 || decimal_of(toks[8]) is None {
        Err(NtpError::BadOffset)
    } else if toks.len() <= 9 || decimal_of(toks[9]) is None {
        Err(NtpError::BadJitter)
    } else {
        Ok(
            (NtpInfo {
                when: Interval { interval: interval_of(toks[4]).unwrap() },
                poll: Interval { interval: interval_of(toks[5]).unwrap() },
                reach: Reach { reach: reach_of(toks[6]) as u128 },
                delay: decimal_of(toks[7]).unwrap(),
                offset: decimal_of(toks[8]).unwrap(),
                jitter: decimal_of(toks[9]).unwrap(),
            }),
        )
    }
}

/// Parses one status line into its six typed fields, or fails with the
/// error naming the first field that is missing or does not convert.
pub fn parse_ntp_line(line: String) -> (r: Result<NtpInfo, NtpError>)
    ensures
        r == spec_parse_ntp_line(line@),
{
    let toks = split_whitespace(line.as_str());
    proof {
        assert(toks.deep_view().len() == toks@.len());
        assert forall|j: int| 0 <= j < toks@.len() implies #[trigger] toks.deep_view()[j]
            == toks@[j]@ by {}
    }
    if toks.len() <= 4 {
        return Err(NtpError::BadWhen);
    }
    let when = match Interval::from_str(toks[4].as_str()) {
        Some(v) => v,
        None => {
            return Err(NtpError::BadWhen);
        },
    };
    if toks.len() <= 5 {
        return Err(NtpError::BadPoll);
    }
    let poll = match Interval::from_str(toks[5].as_str()) {
        Some(v) => v,
        None => {
            return Err(NtpError::BadPoll);
        },
    };
    if toks.len() <= 6 {
        return Err(NtpError::BadReach);
    }
    let reach = Reach::from_str(toks[6].as_str());
    if toks.len() <= 7 {
        return Err(NtpError::BadDelay);
    }
    let delay = match Decimal::from_str(toks[7].as_str()) {
        Some(v) => v,
        None => {
            return Err(NtpError::BadDelay);
        },
    };
    if toks.len() <= 8 {
        return Err(NtpError::BadOffset);
    }
    let offset = match Decimal::from_str(toks[8].as_str()) {
        Some(v) => v,
        None => {
            return Err(NtpError::BadOffset);
        },
    };
    if toks.len() <= 9 {
        return Err(NtpError::BadJitter);
    }
    let jitter = match Decimal::from_str(toks[9].as_str()) {
        Some(v) => v,
        None => {
            return Err(NtpError::BadJitter);
        },
    };
    Ok(NtpInfo { when, poll, reach, delay, offset, jitter })
}

/// Law: a line of fewer than ten whitespace-delimited tokens fails to
/// parse; one of fewer than five fails naming "when", the first missing
/// field.
pub proof fn lemma_short_line_fails(s: Seq<char>)
    ensures
        tokens_of(s).len() < 10 ==> spec_parse_ntp_line(s) is Err,
        tokens_of(s).len() <= 4 ==> spec_parse_ntp_line(s) == Err::<NtpInfo, NtpError>(
            NtpError::BadWhen,
        ),
{
}

/// Law: parsing is pure — any two results that `parse_ntp_line`'s
/// contract allows for the same line are identical, so parsing a line
/// twice yields the same value.
pub proof fn lemma_parse_idempotent(
    line: Seq<char>,
    r1: Result<NtpInfo, NtpError>,
    r2: Result<NtpInfo, NtpError>,
)
    requires
        r1 == spec_parse_ntp_line(line),
        r2 == spec_parse_ntp_line(line),
    ensures
        r1 == r2,
{
}

} // verus!
