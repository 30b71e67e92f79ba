//! Errors of one collection cycle. Every error is terminal for the
//! cycle: either a complete metric set is produced or none is.
use vstd::prelude::*;

verus! {

/// Why a collection cycle failed: the query tool could not be launched,
/// its output could not be read, no peer row was there to parse, or one
/// specific field (named by the variant) could not be parsed.
#[derive(Clone, Copy, Debug, PartialEq, Eq, Structural)]
pub enum NtpError {
    LaunchFailed,
    StdoutUnavailable,
    NoPeerInfo,
    BadWhen,
    BadPoll,
    BadReach,
    BadDelay,
    BadOffset,
    BadJitter,
}

impl NtpError {
    /// A diagnostic message naming what failed; field errors name the
    /// column that could not be converted.
    pub fn message(&self) -> (m: String)
        ensures
            m@ == match *self {
                NtpError::LaunchFailed => "failed to execute ntpq"@,
                NtpError::StdoutUnavailable => "failed to read stdout of ntpq"@,
                NtpError::NoPeerInfo => "no peer information found"@,
                NtpError::BadWhen => "failed to find when from ntpq -pn"@,
                NtpError::BadPoll => "failed to find poll from ntpq -pn"@,
                NtpError::BadReach => "failed to find reach from ntpq -pn"@,
                NtpError::BadDelay => "failed to find delay from ntpq -pn"@,
                NtpError::BadOffset => "failed to find offset from ntpq -pn"@,
                NtpError::BadJitter => "failed to find jitter from ntpq -pn"@,
            },
    {
        match *self {
            NtpError::LaunchFailed => "failed to execute ntpq".to_owned(),
            NtpError::StdoutUnavailable => "failed to read stdout of ntpq".to_owned(),
            NtpError::NoPeerInfo => "no peer information found".to_owned(),
            NtpError::BadWhen => "failed to find when from ntpq -pn".to_owned(),
            NtpError::BadPoll => "failed to find poll from ntpq -pn".to_owned(),
            NtpError::BadReach => "failed to find reach from ntpq -pn".to_owned(),
            NtpError::BadDelay => "failed to find delay from ntpq -pn".to_owned(),
            NtpError::BadOffset => "failed to find offset from ntpq -pn".to_owned(),
            NtpError::BadJitter => "failed to find jitter from ntpq -pn".to_owned(),
        }
    }
}

} // verus!
