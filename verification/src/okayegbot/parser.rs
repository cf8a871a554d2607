//! Classifier for replies of the egg-claiming counterpart.

use vstd::prelude::*;
use vstd::string::*;

use crate::okayegbot::patterns;
use crate::text::{
    lemma_digits_value_subrange, lemma_signed_value_capture, parse_capture_i32, parse_digits_u64,
    seq_digits_value, signed_value_of,
};

verus! {

/// The classified outcome of one claim reply.
#[derive(Debug, Clone, PartialEq)]
pub enum ClaimEgs {
    Success { username: String, amount: i32, total: i32 },
    Failure { username: String, minutes: Option<u64>, seconds: Option<u64>, total: i32 },
}

#[derive(Debug, Clone, Copy, PartialEq, Eq, Structural)]
pub enum ClaimEgsParserError {
    /// The reply matches neither recognized shape.
    InvalidMessage,
    /// A matched reply carries no addressee.
    MissingUsername,
    /// A matched reply carries no amount.
    MissingAmount,
    /// A matched reply carries no total.
    MissingTotal,
    /// A numeric field does not fit its type.
    ParseIntError,
}

/// What `parse_success` returns for a given reply text.
pub open spec fn parses_success_to(s: Seq<char>, r: Result<ClaimEgs, ClaimEgsParserError>) -> bool {
    match patterns::claim_good_shape(s) {
        None => r == Err::<ClaimEgs, ClaimEgsParserError>(ClaimEgsParserError::InvalidMessage),
        Some(g) => {
            let a = signed_value_of(g.amount);
            let t = signed_value_of(g.total);
            if i32::MIN <= a <= i32::MAX && i32::MIN <= t <= i32::MAX {
                r matches Ok(ClaimEgs::Success { username, amount, total }) && username@
                    == g.username && amount == a && total == t
            } else {
                r == Err::<ClaimEgs, ClaimEgsParserError>(ClaimEgsParserError::ParseIntError)
            }
        },
    }
}

/// What `parse_failure` returns for a given reply text.  The seconds
/// component is `None` exactly when the reply omits it.
pub open spec fn parses_failure_to(s: Seq<char>, r: Result<ClaimEgs, ClaimEgsParserError>) -> bool {
    match patterns::claim_bad_shape(s) {
        None => r == Err::<ClaimEgs, ClaimEgsParserError>(ClaimEgsParserError::InvalidMessage),
        Some(g) => {
            let m = seq_digits_value(g.minutes);
            let okm = m <= u64::MAX;
            let oks = match g.seconds {
                Some(d) => seq_digits_value(d) <= u64::MAX,
                None => true,
            };
            let t = signed_value_of(g.total);
            let okt = i32::MIN <= t <= i32::MAX;
            if okm && oks && okt {
                r matches Ok(ClaimEgs::Failure { username, minutes, seconds, total }) && username@
                    == g.username && minutes == Some(m as u64) && total == t && (match g.seconds {
                    Some(d) => seconds == Some(seq_digits_value(d) as u64),
                    None => seconds is None,
                })
            } else {
                r == Err::<ClaimEgs, ClaimEgsParserError>(ClaimEgsParserError::ParseIntError)
            }
        },
    }
}

/// What `classify` returns: the success shape is tried first, then the
/// cooldown shape; a reply matching neither is invalid.
pub open spec fn parses_to(s: Seq<char>, r: Result<ClaimEgs, ClaimEgsParserError>) -> bool {
    if patterns::claim_good_shape(s) is Some {
        parses_success_to(s, r)
    } else if patterns::claim_bad_shape(s) is Some {
        parses_failure_to(s, r)
    } else {
        r == Err::<ClaimEgs, ClaimEgsParserError>(ClaimEgsParserError::InvalidMessage)
    }
}

impl ClaimEgs {
    /// Classify a success-shaped reply.
    pub fn parse_success(s: &str) -> (r: Result<ClaimEgs, ClaimEgsParserError>)
        ensures
            parses_success_to(s@, r),
    {
        let p = match patterns::claim_good_pos(s) {
            None => { return Err(ClaimEgsParserError::InvalidMessage) },
            Some(p) => p,
        };
        proof {
            lemma_signed_value_capture(s@, p.a0 as int, p.d0 as int, p.d1 as int);
            lemma_signed_value_capture(s@, p.t0 as int, p.t0 as int, p.t1 as int);
        }
        let amount = match parse_capture_i32(s, p.a0, p.d0, p.d1) {
            None => { return Err(ClaimEgsParserError::ParseIntError) },
            Some(v) => v,
        };
        let total = match parse_capture_i32(s, p.t0, p.t0, p.t1) {
            None => { return Err(ClaimEgsParserError::ParseIntError) },
            Some(v) => v,
        };
        let username = s.substring_char(p.u0, p.u1).to_owned();
        Ok(ClaimEgs::Success { username, amount, total })
    }

    /// Classify a cooldown-shaped reply.
    pub fn parse_failure(s: &str) -> (r: Result<ClaimEgs, ClaimEgsParserError>)
        ensures
            parses_failure_to(s@, r),
    {
        let p = match patterns::claim_bad_pos(s) {
            None => { return Err(ClaimEgsParserError::InvalidMessage) },
            Some(p) => p,
        };
        proof {
            lemma_digits_value_subrange(s@, p.m0 as int, p.m1 as int);
            lemma_signed_value_capture(s@, p.t0 as int, p.t0 as int, p.t1 as int);
        }
        let minutes = match parse_digits_u64(s, p.m0, p.m1) {
            None => { return Err(ClaimEgsParserError::ParseIntError) },
            Some(v) => v,
        };
        let seconds = match p.sec {
            Some((s0, s1)) => {
                proof {
                    lemma_digits_value_subrange(s@, s0 as int, s1 as int);
                }
                match parse_digits_u64(s, s0, s1) {
                    None => { return Err(ClaimEgsParserError::ParseIntError) },
                    Some(v) => Some(v),
                }
            },
            None => None,
        };
        let total = match parse_capture_i32(s, p.t0, p.t0, p.t1) {
            None => { return Err(ClaimEgsParserError::ParseIntError) },
            Some(v) => v,
        };
        let username = s.substring_char(p.u0, p.u1).to_owned();
        Ok(ClaimEgs::Failure { username, minutes: Some(minutes), seconds, total })
    }

    /// Classify one reply: the success shape wins over the cooldown shape.
    pub fn classify(s: &str) -> (r: Result<ClaimEgs, ClaimEgsParserError>)
        ensures
            parses_to(s@, r),
    {
        match Self::parse_success(s) {
            Err(ClaimEgsParserError::InvalidMessage) => Self::parse_failure(s),
            other => other,
        }
    }
}

impl core::str::FromStr for ClaimEgs {
    type Err = ClaimEgsParserError;

    fn from_str(s: &str) -> Result<Self, Self::Err> {
        ClaimEgs::classify(s)
    }
}

} // verus!
