//! Classifier for replies of the leaf-claiming counterpart.

use vstd::prelude::*;
use vstd::string::*;

use crate::leavesbot::patterns;
use crate::text::{
    dec_rep, lemma_dec_rep_value, lemma_digits_value_subrange, lemma_signed_value_capture,
    parse_capture_i32, seq_digits_value, signed_value_of,
};

verus! {

#[derive(Debug, Clone, Copy, PartialEq, Eq, Structural)]
pub enum ClaimResponseParserError {
    /// The reply matches neither recognized shape.
    InvalidMessage,
    /// A cooldown-shaped reply was expected, but the text has another shape.
    ExpectedBad,
    /// A success-shaped reply was expected, but the text has another shape.
    ExpectedSuccess,
    /// A matched reply carries no addressee.
    MissingUsername,
    /// A matched reply carries no amount.
    MissingAmount,
    /// A matched reply carries no total.
    MissingTotal,
    /// A numeric field does not fit its type.
    ParseIntError,
}

/// The classified outcome of one claim reply.
#[derive(Debug, Clone, PartialEq)]
pub enum ClaimResponse {
    Success { username: String, amount: i32, total: i32 },
    Cooldown { username: String, minutes: Option<u64>, seconds: Option<u64>, total: i32 },
}

/// What `parse_success` returns for a given reply text.
pub open spec fn parses_success_to(
    s: Seq<char>,
    r: Result<ClaimResponse, ClaimResponseParserError>,
) -> bool {
    match patterns::claim_good_shape(s) {
        None => r == Err::<ClaimResponse, ClaimResponseParserError>(
            ClaimResponseParserError::ExpectedSuccess,
        ),
        Some(g) => {
            let a = signed_value_of(g.amount);
            let t = signed_value_of(g.total);
            if i32::MIN <= a <= i32::MAX && i32::MIN <= t <= i32::MAX {
                r matches Ok(ClaimResponse::Success { username, amount, total })
                    && username@ == g.username && amount == a && total == t
            } else {
                r == Err::<ClaimResponse, ClaimResponseParserError>(
                    ClaimResponseParserError::ParseIntError,
                )
            }
        },
    }
}

/// What `parse_cooldown` returns for a given reply text.  The grammar
/// requires both time components, so a classified cooldown always carries
/// both.
pub open spec fn parses_cooldown_to(
    s: Seq<char>,
    r: Result<ClaimResponse, ClaimResponseParserError>,
) -> bool {
    match patterns::claim_bad_shape(s) {
        None => r == Err::<ClaimResponse, ClaimResponseParserError>(
            ClaimResponseParserError::ExpectedBad,
        ),
        Some(g) => {
            let m = seq_digits_value(g.minutes);
            let sec = seq_digits_value(g.seconds);
            let t = signed_value_of(g.total);
            if m <= u64::MAX && sec <= u64::MAX && i32::MIN <= t <= i32::MAX {
                r matches Ok(ClaimResponse::Cooldown { username, minutes, seconds, total })
                    && username@ == g.username && minutes == Some(m as u64) && seconds == Some(
                    sec as u64,
                ) && total == t
            } else {
                r == Err::<ClaimResponse, ClaimResponseParserError>(
                    ClaimResponseParserError::ParseIntError,
                )
            }
        },
    }
}

/// What `classify` returns: the success shape is tried first, then the
/// cooldown shape; a reply matching neither is invalid.
pub open spec fn parses_to(
    s: Seq<char>,
    r: Result<ClaimResponse, ClaimResponseParserError>,
) -> bool {
    if patterns::claim_good_shape(s) is Some {
        parses_success_to(s, r)
    } else if patterns::claim_bad_shape(s) is Some {
        parses_cooldown_to(s, r)
    } else {
        r == Err::<ClaimResponse, ClaimResponseParserError>(ClaimResponseParserError::InvalidMessage)
    }
}

impl ClaimResponse {
    /// Classify a success-shaped reply.
    pub fn parse_success(s: &str) -> (r: Result<ClaimResponse, ClaimResponseParserError>)
        ensures
            parses_success_to(s@, r),
    {
        let p = match patterns::claim_good_pos(s) {
            None => { return Err(ClaimResponseParserError::ExpectedSuccess) },
            Some(p) => p,
        };
        proof {
            lemma_signed_value_capture(s@, p.a0 as int, p.d0 as int, p.d1 as int);
            lemma_signed_value_capture(s@, p.t0 as int, p.ts as int, p.t1 as int);
        }
        let amount = match parse_capture_i32(s, p.a0, p.d0, p.d1) {
            None => { return Err(ClaimResponseParserError::ParseIntError) },
            Some(v) => v,
        };
        let total = match parse_capture_i32(s, p.t0, p.ts, p.t1) {
            None => { return Err(ClaimResponseParserError::ParseIntError) },
            Some(v) => v,
        };
        let username = s.substring_char(p.u0, p.u1).to_owned();
        Ok(ClaimResponse::Success { username, amount, total })
    }

    /// Classify a cooldown-shaped reply.
    pub fn parse_cooldown(s: &str) -> (r: Result<ClaimResponse, ClaimResponseParserError>)
        ensures
            parses_cooldown_to(s@, r),
    {
        let p = match patterns::claim_bad_pos(s) {
            None => { return Err(ClaimResponseParserError::ExpectedBad) },
            Some(p) => p,
        };
        proof {
            lemma_digits_value_subrange(s@, p.m0 as int, p.m1 as int);
            lemma_digits_value_subrange(s@, p.s0 as int, p.s1 as int);
            lemma_signed_value_capture(s@, p.t0 as int, p.ts as int, p.t1 as int);
        }
        let minutes = match crate::text::parse_digits_u64(s, p.m0, p.m1) {
            None => { return Err(ClaimResponseParserError::ParseIntError) },
            Some(v) => v,
        };
        let seconds = match crate::text::parse_digits_u64(s, p.s0, p.s1) {
            None => { return Err(ClaimResponseParserError::ParseIntError) },
            Some(v) => v,
        };
        let total = match parse_capture_i32(s, p.t0, p.ts, p.t1) {
            None => { return Err(ClaimResponseParserError::ParseIntError) },
            Some(v) => v,
        };
        let username = s.substring_char(p.u0, p.u1).to_owned();
        Ok(ClaimResponse::Cooldown { username, minutes: Some(minutes), seconds: Some(seconds), total })
    }

    /// Classify one reply: the success shape wins over the cooldown shape.
    pub fn classify(s: &str) -> (r: Result<ClaimResponse, ClaimResponseParserError>)
        ensures
            parses_to(s@, r),
    {
        match Self::parse_success(s) {
            Err(ClaimResponseParserError::ExpectedSuccess) => match Self::parse_cooldown(s) {
                Err(ClaimResponseParserError::ExpectedBad) => Err(
                    ClaimResponseParserError::InvalidMessage,
                ),
                other => other,
            },
            other => other,
        }
    }
}

impl core::str::FromStr for ClaimResponse {
    type Err = ClaimResponseParserError;

    fn from_str(s: &str) -> Result<Self, Self::Err> {
        ClaimResponse::classify(s)
    }
}

/// Classification of a valid success-shaped reply extracts the addressee,
/// the signed amount and the total, and the numeric fields round-trip:
/// formatting the extracted magnitude reads back as the same value, with
/// the sign kept apart from the digits.
pub proof fn classify_success_extracts(
    s: Seq<char>,
    r: Result<ClaimResponse, ClaimResponseParserError>,
)
    requires
        parses_to(s, r),
        patterns::claim_good_shape(s) is Some,
        i32::MIN <= signed_value_of(patterns::claim_good_shape(s)->Some_0.amount) <= i32::MAX,
        i32::MIN <= signed_value_of(patterns::claim_good_shape(s)->Some_0.total) <= i32::MAX,
    ensures
        r matches Ok(ClaimResponse::Success { username, amount, total })
            && username@ == patterns::claim_good_shape(s)->Some_0.username
            && amount == signed_value_of(patterns::claim_good_shape(s)->Some_0.amount)
            && total == signed_value_of(patterns::claim_good_shape(s)->Some_0.total),
        r matches Ok(ClaimResponse::Success { amount, .. }) ==> (if amount >= 0 {
            seq_digits_value(dec_rep(amount as nat)) == amount
        } else {
            seq_digits_value(dec_rep((-amount) as nat)) == -amount
        }),
{
    let amount = r->Ok_0->Success_amount;
    if amount >= 0 {
        lemma_dec_rep_value(amount as nat);
    } else {
        lemma_dec_rep_value((-amount) as nat);
    }
}

/// Every classified cooldown reply of this grammar carries both the minutes
/// and the seconds component: the grammar does not allow either omission.
pub proof fn classify_cooldown_has_components(
    s: Seq<char>,
    r: Result<ClaimResponse, ClaimResponseParserError>,
)
    requires
        parses_to(s, r),
        r is Ok,
        r->Ok_0 is Cooldown,
    ensures
        r->Ok_0->Cooldown_minutes is Some,
        r->Ok_0->Cooldown_seconds is Some,
{
}

} // verus!
