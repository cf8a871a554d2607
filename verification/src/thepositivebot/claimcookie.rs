//! Classifier for claim replies of the cookie-claiming counterpart.

use vstd::prelude::*;
use vstd::string::*;

use crate::text::{
    digits_end, digits_end_at, digits_value, find_from, first_match, lemma_digits_value_subrange,
    lemma_signed_value_capture, parse_capture_i32, parse_digits_u64, seq_digits_value,
    signed_value_of, u64_string, ws_back, ws_end, ws_end_at, ws_start_back,
};
use crate::thepositivebot::patterns;
use crate::thepositivebot::rank::{rank_of_name, ParseRankError, Rank};

verus! {

#[derive(Debug, Clone, Copy, PartialEq, Eq, Structural)]
pub enum ParsePresigeRankError {
    /// The rank text does not begin with `P`.
    MissingP,
    /// The prestige number before `:` cannot be read.
    ParsePrestigeError,
    /// No prestige part stands before `:`.
    MissingPrestigePart,
    /// No rank part stands after `:`.
    MissingRankPart,
    /// The rank word after `:` is unknown.
    ParseRankError(ParseRankError),
}

/// A prestige level together with a rank, written `"P<n>: <rank>"`.
#[derive(Debug, Clone, Copy, PartialEq, Eq, Structural)]
pub struct PrestigeRank {
    pub prestige: u32,
    pub rank: Rank,
}

/// What parsing a prestige rank yields: after the leading `P` comes the
/// prestige number up to the first `:`, then the rank word, trimmed of
/// surrounding whitespace.
pub open spec fn prestige_rank_spec(t: Seq<char>) -> Result<PrestigeRank, ParsePresigeRankError> {
    if !(t.len() > 0 && t[0] == 'P') {
        Err(ParsePresigeRankError::MissingP)
    } else {
        match first_match(t, 1, ":"@) {
            None => {
                if t.len() > 1 && digits_end_at(t, 1) == t.len() && digits_value(
                    t,
                    1,
                    t.len() as int,
                ) <= u32::MAX {
                    Err(ParsePresigeRankError::MissingRankPart)
                } else {
                    Err(ParsePresigeRankError::ParsePrestigeError)
                }
            },
            Some(ci) => {
                if !(ci > 1 && digits_end_at(t, 1) == ci && digits_value(t, 1, ci)
                    <= u32::MAX) {
                    Err(ParsePresigeRankError::ParsePrestigeError)
                } else {
                    let p1 = match first_match(t, ci + 1, ":"@) {
                        Some(c2) => c2,
                        None => t.len() as int,
                    };
                    let a = ws_end_at(t, ci + 1);
                    let b = ws_start_back(t, p1);
                    let name = if a <= b {
                        t.subrange(a, b)
                    } else {
                        Seq::<char>::empty()
                    };
                    match rank_of_name(name) {
                        None => Err(
                            ParsePresigeRankError::ParseRankError(ParseRankError::UnkownRankError),
                        ),
                        Some(k) => Ok(
                            PrestigeRank { prestige: digits_value(t, 1, ci) as u32, rank: k },
                        ),
                    }
                }
            },
        }
    }
}

impl PrestigeRank {
    /// Parse a prestige rank such as `"P6: default"`.
    pub fn parse(s: &str) -> (r: Result<PrestigeRank, ParsePresigeRankError>)
        ensures
            r == prestige_rank_spec(s@),
    {
        let n = s.unicode_len();
        if !(n > 0 && s.get_char(0) == 'P') {
            return Err(ParsePresigeRankError::MissingP);
        }
        let d1 = digits_end(s, 1);
        proof {
            crate::text::lemma_digits_end_at(s@, 1);
        }
        let ci = match find_from(s, 1, ":") {
            None => {
                if n > 1 && d1 == n {
                    match parse_digits_u64(s, 1, n) {
                        Some(v) if v <= 0xffff_ffffu64 => {
                            return Err(ParsePresigeRankError::MissingRankPart);
                        },
                        _ => {
                            return Err(ParsePresigeRankError::ParsePrestigeError);
                        },
                    }
                } else {
                    return Err(ParsePresigeRankError::ParsePrestigeError);
                }
            },
            Some(ci) => ci,
        };
        proof {
            crate::text::lemma_first_match(s@, 1, ":"@);
        }
        if !(ci > 1 && d1 == ci) {
            return Err(ParsePresigeRankError::ParsePrestigeError);
        }
        let prestige = match parse_digits_u64(s, 1, ci) {
            Some(v) if v <= 0xffff_ffffu64 => v as u32,
            _ => {
                return Err(ParsePresigeRankError::ParsePrestigeError);
            },
        };
        let p1 = match find_from(s, ci + 1, ":") {
            Some(c2) => c2,
            None => n,
        };
        proof {
            crate::text::lemma_first_match(s@, ci + 1, ":"@);
            crate::text::lemma_ws_end_at(s@, ci + 1);
            crate::text::lemma_ws_start_back(s@, p1 as int);
        }
        let a = ws_end(s, ci + 1);
        let b = ws_back(s, p1);
        let name = if a <= b {
            s.substring_char(a, b)
        } else {
            proof {
                reveal_strlit("");
                assert(""@ =~= Seq::<char>::empty());
            }
            ""
        };
        match Rank::parse_name(name) {
            Err(_) => Err(ParsePresigeRankError::ParseRankError(ParseRankError::UnkownRankError)),
            Ok(k) => Ok(PrestigeRank { prestige, rank: k }),
        }
    }

    /// The canonical text of the prestige rank, `"P<n>: <rank>"`.
    pub fn to_text(&self) -> (r: String)
        ensures
            r@ == "P"@ + crate::text::dec_rep(self.prestige as nat) + ": "@ + self.rank.name_spec(),
    {
        let mut out = String::from_str("P");
        let num = u64_string(self.prestige as u64);
        out.append(num.as_str());
        out.append(": ");
        out.append(self.rank.name());
        out
    }
}

impl core::str::FromStr for PrestigeRank {
    type Err = ParsePresigeRankError;

    fn from_str(s: &str) -> Result<Self, Self::Err> {
        PrestigeRank::parse(s)
    }
}

/// Result of a claim command.
#[derive(Debug, Clone, PartialEq, Eq)]
pub enum ClaimCookieResponse {
    /// The claim succeeded.
    Success { rank: PrestigeRank, name: String, amount: i32, total: u64 },
    /// The claim came during the cooldown.
    Cooldown { rank: PrestigeRank, total: u64 },
}

#[derive(Debug, Clone, Copy, PartialEq, Eq)]
pub enum ParseClaimCookieError {
    /// A matched reply misses the named capture.
    MissingCaptureGroup(&'static str),
    /// The rank field cannot be read as a prestige rank.
    ParsePrestigeRankError(ParsePresigeRankError),
    /// A numeric field does not fit its type.
    ParseIntError,
    /// The reply matches neither recognized shape.
    InvalidInput,
}

/// What `classify` returns for a given reply text.
pub open spec fn cookie_parses_to(
    s: Seq<char>,
    r: Result<ClaimCookieResponse, ParseClaimCookieError>,
) -> bool {
    match patterns::claim_good_shape(s) {
        Some(g) => match prestige_rank_spec(g.rank) {
            Err(e) => r == Err::<ClaimCookieResponse, ParseClaimCookieError>(
                ParseClaimCookieError::ParsePrestigeRankError(e),
            ),
            Ok(pr) => {
                let a = signed_value_of(g.amount);
                let t = seq_digits_value(g.total);
                if i32::MIN <= a <= i32::MAX && t <= u64::MAX {
                    r matches Ok(ClaimCookieResponse::Success { rank, name, amount, total })
                        && rank == pr && name@ == g.cookie && amount == a && total == t
                } else {
                    r == Err::<ClaimCookieResponse, ParseClaimCookieError>(
                        ParseClaimCookieError::ParseIntError,
                    )
                }
            },
        },
        None => match patterns::claim_bad_shape(s) {
            Some(g) => match prestige_rank_spec(g.rank) {
                Err(e) => r == Err::<ClaimCookieResponse, ParseClaimCookieError>(
                    ParseClaimCookieError::ParsePrestigeRankError(e),
                ),
                Ok(pr) => {
                    let t = seq_digits_value(g.total);
                    if t <= u64::MAX {
                        r matches Ok(ClaimCookieResponse::Cooldown { rank, total }) && rank == pr
                            && total == t
                    } else {
                        r == Err::<ClaimCookieResponse, ParseClaimCookieError>(
                            ParseClaimCookieError::ParseIntError,
                        )
                    }
                },
            },
            None => r == Err::<ClaimCookieResponse, ParseClaimCookieError>(
                ParseClaimCookieError::InvalidInput,
            ),
        },
    }
}

impl ClaimCookieResponse {
    /// Classify one claim reply: the success shape wins over the cooldown
    /// shape.
    pub fn classify(s: &str) -> (r: Result<ClaimCookieResponse, ParseClaimCookieError>)
        ensures
            cookie_parses_to(s@, r),
    {
        if let Some(p) = patterns::claim_good_pos(s) {
            let rank_cap = s.substring_char(p.r0, p.re).to_owned();
            let pr = match PrestigeRank::parse(rank_cap.as_str()) {
                Err(e) => { return Err(ParseClaimCookieError::ParsePrestigeRankError(e)) },
                Ok(pr) => pr,
            };
            proof {
                lemma_signed_value_capture(s@, p.a0 as int, p.d0 as int, p.d1 as int);
                lemma_digits_value_subrange(s@, p.t0 as int, p.t1 as int);
            }
            let amount = match parse_capture_i32(s, p.a0, p.d0, p.d1) {
                None => { return Err(ParseClaimCookieError::ParseIntError) },
                Some(v) => v,
            };
            let total = match parse_digits_u64(s, p.t0, p.t1) {
                None => { return Err(ParseClaimCookieError::ParseIntError) },
                Some(v) => v,
            };
            let name = s.substring_char(p.c0, p.ce).to_owned();
            Ok(ClaimCookieResponse::Success { rank: pr, name, amount, total })
        } else if let Some(p) = patterns::claim_bad_pos(s) {
            let rank_cap = s.substring_char(p.r0, p.re).to_owned();
            let pr = match PrestigeRank::parse(rank_cap.as_str()) {
                Err(e) => { return Err(ParseClaimCookieError::ParsePrestigeRankError(e)) },
                Ok(pr) => pr,
            };
            proof {
                lemma_digits_value_subrange(s@, p.t0 as int, p.t1 as int);
            }
            let total = match parse_digits_u64(s, p.t0, p.t1) {
                None => { return Err(ParseClaimCookieError::ParseIntError) },
                Some(v) => v,
            };
            Ok(ClaimCookieResponse::Cooldown { rank: pr, total })
        } else {
            Err(ParseClaimCookieError::InvalidInput)
        }
    }
}

impl core::str::FromStr for ClaimCookieResponse {
    type Err = ParseClaimCookieError;

    fn from_str(s: &str) -> Result<Self, Self::Err> {
        ClaimCookieResponse::classify(s)
    }
}

/// A successfully classified claim extracts exactly the reply's rank,
/// cookie name, signed amount and total; the amount's magnitude
/// round-trips through formatting; and the neutral marker `\u{B1}` acts
/// as a plain positive sign, so the extracted value does not depend on
/// which of the two non-negative markers the reply used.
pub proof fn classify_success_extracts(
    s: Seq<char>,
    r: Result<ClaimCookieResponse, ParseClaimCookieError>,
)
    requires
        cookie_parses_to(s, r),
        r is Ok,
        r->Ok_0 is Success,
    ensures
        patterns::claim_good_shape(s) matches Some(g) && prestige_rank_spec(g.rank) == Ok::<
            PrestigeRank,
            ParsePresigeRankError,
        >(r->Ok_0->Success_rank) && r->Ok_0->Success_name@ == g.cookie && r->Ok_0->Success_amount
            == signed_value_of(g.amount) && r->Ok_0->Success_total == seq_digits_value(g.total),
        ({
            let a = r->Ok_0->Success_amount;
            if a >= 0 {
                seq_digits_value(crate::text::dec_rep(a as nat)) == a
            } else {
                seq_digits_value(crate::text::dec_rep((-a) as nat)) == -a
            }
        }),
        forall|d: Seq<char>|
            #![trigger signed_value_of(seq!['\u{B1}'].add(d))]
            signed_value_of(seq!['\u{B1}'].add(d)) == signed_value_of(seq!['+'].add(d)),
{
    let a = r->Ok_0->Success_amount;
    if a >= 0 {
        crate::text::lemma_dec_rep_value(a as nat);
    } else {
        crate::text::lemma_dec_rep_value((-a) as nat);
    }
    assert forall|d: Seq<char>|
        signed_value_of(seq!['\u{B1}'].add(d)) == signed_value_of(seq!['+'].add(d)) by {
        let n = seq!['\u{B1}'].add(d);
        let p = seq!['+'].add(d);
        assert(n.subrange(1, n.len() as int) =~= d);
        assert(p.subrange(1, p.len() as int) =~= d);
    }
}

} // verus!
