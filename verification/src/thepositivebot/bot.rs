//! The bot instance playing the cookie-claiming game.

use vstd::prelude::*;
use vstd::string::*;

use crate::bot::{comm_result, communicate, AttemptInput, Bot};
use crate::secrettoken::Token;
use crate::thepositivebot::claimcookie::{
    cookie_parses_to, ClaimCookieResponse, ParseClaimCookieError,
};
use crate::thepositivebot::patterns;

verus! {

/// The claim command of this game.
pub const CLAIM_MESSAGE: &'static str = "!cookie";

/// The prestige-reset command.
pub const PRESTIGE_MESSAGE: &'static str = "!prestige";

/// The cooldown-reset purchase command.
pub const CDR_MESSAGE: &'static str = "!cdr";

#[derive(Debug, Clone, Copy, PartialEq, Eq)]
pub enum Error {
    /// The presence oracle could not be asked.
    CheckChattersError(crate::bot::Error),
    /// No classified reply came back from the counterpart.
    Communication(crate::bot::Error),
    /// The correlated reply could not be classified.
    ParseClaimCookie(ParseClaimCookieError),
}

#[derive(Debug)]
pub struct CookieBot {
    pub username: String,
    pub token: Token,
    pub channel: String,
    pub accept_invalid_certs: bool,
}

impl Bot for CookieBot {
    open spec fn bot_id_spec(&self) -> Seq<char> {
        "425363834"@
    }

    open spec fn username_spec(&self) -> Seq<char> {
        self.username@
    }

    open spec fn channel_spec(&self) -> Seq<char> {
        self.channel@
    }

    open spec fn addressed_to(&self, text: Seq<char>) -> Option<Seq<char>> {
        patterns::generic_answer_shape(text)
    }

    open spec fn invalid_certs_spec(&self) -> bool {
        self.accept_invalid_certs
    }

    fn accepts_invalid_certs(&self) -> (r: bool) {
        self.accept_invalid_certs
    }

    fn get_channel(&self) -> (r: &str) {
        self.channel.as_str()
    }

    fn get_bot_id(&self) -> (r: &str) {
        "425363834"
    }

    fn get_username(&self) -> (r: &str) {
        self.username.as_str()
    }

    fn match_generic(&self, text: &str) -> (r: Option<String>) {
        patterns::generic_answer_username(text)
    }
}

/// The follow-up purchases one claim outcome asks for.
#[derive(Debug, Clone, Copy, PartialEq, Eq, Structural)]
pub struct FollowUps {
    /// Buy a cooldown reset.
    pub buy_cdr: bool,
    /// Reset the rank for prestige.
    pub prestige: bool,
}

/// The threshold policy: a successful claim above the cooldown-reset
/// threshold buys a reset; a total at or above the prestige threshold
/// resets the rank.  The thresholds are configuration.
pub fn plan_follow_ups(resp: &ClaimCookieResponse, cdr_threshold: i32, prestige_threshold: u64) -> (r:
    FollowUps)
    ensures
        r.buy_cdr == (resp matches ClaimCookieResponse::Success { amount, .. } && amount
            > cdr_threshold),
        r.prestige == (resp matches ClaimCookieResponse::Success { total, .. } && total
            >= prestige_threshold),
{
    match resp {
        ClaimCookieResponse::Success { amount, total, .. } => FollowUps {
            buy_cdr: *amount > cdr_threshold,
            prestige: *total >= prestige_threshold,
        },
        ClaimCookieResponse::Cooldown { .. } => FollowUps { buy_cdr: false, prestige: false },
    }
}

impl CookieBot {
    pub fn new(username: String, token: Token, channel: String, accept_invalid_certs: bool) -> (r:
        CookieBot)
        ensures
            r.username == username,
            r.token == token,
            r.channel == channel,
            r.accept_invalid_certs == accept_invalid_certs,
    {
        CookieBot { username, token, channel, accept_invalid_certs }
    }

    /// One claim: send the claim command against the scripted channel and
    /// classify the correlated reply.
    pub fn claim_cookies(&self, attempts: &Vec<AttemptInput>) -> (r: Result<
        ClaimCookieResponse,
        Error,
    >)
        ensures
            comm_result(self, attempts@, 0) matches Err(e) ==> r == Err::<
                ClaimCookieResponse,
                Error,
            >(Error::Communication(e)),
            comm_result(self, attempts@, 0) matches Ok(t) ==> (match r {
                Ok(resp) => cookie_parses_to(t, Ok(resp)),
                Err(Error::ParseClaimCookie(e)) => cookie_parses_to(t, Err(e)),
                Err(_) => false,
            }),
    {
        let report = communicate(self, CLAIM_MESSAGE, attempts);
        match report.outcome {
            Err(e) => Err(Error::Communication(e)),
            Ok(t) => match ClaimCookieResponse::classify(t.as_str()) {
                Ok(resp) => Ok(resp),
                Err(e) => Err(Error::ParseClaimCookie(e)),
            },
        }
    }

    /// One prestige reset: `true` when the counterpart confirms the
    /// reset, `false` when it refuses, an error when the reply matches
    /// neither shape.
    pub fn prestige(&self, attempts: &Vec<AttemptInput>) -> (r: Result<bool, crate::bot::Error>)
        ensures
            comm_result(self, attempts@, 0) matches Err(e) ==> r == Err::<bool, crate::bot::Error>(
                e,
            ),
            comm_result(self, attempts@, 0) matches Ok(t) ==> (match r {
                Ok(true) => patterns::prestige_good_shape(t) is Some,
                Ok(false) => patterns::prestige_good_shape(t) is None
                    && patterns::prestige_bad_shape(t) is Some,
                Err(e) => e == crate::bot::Error::NoMatchingPattern
                    && patterns::prestige_good_shape(t) is None && patterns::prestige_bad_shape(t)
                    is None,
            }),
    {
        let report = communicate(self, PRESTIGE_MESSAGE, attempts);
        match report.outcome {
            Err(e) => Err(e),
            Ok(t) => {
                if matches!(patterns::prestige_good_captures(t.as_str()), Some(_)) {
                    Ok(true)
                } else if matches!(patterns::prestige_bad_username(t.as_str()), Some(_)) {
                    Ok(false)
                } else {
                    Err(crate::bot::Error::NoMatchingPattern)
                }
            },
        }
    }

    /// One cooldown-reset purchase: `true` when the counterpart confirms
    /// the reset, `false` when the reset is still on its own cooldown, an
    /// error when the reply matches neither shape.
    pub fn buy_cdr(&self, attempts: &Vec<AttemptInput>) -> (r: Result<bool, crate::bot::Error>)
        ensures
            comm_result(self, attempts@, 0) matches Err(e) ==> r == Err::<bool, crate::bot::Error>(
                e,
            ),
            comm_result(self, attempts@, 0) matches Ok(t) ==> (match r {
                Ok(true) => patterns::buy_cdr_good_shape(t) is Some,
                Ok(false) => patterns::buy_cdr_good_shape(t) is None
                    && patterns::buy_cdr_bad_shape(t) is Some,
                Err(e) => e == crate::bot::Error::NoMatchingPattern
                    && patterns::buy_cdr_good_shape(t) is None && patterns::buy_cdr_bad_shape(t)
                    is None,
            }),
    {
        let report = communicate(self, CDR_MESSAGE, attempts);
        match report.outcome {
            Err(e) => Err(e),
            Ok(t) => {
                if matches!(patterns::buy_cdr_good_username(t.as_str()), Some(_)) {
                    Ok(true)
                } else if matches!(patterns::buy_cdr_bad_pos(t.as_str()), Some(_)) {
                    Ok(false)
                } else {
                    Err(crate::bot::Error::NoMatchingPattern)
                }
            },
        }
    }
}

} // verus!
