//! The bot instance playing the leaf-claiming game.

use vstd::prelude::*;
use vstd::string::*;

use crate::bot::{comm_result, communicate, AttemptInput, Bot};
use crate::leavesbot::parser::{parses_to, ClaimResponse, ClaimResponseParserError};
use crate::leavesbot::patterns;
use crate::secrettoken::Token;

verus! {

/// The claim command of this game.
pub const CLAIM_MESSAGE: &'static str = "*leaves";

#[derive(Debug, Clone, Copy, PartialEq, Eq, Structural)]
pub enum Error {
    /// The presence oracle could not be asked.
    CheckChattersError(crate::bot::Error),
    /// No classified reply came back from the counterpart.
    CommunicationError(crate::bot::Error),
    /// The correlated reply could not be classified.
    ParseClaimResponse(ClaimResponseParserError),
}

#[derive(Debug)]
pub struct LeafBot {
    pub username: String,
    pub token: Token,
    pub channel: String,
}

impl Bot for LeafBot {
    open spec fn bot_id_spec(&self) -> Seq<char> {
        "731132488"@
    }

    open spec fn username_spec(&self) -> Seq<char> {
        self.username@
    }

    open spec fn channel_spec(&self) -> Seq<char> {
        self.channel@
    }

    open spec fn addressed_to(&self, text: Seq<char>) -> Option<Seq<char>> {
        patterns::generic_answer_shape(text)
    }

    open spec fn invalid_certs_spec(&self) -> bool {
        false
    }

    fn accepts_invalid_certs(&self) -> (r: bool) {
        false
    }

    fn get_channel(&self) -> (r: &str) {
        self.channel.as_str()
    }

    fn get_bot_id(&self) -> (r: &str) {
        "731132488"
    }

    fn get_username(&self) -> (r: &str) {
        self.username.as_str()
    }

    fn match_generic(&self, text: &str) -> (r: Option<String>) {
        patterns::generic_answer_username(text)
    }
}

/// Seconds to wait after a claim outcome: a success waits the fixed
/// one-hour cooldown, a cooldown reply waits the remaining time, with an
/// absent component counting as zero.
pub open spec fn wait_secs_spec(resp: ClaimResponse) -> int {
    match resp {
        ClaimResponse::Success { .. } => 3600,
        ClaimResponse::Cooldown { minutes, seconds, .. } => (match seconds {
            Some(x) => x as int,
            None => 0,
        }) + 60 * (match minutes {
            Some(x) => x as int,
            None => 0,
        }),
    }
}

/// Executable form of `wait_secs_spec`.
pub fn wait_secs(resp: &ClaimResponse) -> (r: u64)
    requires
        wait_secs_spec(*resp) <= u64::MAX,
    ensures
        r == wait_secs_spec(*resp),
{
    match resp {
        ClaimResponse::Success { .. } => 3600,
        ClaimResponse::Cooldown { minutes, seconds, .. } => {
            let m = match minutes {
                Some(x) => *x,
                None => 0,
            };
            let s = match seconds {
                Some(x) => *x,
                None => 0,
            };
            s + m * 60
        },
    }
}

impl LeafBot {
    pub fn new(username: String, token: Token, channel: String) -> (r: LeafBot)
        ensures
            r.username == username,
            r.token == token,
            r.channel == channel,
    {
        LeafBot { username, token, channel }
    }

    /// One claim: send the claim command against the scripted channel and
    /// classify the correlated reply.
    pub fn claim(&self, attempts: &Vec<AttemptInput>) -> (r: Result<ClaimResponse, Error>)
        ensures
            comm_result(self, attempts@, 0) matches Err(e) ==> r == Err::<ClaimResponse, Error>(
                Error::CommunicationError(e),
            ),
            comm_result(self, attempts@, 0) matches Ok(t) ==> (match r {
                Ok(resp) => parses_to(t, Ok(resp)),
                Err(Error::ParseClaimResponse(e)) => parses_to(t, Err(e)),
                Err(_) => false,
            }),
    {
        let report = communicate(self, CLAIM_MESSAGE, attempts);
        match report.outcome {
            Err(e) => Err(Error::CommunicationError(e)),
            Ok(t) => match ClaimResponse::classify(t.as_str()) {
                Ok(resp) => Ok(resp),
                Err(e) => Err(Error::ParseClaimResponse(e)),
            },
        }
    }
}

} // verus!
