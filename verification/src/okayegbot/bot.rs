//! The bot instance playing the egg-claiming game.

use vstd::prelude::*;
use vstd::string::*;

use crate::bot::{comm_result, communicate, AttemptInput, Bot};
use crate::okayegbot::parser::{parses_to, ClaimEgs, ClaimEgsParserError};
use crate::okayegbot::patterns;
use crate::secrettoken::Token;

verus! {

/// The claim command of this game.
pub const CLAIM_MESSAGE: &'static str = "=eg";

#[derive(Debug, Clone, Copy, PartialEq, Eq, Structural)]
pub enum Error {
    /// No classified reply came back from the counterpart.
    Communication(crate::bot::Error),
    /// The correlated reply could not be classified.
    ParseClaimEgs(ClaimEgsParserError),
    /// The presence oracle could not be asked.
    CheckChatters(crate::bot::Error),
}

#[derive(Debug)]
pub struct EgBot {
    pub username: String,
    pub token: Token,
    pub channel: String,
}

impl Bot for EgBot {
    open spec fn bot_id_spec(&self) -> Seq<char> {
        "75501168"@
    }

    open spec fn username_spec(&self) -> Seq<char> {
        self.username@
    }

    open spec fn channel_spec(&self) -> Seq<char> {
        self.channel@
    }

    open spec fn addressed_to(&self, text: Seq<char>) -> Option<Seq<char>> {
        patterns::generic_answer_shape(text)
    }

    open spec fn invalid_certs_spec(&self) -> bool {
        false
    }

    fn accepts_invalid_certs(&self) -> (r: bool) {
        false
    }

    fn get_channel(&self) -> (r: &str) {
        self.channel.as_str()
    }

    fn get_bot_id(&self) -> (r: &str) {
        "75501168"
    }

    fn get_username(&self) -> (r: &str) {
        self.username.as_str()
    }

    fn match_generic(&self, text: &str) -> (r: Option<String>) {
        patterns::generic_answer_username(text)
    }
}

/// Seconds to wait after a claim outcome: a success waits the fixed
/// one-hour cooldown, a cooldown reply waits the remaining time, with an
/// absent component counting as zero.
pub open spec fn wait_secs_spec(resp: ClaimEgs) -> int {
    match resp {
        ClaimEgs::Success { .. } => 3600,
        ClaimEgs::Failure { minutes, seconds, .. } => (match seconds {
            Some(x) => x as int,
            None => 0,
        }) + 60 * (match minutes {
            Some(x) => x as int,
            None => 0,
        }),
    }
}

/// Executable form of `wait_secs_spec`.
pub fn wait_secs(resp: &ClaimEgs) -> (r: u64)
    requires
        wait_secs_spec(*resp) <= u64::MAX,
    ensures
        r == wait_secs_spec(*resp),
{
    match resp {
        ClaimEgs::Success { .. } => 3600,
        ClaimEgs::Failure { minutes, seconds, .. } => {
            let m = match minutes {
                Some(x) => *x,
                None => 0,
            };
            let s = match seconds {
                Some(x) => *x,
                None => 0,
            };
            s + m * 60
        },
    }
}

/// A cooldown reply with only the minutes component waits exactly the
/// minutes, with zero seconds; one with only seconds would wait exactly
/// the seconds.  The grammar never omits the minutes, so a classified
/// cooldown always carries them.
pub proof fn wait_secs_component_laws(resp: ClaimEgs, s: Seq<char>)
    ensures
        resp matches ClaimEgs::Failure { minutes: Some(m), seconds: None, .. } ==> wait_secs_spec(
            resp,
        ) == 60 * m,
        resp matches ClaimEgs::Failure { minutes: None, seconds: Some(sec), .. }
            ==> wait_secs_spec(resp) == sec,
        (parses_to(s, Ok(resp)) && resp is Failure) ==> resp->Failure_minutes is Some,
{
}

/// Remaining claim cooldown: one hour past the oracle's last-use time.
pub open spec fn remaining_cooldown_spec(last_used: int, now: int) -> Option<int> {
    if last_used + 3600 > now {
        Some(last_used + 3600 - now)
    } else {
        None
    }
}

/// Executable form of `remaining_cooldown_spec`, over seconds of one
/// clock.
pub fn remaining_cooldown(last_used: i64, now: i64) -> (r: Option<u64>)
    requires
        last_used + 3600 <= i64::MAX,
        last_used + 3600 - now <= i64::MAX,
    ensures
        match r {
            Some(v) => remaining_cooldown_spec(last_used as int, now as int) == Some(v as int),
            None => remaining_cooldown_spec(last_used as int, now as int) is None,
        },
{
    let deadline = last_used + 3600;
    if deadline > now {
        Some((deadline - now) as u64)
    } else {
        None
    }
}

impl EgBot {
    pub fn new(username: String, token: Token, channel: String) -> (r: EgBot)
        ensures
            r.username == username,
            r.token == token,
            r.channel == channel,
    {
        EgBot { username, token, channel }
    }

    /// One claim: send the claim command against the scripted channel and
    /// classify the correlated reply.
    pub fn claim_egs(&self, attempts: &Vec<AttemptInput>) -> (r: Result<ClaimEgs, Error>)
        ensures
            comm_result(self, attempts@, 0) matches Err(e) ==> r == Err::<ClaimEgs, Error>(
                Error::Communication(e),
            ),
            comm_result(self, attempts@, 0) matches Ok(t) ==> (match r {
                Ok(resp) => parses_to(t, Ok(resp)),
                Err(Error::ParseClaimEgs(e)) => parses_to(t, Err(e)),
                Err(_) => false,
            }),
    {
        let report = communicate(self, CLAIM_MESSAGE, attempts);
        match report.outcome {
            Err(e) => Err(Error::Communication(e)),
            Ok(t) => match ClaimEgs::classify(t.as_str()) {
                Ok(resp) => Ok(resp),
                Err(e) => Err(Error::ParseClaimEgs(e)),
            },
        }
    }
}

} // verus!
