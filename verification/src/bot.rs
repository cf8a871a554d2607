//! Request/response correlation and the retrying communicator.
//!
//! One logical request sends a command into the channel, waits for a reply
//! that is authored by the expected counterpart and addressed to the
//! calling identity, and classifies what came back.  A timeout is the only
//! retried failure; the attempt budget is four sends.

use vstd::prelude::*;
use vstd::string::*;

use crate::text::str_eq;

verus! {

/// The attempt budget: three retries, four sends in all.
pub const MAX_RETRIES: u32 = 3;

#[derive(Debug, Clone, Copy, PartialEq, Eq, Structural)]
pub enum Error {
    /// The channel refused the login; fatal for the owning instance.
    AuthenticateChatError,
    /// The incoming stream closed before any correlated reply arrived.
    ReceivedNoMessage,
    /// Every attempt timed out; carries the retry count.
    FailedCommunication(u32),
    /// A correlated reply matched none of the expected shapes.
    NoMatchingPattern,
}

#[derive(Debug, Clone, Copy, PartialEq, Eq, Structural)]
pub enum MessageKind {
    /// An ordinary channel message.
    Privmsg,
    /// A system notice.
    Notice,
    /// Anything else; never correlated.
    Other,
}

/// One message of the incoming stream, as the transport hands it over.
#[derive(Debug, Clone)]
pub struct IncomingMessage {
    pub sender_id: String,
    pub text: String,
    pub kind: MessageKind,
}

/// The capabilities of one bot instance that correlation needs: the
/// counterpart's identity, the caller's identity, the channel, and the
/// broad addressed-to-me reply shape of the counterpart's game.
pub trait Bot {
    spec fn bot_id_spec(&self) -> Seq<char>;

    spec fn username_spec(&self) -> Seq<char>;

    spec fn channel_spec(&self) -> Seq<char>;

    /// The addressee that the game's broad reply shape reads out of a
    /// message body, if the body has that shape.
    spec fn addressed_to(&self, text: Seq<char>) -> Option<Seq<char>>;

    /// Whether the transport may accept invalid certificates.
    spec fn invalid_certs_spec(&self) -> bool;

    /// Whether the transport may accept invalid certificates.
    fn accepts_invalid_certs(&self) -> (r: bool)
        ensures
            r == self.invalid_certs_spec(),
    ;

    /// The channel the bot sits in.
    fn get_channel(&self) -> (r: &str)
        ensures
            r@ == self.channel_spec(),
    ;

    /// The user id of the counterpart to talk with.
    fn get_bot_id(&self) -> (r: &str)
        ensures
            r@ == self.bot_id_spec(),
    ;

    /// The caller's own username.
    fn get_username(&self) -> (r: &str)
        ensures
            r@ == self.username_spec(),
    ;

    /// Match the game's broad addressed-reply shape against a message
    /// body, handing out the addressee.
    fn match_generic(&self, text: &str) -> (r: Option<String>)
        ensures
            match r {
                Some(u) => self.addressed_to(text@) == Some(u@),
                None => self.addressed_to(text@) is None,
            },
    ;
}

/// A message that correlates with the outstanding request: an ordinary
/// message, authored by the counterpart, addressed to the caller.
pub open spec fn is_correlated_reply<B: Bot>(bot: &B, m: IncomingMessage) -> bool {
    &&& m.kind is Privmsg
    &&& m.sender_id@ == bot.bot_id_spec()
    &&& bot.addressed_to(m.text@) == Some(bot.username_spec())
}

/// The notice that ends the instance: the channel refused the login.
pub open spec fn is_auth_failure(m: IncomingMessage) -> bool {
    m.kind is Notice && m.text@ == "Login authentication failed"@
}

/// What correlating a finite stream yields.
pub enum Correlation {
    /// The body of the first correlated reply.
    Matched(Seq<char>),
    /// An authentication-failure notice came first.
    AuthFailed,
    /// The stream closed with no correlated reply.
    Exhausted,
}

/// Correlate a finite message stream: the first correlated reply wins;
/// an authentication-failure notice wins over everything after it; a
/// stream that closes yields nothing.
pub open spec fn correlation<B: Bot>(bot: &B, msgs: Seq<IncomingMessage>) -> Correlation
    decreases msgs.len(),
{
    if msgs.len() == 0 {
        Correlation::Exhausted
    } else if is_correlated_reply(bot, msgs[0]) {
        Correlation::Matched(msgs[0].text@)
    } else if is_auth_failure(msgs[0]) {
        Correlation::AuthFailed
    } else {
        correlation(bot, msgs.drop_first())
    }
}

/// What one incoming message means for the outstanding request.
#[derive(Debug, Clone, PartialEq)]
pub enum CorrelationStep {
    /// The message is the correlated reply; carries its body.
    Matched(String),
    /// The message is the authentication-failure notice.
    AuthFailed,
    /// The message belongs to someone else; correlation goes on.
    Skipped,
}

/// Judge one message of the stream.
pub fn correlate_message<B: Bot>(bot: &B, m: &IncomingMessage) -> (r: CorrelationStep)
    ensures
        match r {
            CorrelationStep::Matched(t) => is_correlated_reply(bot, *m) && t@ == m.text@,
            CorrelationStep::AuthFailed => !is_correlated_reply(bot, *m) && is_auth_failure(*m),
            CorrelationStep::Skipped => !is_correlated_reply(bot, *m) && !is_auth_failure(*m),
        },
{
    match m.kind {
        MessageKind::Privmsg => {
            if str_eq(m.sender_id.as_str(), bot.get_bot_id()) {
                match bot.match_generic(m.text.as_str()) {
                    Some(u) => {
                        if str_eq(u.as_str(), bot.get_username()) {
                            CorrelationStep::Matched(m.text.clone())
                        } else {
                            CorrelationStep::Skipped
                        }
                    },
                    None => CorrelationStep::Skipped,
                }
            } else {
                CorrelationStep::Skipped
            }
        },
        MessageKind::Notice => {
            if str_eq(m.text.as_str(), "Login authentication failed") {
                CorrelationStep::AuthFailed
            } else {
                CorrelationStep::Skipped
            }
        },
        MessageKind::Other => CorrelationStep::Skipped,
    }
}

/// Wait for the correlated reply in a finite stream.
pub fn wait_for_answer<B: Bot>(bot: &B, messages: &Vec<IncomingMessage>) -> (r: Result<
    String,
    Error,
>)
    ensures
        match correlation(bot, messages@) {
            Correlation::Matched(t) => r matches Ok(x) && x@ == t,
            Correlation::AuthFailed => r == Err::<String, Error>(Error::AuthenticateChatError),
            Correlation::Exhausted => r == Err::<String, Error>(Error::ReceivedNoMessage),
        },
{
    proof {
        assert(messages@.skip(0) =~= messages@);
    }
    let mut i: usize = 0;
    while i < messages.len()
        invariant
            i <= messages.len(),
            correlation(bot, messages@) == correlation(bot, messages@.skip(i as int)),
        decreases messages.len() - i,
    {
        let m = &messages[i];
        proof {
            assert(messages@.skip(i as int)[0] == messages@[i as int]);
        }
        match correlate_message(bot, m) {
            CorrelationStep::Matched(t) => {
                return Ok(t);
            },
            CorrelationStep::AuthFailed => {
                return Err(Error::AuthenticateChatError);
            },
            CorrelationStep::Skipped => {
                proof {
                    assert(messages@.skip(i as int).drop_first() =~= messages@.skip(
                        i as int + 1,
                    ));
                }
            },
        }
        i = i + 1;
    }
    proof {
        assert(messages@.skip(messages@.len() as int).len() == 0);
    }
    Err(Error::ReceivedNoMessage)
}

/// The correlator never hands out a reply addressed to anyone but the
/// caller: a matched body always carries the caller's own identity as its
/// addressee, and comes from a message authored by the counterpart.
pub proof fn correlator_only_addressed<B: Bot>(bot: &B, msgs: Seq<IncomingMessage>, t: Seq<char>)
    requires
        correlation(bot, msgs) == Correlation::Matched(t),
    ensures
        bot.addressed_to(t) == Some(bot.username_spec()),
        exists|i: int|
            0 <= i < msgs.len() && is_correlated_reply(bot, msgs[i]) && msgs[i].text@ == t,
    decreases msgs.len(),
{
    if msgs.len() > 0 {
        if is_correlated_reply(bot, msgs[0]) {
            assert(msgs[0].text@ == t);
        } else if !is_auth_failure(msgs[0]) {
            correlator_only_addressed(bot, msgs.drop_first(), t);
            let i = choose|i: int|
                0 <= i < msgs.drop_first().len() && is_correlated_reply(
                    bot,
                    msgs.drop_first()[i],
                ) && msgs.drop_first()[i].text@ == t;
            assert(msgs.drop_first()[i] == msgs[i + 1]);
        }
    }
}

/// The invisible code point appended to every other send, so that two
/// textually identical consecutive commands are not dropped as duplicates.
pub open spec fn dup_marker() -> char {
    '\u{E0000}'
}

/// The command text of one send: even attempts carry the marker, odd
/// attempts do not.
pub open spec fn marked_message(m: Seq<char>, attempt: int) -> Seq<char> {
    if attempt % 2 == 0 {
        m.push(dup_marker())
    } else {
        m
    }
}

/// Build the command text of one send.
pub fn message_for_attempt(message: &str, attempt: u32) -> (r: String)
    ensures
        r@ == marked_message(message@, attempt as int),
{
    if attempt % 2 == 0 {
        let r = String::from_str(message).concat("\u{E0000}");
        proof {
            reveal_strlit("\u{E0000}");
            assert(r@ =~= message@.push('\u{E0000}'));
        }
        r
    } else {
        String::from_str(message)
    }
}

/// The anti-duplication marker alternates strictly: even sends carry it
/// as one extra final code point, odd sends are the bare command, and two
/// consecutive sends are never textually identical.
pub proof fn marker_alternates(m: Seq<char>, attempt: int)
    ensures
        attempt % 2 == 0 ==> marked_message(m, attempt).len() == m.len() + 1 && marked_message(
            m,
            attempt,
        ).last() == dup_marker() && marked_message(m, attempt).take(m.len() as int) == m,
        attempt % 2 != 0 ==> marked_message(m, attempt) == m,
        marked_message(m, attempt) != marked_message(m, attempt + 1),
{
    if attempt % 2 == 0 {
        assert(marked_message(m, attempt).take(m.len() as int) =~= m);
    } else {
        assert(marked_message(m, attempt + 1).len() == m.len() + 1);
    }
}

/// Backoff after the timeout of the given attempt: 2 to the power of
/// `attempt + 2` seconds.
pub open spec fn backoff_secs_spec(attempt: int) -> int {
    if attempt == 0 {
        4
    } else if attempt == 1 {
        8
    } else if attempt == 2 {
        16
    } else {
        32
    }
}

/// Executable form of `backoff_secs_spec`.
pub fn backoff_secs(attempt: u32) -> (r: u64)
    requires
        attempt <= 3,
    ensures
        r == backoff_secs_spec(attempt as int),
{
    match attempt {
        0 => 4,
        1 => 8,
        2 => 16,
        _ => 32,
    }
}

/// What the channel yielded during one attempt's wait budget.
#[derive(Debug, Clone)]
pub enum AttemptInput {
    /// Nothing arrived before the deadline.
    TimedOut,
    /// The stream yielded these messages and then closed.
    Received(Vec<IncomingMessage>),
}

/// The event of one attempt: a script shorter than the budget times the
/// remaining attempts out.
pub open spec fn attempt_event(attempts: Seq<AttemptInput>, i: int) -> AttemptInput {
    if 0 <= i < attempts.len() {
        attempts[i]
    } else {
        AttemptInput::TimedOut
    }
}

/// The outcome of one communicator invocation, starting at `retry`:
/// a timeout moves to the next attempt; anything else is final; after the
/// budget the invocation reports the retry count.
pub open spec fn comm_result<B: Bot>(
    bot: &B,
    attempts: Seq<AttemptInput>,
    retry: int,
) -> Result<Seq<char>, Error>
    decreases 4 - retry,
{
    if retry > 3 {
        Err(Error::FailedCommunication(MAX_RETRIES))
    } else {
        match attempt_event(attempts, retry) {
            AttemptInput::TimedOut => comm_result(bot, attempts, retry + 1),
            AttemptInput::Received(msgs) => match correlation(bot, msgs@) {
                Correlation::Matched(t) => Ok(t),
                Correlation::AuthFailed => Err(Error::AuthenticateChatError),
                Correlation::Exhausted => Err(Error::ReceivedNoMessage),
            },
        }
    }
}

/// How many sends one invocation makes, starting at `retry`.
pub open spec fn attempts_used(attempts: Seq<AttemptInput>, retry: int) -> int
    decreases 4 - retry,
{
    if retry > 3 {
        4
    } else {
        match attempt_event(attempts, retry) {
            AttemptInput::TimedOut => attempts_used(attempts, retry + 1),
            AttemptInput::Received(_) => retry + 1,
        }
    }
}

/// The transcript of one communicator invocation.
#[derive(Debug)]
pub struct CommReport {
    /// Every command text that was sent, in order.
    pub sent: Vec<String>,
    /// The final outcome.
    pub outcome: Result<String, Error>,
}

/// One logical request against a scripted channel: send the command with
/// the alternating marker, hand each reply batch to the correlator, retry
/// only on timeout, and give up after the budget.
pub fn communicate<B: Bot>(bot: &B, message: &str, attempts: &Vec<AttemptInput>) -> (r: CommReport)
    ensures
        r.sent@.len() == attempts_used(attempts@, 0),
        forall|i: int| 0 <= i < r.sent@.len() ==> r.sent@[i]@ == marked_message(message@, i),
        (match (r.outcome, comm_result(bot, attempts@, 0)) {
            (Ok(t), Ok(ts)) => t@ == ts,
            (Err(e), Err(es)) => e == es,
            _ => false,
        }),
{
    let mut sent: Vec<String> = Vec::new();
    let mut retry: u32 = 0;
    loop
        invariant
            retry <= 4,
            sent@.len() == retry,
            forall|i: int| 0 <= i < retry ==> sent@[i]@ == marked_message(message@, i),
            comm_result(bot, attempts@, 0) == comm_result(bot, attempts@, retry as int),
            attempts_used(attempts@, 0) == attempts_used(attempts@, retry as int),
        decreases 4 - retry,
    {
        if retry == 4 {
            return CommReport { sent, outcome: Err(Error::FailedCommunication(MAX_RETRIES)) };
        }
        let to_send = message_for_attempt(message, retry);
        sent.push(to_send);
        if (retry as usize) < attempts.len() {
            match &attempts[retry as usize] {
                AttemptInput::TimedOut => {},
                AttemptInput::Received(msgs) => {
                    let outcome = wait_for_answer(bot, msgs);
                    return CommReport { sent, outcome };
                },
            }
        }
        proof {
            assert(attempt_event(attempts@, retry as int) is TimedOut);
        }
        retry = retry + 1;
    }
}

proof fn comm_skip_timeouts<B: Bot>(bot: &B, attempts: Seq<AttemptInput>, upto: int, retry: int)
    requires
        0 <= retry <= upto,
        forall|i: int| 0 <= i < upto ==> attempt_event(attempts, i) is TimedOut,
    ensures
        upto <= 3 ==> comm_result(bot, attempts, retry) == comm_result(bot, attempts, upto)
            && attempts_used(attempts, retry) == attempts_used(attempts, upto),
        upto > 3 && retry <= 4 ==> comm_result(bot, attempts, retry) == Err::<Seq<char>, Error>(
            Error::FailedCommunication(MAX_RETRIES),
        ) && attempts_used(attempts, retry) == 4,
    decreases 4 - retry,
{
    if retry <= 3 && retry < upto {
        comm_skip_timeouts(bot, attempts, upto, retry + 1);
    }
}

/// On pure timeout the communicator sends exactly four attempts — the
/// original try and three retries — and then reports that communication
/// failed after three retries.
pub proof fn timeouts_exhaust_budget<B: Bot>(bot: &B, attempts: Seq<AttemptInput>)
    requires
        forall|i: int| 0 <= i < attempts.len() ==> attempts[i] is TimedOut,
    ensures
        comm_result(bot, attempts, 0) == Err::<Seq<char>, Error>(
            Error::FailedCommunication(MAX_RETRIES),
        ),
        attempts_used(attempts, 0) == 4,
{
    assert(forall|i: int| 0 <= i < 4 ==> attempt_event(attempts, i) is TimedOut);
    comm_skip_timeouts(bot, attempts, 4, 0);
}

/// A reply batch on attempt `k` short-circuits the remaining attempts:
/// exactly `k + 1` sends are made, and the outcome is what correlating
/// that batch yields.
pub proof fn reply_short_circuits<B: Bot>(bot: &B, attempts: Seq<AttemptInput>, k: int)
    requires
        0 <= k <= 3,
        k < attempts.len(),
        forall|i: int| 0 <= i < k ==> attempts[i] is TimedOut,
        attempts[k] is Received,
    ensures
        attempts_used(attempts, 0) == k + 1,
        comm_result(bot, attempts, 0) == (match correlation(bot, attempts[k]->Received_0@) {
            Correlation::Matched(t) => Ok::<Seq<char>, Error>(t),
            Correlation::AuthFailed => Err::<Seq<char>, Error>(Error::AuthenticateChatError),
            Correlation::Exhausted => Err::<Seq<char>, Error>(Error::ReceivedNoMessage),
        }),
{
    assert(forall|i: int| 0 <= i < k ==> attempt_event(attempts, i) is TimedOut);
    comm_skip_timeouts(bot, attempts, k, 0);
}

/// The member lists of a channel, as the presence oracle reports them.
#[derive(Debug, Clone)]
pub struct Chatters {
    pub broadcaster: Vec<String>,
    pub vips: Vec<String>,
    pub moderators: Vec<String>,
    pub staff: Vec<String>,
    pub admins: Vec<String>,
    pub global_mods: Vec<String>,
    pub viewers: Vec<String>,
}

/// The presence oracle's whole answer.
#[derive(Debug, Clone)]
pub struct ChatterResponse {
    pub chatter_count: u32,
    pub chatters: Chatters,
}

/// `x` appears in the list.
pub open spec fn in_list(l: Seq<String>, x: Seq<char>) -> bool {
    exists|i: int| 0 <= i < l.len() && l[i]@ == x
}

/// Does `x` appear in the list?
fn list_contains(l: &Vec<String>, x: &str) -> (r: bool)
    ensures
        r == in_list(l@, x@),
{
    let mut i: usize = 0;
    while i < l.len()
        invariant
            i <= l.len(),
            forall|j: int| 0 <= j < i ==> l@[j]@ != x@,
        decreases l.len() - i,
    {
        if str_eq(l[i].as_str(), x) {
            return true;
        }
        i = i + 1;
    }
    false
}

impl Chatters {
    /// Is `x` present in the channel, in any member list?
    pub fn contains(&self, x: &str) -> (r: bool)
        ensures
            r == (in_list(self.broadcaster@, x@) || in_list(self.vips@, x@) || in_list(
                self.moderators@,
                x@,
            ) || in_list(self.staff@, x@) || in_list(self.admins@, x@) || in_list(
                self.global_mods@,
                x@,
            ) || in_list(self.viewers@, x@)),
    {
        list_contains(&self.broadcaster, x) || list_contains(&self.vips, x) || list_contains(
            &self.moderators,
            x,
        ) || list_contains(&self.staff, x) || list_contains(&self.admins, x) || list_contains(
            &self.global_mods,
            x,
        ) || list_contains(&self.viewers, x)
    }
}

} // verus!
