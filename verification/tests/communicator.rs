use cookiebot::bot::{
    communicate, correlate_message, message_for_attempt, wait_for_answer, AttemptInput,
    CorrelationStep, Error, IncomingMessage, MessageKind,
};
use cookiebot::leavesbot::parser::ClaimResponse;
use cookiebot::{LeafBot, Token};

fn leaf_bot() -> LeafBot {
    LeafBot::new(
        "chronophylos".to_string(),
        Token::new("SECRET-REDACTED".to_string()),
        "somechannel".to_string(),
    )
}

fn privmsg(sender_id: &str, text: &str) -> IncomingMessage {
    IncomingMessage {
        sender_id: sender_id.to_string(),
        text: text.to_string(),
        kind: MessageKind::Privmsg,
    }
}

fn notice(text: &str) -> IncomingMessage {
    IncomingMessage {
        sender_id: "tmi".to_string(),
        text: text.to_string(),
        kind: MessageKind::Notice,
    }
}

const GOOD_REPLY: &str =
    "🍃 @chronophylos > Four Leaf Clover 🍀 (+24) | You've got 34 leaves now! | Get more leaves in 1 hour...";

#[test]
fn pure_timeout_gives_up_after_four_sends() {
    let bot = leaf_bot();
    let attempts: Vec<AttemptInput> = vec![
        AttemptInput::TimedOut,
        AttemptInput::TimedOut,
        AttemptInput::TimedOut,
        AttemptInput::TimedOut,
    ];
    let report = communicate(&bot, "*leaves", &attempts);

    assert_eq!(report.outcome, Err(Error::FailedCommunication(3)));
    assert_eq!(report.sent.len(), 4);
}

#[test]
fn marker_alternates_across_sends() {
    let bot = leaf_bot();
    let report = communicate(&bot, "*leaves", &Vec::new());

    assert_eq!(report.sent.len(), 4);
    assert_eq!(report.sent[0], "*leaves\u{E0000}");
    assert_eq!(report.sent[1], "*leaves");
    assert_eq!(report.sent[2], "*leaves\u{E0000}");
    assert_eq!(report.sent[3], "*leaves");

    assert_eq!(message_for_attempt("*leaves", 0), "*leaves\u{E0000}");
    assert_eq!(message_for_attempt("*leaves", 1), "*leaves");
}

#[test]
fn reply_short_circuits_remaining_attempts() {
    let bot = leaf_bot();
    let attempts = vec![
        AttemptInput::TimedOut,
        AttemptInput::Received(vec![privmsg("731132488", GOOD_REPLY)]),
        AttemptInput::TimedOut,
        AttemptInput::TimedOut,
    ];
    let report = communicate(&bot, "*leaves", &attempts);

    assert_eq!(report.sent.len(), 2);
    assert_eq!(report.outcome, Ok(GOOD_REPLY.to_string()));
}

#[test]
fn stream_of_mixed_authors_yields_the_addressed_reply() {
    let bot = leaf_bot();
    let stream = vec![
        privmsg("999999", "🍃 @someoneelse > Four Leaf Clover 🍀 (+2) | You've got 9 leaves now! | Get more leaves in 1 hour..."),
        privmsg("731132488", GOOD_REPLY),
    ];
    let attempts = vec![AttemptInput::Received(stream)];
    let resp = bot.claim(&attempts).unwrap();

    assert_eq!(
        resp,
        ClaimResponse::Success { username: "chronophylos".to_string(), amount: 24, total: 34 }
    );
}

#[test]
fn wrong_addressee_is_ignored() {
    let bot = leaf_bot();
    let other = privmsg("731132488", "🍃 @someoneelse > Four Leaf Clover 🍀 (+24) | You've got 34 leaves now! | Get more leaves in 1 hour...");
    assert_eq!(correlate_message(&bot, &other), CorrelationStep::Skipped);

    let wrong_author = privmsg("999999", GOOD_REPLY);
    assert_eq!(correlate_message(&bot, &wrong_author), CorrelationStep::Skipped);

    let matching = privmsg("731132488", GOOD_REPLY);
    assert_eq!(
        correlate_message(&bot, &matching),
        CorrelationStep::Matched(GOOD_REPLY.to_string())
    );
}

#[test]
fn auth_failure_notice_short_circuits() {
    let bot = leaf_bot();
    let stream = vec![notice("Login authentication failed"), privmsg("731132488", GOOD_REPLY)];
    assert_eq!(wait_for_answer(&bot, &stream), Err(Error::AuthenticateChatError));
}

#[test]
fn exhausted_stream_is_distinct_from_timeout() {
    let bot = leaf_bot();
    let attempts = vec![AttemptInput::Received(Vec::new())];
    let report = communicate(&bot, "*leaves", &attempts);

    assert_eq!(report.sent.len(), 1);
    assert_eq!(report.outcome, Err(Error::ReceivedNoMessage));
}
