use cookiebot::bot::{backoff_secs, AttemptInput, Chatters, Error, IncomingMessage, MessageKind};
use cookiebot::leavesbot;
use cookiebot::leavesbot::parser::ClaimResponse;
use cookiebot::okayegbot;
use cookiebot::okayegbot::parser::ClaimEgs;
use cookiebot::thepositivebot::bot::plan_follow_ups;
use cookiebot::thepositivebot::claimcookie::{ClaimCookieResponse, PrestigeRank};
use cookiebot::thepositivebot::rank::Rank;
use cookiebot::{CookieBot, EgBot, Timestamp, Toggle, Token};

fn cookie_bot() -> CookieBot {
    CookieBot::new(
        "chronophylos".to_string(),
        Token::new("SECRET-REDACTED".to_string()),
        "somechannel".to_string(),
        false,
    )
}

fn reply(text: &str) -> Vec<AttemptInput> {
    vec![AttemptInput::Received(vec![IncomingMessage {
        sender_id: "425363834".to_string(),
        text: text.to_string(),
        kind: MessageKind::Privmsg,
    }])]
}

#[test]
fn backoff_grows_exponentially() {
    assert_eq!(backoff_secs(0), 4);
    assert_eq!(backoff_secs(1), 8);
    assert_eq!(backoff_secs(2), 16);
    assert_eq!(backoff_secs(3), 32);
}

#[test]
fn leaves_wait_after_claim() {
    let success =
        ClaimResponse::Success { username: "chronophylos".to_string(), amount: 24, total: 34 };
    assert_eq!(leavesbot::bot::wait_secs(&success), 3600);

    let cooldown = ClaimResponse::Cooldown {
        username: "chronophylos".to_string(),
        minutes: Some(45),
        seconds: Some(58),
        total: 34,
    };
    assert_eq!(leavesbot::bot::wait_secs(&cooldown), 45 * 60 + 58);
}

#[test]
fn egs_wait_with_minutes_only_has_zero_seconds() {
    let cooldown = ClaimEgs::Failure {
        username: "chronophylos".to_string(),
        minutes: Some(50),
        seconds: None,
        total: 30,
    };
    assert_eq!(okayegbot::bot::wait_secs(&cooldown), 50 * 60);

    let full = ClaimEgs::Failure {
        username: "chronophylos".to_string(),
        minutes: Some(10),
        seconds: Some(56),
        total: 60,
    };
    assert_eq!(okayegbot::bot::wait_secs(&full), 10 * 60 + 56);
}

#[test]
fn eg_cooldown_from_oracle_times() {
    assert_eq!(okayegbot::bot::remaining_cooldown(1000, 500), Some(4100));
    assert_eq!(okayegbot::bot::remaining_cooldown(1000, 4600), None);
    assert_eq!(okayegbot::bot::remaining_cooldown(1000, 4599), Some(1));
}

#[test]
fn egbot_scripted_claim() {
    let bot = EgBot::new(
        "chronophylos".to_string(),
        Token::new("SECRET-REDACTED".to_string()),
        "somechannel".to_string(),
    );
    let attempts = vec![AttemptInput::Received(vec![IncomingMessage {
        sender_id: "75501168".to_string(),
        text: "@chronophylos | is this a YOLK? nam1Okayeg | +1 egs | Total egs: 92 🥚 ".to_string(),
        kind: MessageKind::Privmsg,
    }])];
    let resp = bot.claim_egs(&attempts).unwrap();

    assert_eq!(
        resp,
        ClaimEgs::Success { username: "chronophylos".to_string(), amount: 1, total: 92 }
    );
}

#[test]
fn cookiebot_scripted_claim_with_zero_amount() {
    let bot = cookie_bot();
    let attempts = reply(
        "[Cookies] [P2: silver] chronophylos -> Nothing Found!! (±0) RPGEmpty | 84 total! | 2 hour cooldown... 🍪 ",
    );
    let resp = bot.claim_cookies(&attempts).unwrap();

    assert_eq!(
        resp,
        ClaimCookieResponse::Success {
            rank: PrestigeRank { prestige: 2, rank: Rank::Silver },
            name: "Nothing Found".to_string(),
            amount: 0,
            total: 84
        }
    );
}

#[test]
fn cookiebot_prestige_requests() {
    let bot = cookie_bot();

    let confirmed = reply("[Cookies] chronophylos you reset your rank and are now [P1: default]! PartyHat PogChamp The next rank is Bronze (50 🍪 )! Have fun climbing back up :)");
    assert_eq!(bot.prestige(&confirmed), Ok(true));

    let refused = reply("[Cookies] chronophylos you are not ranked high enough to Prestige yet! FeelsBadMan You need Leader rank OR 5000+ cookies!");
    assert_eq!(bot.prestige(&refused), Ok(false));

    let unrelated = reply("[Cookies] chronophylos something entirely different");
    assert_eq!(bot.prestige(&unrelated), Err(Error::NoMatchingPattern));
}

#[test]
fn cookiebot_buy_cdr_requests() {
    let bot = cookie_bot();

    let confirmed =
        reply("[Shop] chronophylos, your cooldown has been reset! (-7) Good Luck... ThankEgg");
    assert_eq!(bot.buy_cdr(&confirmed), Ok(true));

    let refused = reply(
        "[Shop] chronophylos, you can purchase your next cooldown reset in 2 hrs, 58 mins, 54 secs!",
    );
    assert_eq!(bot.buy_cdr(&refused), Ok(false));
}

#[test]
fn follow_up_thresholds() {
    let success = |amount: i32, total: u64| ClaimCookieResponse::Success {
        rank: PrestigeRank { prestige: 0, rank: Rank::Default },
        name: "Chocolate Chip".to_string(),
        amount,
        total,
    };

    let plan = plan_follow_ups(&success(8, 100), 7, 5000);
    assert!(plan.buy_cdr);
    assert!(!plan.prestige);

    let plan = plan_follow_ups(&success(7, 5000), 7, 5000);
    assert!(!plan.buy_cdr);
    assert!(plan.prestige);

    let cooldown = ClaimCookieResponse::Cooldown {
        rank: PrestigeRank { prestige: 0, rank: Rank::Default },
        total: 31,
    };
    let plan = plan_follow_ups(&cooldown, 7, 5000);
    assert!(!plan.buy_cdr);
    assert!(!plan.prestige);
}

#[test]
fn chatters_membership() {
    let chatters = Chatters {
        broadcaster: vec!["streamer".to_string()],
        vips: Vec::new(),
        moderators: vec!["modone".to_string(), "modtwo".to_string()],
        staff: Vec::new(),
        admins: Vec::new(),
        global_mods: Vec::new(),
        viewers: vec!["thepositivebot".to_string(), "chronophylos".to_string()],
    };

    assert!(chatters.contains("thepositivebot"));
    assert!(chatters.contains("modtwo"));
    assert!(chatters.contains("streamer"));
    assert!(!chatters.contains("someoneelse"));
}

#[test]
fn readable_durations() {
    assert_eq!(3723u64.as_readable(), "1h 2m 3s");
    assert_eq!(3601u64.as_readable(), "1h 1s");
    assert_eq!(45u64.as_readable(), "45s");
    assert_eq!(120u64.as_readable(), "2m");
    assert_eq!(0u64.as_readable(), "");
}

#[test]
fn toggling_a_flag() {
    let mut flag = true;
    assert_eq!(flag.toggle(), true);
    assert_eq!(flag, false);
    assert_eq!(flag.toggle(), false);
    assert_eq!(flag, true);
}

#[test]
fn token_keeps_its_text() {
    let token = Token::new("SECRET-REDACTED".to_string());
    assert_eq!(token.as_str(), "SECRET-REDACTED");
    assert_eq!(token.into_string(), "SECRET-REDACTED");
}
