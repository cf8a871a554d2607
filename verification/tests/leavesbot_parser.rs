use cookiebot::leavesbot::parser::{ClaimResponse, ClaimResponseParserError};

#[test]
fn test_failure() {
    let text =
        "🍃 @chronophylos > FeelsBadMan You need to wait 54:04 minutes until you can get more leaves | You've got 34 leaves 🍃 ";
    let claim = text.parse::<ClaimResponse>().unwrap();

    assert_eq!(
        claim,
        ClaimResponse::Cooldown {
            username: "chronophylos".to_string(),
            minutes: Some(54),
            seconds: Some(04),
            total: 34
        }
    );
}

#[test]
fn classify_success_scenario() {
    let text = "🍃 @chronophylos > Four Leaf Clover 🍀 (+24) | You've got 34 leaves now! | Get more leaves in 1 hour...";
    let claim = text.parse::<ClaimResponse>().unwrap();

    assert_eq!(
        claim,
        ClaimResponse::Success { username: "chronophylos".to_string(), amount: 24, total: 34 }
    );
}

#[test]
fn classify_cooldown_scenario() {
    let text = "🍃 @chronophylos > FeelsBadMan You need to wait 45:58 minutes until you can get more leaves | You've got 34 leaves 🍃";
    let claim = text.parse::<ClaimResponse>().unwrap();

    assert_eq!(
        claim,
        ClaimResponse::Cooldown {
            username: "chronophylos".to_string(),
            minutes: Some(45),
            seconds: Some(58),
            total: 34
        }
    );
}

#[test]
fn classify_negative_amount() {
    let text = "🍃 @chronophylos > Wilted Leaf 🍂 (-3) | You've got 31 leaves now! | Get more leaves in 1 hour...";
    let claim = text.parse::<ClaimResponse>().unwrap();

    assert_eq!(
        claim,
        ClaimResponse::Success { username: "chronophylos".to_string(), amount: -3, total: 31 }
    );
}

#[test]
fn classify_rejects_unrelated_text() {
    let text = "hello there";
    let err = text.parse::<ClaimResponse>().unwrap_err();
    assert_eq!(err, ClaimResponseParserError::InvalidMessage);
}

#[test]
fn classify_overflowing_amount() {
    let text = "🍃 @chronophylos > Pile of Leaves (+99999999999999999999) | You've got 34 leaves now! | Get more leaves in 1 hour...";
    let err = text.parse::<ClaimResponse>().unwrap_err();
    assert_eq!(err, ClaimResponseParserError::ParseIntError);
}

#[test]
fn parse_success_on_cooldown_text() {
    let text =
        "🍃 @chronophylos > FeelsBadMan You need to wait 54:04 minutes until you can get more leaves | You've got 34 leaves 🍃 ";
    let err = ClaimResponse::parse_success(text).unwrap_err();
    assert_eq!(err, ClaimResponseParserError::ExpectedSuccess);
}

#[test]
fn parse_cooldown_on_unrelated_text() {
    let err = ClaimResponse::parse_cooldown("nothing of note").unwrap_err();
    assert_eq!(err, ClaimResponseParserError::ExpectedBad);
}
