use cookiebot::okayegbot::parser::{ClaimEgs, ClaimEgsParserError};

#[test]
fn parser_test_failure() {
    let text = "@chronophylos nam1Sadeg no eg. come back in 10 minutes, 56 seconds Total egs: 60";
    let claim_egs = text.parse::<ClaimEgs>().unwrap();

    assert_eq!(
        claim_egs,
        ClaimEgs::Failure {
            username: "chronophylos".to_string(),
            minutes: Some(10),
            seconds: Some(56),
            total: 60
        }
    );
}

#[test]
fn test_success() {
    let text = "@chronophylos | is this a YOLK? nam1Okayeg | +1 egs | Total egs: 92 🥚 ";
    let claim_egs = text.parse::<ClaimEgs>().unwrap();

    assert_eq!(
        claim_egs,
        ClaimEgs::Success { username: "chronophylos".to_string(), amount: 1, total: 92 }
    );
}

#[test]
fn test_success2() {
    let text = "@chronophylos | hobos cna't affor egs :( nam1Hobo | +0  egs | Total egs: 152 🥚";
    let claim_egs = text.parse::<ClaimEgs>().unwrap();

    assert_eq!(
        claim_egs,
        ClaimEgs::Success { username: "chronophylos".to_string(), amount: 0, total: 152 }
    );
}

#[test]
fn cooldown_without_seconds() {
    let text = "@chronophylos nam1Sadeg no eg. come back in 50 minutes, Total egs: 30";
    let claim_egs = text.parse::<ClaimEgs>().unwrap();

    assert_eq!(
        claim_egs,
        ClaimEgs::Failure {
            username: "chronophylos".to_string(),
            minutes: Some(50),
            seconds: None,
            total: 30
        }
    );
}

#[test]
fn classify_rejects_unrelated_egs_text() {
    let err = "no egs here".parse::<ClaimEgs>().unwrap_err();
    assert_eq!(err, ClaimEgsParserError::InvalidMessage);
}

#[test]
fn classify_overflowing_total() {
    let text = "@chronophylos | is this a YOLK? nam1Okayeg | +1 egs | Total egs: 99999999999 🥚 ";
    let err = text.parse::<ClaimEgs>().unwrap_err();
    assert_eq!(err, ClaimEgsParserError::ParseIntError);
}
