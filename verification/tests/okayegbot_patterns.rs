use cookiebot::okayegbot::patterns::{
    claim_bad_captures, claim_good_captures, generic_answer_username,
};

#[test]
fn claim_good1() {
    let text = "@chronophylos | viseit babushka ni Borovits, giv 14 eg ad ohme med spirtis vodak regard ov dedushka nam1Okayeg | +14 egs | Total egs: 30 ";
    let captures = claim_good_captures(text).expect("regex should match");

    assert_eq!(captures.username, "chronophylos", "wrong username");
    assert_eq!(captures.amount, "+14", "wrong eg changed amount");
    assert_eq!(captures.total, "30", "wrong total eg amount");
}

#[test]
fn claim_good2() {
    let text = "@chronophylos | is this a YOLK? nam1Okayeg | +1 egs | Total egs: 92  ";
    let captures = claim_good_captures(text).expect("regex should match");

    assert_eq!(captures.username, "chronophylos", "wrong username");
    assert_eq!(captures.amount, "+1", "wrong eg changed amount");
    assert_eq!(captures.total, "92", "wrong total eg amount");
}

#[test]
fn claim_good_with_weird_space() {
    let text = "@chronophylos | is this a YOLK? nam1Okayeg | +1  egs | Total egs: 92  ";
    let captures = claim_good_captures(text).expect("regex should match");

    assert_eq!(captures.username, "chronophylos", "wrong username");
    assert_eq!(captures.amount, "+1", "wrong eg changed amount");
    assert_eq!(captures.total, "92", "wrong total eg amount");
}

#[test]
fn claim_bad1() {
    let text = "@chronophylos nam1Sadeg no eg. come back in 56 minutes, 42 seconds Total egs: 30";
    let captures = claim_bad_captures(text).expect("regex should match");

    assert_eq!(captures.username, "chronophylos", "wrong username");
    assert_eq!(captures.minutes, "56", "wrong minutes");
    assert_eq!(captures.seconds.as_deref(), Some("42"), "wrong seconds");
    assert_eq!(captures.total, "30", "wrong total eg amount");
}

#[test]
fn claim_bad2() {
    let text = "@chronophylos nam1Sadeg no eg. come back in 50 minutes, Total egs: 30";
    let captures = claim_bad_captures(text).expect("regex should match");

    assert_eq!(captures.username, "chronophylos", "wrong username");
    assert_eq!(captures.minutes, "50", "wrong minutes");
    assert!(captures.seconds.is_none(), "seconds should not exist");
    assert_eq!(captures.total, "30", "wrong total eg amount");
}

#[test]
fn generic_answer1() {
    let tests = [(
        "@chronophylos nam1Sadeg no eg. come back in 50 minutes, Total egs: 30",
        "chronophylos",
    )];

    for (text, username) in tests.iter() {
        let captured = generic_answer_username(text).expect("regex should match");

        assert_eq!(captured, *username, "wrong username");
    }
}
