use cookiebot::leavesbot::patterns::{
    claim_bad_captures, claim_good_captures, generic_answer_username,
};

#[test]
fn claim_good() {
    let tests = [("🍃 @chronophylos > Four Leaf Clover 🍀 (+24) | You've got 34 leaves now! | Get more leaves in 1 hour... 🍃 ", ("chronophylos", "+24", "34"))];

    for (text, (username, amount, total)) in tests.iter() {
        let captures = claim_good_captures(text).expect("regex should match");

        assert_eq!(captures.username, *username, "wrong username");

        assert_eq!(captures.amount, *amount, "wrong amount");

        assert_eq!(captures.total, *total, "wrong total");
    }
}

#[test]
fn claim_bad() {
    let tests = [
        ("🍃 @chronophylos > FeelsBadMan You need to wait 45:58 minutes until you can get more leaves | You've got 34 leaves 🍃 ", ("chronophylos", Some("45"), Some("58"), "34")),
        ("🍃 @chronophylos > FeelsBadMan You need to wait 58:08 minutes until you can get more leaves | You've got 34 leaves 🍃 ", ("chronophylos", Some("58"), Some("08"), "34"))
    ];

    for (text, (username, minutes, seconds, total)) in tests.iter() {
        let captures = claim_bad_captures(text).expect("regex should match");

        assert_eq!(captures.username, *username, "wrong username");

        assert_eq!(Some(captures.minutes.as_str()), *minutes, "wrong minutes");

        assert_eq!(Some(captures.seconds.as_str()), *seconds, "wrong seconds");

        assert_eq!(captures.total, *total, "wrong total");
    }
}

#[test]
fn generic() {
    let tests = [("🍃 @chronophylos > You can find a list of all commands here: https://beatz.dev/leavesbot 🍃 ", "chronophylos")];

    for (text, username) in tests.iter() {
        let captured = generic_answer_username(text).expect("regex should match");

        assert_eq!(captured, *username, "wrong username");
    }
}
