use cookiebot::thepositivebot::patterns::{
    buy_cdr_bad_captures, buy_cdr_good_username, cd_check_bad_captures, cd_check_good_captures,
    claim_bad_captures, claim_good_captures, generic_answer_username, prestige_bad_username,
    prestige_good_captures,
};

#[test]
fn cd_check_bad1() {
    let captures = cd_check_bad_captures(
        "[Cookies] [default] chronophylos, you have 31 cookies! 🍪 1 hr, 59 mins, and 33 secs left until you can claim your next cookie!"
        )
        .expect("regex should match");

    assert_eq!(captures.level, "default");
    assert_eq!(captures.username, "chronophylos", "wrong username");
    assert_eq!(captures.total, "31");
    assert_eq!(captures.h.as_deref(), Some("1"));
    assert_eq!(captures.m.as_deref(), Some("59"));
    assert_eq!(captures.s, "33");
}

#[test]
fn cd_check_bad2() {
    let captures = cd_check_bad_captures(
        "[Cookies] [Gold] fewo11, you have 33 cookies! 🍪 34 mins, and 29 secs left until you can claim your next cookie!"
        )
        .expect("regex should match");

    assert_eq!(captures.level, "Gold");
    assert_eq!(captures.username, "fewo11", "wrong username");
    assert_eq!(captures.total, "33");
    assert!(captures.h.is_none());
    assert_eq!(captures.m.as_deref(), Some("34"));
    assert_eq!(captures.s, "29");
}

#[test]
fn cd_check_good1() {
    let captures = cd_check_good_captures(
        "[Cookies] [default] chronophylos, you have 31 cookies! 🍪 You can also claim your next cookie now by doing !cookie!"
        )
        .expect("regex should match");

    assert_eq!(captures.level, "default");
    assert_eq!(captures.username, "chronophylos", "wrong username");
    assert_eq!(captures.total, "31");
}

#[test]
fn cd_check_bad_seconds_only() {
    let captures = cd_check_bad_captures(
        "[Cookies] [Silver] efdev, you have 84 cookies! 🍪 54 secs left until you can claim your next cookie!"
        )
        .expect("regex should match");

    assert!(captures.h.is_none());
    assert!(captures.m.is_none());
    assert_eq!(captures.s, "54");
}

#[test]
fn patterns_claim_good1() {
    let captures = claim_good_captures(
        "[Cookies] [default] chronophylos -> Chocolate Chip! (+6) PartyTime | 31 total! | 2 hour cooldown... 🍪"
        )
        .expect("regex should match");

    assert_eq!(captures.rank, "default");
    assert_eq!(captures.username, "chronophylos", "wrong username");
    assert_eq!(captures.cookie, "Chocolate Chip");
    assert_eq!(captures.amount, "+6");
    assert_eq!(captures.total, "31");
}

#[test]
fn patterns_claim_good2() {
    let captures = claim_good_captures(
        "[Cookies] [Gold] fewo11 -> Cinnamon Roll cookie! (+16) OpieOP | 49 total! | 2 hour cooldown... 🍪"
        )
        .expect("regex should match");

    assert_eq!(captures.rank, "Gold");
    assert_eq!(captures.username, "fewo11", "wrong username");
    assert_eq!(captures.cookie, "Cinnamon Roll cookie");
    assert_eq!(captures.amount, "+16");
    assert_eq!(captures.total, "49");
}

#[test]
fn claim_good3() {
    let captures = claim_good_captures(
        "[Cookies] [Silver] efdev -> Nothing Found!! (±0) RPGEmpty | 84 total! | 2 hour cooldown... 🍪 "
        )
        .expect("regex should match");

    assert_eq!(captures.rank, "Silver");
    assert_eq!(captures.username, "efdev", "wrong username");
    assert_eq!(captures.cookie, "Nothing Found");
    assert_eq!(captures.amount, "±0");
    assert_eq!(captures.total, "84");
}

#[test]
fn claim_good4() {
    let captures = claim_good_captures(
        "[Cookies] [P1: default] chronophylos -> Sugar cookie! (+14) PJSugar | 65 total! | 2 hour cooldown... 🍪"
        )
        .expect("regex should match");

    assert_eq!(captures.rank, "P1: default");
    assert_eq!(captures.username, "chronophylos", "wrong username");
    assert_eq!(captures.cookie, "Sugar cookie");
    assert_eq!(captures.amount, "+14");
    assert_eq!(captures.total, "65");
}

#[test]
fn claim_good5() {
    let captures = claim_good_captures(
        "[Cookies] [P1: default] chronophylos -> Raisin cookie! (-6) DansGame | 79 total! | 2 hour cooldown... 🍪"
        )
        .expect("regex should match");

    assert_eq!(captures.rank, "P1: default");
    assert_eq!(captures.username, "chronophylos", "wrong username");
    assert_eq!(captures.cookie, "Raisin cookie");
    assert_eq!(captures.amount, "-6");
    assert_eq!(captures.total, "79");
}

#[test]
fn claim_good6() {
    let captures = claim_good_captures(
        "[Cookies] [P10: default] chronophylos -> Raisin cookie! (-6) DansGame | 79 total! | 2 hour cooldown... 🍪"
        )
        .expect("regex should match");

    assert_eq!(captures.rank, "P10: default");
    assert_eq!(captures.username, "chronophylos", "wrong username");
    assert_eq!(captures.cookie, "Raisin cookie");
    assert_eq!(captures.amount, "-6");
    assert_eq!(captures.total, "79");
}

#[test]
fn patterns_claim_bad1() {
    let captures = claim_bad_captures(
        "[Cookies] [default] chronophylos you have already claimed a cookie and have 31 of them! 🍪 Please wait in 2 hour intervals!"
        )
        .expect("regex should match");

    assert_eq!(captures.rank, "default");
    assert_eq!(captures.username, "chronophylos", "wrong username");
    assert_eq!(captures.total, "31");
}

#[test]
fn patterns_claim_bad2() {
    let captures = claim_bad_captures(
        "[Cookies] [P1: default] chronophylos you have already claimed a cookie and have 65 of them! 🍪 Please wait in 2 hour intervals!"
        )
        .expect("regex should match");

    assert_eq!(captures.rank, "P1: default");
    assert_eq!(captures.username, "chronophylos", "wrong username");
    assert_eq!(captures.total, "65");
}

#[test]
fn buy_cdr_good() {
    let captured = buy_cdr_good_username(
        "[Shop] chronophylos, your cooldown has been reset! (-7) Good Luck... ThankEgg",
    )
    .expect("regex should match");

    assert_eq!(captured, "chronophylos", "wrong username");
}

#[test]
fn buy_cdr_bad() {
    let captures = buy_cdr_bad_captures(
        "[Shop] chronophylos, you can purchase your next cooldown reset in 2 hrs, 58 mins, 54 secs!",
    )
    .expect("regex should match");

    assert_eq!(captures.username, "chronophylos", "wrong username");
    assert_eq!(captures.h.as_deref(), Some("2"));
    assert_eq!(captures.m.as_deref(), Some("58"));
    assert_eq!(captures.s, "54");
}

#[test]
fn buy_cdr_bad_seconds_only() {
    let captures = buy_cdr_bad_captures(
        "[Shop] chronophylos, you can purchase your next cooldown reset in 54 secs!",
    )
    .expect("regex should match");

    assert_eq!(captures.username, "chronophylos", "wrong username");
    assert!(captures.h.is_none());
    assert!(captures.m.is_none());
    assert_eq!(captures.s, "54");
}

#[test]
fn prestige_good() {
    let captures = prestige_good_captures("[Cookies] chronophylos you reset your rank and are now [P1: default]! PartyHat PogChamp The next rank is Bronze (50 🍪 )! Have fun climbing back up :)")
        .expect("regex should match");

    assert_eq!(captures.username, "chronophylos", "wrong username");
    assert_eq!(captures.rank, "P1: default");
}

#[test]
fn prestige_bad() {
    let captured = prestige_bad_username("[Cookies] chronophylos you are not ranked high enough to Prestige yet! FeelsBadMan You need Leader rank OR 5000+ cookies!")
        .expect("regex should match");

    assert_eq!(captured, "chronophylos", "wrong username");
}

#[test]
fn patterns_generic_answer1() {
    let captured = generic_answer_username("[Cookies] chronophylos you are not ranked high enough to Prestige yet! FeelsBadMan You need Leader rank OR 5000+ cookies!")
        .expect("regex should match");

    assert_eq!(captured, "chronophylos", "wrong username");
}

#[test]
fn generic_answer2() {
    let captured = generic_answer_username("[Cookies] [P1: default] chronophylos you have already claimed a cookie and have 65 of them! 🍪 Please wait in 2 hour intervals!")
        .expect("regex should match");

    assert_eq!(captured, "chronophylos", "wrong username");
}
