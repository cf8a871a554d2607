use cookiebot::thepositivebot::claimcookie::{
    ClaimCookieResponse, ParseClaimCookieError, ParsePresigeRankError, PrestigeRank,
};
use cookiebot::thepositivebot::rank::{ParseRankError, Rank};

#[test]
fn parse_claimcookie() {
    let input = "[Cookies] [P6: default] chronophylos you have already claimed a cookie and have 4957 of them! 🍪 Please wait in 2 hour intervals! ";
    let response = input.parse::<ClaimCookieResponse>().unwrap();

    assert_eq!(
        response,
        ClaimCookieResponse::Cooldown {
            rank: PrestigeRank { prestige: 6, rank: Rank::Default },
            total: 4957
        }
    )
}

#[test]
fn classify_success() {
    let input = "[Cookies] [P1: gold] chronophylos -> Sugar cookie! (+14) PJSugar | 65 total! | 2 hour cooldown... 🍪";
    let response = input.parse::<ClaimCookieResponse>().unwrap();

    assert_eq!(
        response,
        ClaimCookieResponse::Success {
            rank: PrestigeRank { prestige: 1, rank: Rank::Gold },
            name: "Sugar cookie".to_string(),
            amount: 14,
            total: 65
        }
    )
}

#[test]
fn classify_neutral_amount() {
    let input = "[Cookies] [P2: silver] efdev -> Nothing Found!! (±0) RPGEmpty | 84 total! | 2 hour cooldown... 🍪 ";
    let response = input.parse::<ClaimCookieResponse>().unwrap();

    assert_eq!(
        response,
        ClaimCookieResponse::Success {
            rank: PrestigeRank { prestige: 2, rank: Rank::Silver },
            name: "Nothing Found".to_string(),
            amount: 0,
            total: 84
        }
    )
}

#[test]
fn classify_plain_rank_is_rejected() {
    let input = "[Cookies] [default] chronophylos you have already claimed a cookie and have 31 of them! 🍪 Please wait in 2 hour intervals!";
    let err = input.parse::<ClaimCookieResponse>().unwrap_err();

    assert_eq!(
        err,
        ParseClaimCookieError::ParsePrestigeRankError(ParsePresigeRankError::MissingP)
    );
}

#[test]
fn classify_overflowing_cookie_total() {
    let input = "[Cookies] [P1: default] chronophylos you have already claimed a cookie and have 99999999999999999999999 of them! 🍪 Please wait in 2 hour intervals!";
    let err = input.parse::<ClaimCookieResponse>().unwrap_err();
    assert_eq!(err, ParseClaimCookieError::ParseIntError);
}

#[test]
fn classify_rejects_unrelated_cookie_text() {
    let err = "no cookies".parse::<ClaimCookieResponse>().unwrap_err();
    assert_eq!(err, ParseClaimCookieError::InvalidInput);
}

#[test]
fn prestige_rank_parsing() {
    assert_eq!(
        "P6: default".parse::<PrestigeRank>().unwrap(),
        PrestigeRank { prestige: 6, rank: Rank::Default }
    );
    assert_eq!(
        "P10: grandmasters".parse::<PrestigeRank>().unwrap(),
        PrestigeRank { prestige: 10, rank: Rank::GrandMasters }
    );
    assert_eq!(
        "default".parse::<PrestigeRank>().unwrap_err(),
        ParsePresigeRankError::MissingP
    );
    assert_eq!(
        "P6".parse::<PrestigeRank>().unwrap_err(),
        ParsePresigeRankError::MissingRankPart
    );
    assert_eq!(
        "Px: default".parse::<PrestigeRank>().unwrap_err(),
        ParsePresigeRankError::ParsePrestigeError
    );
    assert_eq!(
        "P6: emperor".parse::<PrestigeRank>().unwrap_err(),
        ParsePresigeRankError::ParseRankError(ParseRankError::UnkownRankError)
    );
}

#[test]
fn prestige_rank_text() {
    let pr = PrestigeRank { prestige: 6, rank: Rank::Default };
    assert_eq!(pr.to_text(), "P6: default");
}

#[test]
fn rank_parsing() {
    assert_eq!("default".parse::<Rank>().unwrap(), Rank::Default);
    assert_eq!("leader".parse::<Rank>().unwrap(), Rank::Leader);
    assert_eq!("Gold".parse::<Rank>().unwrap_err(), ParseRankError::UnkownRankError);
    assert_eq!(Rank::Platinum.name(), "platinum");
}
