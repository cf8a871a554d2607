//! Ranks of the cookie-claiming game.

use vstd::prelude::*;
use vstd::string::*;

use crate::text::str_eq;

verus! {

#[derive(Debug, Copy, Clone, PartialEq, Eq, Structural)]
pub enum Rank {
    Default,
    Bronze,
    Silver,
    Gold,
    Platinum,
    Diamond,
    Masters,
    GrandMasters,
    Leader,
}

#[derive(Debug, Copy, Clone, PartialEq, Eq, Structural)]
pub enum ParseRankError {
    UnkownRankError,
}

/// The rank named by a lower-case rank word, if any.
pub open spec fn rank_of_name(s: Seq<char>) -> Option<Rank> {
    if s == "default"@ {
        Some(Rank::Default)
    } else if s == "bronze"@ {
        Some(Rank::Bronze)
    } else if s == "silver"@ {
        Some(Rank::Silver)
    } else if s == "gold"@ {
        Some(Rank::Gold)
    } else if s == "platinum"@ {
        Some(Rank::Platinum)
    } else if s == "diamond"@ {
        Some(Rank::Diamond)
    } else if s == "masters"@ {
        Some(Rank::Masters)
    } else if s == "grandmasters"@ {
        Some(Rank::GrandMasters)
    } else if s == "leader"@ {
        Some(Rank::Leader)
    } else {
        None
    }
}

impl Rank {
    /// The lower-case name of the rank.
    pub open spec fn name_spec(&self) -> Seq<char> {
        match self {
            Rank::Default => "default"@,
            Rank::Bronze => "bronze"@,
            Rank::Silver => "silver"@,
            Rank::Gold => "gold"@,
            Rank::Platinum => "platinum"@,
            Rank::Diamond => "diamond"@,
            Rank::Masters => "masters"@,
            Rank::GrandMasters => "grandmasters"@,
            Rank::Leader => "leader"@,
        }
    }

    /// The lower-case name of the rank, as text.
    pub fn name(&self) -> (r: &'static str)
        ensures
            r@ == self.name_spec(),
    {
        match self {
            Rank::Default => "default",
            Rank::Bronze => "bronze",
            Rank::Silver => "silver",
            Rank::Gold => "gold",
            Rank::Platinum => "platinum",
            Rank::Diamond => "diamond",
            Rank::Masters => "masters",
            Rank::GrandMasters => "grandmasters",
            Rank::Leader => "leader",
        }
    }

    /// Parse a lower-case rank word.
    pub fn parse_name(s: &str) -> (r: Result<Rank, ParseRankError>)
        ensures
            match rank_of_name(s@) {
                Some(k) => r == Ok::<Rank, ParseRankError>(k),
                None => r == Err::<Rank, ParseRankError>(ParseRankError::UnkownRankError),
            },
    {
        if str_eq(s, "default") {
            Ok(Rank::Default)
        } else if str_eq(s, "bronze") {
            Ok(Rank::Bronze)
        } else if str_eq(s, "silver") {
            Ok(Rank::Silver)
        } else if str_eq(s, "gold") {
            Ok(Rank::Gold)
        } else if str_eq(s, "platinum") {
            Ok(Rank::Platinum)
        } else if str_eq(s, "diamond") {
            Ok(Rank::Diamond)
        } else if str_eq(s, "masters") {
            Ok(Rank::Masters)
        } else if str_eq(s, "grandmasters") {
            Ok(Rank::GrandMasters)
        } else if str_eq(s, "leader") {
            Ok(Rank::Leader)
        } else {
            Err(ParseRankError::UnkownRankError)
        }
    }
}

impl core::str::FromStr for Rank {
    type Err = ParseRankError;

    fn from_str(s: &str) -> Result<Self, Self::Err> {
        Rank::parse_name(s)
    }
}

} // verus!
