//! Reply shapes of the leaf-claiming counterpart.
//!
//! Every reply begins with the leaf badge and the addressee, written
//! `"\u{1F343} @name > "`.  A successful claim then names the found item,
//! a parenthesised signed amount and the new total; a claim during cooldown
//! names the remaining minutes and seconds and the unchanged total.

use vstd::prelude::*;
use vstd::string::*;

use crate::text::{
    digits_end, digits_end_at, find_from, first_match, is_digit_char, starts_at, starts_with_at,
    word_end, word_end_at,
};

verus! {

/// Fields of a successful claim reply, as slices of the reply.
pub struct ClaimGoodShape {
    pub username: Seq<char>,
    pub amount: Seq<char>,
    pub total: Seq<char>,
}

/// The decomposition of a successful claim reply.
///
/// After the badge, addressee and `" > "` come the found item's name, then
/// the first occurrence of `" ("` introducing the signed amount, then the
/// total and the fixed closing words.
pub open spec fn claim_good_shape(s: Seq<char>) -> Option<ClaimGoodShape> {
    if !starts_at(s, 0, "\u{1F343} @"@) {
        None
    } else {
        let u0 = "\u{1F343} @"@.len() as int;
        let u1 = word_end_at(s, u0);
        if u1 == u0 || !starts_at(s, u1, " > "@) {
            None
        } else {
            match first_match(s, u1 + " > "@.len(), " ("@) {
                None => None,
                Some(p) => {
                    let a0 = p + " ("@.len();
                    if !(a0 < s.len() && (s[a0] == '+' || s[a0] == '-')) {
                        None
                    } else {
                        let d0 = a0 + 1;
                        let d1 = digits_end_at(s, d0);
                        if d1 == d0 || !starts_at(s, d1, ") | You've got "@) {
                            None
                        } else {
                            let t0 = d1 + ") | You've got "@.len();
                            let ts = if t0 < s.len() && s[t0] == '-' {
                                t0 + 1
                            } else {
                                t0
                            };
                            let t1 = digits_end_at(s, ts);
                            if t1 == ts || !starts_at(
                                s,
                                t1,
                                " leaves now! | Get more leaves in 1 hour..."@,
                            ) {
                                None
                            } else {
                                Some(
                                    ClaimGoodShape {
                                        username: s.subrange(u0, u1),
                                        amount: s.subrange(a0, d1),
                                        total: s.subrange(t0, t1),
                                    },
                                )
                            }
                        }
                    }
                }
            }
        }
    }
}

/// Positions of the fields of a successful claim reply.
pub struct ClaimGoodPos {
    pub u0: usize,
    pub u1: usize,
    pub a0: usize,
    pub d0: usize,
    pub d1: usize,
    pub t0: usize,
    pub ts: usize,
    pub t1: usize,
}

/// Locate the fields of a successful claim reply.
pub fn claim_good_pos(s: &str) -> (r: Option<ClaimGoodPos>)
    ensures
        match r {
            Some(p) => {
                &&& claim_good_shape(s@) matches Some(g) && g.username == s@.subrange(
                    p.u0 as int,
                    p.u1 as int,
                ) && g.amount == s@.subrange(p.a0 as int, p.d1 as int) && g.total == s@.subrange(
                    p.t0 as int,
                    p.t1 as int,
                )
                &&& p.u0 <= p.u1 <= s@.len()
                &&& p.a0 < s@.len() && (s@[p.a0 as int] == '+' || s@[p.a0 as int] == '-')
                &&& p.a0 + 1 == p.d0 && p.d0 < p.d1 <= s@.len()
                &&& forall|k: int| p.d0 <= k < p.d1 ==> is_digit_char(s@[k])
                &&& (p.ts == p.t0 || (p.ts == p.t0 + 1 && s@[p.t0 as int] == '-'))
                &&& p.t0 <= p.ts < p.t1 <= s@.len()
                &&& forall|k: int| p.ts <= k < p.t1 ==> is_digit_char(s@[k])
            },
            None => claim_good_shape(s@) is None,
        },
{
    let n = s.unicode_len();
    let pre = "\u{1F343} @";
    if !starts_with_at(s, 0, pre) {
        return None;
    }
    let u0 = pre.unicode_len();
    let u1 = word_end(s, u0);
    if u1 == u0 {
        return None;
    }
    let sep = " > ";
    if !starts_with_at(s, u1, sep) {
        return None;
    }
    let body0 = u1 + sep.unicode_len();
    let open = " (";
    let p = match find_from(s, body0, open) {
        Some(p) => p,
        None => { return None },
    };
    proof {
        crate::text::lemma_first_match(s@, body0 as int, open@);
    }
    let a0 = p + open.unicode_len();
    if !(a0 < n) {
        return None;
    }
    let sign = s.get_char(a0);
    if !(sign == '+' || sign == '-') {
        return None;
    }
    let d0 = a0 + 1;
    let d1 = digits_end(s, d0);
    proof {
        crate::text::lemma_digits_end_at(s@, d0 as int);
    }
    if d1 == d0 {
        return None;
    }
    let mid = ") | You've got ";
    if !starts_with_at(s, d1, mid) {
        return None;
    }
    let t0 = d1 + mid.unicode_len();
    let ts = if t0 < n && s.get_char(t0) == '-' {
        t0 + 1
    } else {
        t0
    };
    let t1 = digits_end(s, ts);
    proof {
        crate::text::lemma_digits_end_at(s@, ts as int);
    }
    if t1 == ts {
        return None;
    }
    let tail = " leaves now! | Get more leaves in 1 hour...";
    if !starts_with_at(s, t1, tail) {
        return None;
    }
    proof {
        crate::text::lemma_word_end_at(s@, u0 as int);
    }
    Some(ClaimGoodPos { u0, u1, a0, d0, d1, t0, ts, t1 })
}

/// Named captures of a successful claim reply, as owned text.
pub struct ClaimGoodCaptures {
    pub username: String,
    pub amount: String,
    pub total: String,
}

/// Match a successful claim reply and hand out its captures.
pub fn claim_good_captures(s: &str) -> (r: Option<ClaimGoodCaptures>)
    ensures
        match r {
            Some(c) => claim_good_shape(s@) matches Some(g) && g.username == c.username@
                && g.amount == c.amount@ && g.total == c.total@,
            None => claim_good_shape(s@) is None,
        },
{
    match claim_good_pos(s) {
        None => None,
        Some(p) => Some(
            ClaimGoodCaptures {
                username: s.substring_char(p.u0, p.u1).to_owned(),
                amount: s.substring_char(p.a0, p.d1).to_owned(),
                total: s.substring_char(p.t0, p.t1).to_owned(),
            },
        ),
    }
}

/// Fields of a cooldown reply, as slices of the reply.
pub struct ClaimBadShape {
    pub username: Seq<char>,
    pub minutes: Seq<char>,
    pub seconds: Seq<char>,
    pub total: Seq<char>,
}

/// The decomposition of a cooldown reply: badge, addressee, the fixed
/// complaint, the remaining `minutes:seconds`, and the unchanged total.
pub open spec fn claim_bad_shape(s: Seq<char>) -> Option<ClaimBadShape> {
    if !starts_at(s, 0, "\u{1F343} @"@) {
        None
    } else {
        let u0 = "\u{1F343} @"@.len() as int;
        let u1 = word_end_at(s, u0);
        if u1 == u0 || !starts_at(s, u1, " > FeelsBadMan You need to wait "@) {
            None
        } else {
            let m0 = u1 + " > FeelsBadMan You need to wait "@.len();
            let m1 = digits_end_at(s, m0);
            if m1 == m0 || !(m1 < s.len() && s[m1] == ':') {
                None
            } else {
                let s0 = m1 + 1;
                let s1 = digits_end_at(s, s0);
                if s1 == s0 || !starts_at(
                    s,
                    s1,
                    " minutes until you can get more leaves | You've got "@,
                ) {
                    None
                } else {
                    let t0 = s1 + " minutes until you can get more leaves | You've got "@.len();
                    let ts = if t0 < s.len() && s[t0] == '-' {
                        t0 + 1
                    } else {
                        t0
                    };
                    let t1 = digits_end_at(s, ts);
                    if t1 == ts || !starts_at(s, t1, " leaves"@) {
                        None
                    } else {
                        Some(
                            ClaimBadShape {
                                username: s.subrange(u0, u1),
                                minutes: s.subrange(m0, m1),
                                seconds: s.subrange(s0, s1),
                                total: s.subrange(t0, t1),
                            },
                        )
                    }
                }
            }
        }
    }
}

/// Positions of the fields of a cooldown reply.
pub struct ClaimBadPos {
    pub u0: usize,
    pub u1: usize,
    pub m0: usize,
    pub m1: usize,
    pub s0: usize,
    pub s1: usize,
    pub t0: usize,
    pub ts: usize,
    pub t1: usize,
}

/// Locate the fields of a cooldown reply.
pub fn claim_bad_pos(s: &str) -> (r: Option<ClaimBadPos>)
    ensures
        match r {
            Some(p) => {
                &&& claim_bad_shape(s@) matches Some(g) && g.username == s@.subrange(
                    p.u0 as int,
                    p.u1 as int,
                ) && g.minutes == s@.subrange(p.m0 as int, p.m1 as int) && g.seconds
                    == s@.subrange(p.s0 as int, p.s1 as int) && g.total == s@.subrange(
                    p.t0 as int,
                    p.t1 as int,
                )
                &&& p.u0 <= p.u1 <= s@.len()
                &&& p.m0 <= p.m1 <= s@.len() && p.m0 < p.m1
                &&& forall|k: int| p.m0 <= k < p.m1 ==> is_digit_char(s@[k])
                &&& p.s0 <= p.s1 <= s@.len() && p.s0 < p.s1
                &&& forall|k: int| p.s0 <= k < p.s1 ==> is_digit_char(s@[k])
                &&& (p.ts == p.t0 || (p.ts == p.t0 + 1 && s@[p.t0 as int] == '-'))
                &&& p.t0 <= p.ts < p.t1 <= s@.len()
                &&& forall|k: int| p.ts <= k < p.t1 ==> is_digit_char(s@[k])
            },
            None => claim_bad_shape(s@) is None,
        },
{
    let n = s.unicode_len();
    let pre = "\u{1F343} @";
    if !starts_with_at(s, 0, pre) {
        return None;
    }
    let u0 = pre.unicode_len();
    let u1 = word_end(s, u0);
    if u1 == u0 {
        return None;
    }
    let wait_lit = " > FeelsBadMan You need to wait ";
    if !starts_with_at(s, u1, wait_lit) {
        return None;
    }
    let m0 = u1 + wait_lit.unicode_len();
    let m1 = digits_end(s, m0);
    proof {
        crate::text::lemma_digits_end_at(s@, m0 as int);
    }
    if m1 == m0 {
        return None;
    }
    if !(m1 < n && s.get_char(m1) == ':') {
        return None;
    }
    let s0 = m1 + 1;
    let s1 = digits_end(s, s0);
    proof {
        crate::text::lemma_digits_end_at(s@, s0 as int);
    }
    if s1 == s0 {
        return None;
    }
    let mid = " minutes until you can get more leaves | You've got ";
    if !starts_with_at(s, s1, mid) {
        return None;
    }
    let t0 = s1 + mid.unicode_len();
    let ts = if t0 < n && s.get_char(t0) == '-' {
        t0 + 1
    } else {
        t0
    };
    let t1 = digits_end(s, ts);
    proof {
        crate::text::lemma_digits_end_at(s@, ts as int);
    }
    if t1 == ts {
        return None;
    }
    if !starts_with_at(s, t1, " leaves") {
        return None;
    }
    proof {
        crate::text::lemma_word_end_at(s@, u0 as int);
    }
    Some(ClaimBadPos { u0, u1, m0, m1, s0, s1, t0, ts, t1 })
}

/// Named captures of a cooldown reply, as owned text.
pub struct ClaimBadCaptures {
    pub username: String,
    pub minutes: String,
    pub seconds: String,
    pub total: String,
}

/// Match a cooldown reply and hand out its captures.
pub fn claim_bad_captures(s: &str) -> (r: Option<ClaimBadCaptures>)
    ensures
        match r {
            Some(c) => claim_bad_shape(s@) matches Some(g) && g.username == c.username@
                && g.minutes == c.minutes@ && g.seconds == c.seconds@ && g.total == c.total@,
            None => claim_bad_shape(s@) is None,
        },
{
    match claim_bad_pos(s) {
        None => None,
        Some(p) => Some(
            ClaimBadCaptures {
                username: s.substring_char(p.u0, p.u1).to_owned(),
                minutes: s.substring_char(p.m0, p.m1).to_owned(),
                seconds: s.substring_char(p.s0, p.s1).to_owned(),
                total: s.substring_char(p.t0, p.t1).to_owned(),
            },
        ),
    }
}

/// The addressee of any reply of this counterpart: the word after the badge
/// and `@`, followed by `" > "`.
pub open spec fn generic_answer_shape(s: Seq<char>) -> Option<Seq<char>> {
    if !starts_at(s, 0, "\u{1F343} @"@) {
        None
    } else {
        let u0 = "\u{1F343} @"@.len() as int;
        let u1 = word_end_at(s, u0);
        if u1 == u0 || !starts_at(s, u1, " > "@) {
            None
        } else {
            Some(s.subrange(u0, u1))
        }
    }
}

/// Match the broad addressed-reply shape and hand out the addressee.
pub fn generic_answer_username(s: &str) -> (r: Option<String>)
    ensures
        match r {
            Some(u) => generic_answer_shape(s@) == Some(u@),
            None => generic_answer_shape(s@) is None,
        },
{
    let pre = "\u{1F343} @";
    if !starts_with_at(s, 0, pre) {
        return None;
    }
    let u0 = pre.unicode_len();
    let u1 = word_end(s, u0);
    if u1 == u0 {
        return None;
    }
    if !starts_with_at(s, u1, " > ") {
        return None;
    }
    proof {
        crate::text::lemma_word_end_at(s@, u0 as int);
    }
    Some(s.substring_char(u0, u1).to_owned())
}

} // verus!
