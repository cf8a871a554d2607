//! Reply shapes of the egg-claiming counterpart.
//!
//! Replies begin with `"@name"`.  A successful claim reads
//! `"@name | <quip> | <signed amount> egs | Total egs: <total> "`;
//! a claim during cooldown names the remaining minutes, optionally
//! seconds, and the unchanged total.

use vstd::prelude::*;
use vstd::string::*;

use crate::text::{
    digits_end, digits_end_at, find_from, first_match, is_digit_char, spaces_end, spaces_end_at,
    starts_at, starts_with_at, word_end, word_end_at,
};

verus! {

/// Fields of a successful claim reply, as slices of the reply.
pub struct ClaimGoodShape {
    pub username: Seq<char>,
    pub amount: Seq<char>,
    pub total: Seq<char>,
}

/// The decomposition of a successful claim reply: the addressee, a quip
/// free of `'|'`, the signed amount before `"egs"`, and the new total
/// followed by a space.
pub open spec fn claim_good_shape(s: Seq<char>) -> Option<ClaimGoodShape> {
    if !starts_at(s, 0, "@"@) {
        None
    } else {
        let u0 = "@"@.len() as int;
        let u1 = word_end_at(s, u0);
        if u1 == u0 || !starts_at(s, u1, " | "@) {
            None
        } else {
            let seg0 = u1 + " | "@.len();
            match first_match(s, seg0, "|"@) {
                None => None,
                Some(q) => {
                    if !(q >= 1 && s[q - 1] == ' ' && q + 2 <= s.len() && s[q + 1] == ' ') {
                        None
                    } else {
                        let a0 = q + 2;
                        if !(a0 < s.len() && (s[a0] == '+' || s[a0] == '-')) {
                            None
                        } else {
                            let d0 = a0 + 1;
                            let d1 = digits_end_at(s, d0);
                            if d1 == d0 {
                                None
                            } else {
                                let sp = spaces_end_at(s, d1);
                                if sp == d1 || !starts_at(s, sp, "egs | Total egs: "@) {
                                    None
                                } else {
                                    let t0 = sp + "egs | Total egs: "@.len();
                                    let t1 = digits_end_at(s, t0);
                                    if t1 == t0 || !(t1 < s.len() && s[t1] == ' ') {
                                        None
                                    } else {
                                        Some(
                                            ClaimGoodShape {
                                                username: s.subrange(u0, u1),
                                                amount: s.subrange(a0, d1),
                                                total: s.subrange(t0, t1),
                                            },
                                        )
                                    }
                                }
                            }
                        }
                    }
                }
            }
        }
    }
}

/// Positions of the fields of a successful claim reply.
pub struct ClaimGoodPos {
    pub u0: usize,
    pub u1: usize,
    pub a0: usize,
    pub d0: usize,
    pub d1: usize,
    pub t0: usize,
    pub t1: usize,
}

/// Locate the fields of a successful claim reply.
pub fn claim_good_pos(s: &str) -> (r: Option<ClaimGoodPos>)
    ensures
        match r {
            Some(p) => {
                &&& claim_good_shape(s@) matches Some(g) && g.username == s@.subrange(
                    p.u0 as int,
                    p.u1 as int,
                ) && g.amount == s@.subrange(p.a0 as int, p.d1 as int) && g.total == s@.subrange(
                    p.t0 as int,
                    p.t1 as int,
                )
                &&& p.u0 <= p.u1 <= s@.len()
                &&& p.a0 < s@.len() && (s@[p.a0 as int] == '+' || s@[p.a0 as int] == '-')
                &&& p.a0 + 1 == p.d0 && p.d0 < p.d1 <= s@.len()
                &&& forall|k: int| p.d0 <= k < p.d1 ==> is_digit_char(s@[k])
                &&& p.t0 < p.t1 <= s@.len()
                &&& forall|k: int| p.t0 <= k < p.t1 ==> is_digit_char(s@[k])
            },
            None => claim_good_shape(s@) is None,
        },
{
    let n = s.unicode_len();
    if !starts_with_at(s, 0, "@") {
        return None;
    }
    let u0 = "@".unicode_len();
    let u1 = word_end(s, u0);
    if u1 == u0 {
        return None;
    }
    let sep = " | ";
    if !starts_with_at(s, u1, sep) {
        return None;
    }
    let seg0 = u1 + sep.unicode_len();
    let q = match find_from(s, seg0, "|") {
        Some(q) => q,
        None => { return None },
    };
    proof {
        crate::text::lemma_first_match(s@, seg0 as int, "|"@);
    }
    if !(q >= 1 && s.get_char(q - 1) == ' ' && n - q >= 2 && s.get_char(q + 1) == ' ') {
        return None;
    }
    let a0 = q + 2;
    if !(a0 < n) {
        return None;
    }
    let sign = s.get_char(a0);
    if !(sign == '+' || sign == '-') {
        return None;
    }
    let d0 = a0 + 1;
    let d1 = digits_end(s, d0);
    proof {
        crate::text::lemma_digits_end_at(s@, d0 as int);
    }
    if d1 == d0 {
        return None;
    }
    let sp = spaces_end(s, d1);
    proof {
        crate::text::lemma_spaces_end_at(s@, d1 as int);
    }
    if sp == d1 {
        return None;
    }
    let mid = "egs | Total egs: ";
    if !starts_with_at(s, sp, mid) {
        return None;
    }
    let t0 = sp + mid.unicode_len();
    let t1 = digits_end(s, t0);
    proof {
        crate::text::lemma_digits_end_at(s@, t0 as int);
    }
    if t1 == t0 {
        return None;
    }
    if !(t1 < n && s.get_char(t1) == ' ') {
        return None;
    }
    proof {
        crate::text::lemma_word_end_at(s@, u0 as int);
    }
    Some(ClaimGoodPos { u0, u1, a0, d0, d1, t0, t1 })
}

/// Named captures of a successful claim reply, as owned text.
pub struct ClaimGoodCaptures {
    pub username: String,
    pub amount: String,
    pub total: String,
}

/// Match a successful claim reply and hand out its captures.
pub fn claim_good_captures(s: &str) -> (r: Option<ClaimGoodCaptures>)
    ensures
        match r {
            Some(c) => claim_good_shape(s@) matches Some(g) && g.username == c.username@
                && g.amount == c.amount@ && g.total == c.total@,
            None => claim_good_shape(s@) is None,
        },
{
    match claim_good_pos(s) {
        None => None,
        Some(p) => Some(
            ClaimGoodCaptures {
                username: s.substring_char(p.u0, p.u1).to_owned(),
                amount: s.substring_char(p.a0, p.d1).to_owned(),
                total: s.substring_char(p.t0, p.t1).to_owned(),
            },
        ),
    }
}

/// Fields of a cooldown reply, as slices of the reply.  The seconds
/// component may be absent.
pub struct ClaimBadShape {
    pub username: Seq<char>,
    pub minutes: Seq<char>,
    pub seconds: Option<Seq<char>>,
    pub total: Seq<char>,
}

/// The decomposition of a cooldown reply: the addressee, the fixed
/// complaint, the remaining minutes, optionally the remaining seconds,
/// and the unchanged total.
pub open spec fn claim_bad_shape(s: Seq<char>) -> Option<ClaimBadShape> {
    if !starts_at(s, 0, "@"@) {
        None
    } else {
        let u0 = "@"@.len() as int;
        let u1 = word_end_at(s, u0);
        if u1 == u0 || !starts_at(s, u1, " nam1Sadeg no eg. come back in "@) {
            None
        } else {
            let m0 = u1 + " nam1Sadeg no eg. come back in "@.len();
            let m1 = digits_end_at(s, m0);
            if m1 == m0 || !starts_at(s, m1, " minute"@) {
                None
            } else {
                let c0 = m1 + " minute"@.len();
                let c1 = if c0 < s.len() && s[c0] == 's' {
                    c0 + 1
                } else {
                    c0
                };
                if !(c1 < s.len() && s[c1] == ',') {
                    None
                } else {
                    let after = c1 + 1;
                    if after + 1 < s.len() && s[after] == ' ' && is_digit_char(s[after + 1]) {
                        let s0 = after + 1;
                        let s1 = digits_end_at(s, s0);
                        if !starts_at(s, s1, " second"@) {
                            None
                        } else {
                            let e0 = s1 + " second"@.len();
                            let e1 = if e0 < s.len() && s[e0] == 's' {
                                e0 + 1
                            } else {
                                e0
                            };
                            if !starts_at(s, e1, " Total egs: "@) {
                                None
                            } else {
                                let t0 = e1 + " Total egs: "@.len();
                                let t1 = digits_end_at(s, t0);
                                if t1 == t0 {
                                    None
                                } else {
                                    Some(
                                        ClaimBadShape {
                                            username: s.subrange(u0, u1),
                                            minutes: s.subrange(m0, m1),
                                            seconds: Some(s.subrange(s0, s1)),
                                            total: s.subrange(t0, t1),
                                        },
                                    )
                                }
                            }
                        }
                    } else {
                        if !starts_at(s, after, " Total egs: "@) {
                            None
                        } else {
                            let t0 = after + " Total egs: "@.len();
                            let t1 = digits_end_at(s, t0);
                            if t1 == t0 {
                                None
                            } else {
                                Some(
                                    ClaimBadShape {
                                        username: s.subrange(u0, u1),
                                        minutes: s.subrange(m0, m1),
                                        seconds: None,
                                        total: s.subrange(t0, t1),
                                    },
                                )
                            }
                        }
                    }
                }
            }
        }
    }
}

/// Positions of the fields of a cooldown reply; the seconds field may be
/// absent.
pub struct ClaimBadPos {
    pub u0: usize,
    pub u1: usize,
    pub m0: usize,
    pub m1: usize,
    pub sec: Option<(usize, usize)>,
    pub t0: usize,
    pub t1: usize,
}

/// Locate the fields of a cooldown reply.
pub fn claim_bad_pos(s: &str) -> (r: Option<ClaimBadPos>)
    ensures
        match r {
            Some(p) => {
                &&& claim_bad_shape(s@) matches Some(g) && g.username == s@.subrange(
                    p.u0 as int,
                    p.u1 as int,
                ) && g.minutes == s@.subrange(p.m0 as int, p.m1 as int) && g.total == s@.subrange(
                    p.t0 as int,
                    p.t1 as int,
                ) && (match p.sec {
                    Some((s0, s1)) => g.seconds == Some(s@.subrange(s0 as int, s1 as int)),
                    None => g.seconds is None,
                })
                &&& p.u0 <= p.u1 <= s@.len()
                &&& p.m0 < p.m1 <= s@.len()
                &&& forall|k: int| p.m0 <= k < p.m1 ==> is_digit_char(s@[k])
                &&& (match p.sec {
                    Some((s0, s1)) => s0 < s1 <= s@.len() && forall|k: int|
                        s0 <= k < s1 ==> is_digit_char(s@[k]),
                    None => true,
                })
                &&& p.t0 < p.t1 <= s@.len()
                &&& forall|k: int| p.t0 <= k < p.t1 ==> is_digit_char(s@[k])
            },
            None => claim_bad_shape(s@) is None,
        },
{
    let n = s.unicode_len();
    if !starts_with_at(s, 0, "@") {
        return None;
    }
    let u0 = "@".unicode_len();
    let u1 = word_end(s, u0);
    if u1 == u0 {
        return None;
    }
    let complaint = " nam1Sadeg no eg. come back in ";
    if !starts_with_at(s, u1, complaint) {
        return None;
    }
    let m0 = u1 + complaint.unicode_len();
    let m1 = digits_end(s, m0);
    proof {
        crate::text::lemma_digits_end_at(s@, m0 as int);
        crate::text::lemma_word_end_at(s@, u0 as int);
    }
    if m1 == m0 {
        return None;
    }
    let unit = " minute";
    if !starts_with_at(s, m1, unit) {
        return None;
    }
    let c0 = m1 + unit.unicode_len();
    let c1 = if c0 < n && s.get_char(c0) == 's' {
        c0 + 1
    } else {
        c0
    };
    if !(c1 < n && s.get_char(c1) == ',') {
        return None;
    }
    let after = c1 + 1;
    let totals = " Total egs: ";
    if n - after >= 2 && s.get_char(after) == ' ' && {
        let c = s.get_char(after + 1);
        '0' <= c && c <= '9'
    } {
        let s0 = after + 1;
        let s1 = digits_end(s, s0);
        proof {
            crate::text::lemma_digits_end_at(s@, s0 as int);
        }
        let secunit = " second";
        if !starts_with_at(s, s1, secunit) {
            return None;
        }
        let e0 = s1 + secunit.unicode_len();
        let e1 = if e0 < n && s.get_char(e0) == 's' {
            e0 + 1
        } else {
            e0
        };
        if !starts_with_at(s, e1, totals) {
            return None;
        }
        let t0 = e1 + totals.unicode_len();
        let t1 = digits_end(s, t0);
        proof {
            crate::text::lemma_digits_end_at(s@, t0 as int);
        }
        if t1 == t0 {
            return None;
        }
        Some(ClaimBadPos { u0, u1, m0, m1, sec: Some((s0, s1)), t0, t1 })
    } else {
        if !starts_with_at(s, after, totals) {
            return None;
        }
        let t0 = after + totals.unicode_len();
        let t1 = digits_end(s, t0);
        proof {
            crate::text::lemma_digits_end_at(s@, t0 as int);
        }
        if t1 == t0 {
            return None;
        }
        Some(ClaimBadPos { u0, u1, m0, m1, sec: None, t0, t1 })
    }
}

/// Named captures of a cooldown reply, as owned text.
pub struct ClaimBadCaptures {
    pub username: String,
    pub minutes: String,
    pub seconds: Option<String>,
    pub total: String,
}

/// Match a cooldown reply and hand out its captures.
pub fn claim_bad_captures(s: &str) -> (r: Option<ClaimBadCaptures>)
    ensures
        match r {
            Some(c) => claim_bad_shape(s@) matches Some(g) && g.username == c.username@
                && g.minutes == c.minutes@ && g.total == c.total@ && (match c.seconds {
                Some(sec) => g.seconds == Some(sec@),
                None => g.seconds is None,
            }),
            None => claim_bad_shape(s@) is None,
        },
{
    match claim_bad_pos(s) {
        None => None,
        Some(p) => {
            let seconds = match p.sec {
                Some((s0, s1)) => Some(s.substring_char(s0, s1).to_owned()),
                None => None,
            };
            Some(
                ClaimBadCaptures {
                    username: s.substring_char(p.u0, p.u1).to_owned(),
                    minutes: s.substring_char(p.m0, p.m1).to_owned(),
                    seconds,
                    total: s.substring_char(p.t0, p.t1).to_owned(),
                },
            )
        },
    }
}

/// The addressee of any reply of this counterpart: the word after `@`,
/// followed by a space.
pub open spec fn generic_answer_shape(s: Seq<char>) -> Option<Seq<char>> {
    if !starts_at(s, 0, "@"@) {
        None
    } else {
        let u0 = "@"@.len() as int;
        let u1 = word_end_at(s, u0);
        if u1 == u0 || !(u1 < s.len() && s[u1] == ' ') {
            None
        } else {
            Some(s.subrange(u0, u1))
        }
    }
}

/// Match the broad addressed-reply shape and hand out the addressee.
pub fn generic_answer_username(s: &str) -> (r: Option<String>)
    ensures
        match r {
            Some(u) => generic_answer_shape(s@) == Some(u@),
            None => generic_answer_shape(s@) is None,
        },
{
    let n = s.unicode_len();
    if !starts_with_at(s, 0, "@") {
        return None;
    }
    let u0 = "@".unicode_len();
    let u1 = word_end(s, u0);
    proof {
        crate::text::lemma_word_end_at(s@, u0 as int);
    }
    if u1 == u0 {
        return None;
    }
    if !(u1 < n && s.get_char(u1) == ' ') {
        return None;
    }
    Some(s.substring_char(u0, u1).to_owned())
}

} // verus!
