//! Reply shapes of the cookie-claiming counterpart.
//!
//! Replies open with a `"[Cookies]"` or `"[Shop]"` tag.  Claim replies
//! carry a bracketed rank — either a plain word or `"P<digits>: <word>"` —
//! then the addressee; shop replies carry the addressee directly.

use vstd::prelude::*;
use vstd::string::*;

use crate::text::{
    digits_end, digits_end_at, find_from, first_match, is_digit_char, starts_at, starts_with_at,
    word_end, word_end_at,
};

verus! {

/// End (exclusive) of a rank written at `r0`: either
/// `"P<digits>: <word>"` or a plain word (possibly empty).
pub open spec fn rank_end_at(s: Seq<char>, r0: int) -> int {
    if 0 <= r0 && r0 < s.len() && s[r0] == 'P' && digits_end_at(s, r0 + 1) > r0 + 1 && starts_at(
        s,
        digits_end_at(s, r0 + 1),
        ": "@,
    ) && word_end_at(s, digits_end_at(s, r0 + 1) + ": "@.len()) > digits_end_at(s, r0 + 1)
        + ": "@.len() {
        word_end_at(s, digits_end_at(s, r0 + 1) + ": "@.len())
    } else {
        word_end_at(s, r0)
    }
}

pub proof fn lemma_rank_end_at(s: Seq<char>, r0: int)
    requires
        0 <= r0 <= s.len(),
    ensures
        r0 <= rank_end_at(s, r0) <= s.len(),
{
    crate::text::lemma_word_end_at(s, r0);
    if r0 < s.len() && s[r0] == 'P' {
        crate::text::lemma_digits_end_at(s, r0 + 1);
        let d1 = digits_end_at(s, r0 + 1);
        if d1 > r0 + 1 && starts_at(s, d1, ": "@) {
            crate::text::lemma_word_end_at(s, d1 + ": "@.len());
        }
    }
}

/// Executable form of `rank_end_at`.
pub fn rank_end(s: &str, r0: usize) -> (r: usize)
    requires
        r0 <= s@.len(),
    ensures
        r == rank_end_at(s@, r0 as int),
        r0 <= r <= s@.len(),
{
    proof {
        lemma_rank_end_at(s@, r0 as int);
    }
    let n = s.unicode_len();
    if r0 < n && s.get_char(r0) == 'P' {
        let d1 = digits_end(s, r0 + 1);
        proof {
            crate::text::lemma_digits_end_at(s@, r0 + 1);
        }
        if d1 > r0 + 1 && starts_with_at(s, d1, ": ") {
            let w0 = d1 + ": ".unicode_len();
            let w1 = word_end(s, w0);
            if w1 > w0 {
                return w1;
            }
        }
    }
    word_end(s, r0)
}

/// Fields of a successful claim reply, as slices of the reply.
pub struct ClaimGoodShape {
    pub rank: Seq<char>,
    pub username: Seq<char>,
    pub cookie: Seq<char>,
    pub amount: Seq<char>,
    pub total: Seq<char>,
}

/// The decomposition of a successful claim reply: tag, bracketed rank,
/// addressee, the found cookie up to its exclamation marks, the signed
/// amount (the neutral marker `\u{B1}` marks a zero find), an emote, and
/// the new total.
pub open spec fn claim_good_shape(s: Seq<char>) -> Option<ClaimGoodShape> {
    if !starts_at(s, 0, "[Cookies] ["@) {
        None
    } else {
        let r0 = "[Cookies] ["@.len() as int;
        let re = rank_end_at(s, r0);
        if re == r0 || !starts_at(s, re, "] "@) {
            None
        } else {
            let u0 = re + "] "@.len();
            let u1 = word_end_at(s, u0);
            if u1 == u0 || !starts_at(s, u1, " -> "@) {
                None
            } else {
                let c0 = u1 + " -> "@.len();
                match first_match(s, c0, "!"@) {
                    None => None,
                    Some(e) => {
                        if e == c0 {
                            None
                        } else {
                            let bb = bangs_end_at(s, e);
                            if !starts_at(s, bb, " ("@) {
                                None
                            } else {
                                let a0 = bb + " ("@.len();
                                if !(a0 < s.len() && (s[a0] == '+' || s[a0] == '-' || s[a0]
                                    == '\u{B1}')) {
                                    None
                                } else {
                                    let d0 = a0 + 1;
                                    let d1 = digits_end_at(s, d0);
                                    if d1 == d0 || !starts_at(s, d1, ") "@) {
                                        None
                                    } else {
                                        let e0 = d1 + ") "@.len();
                                        let e1 = word_end_at(s, e0);
                                        if e1 == e0 || !starts_at(s, e1, " | "@) {
                                            None
                                        } else {
                                            let t0 = e1 + " | "@.len();
                                            let t1 = digits_end_at(s, t0);
                                            if t1 == t0 || !starts_at(s, t1, " total!"@) {
                                                None
                                            } else {
                                                Some(
                                                    ClaimGoodShape {
                                                        rank: s.subrange(r0, re),
                                                        username: s.subrange(u0, u1),
                                                        cookie: s.subrange(c0, e),
                                                        amount: s.subrange(a0, d1),
                                                        total: s.subrange(t0, t1),
                                                    },
                                                )
                                            }
                                        }
                                    }
                                }
                            }
                        }
                    }
                }
            }
        }
    }
}

/// End (exclusive) of the run of `'!'` characters that begins at `i`.
pub open spec fn bangs_end_at(s: Seq<char>, i: int) -> int
    decreases s.len() - i,
{
    if i < 0 || i >= s.len() {
        i
    } else if s[i] == '!' {
        bangs_end_at(s, i + 1)
    } else {
        i
    }
}

pub proof fn lemma_bangs_end_at(s: Seq<char>, i: int)
    requires
        0 <= i <= s.len(),
    ensures
        i <= bangs_end_at(s, i) <= s.len(),
    decreases s.len() - i,
{
    if i < s.len() && s[i] == '!' {
        lemma_bangs_end_at(s, i + 1);
    }
}

/// Executable form of `bangs_end_at`.
pub fn bangs_end(s: &str, from: usize) -> (r: usize)
    requires
        from <= s@.len(),
    ensures
        r == bangs_end_at(s@, from as int),
{
    let n = s.unicode_len();
    let mut pos = from;
    loop
        invariant
            from <= pos <= n,
            n == s@.len(),
            bangs_end_at(s@, from as int) == bangs_end_at(s@, pos as int),
        decreases n - pos,
    {
        if pos == n {
            return pos;
        }
        if !(s.get_char(pos) == '!') {
            return pos;
        }
        assert(bangs_end_at(s@, pos as int) == bangs_end_at(s@, pos + 1));
        pos = pos + 1;
    }
}

/// Positions of the fields of a successful claim reply.
pub struct ClaimGoodPos {
    pub r0: usize,
    pub re: usize,
    pub u0: usize,
    pub u1: usize,
    pub c0: usize,
    pub ce: usize,
    pub a0: usize,
    pub d0: usize,
    pub d1: usize,
    pub t0: usize,
    pub t1: usize,
}

/// Locate the fields of a successful claim reply.
pub fn claim_good_pos(s: &str) -> (r: Option<ClaimGoodPos>)
    ensures
        match r {
            Some(p) => {
                &&& claim_good_shape(s@) matches Some(g) && g.rank == s@.subrange(
                    p.r0 as int,
                    p.re as int,
                ) && g.username == s@.subrange(p.u0 as int, p.u1 as int) && g.cookie
                    == s@.subrange(p.c0 as int, p.ce as int) && g.amount == s@.subrange(
                    p.a0 as int,
                    p.d1 as int,
                ) && g.total == s@.subrange(p.t0 as int, p.t1 as int)
                &&& p.r0 <= p.re <= s@.len()
                &&& p.u0 <= p.u1 <= s@.len()
                &&& p.c0 <= p.ce <= s@.len()
                &&& p.a0 < s@.len() && (s@[p.a0 as int] == '+' || s@[p.a0 as int] == '-'
                    || s@[p.a0 as int] == '\u{B1}')
                &&& p.a0 + 1 == p.d0 && p.d0 < p.d1 <= s@.len()
                &&& forall|k: int| p.d0 <= k < p.d1 ==> is_digit_char(s@[k])
                &&& p.t0 < p.t1 <= s@.len()
                &&& forall|k: int| p.t0 <= k < p.t1 ==> is_digit_char(s@[k])
            },
            None => claim_good_shape(s@) is None,
        },
{
    let n = s.unicode_len();
    let tag = "[Cookies] [";
    if !starts_with_at(s, 0, tag) {
        return None;
    }
    let r0 = tag.unicode_len();
    let re = rank_end(s, r0);
    if re == r0 {
        return None;
    }
    if !starts_with_at(s, re, "] ") {
        return None;
    }
    let u0 = re + "] ".unicode_len();
    let u1 = word_end(s, u0);
    proof {
        crate::text::lemma_word_end_at(s@, u0 as int);
    }
    if u1 == u0 {
        return None;
    }
    let arrow = " -> ";
    if !starts_with_at(s, u1, arrow) {
        return None;
    }
    let c0 = u1 + arrow.unicode_len();
    let e = match find_from(s, c0, "!") {
        Some(e) => e,
        None => { return None },
    };
    proof {
        crate::text::lemma_first_match(s@, c0 as int, "!"@);
    }
    if e == c0 {
        return None;
    }
    let bb = bangs_end(s, e);
    proof {
        lemma_bangs_end_at(s@, e as int);
    }
    if !starts_with_at(s, bb, " (") {
        return None;
    }
    let a0 = bb + " (".unicode_len();
    if !(a0 < n) {
        return None;
    }
    let sign = s.get_char(a0);
    if !(sign == '+' || sign == '-' || sign == '\u{B1}') {
        return None;
    }
    let d0 = a0 + 1;
    let d1 = digits_end(s, d0);
    proof {
        crate::text::lemma_digits_end_at(s@, d0 as int);
    }
    if d1 == d0 {
        return None;
    }
    if !starts_with_at(s, d1, ") ") {
        return None;
    }
    let e0 = d1 + ") ".unicode_len();
    let e1 = word_end(s, e0);
    proof {
        crate::text::lemma_word_end_at(s@, e0 as int);
    }
    if e1 == e0 {
        return None;
    }
    if !starts_with_at(s, e1, " | ") {
        return None;
    }
    let t0 = e1 + " | ".unicode_len();
    let t1 = digits_end(s, t0);
    proof {
        crate::text::lemma_digits_end_at(s@, t0 as int);
    }
    if t1 == t0 {
        return None;
    }
    if !starts_with_at(s, t1, " total!") {
        return None;
    }
    Some(ClaimGoodPos { r0, re, u0, u1, c0, ce: e, a0, d0, d1, t0, t1 })
}

/// Named captures of a successful claim reply, as owned text.
pub struct ClaimGoodCaptures {
    pub rank: String,
    pub username: String,
    pub cookie: String,
    pub amount: String,
    pub total: String,
}

/// Match a successful claim reply and hand out its captures.
pub fn claim_good_captures(s: &str) -> (r: Option<ClaimGoodCaptures>)
    ensures
        match r {
            Some(c) => claim_good_shape(s@) matches Some(g) && g.rank == c.rank@ && g.username
                == c.username@ && g.cookie == c.cookie@ && g.amount == c.amount@ && g.total
                == c.total@,
            None => claim_good_shape(s@) is None,
        },
{
    match claim_good_pos(s) {
        None => None,
        Some(p) => Some(
            ClaimGoodCaptures {
                rank: s.substring_char(p.r0, p.re).to_owned(),
                username: s.substring_char(p.u0, p.u1).to_owned(),
                cookie: s.substring_char(p.c0, p.ce).to_owned(),
                amount: s.substring_char(p.a0, p.d1).to_owned(),
                total: s.substring_char(p.t0, p.t1).to_owned(),
            },
        ),
    }
}

/// Fields of a cooldown claim reply, as slices of the reply.
pub struct ClaimBadShape {
    pub rank: Seq<char>,
    pub username: Seq<char>,
    pub total: Seq<char>,
}

/// The decomposition of a cooldown claim reply: tag, bracketed rank,
/// addressee, the fixed complaint and the unchanged total.
pub open spec fn claim_bad_shape(s: Seq<char>) -> Option<ClaimBadShape> {
    if !starts_at(s, 0, "[Cookies] ["@) {
        None
    } else {
        let r0 = "[Cookies] ["@.len() as int;
        let re = rank_end_at(s, r0);
        if re == r0 || !starts_at(s, re, "] "@) {
            None
        } else {
            let u0 = re + "] "@.len();
            let u1 = word_end_at(s, u0);
            if u1 == u0 || !starts_at(s, u1, " you have already claimed a cookie and have "@) {
                None
            } else {
                let t0 = u1 + " you have already claimed a cookie and have "@.len();
                let t1 = digits_end_at(s, t0);
                if t1 == t0 || !starts_at(s, t1, " of them!"@) {
                    None
                } else {
                    Some(
                        ClaimBadShape {
                            rank: s.subrange(r0, re),
                            username: s.subrange(u0, u1),
                            total: s.subrange(t0, t1),
                        },
                    )
                }
            }
        }
    }
}

/// Positions of the fields of a cooldown claim reply.
pub struct ClaimBadPos {
    pub r0: usize,
    pub re: usize,
    pub u0: usize,
    pub u1: usize,
    pub t0: usize,
    pub t1: usize,
}

/// Locate the fields of a cooldown claim reply.
pub fn claim_bad_pos(s: &str) -> (r: Option<ClaimBadPos>)
    ensures
        match r {
            Some(p) => {
                &&& claim_bad_shape(s@) matches Some(g) && g.rank == s@.subrange(
                    p.r0 as int,
                    p.re as int,
                ) && g.username == s@.subrange(p.u0 as int, p.u1 as int) && g.total == s@.subrange(
                    p.t0 as int,
                    p.t1 as int,
                )
                &&& p.r0 <= p.re <= s@.len()
                &&& p.u0 <= p.u1 <= s@.len()
                &&& p.t0 < p.t1 <= s@.len()
                &&& forall|k: int| p.t0 <= k < p.t1 ==> is_digit_char(s@[k])
            },
            None => claim_bad_shape(s@) is None,
        },
{
    let tag = "[Cookies] [";
    if !starts_with_at(s, 0, tag) {
        return None;
    }
    let r0 = tag.unicode_len();
    let re = rank_end(s, r0);
    if re == r0 {
        return None;
    }
    if !starts_with_at(s, re, "] ") {
        return None;
    }
    let u0 = re + "] ".unicode_len();
    let u1 = word_end(s, u0);
    proof {
        crate::text::lemma_word_end_at(s@, u0 as int);
    }
    if u1 == u0 {
        return None;
    }
    let complaint = " you have already claimed a cookie and have ";
    if !starts_with_at(s, u1, complaint) {
        return None;
    }
    let t0 = u1 + complaint.unicode_len();
    let t1 = digits_end(s, t0);
    proof {
        crate::text::lemma_digits_end_at(s@, t0 as int);
    }
    if t1 == t0 {
        return None;
    }
    if !starts_with_at(s, t1, " of them!") {
        return None;
    }
    Some(ClaimBadPos { r0, re, u0, u1, t0, t1 })
}

/// Named captures of a cooldown claim reply, as owned text.
pub struct ClaimBadCaptures {
    pub rank: String,
    pub username: String,
    pub total: String,
}

/// Match a cooldown claim reply and hand out its captures.
pub fn claim_bad_captures(s: &str) -> (r: Option<ClaimBadCaptures>)
    ensures
        match r {
            Some(c) => claim_bad_shape(s@) matches Some(g) && g.rank == c.rank@ && g.username
                == c.username@ && g.total == c.total@,
            None => claim_bad_shape(s@) is None,
        },
{
    match claim_bad_pos(s) {
        None => None,
        Some(p) => Some(
            ClaimBadCaptures {
                rank: s.substring_char(p.r0, p.re).to_owned(),
                username: s.substring_char(p.u0, p.u1).to_owned(),
                total: s.substring_char(p.t0, p.t1).to_owned(),
            },
        ),
    }
}

/// Fields of a cooldown-probe reply.  The probe asks whether a claim is
/// possible now; both answers name the level, the addressee and the
/// unchanged total.
pub struct CdCheckShape {
    pub level: Seq<char>,
    pub username: Seq<char>,
    pub total: Seq<char>,
}

/// The shared opening of both cooldown-probe replies: tag, bracketed
/// level word, addressee, and the cookie count.  Yields the position
/// after the count's badge, with the captures.
pub open spec fn cd_check_head(s: Seq<char>) -> Option<(CdCheckShape, int)> {
    if !starts_at(s, 0, "[Cookies] ["@) {
        None
    } else {
        let l0 = "[Cookies] ["@.len() as int;
        let l1 = word_end_at(s, l0);
        if l1 == l0 || !starts_at(s, l1, "] "@) {
            None
        } else {
            let u0 = l1 + "] "@.len();
            let u1 = word_end_at(s, u0);
            if u1 == u0 || !starts_at(s, u1, ", you have "@) {
                None
            } else {
                let t0 = u1 + ", you have "@.len();
                let t1 = digits_end_at(s, t0);
                if t1 == t0 || !starts_at(s, t1, " cookies! \u{1F36A} "@) {
                    None
                } else {
                    Some(
                        (
                            CdCheckShape {
                                level: s.subrange(l0, l1),
                                username: s.subrange(u0, u1),
                                total: s.subrange(t0, t1),
                            },
                            t1 + " cookies! \u{1F36A} "@.len(),
                        ),
                    )
                }
            }
        }
    }
}

/// A cooldown-probe reply that allows claiming now.
pub open spec fn cd_check_good_shape(s: Seq<char>) -> Option<CdCheckShape> {
    match cd_check_head(s) {
        None => None,
        Some((g, pos)) => {
            if starts_at(s, pos, "You can also claim your next cookie now by doing !cookie!"@) {
                Some(g)
            } else {
                None
            }
        },
    }
}

/// Fields of a cooldown-probe reply that reports a remaining wait: the
/// head captures and the wait, split into optional hours, optional
/// minutes, and seconds.
pub struct CdCheckBadShape {
    pub level: Seq<char>,
    pub username: Seq<char>,
    pub total: Seq<char>,
    pub hours: Option<Seq<char>>,
    pub minutes: Option<Seq<char>>,
    pub seconds: Seq<char>,
}

/// `" sec"`, an optional plural `'s'` and the probe's closing words stand
/// at `i`.
pub open spec fn cd_secs_tail_at(s: Seq<char>, i: int) -> bool {
    if starts_at(s, i, " sec"@) {
        let j = i + " sec"@.len();
        let j2 = if j < s.len() && s[j] == 's' {
            j + 1
        } else {
            j
        };
        starts_at(s, j2, " left until you can claim your next cookie!"@)
    } else {
        false
    }
}

/// A cooldown-probe reply that reports a remaining wait.  Hours are a
/// single digit and only come together with minutes; minutes and seconds
/// are joined by `", and "`.
pub open spec fn cd_check_bad_shape(s: Seq<char>) -> Option<CdCheckBadShape> {
    match cd_check_head(s) {
        None => None,
        Some((g, pos)) => {
            let p1 = digits_end_at(s, pos);
            if p1 == pos {
                None
            } else if starts_at(s, p1, " hr"@) {
                if p1 != pos + 1 {
                    None
                } else {
                    match after_unit_comma(s, p1 + " hr"@.len()) {
                        None => None,
                        Some(m0) => {
                            let m1 = digits_end_at(s, m0);
                            if m1 == m0 || !starts_at(s, m1, " min"@) {
                                None
                            } else {
                                match after_unit_and(s, m1 + " min"@.len()) {
                                    None => None,
                                    Some(s0) => {
                                        let s1 = digits_end_at(s, s0);
                                        if s1 == s0 || !cd_secs_tail_at(s, s1) {
                                            None
                                        } else {
                                            Some(
                                                CdCheckBadShape {
                                                    level: g.level,
                                                    username: g.username,
                                                    total: g.total,
                                                    hours: Some(s.subrange(pos, p1)),
                                                    minutes: Some(s.subrange(m0, m1)),
                                                    seconds: s.subrange(s0, s1),
                                                },
                                            )
                                        }
                                    }
                                }
                            }
                        }
                    }
                }
            } else if starts_at(s, p1, " min"@) {
                match after_unit_and(s, p1 + " min"@.len()) {
                    None => None,
                    Some(s0) => {
                        let s1 = digits_end_at(s, s0);
                        if s1 == s0 || !cd_secs_tail_at(s, s1) {
                            None
                        } else {
                            Some(
                                CdCheckBadShape {
                                    level: g.level,
                                    username: g.username,
                                    total: g.total,
                                    hours: None,
                                    minutes: Some(s.subrange(pos, p1)),
                                    seconds: s.subrange(s0, s1),
                                },
                            )
                        }
                    }
                }
            } else {
                if !cd_secs_tail_at(s, p1) {
                    None
                } else {
                    Some(
                        CdCheckBadShape {
                            level: g.level,
                            username: g.username,
                            total: g.total,
                            hours: None,
                            minutes: None,
                            seconds: s.subrange(pos, p1),
                        },
                    )
                }
            }
        },
    }
}

/// After a unit word: an optional plural `'s'`, then `", and "`; the
/// position after it, or `None` when the text differs.
pub open spec fn after_unit_and(s: Seq<char>, i: int) -> Option<int> {
    let j = if i < s.len() && s[i] == 's' {
        i + 1
    } else {
        i
    };
    if starts_at(s, j, ", and "@) {
        Some(j + ", and "@.len())
    } else {
        None
    }
}

/// Positions of the shared head captures of a cooldown-probe reply.
struct CdCheckHeadPos {
    l0: usize,
    l1: usize,
    u0: usize,
    u1: usize,
    t0: usize,
    t1: usize,
    pos: usize,
}

/// Locate the shared head of a cooldown-probe reply.
fn cd_check_head_pos(s: &str) -> (r: Option<CdCheckHeadPos>)
    ensures
        match r {
            Some(p) => {
                &&& cd_check_head(s@) matches Some((g, pos)) && g.level == s@.subrange(
                    p.l0 as int,
                    p.l1 as int,
                ) && g.username == s@.subrange(p.u0 as int, p.u1 as int) && g.total == s@.subrange(
                    p.t0 as int,
                    p.t1 as int,
                ) && pos == p.pos as int
                &&& p.l0 <= p.l1 <= s@.len()
                &&& p.u0 <= p.u1 <= s@.len()
                &&& p.t0 < p.t1 <= s@.len()
                &&& p.pos <= s@.len()
                &&& forall|k: int| p.t0 <= k < p.t1 ==> is_digit_char(s@[k])
            },
            None => cd_check_head(s@) is None,
        },
{
    let tag = "[Cookies] [";
    if !starts_with_at(s, 0, tag) {
        return None;
    }
    let l0 = tag.unicode_len();
    let l1 = word_end(s, l0);
    proof {
        crate::text::lemma_word_end_at(s@, l0 as int);
    }
    if l1 == l0 {
        return None;
    }
    if !starts_with_at(s, l1, "] ") {
        return None;
    }
    let u0 = l1 + "] ".unicode_len();
    let u1 = word_end(s, u0);
    proof {
        crate::text::lemma_word_end_at(s@, u0 as int);
    }
    if u1 == u0 {
        return None;
    }
    let have = ", you have ";
    if !starts_with_at(s, u1, have) {
        return None;
    }
    let t0 = u1 + have.unicode_len();
    let t1 = digits_end(s, t0);
    proof {
        crate::text::lemma_digits_end_at(s@, t0 as int);
    }
    if t1 == t0 {
        return None;
    }
    let badge = " cookies! \u{1F36A} ";
    if !starts_with_at(s, t1, badge) {
        return None;
    }
    let pos = t1 + badge.unicode_len();
    Some(CdCheckHeadPos { l0, l1, u0, u1, t0, t1, pos })
}

/// Named captures of a claim-allowed probe reply, as owned text.
pub struct CdCheckGoodCaptures {
    pub level: String,
    pub username: String,
    pub total: String,
}

/// Match a probe reply that allows claiming now and hand out its
/// captures.
pub fn cd_check_good_captures(s: &str) -> (r: Option<CdCheckGoodCaptures>)
    ensures
        match r {
            Some(c) => cd_check_good_shape(s@) matches Some(g) && g.level == c.level@
                && g.username == c.username@ && g.total == c.total@,
            None => cd_check_good_shape(s@) is None,
        },
{
    let p = match cd_check_head_pos(s) {
        None => { return None },
        Some(p) => p,
    };
    if !starts_with_at(s, p.pos, "You can also claim your next cookie now by doing !cookie!") {
        return None;
    }
    Some(
        CdCheckGoodCaptures {
            level: s.substring_char(p.l0, p.l1).to_owned(),
            username: s.substring_char(p.u0, p.u1).to_owned(),
            total: s.substring_char(p.t0, p.t1).to_owned(),
        },
    )
}

/// Named captures of a wait-reporting probe reply, as owned text.
pub struct CdCheckBadCaptures {
    pub level: String,
    pub username: String,
    pub total: String,
    pub h: Option<String>,
    pub m: Option<String>,
    pub s: String,
}

/// Executable form of `cd_secs_tail_at`.
fn cd_secs_tail_exec(s: &str, i: usize) -> (r: bool)
    requires
        i <= s@.len(),
    ensures
        r == cd_secs_tail_at(s@, i as int),
{
    let n = s.unicode_len();
    if !starts_with_at(s, i, " sec") {
        return false;
    }
    let j = i + " sec".unicode_len();
    let j2 = if j < n && s.get_char(j) == 's' {
        j + 1
    } else {
        j
    };
    starts_with_at(s, j2, " left until you can claim your next cookie!")
}

/// Executable form of `after_unit_and`.
fn after_unit_and_exec(s: &str, i: usize) -> (r: Option<usize>)
    requires
        i <= s@.len(),
    ensures
        match r {
            Some(j) => after_unit_and(s@, i as int) == Some(j as int) && j <= s@.len(),
            None => after_unit_and(s@, i as int) is None,
        },
{
    let n = s.unicode_len();
    let j = if i < n && s.get_char(i) == 's' {
        i + 1
    } else {
        i
    };
    if starts_with_at(s, j, ", and ") {
        Some(j + ", and ".unicode_len())
    } else {
        None
    }
}

/// Match a probe reply that reports a remaining wait and hand out its
/// captures.
pub fn cd_check_bad_captures(s: &str) -> (r: Option<CdCheckBadCaptures>)
    ensures
        match r {
            Some(c) => cd_check_bad_shape(s@) matches Some(g) && g.level == c.level@
                && g.username == c.username@ && g.total == c.total@ && g.seconds == c.s@ && (match c
                .h {
                Some(h) => g.hours == Some(h@),
                None => g.hours is None,
            }) && (match c.m {
                Some(m) => g.minutes == Some(m@),
                None => g.minutes is None,
            }),
            None => cd_check_bad_shape(s@) is None,
        },
{
    let p = match cd_check_head_pos(s) {
        None => { return None },
        Some(p) => p,
    };
    let level = s.substring_char(p.l0, p.l1).to_owned();
    let username = s.substring_char(p.u0, p.u1).to_owned();
    let total = s.substring_char(p.t0, p.t1).to_owned();
    let p1 = digits_end(s, p.pos);
    proof {
        crate::text::lemma_digits_end_at(s@, p.pos as int);
    }
    if p1 == p.pos {
        return None;
    }
    if starts_with_at(s, p1, " hr") {
        if p1 != p.pos + 1 {
            return None;
        }
        let m0 = match after_unit_comma_exec(s, p1 + " hr".unicode_len()) {
            Some(m0) => m0,
            None => { return None },
        };
        let m1 = digits_end(s, m0);
        proof {
            crate::text::lemma_digits_end_at(s@, m0 as int);
        }
        if m1 == m0 {
            return None;
        }
        if !starts_with_at(s, m1, " min") {
            return None;
        }
        let s0 = match after_unit_and_exec(s, m1 + " min".unicode_len()) {
            Some(s0) => s0,
            None => { return None },
        };
        let s1 = digits_end(s, s0);
        proof {
            crate::text::lemma_digits_end_at(s@, s0 as int);
        }
        if s1 == s0 {
            return None;
        }
        if !cd_secs_tail_exec(s, s1) {
            return None;
        }
        Some(
            CdCheckBadCaptures {
                level,
                username,
                total,
                h: Some(s.substring_char(p.pos, p1).to_owned()),
                m: Some(s.substring_char(m0, m1).to_owned()),
                s: s.substring_char(s0, s1).to_owned(),
            },
        )
    } else if starts_with_at(s, p1, " min") {
        let s0 = match after_unit_and_exec(s, p1 + " min".unicode_len()) {
            Some(s0) => s0,
            None => { return None },
        };
        let s1 = digits_end(s, s0);
        proof {
            crate::text::lemma_digits_end_at(s@, s0 as int);
        }
        if s1 == s0 {
            return None;
        }
        if !cd_secs_tail_exec(s, s1) {
            return None;
        }
        Some(
            CdCheckBadCaptures {
                level,
                username,
                total,
                h: None,
                m: Some(s.substring_char(p.pos, p1).to_owned()),
                s: s.substring_char(s0, s1).to_owned(),
            },
        )
    } else {
        if !cd_secs_tail_exec(s, p1) {
            return None;
        }
        Some(
            CdCheckBadCaptures {
                level,
                username,
                total,
                h: None,
                m: None,
                s: s.substring_char(p.pos, p1).to_owned(),
            },
        )
    }
}

/// The addressee of a successful cooldown-reset purchase.
pub open spec fn buy_cdr_good_shape(s: Seq<char>) -> Option<Seq<char>> {
    if !starts_at(s, 0, "[Shop] "@) {
        None
    } else {
        let u0 = "[Shop] "@.len() as int;
        let u1 = word_end_at(s, u0);
        if u1 == u0 || !starts_at(s, u1, ", your cooldown has been reset!"@) {
            None
        } else {
            Some(s.subrange(u0, u1))
        }
    }
}

/// Match a successful cooldown-reset purchase and hand out the addressee.
pub fn buy_cdr_good_username(s: &str) -> (r: Option<String>)
    ensures
        match r {
            Some(u) => buy_cdr_good_shape(s@) == Some(u@),
            None => buy_cdr_good_shape(s@) is None,
        },
{
    let tag = "[Shop] ";
    if !starts_with_at(s, 0, tag) {
        return None;
    }
    let u0 = tag.unicode_len();
    let u1 = word_end(s, u0);
    proof {
        crate::text::lemma_word_end_at(s@, u0 as int);
    }
    if u1 == u0 {
        return None;
    }
    if !starts_with_at(s, u1, ", your cooldown has been reset!") {
        return None;
    }
    Some(s.substring_char(u0, u1).to_owned())
}

/// Fields of a refused cooldown-reset purchase: the addressee and the
/// remaining wait, split into optional hours, optional minutes, and
/// seconds.
pub struct BuyCdrBadShape {
    pub username: Seq<char>,
    pub hours: Option<Seq<char>>,
    pub minutes: Option<Seq<char>>,
    pub seconds: Seq<char>,
}

/// The decomposition of a refused cooldown-reset purchase.  Hours are a
/// single digit and only come together with minutes.
pub open spec fn buy_cdr_bad_shape(s: Seq<char>) -> Option<BuyCdrBadShape> {
    if !starts_at(s, 0, "[Shop] "@) {
        None
    } else {
        let u0 = "[Shop] "@.len() as int;
        let u1 = word_end_at(s, u0);
        if u1 == u0 || !starts_at(s, u1, ", you can purchase your next cooldown reset in "@) {
            None
        } else {
            let p0 = u1 + ", you can purchase your next cooldown reset in "@.len();
            let p1 = digits_end_at(s, p0);
            if p1 == p0 {
                None
            } else if starts_at(s, p1, " hr"@) {
                if p1 != p0 + 1 {
                    None
                } else {
                    let m0 = after_unit_comma(s, p1 + " hr"@.len());
                    match m0 {
                        None => None,
                        Some(m0) => {
                            let m1 = digits_end_at(s, m0);
                            if m1 == m0 || !starts_at(s, m1, " min"@) {
                                None
                            } else {
                                match after_unit_comma(s, m1 + " min"@.len()) {
                                    None => None,
                                    Some(s0) => {
                                        let s1 = digits_end_at(s, s0);
                                        if s1 == s0 || !secs_bang_at(s, s1) {
                                            None
                                        } else {
                                            Some(
                                                BuyCdrBadShape {
                                                    username: s.subrange(u0, u1),
                                                    hours: Some(s.subrange(p0, p1)),
                                                    minutes: Some(s.subrange(m0, m1)),
                                                    seconds: s.subrange(s0, s1),
                                                },
                                            )
                                        }
                                    }
                                }
                            }
                        }
                    }
                }
            } else if starts_at(s, p1, " min"@) {
                match after_unit_comma(s, p1 + " min"@.len()) {
                    None => None,
                    Some(s0) => {
                        let s1 = digits_end_at(s, s0);
                        if s1 == s0 || !secs_bang_at(s, s1) {
                            None
                        } else {
                            Some(
                                BuyCdrBadShape {
                                    username: s.subrange(u0, u1),
                                    hours: None,
                                    minutes: Some(s.subrange(p0, p1)),
                                    seconds: s.subrange(s0, s1),
                                },
                            )
                        }
                    }
                }
            } else {
                if !secs_bang_at(s, p1) {
                    None
                } else {
                    Some(
                        BuyCdrBadShape {
                            username: s.subrange(u0, u1),
                            hours: None,
                            minutes: None,
                            seconds: s.subrange(p0, p1),
                        },
                    )
                }
            }
        }
    }
}

/// After a unit word: an optional plural `'s'`, then `", "`; the position
/// after the comma and space, or `None` when the text differs.
pub open spec fn after_unit_comma(s: Seq<char>, i: int) -> Option<int> {
    let j = if i < s.len() && s[i] == 's' {
        i + 1
    } else {
        i
    };
    if starts_at(s, j, ", "@) {
        Some(j + ", "@.len())
    } else {
        None
    }
}

/// `" sec"`, an optional plural `'s'` and `'!'` stand at `i`.
pub open spec fn secs_bang_at(s: Seq<char>, i: int) -> bool {
    if starts_at(s, i, " sec"@) {
        let j = i + " sec"@.len();
        let j2 = if j < s.len() && s[j] == 's' {
            j + 1
        } else {
            j
        };
        j2 < s.len() && s[j2] == '!'
    } else {
        false
    }
}

/// Executable form of `after_unit_comma`.
fn after_unit_comma_exec(s: &str, i: usize) -> (r: Option<usize>)
    requires
        i <= s@.len(),
    ensures
        match r {
            Some(j) => after_unit_comma(s@, i as int) == Some(j as int) && j <= s@.len(),
            None => after_unit_comma(s@, i as int) is None,
        },
{
    let n = s.unicode_len();
    let j = if i < n && s.get_char(i) == 's' {
        i + 1
    } else {
        i
    };
    if starts_with_at(s, j, ", ") {
        Some(j + ", ".unicode_len())
    } else {
        None
    }
}

/// Executable form of `secs_bang_at`.
fn secs_bang_exec(s: &str, i: usize) -> (r: bool)
    requires
        i <= s@.len(),
    ensures
        r == secs_bang_at(s@, i as int),
{
    let n = s.unicode_len();
    if !starts_with_at(s, i, " sec") {
        return false;
    }
    let j = i + " sec".unicode_len();
    let j2 = if j < n && s.get_char(j) == 's' {
        j + 1
    } else {
        j
    };
    j2 < n && s.get_char(j2) == '!'
}

/// Positions of the fields of a refused cooldown-reset purchase.
pub struct BuyCdrBadPos {
    pub u0: usize,
    pub u1: usize,
    pub hours: Option<(usize, usize)>,
    pub minutes: Option<(usize, usize)>,
    pub s0: usize,
    pub s1: usize,
}

/// Locate the fields of a refused cooldown-reset purchase.
pub fn buy_cdr_bad_pos(s: &str) -> (r: Option<BuyCdrBadPos>)
    ensures
        match r {
            Some(p) => {
                &&& buy_cdr_bad_shape(s@) matches Some(g) && g.username == s@.subrange(
                    p.u0 as int,
                    p.u1 as int,
                ) && g.seconds == s@.subrange(p.s0 as int, p.s1 as int) && (match p.hours {
                    Some((h0, h1)) => g.hours == Some(s@.subrange(h0 as int, h1 as int)),
                    None => g.hours is None,
                }) && (match p.minutes {
                    Some((m0, m1)) => g.minutes == Some(s@.subrange(m0 as int, m1 as int)),
                    None => g.minutes is None,
                })
                &&& p.u0 <= p.u1 <= s@.len()
                &&& (match p.hours {
                    Some((h0, h1)) => h0 < h1 <= s@.len() && forall|k: int|
                        h0 <= k < h1 ==> is_digit_char(s@[k]),
                    None => true,
                })
                &&& (match p.minutes {
                    Some((m0, m1)) => m0 < m1 <= s@.len() && forall|k: int|
                        m0 <= k < m1 ==> is_digit_char(s@[k]),
                    None => true,
                })
                &&& p.s0 < p.s1 <= s@.len()
                &&& forall|k: int| p.s0 <= k < p.s1 ==> is_digit_char(s@[k])
            },
            None => buy_cdr_bad_shape(s@) is None,
        },
{
    let tag = "[Shop] ";
    if !starts_with_at(s, 0, tag) {
        return None;
    }
    let u0 = tag.unicode_len();
    let u1 = word_end(s, u0);
    proof {
        crate::text::lemma_word_end_at(s@, u0 as int);
    }
    if u1 == u0 {
        return None;
    }
    let offer = ", you can purchase your next cooldown reset in ";
    if !starts_with_at(s, u1, offer) {
        return None;
    }
    let p0 = u1 + offer.unicode_len();
    let p1 = digits_end(s, p0);
    proof {
        crate::text::lemma_digits_end_at(s@, p0 as int);
    }
    if p1 == p0 {
        return None;
    }
    if starts_with_at(s, p1, " hr") {
        if p1 != p0 + 1 {
            return None;
        }
        let m0 = match after_unit_comma_exec(s, p1 + " hr".unicode_len()) {
            Some(m0) => m0,
            None => { return None },
        };
        let m1 = digits_end(s, m0);
        proof {
            crate::text::lemma_digits_end_at(s@, m0 as int);
        }
        if m1 == m0 {
            return None;
        }
        if !starts_with_at(s, m1, " min") {
            return None;
        }
        let s0 = match after_unit_comma_exec(s, m1 + " min".unicode_len()) {
            Some(s0) => s0,
            None => { return None },
        };
        let s1 = digits_end(s, s0);
        proof {
            crate::text::lemma_digits_end_at(s@, s0 as int);
        }
        if s1 == s0 {
            return None;
        }
        if !secs_bang_exec(s, s1) {
            return None;
        }
        Some(
            BuyCdrBadPos {
                u0,
                u1,
                hours: Some((p0, p1)),
                minutes: Some((m0, m1)),
                s0,
                s1,
            },
        )
    } else if starts_with_at(s, p1, " min") {
        let s0 = match after_unit_comma_exec(s, p1 + " min".unicode_len()) {
            Some(s0) => s0,
            None => { return None },
        };
        let s1 = digits_end(s, s0);
        proof {
            crate::text::lemma_digits_end_at(s@, s0 as int);
        }
        if s1 == s0 {
            return None;
        }
        if !secs_bang_exec(s, s1) {
            return None;
        }
        Some(BuyCdrBadPos { u0, u1, hours: None, minutes: Some((p0, p1)), s0, s1 })
    } else {
        if !secs_bang_exec(s, p1) {
            return None;
        }
        Some(BuyCdrBadPos { u0, u1, hours: None, minutes: None, s0: p0, s1: p1 })
    }
}

/// Named captures of a refused cooldown-reset purchase, as owned text.
pub struct BuyCdrBadCaptures {
    pub username: String,
    pub h: Option<String>,
    pub m: Option<String>,
    pub s: String,
}

/// Match a refused cooldown-reset purchase and hand out its captures.
pub fn buy_cdr_bad_captures(s: &str) -> (r: Option<BuyCdrBadCaptures>)
    ensures
        match r {
            Some(c) => buy_cdr_bad_shape(s@) matches Some(g) && g.username == c.username@
                && g.seconds == c.s@ && (match c.h {
                Some(h) => g.hours == Some(h@),
                None => g.hours is None,
            }) && (match c.m {
                Some(m) => g.minutes == Some(m@),
                None => g.minutes is None,
            }),
            None => buy_cdr_bad_shape(s@) is None,
        },
{
    match buy_cdr_bad_pos(s) {
        None => None,
        Some(p) => {
            let h = match p.hours {
                Some((h0, h1)) => Some(s.substring_char(h0, h1).to_owned()),
                None => None,
            };
            let m = match p.minutes {
                Some((m0, m1)) => Some(s.substring_char(m0, m1).to_owned()),
                None => None,
            };
            Some(
                BuyCdrBadCaptures {
                    username: s.substring_char(p.u0, p.u1).to_owned(),
                    h,
                    m,
                    s: s.substring_char(p.s0, p.s1).to_owned(),
                },
            )
        },
    }
}

/// Fields of a successful prestige reset: the addressee and the new rank.
pub struct PrestigeGoodShape {
    pub username: Seq<char>,
    pub rank: Seq<char>,
}

/// The decomposition of a successful prestige reset.
pub open spec fn prestige_good_shape(s: Seq<char>) -> Option<PrestigeGoodShape> {
    if !starts_at(s, 0, "[Cookies] "@) {
        None
    } else {
        let u0 = "[Cookies] "@.len() as int;
        let u1 = word_end_at(s, u0);
        if u1 == u0 || !starts_at(s, u1, " you reset your rank and are now ["@) {
            None
        } else {
            let r0 = u1 + " you reset your rank and are now ["@.len();
            let re = rank_end_at(s, r0);
            if re == r0 || !starts_at(s, re, "]!"@) {
                None
            } else {
                Some(PrestigeGoodShape { username: s.subrange(u0, u1), rank: s.subrange(r0, re) })
            }
        }
    }
}

/// Named captures of a successful prestige reset, as owned text.
pub struct PrestigeGoodCaptures {
    pub username: String,
    pub rank: String,
}

/// Match a successful prestige reset and hand out its captures.
pub fn prestige_good_captures(s: &str) -> (r: Option<PrestigeGoodCaptures>)
    ensures
        match r {
            Some(c) => prestige_good_shape(s@) matches Some(g) && g.username == c.username@
                && g.rank == c.rank@,
            None => prestige_good_shape(s@) is None,
        },
{
    let tag = "[Cookies] ";
    if !starts_with_at(s, 0, tag) {
        return None;
    }
    let u0 = tag.unicode_len();
    let u1 = word_end(s, u0);
    proof {
        crate::text::lemma_word_end_at(s@, u0 as int);
    }
    if u1 == u0 {
        return None;
    }
    let reset = " you reset your rank and are now [";
    if !starts_with_at(s, u1, reset) {
        return None;
    }
    let r0 = u1 + reset.unicode_len();
    let re = rank_end(s, r0);
    if re == r0 {
        return None;
    }
    if !starts_with_at(s, re, "]!") {
        return None;
    }
    Some(
        PrestigeGoodCaptures {
            username: s.substring_char(u0, u1).to_owned(),
            rank: s.substring_char(r0, re).to_owned(),
        },
    )
}

/// The addressee of a refused prestige reset.
pub open spec fn prestige_bad_shape(s: Seq<char>) -> Option<Seq<char>> {
    if !starts_at(s, 0, "[Cookies] "@) {
        None
    } else {
        let u0 = "[Cookies] "@.len() as int;
        let u1 = word_end_at(s, u0);
        if u1 == u0 || !starts_at(
            s,
            u1,
            " you are not ranked high enough to Prestige yet! FeelsBadMan You need Leader rank OR 5000+ cookies!"@,
        ) {
            None
        } else {
            Some(s.subrange(u0, u1))
        }
    }
}

/// Match a refused prestige reset and hand out the addressee.
pub fn prestige_bad_username(s: &str) -> (r: Option<String>)
    ensures
        match r {
            Some(u) => prestige_bad_shape(s@) == Some(u@),
            None => prestige_bad_shape(s@) is None,
        },
{
    let tag = "[Cookies] ";
    if !starts_with_at(s, 0, tag) {
        return None;
    }
    let u0 = tag.unicode_len();
    let u1 = word_end(s, u0);
    proof {
        crate::text::lemma_word_end_at(s@, u0 as int);
    }
    if u1 == u0 {
        return None;
    }
    let refusal =
        " you are not ranked high enough to Prestige yet! FeelsBadMan You need Leader rank OR 5000+ cookies!";
    if !starts_with_at(s, u1, refusal) {
        return None;
    }
    Some(s.substring_char(u0, u1).to_owned())
}

/// The addressee of any reply of this counterpart: after the tag and an
/// optional bracketed rank comes the addressee's name.
pub open spec fn generic_answer_shape(s: Seq<char>) -> Option<Seq<char>> {
    let after_tag = if starts_at(s, 0, "[Cookies]"@) {
        Some("[Cookies]"@.len() as int)
    } else if starts_at(s, 0, "[Shop]"@) {
        Some("[Shop]"@.len() as int)
    } else {
        None
    };
    match after_tag {
        None => None,
        Some(pos) => {
            if starts_at(s, pos, " ["@) {
                let r0 = pos + " ["@.len();
                let re = rank_end_at(s, r0);
                if re == r0 || !starts_at(s, re, "] "@) {
                    None
                } else {
                    let u0 = re + "] "@.len();
                    let u1 = word_end_at(s, u0);
                    if u1 == u0 {
                        None
                    } else {
                        Some(s.subrange(u0, u1))
                    }
                }
            } else {
                if !starts_at(s, pos, " "@) {
                    None
                } else {
                    let u0 = pos + " "@.len();
                    let u1 = word_end_at(s, u0);
                    if u1 == u0 {
                        None
                    } else {
                        Some(s.subrange(u0, u1))
                    }
                }
            }
        },
    }
}

/// Match the broad addressed-reply shape and hand out the addressee.
pub fn generic_answer_username(s: &str) -> (r: Option<String>)
    ensures
        match r {
            Some(u) => generic_answer_shape(s@) == Some(u@),
            None => generic_answer_shape(s@) is None,
        },
{
    let pos = if starts_with_at(s, 0, "[Cookies]") {
        "[Cookies]".unicode_len()
    } else if starts_with_at(s, 0, "[Shop]") {
        "[Shop]".unicode_len()
    } else {
        return None;
    };
    if starts_with_at(s, pos, " [") {
        let r0 = pos + " [".unicode_len();
        let re = rank_end(s, r0);
        if re == r0 {
            return None;
        }
        if !starts_with_at(s, re, "] ") {
            return None;
        }
        let u0 = re + "] ".unicode_len();
        let u1 = word_end(s, u0);
        proof {
            crate::text::lemma_word_end_at(s@, u0 as int);
        }
        if u1 == u0 {
            return None;
        }
        Some(s.substring_char(u0, u1).to_owned())
    } else {
        if !starts_with_at(s, pos, " ") {
            return None;
        }
        let u0 = pos + " ".unicode_len();
        let u1 = word_end(s, u0);
        proof {
            crate::text::lemma_word_end_at(s@, u0 as int);
        }
        if u1 == u0 {
            return None;
        }
        Some(s.substring_char(u0, u1).to_owned())
    }
}

} // verus!
