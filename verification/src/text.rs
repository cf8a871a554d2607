//! Character-level scanning primitives shared by all reply grammars.
//!
//! Every recognized reply is a sequence of literal runs, word runs and digit
//! runs.  The spec functions here define those runs mathematically; the
//! executable functions compute them and are proved to agree.

use vstd::prelude::*;
use vstd::string::*;

verus! {

/// Word characters: letters, digits and the underscore.
pub open spec fn is_word_char(c: char) -> bool {
    ('a' <= c && c <= 'z') || ('A' <= c && c <= 'Z') || ('0' <= c && c <= '9') || c == '_'
}

/// Decimal digit characters.
pub open spec fn is_digit_char(c: char) -> bool {
    '0' <= c && c <= '9'
}

/// Numeric value of one decimal digit character.
pub open spec fn digit_value(c: char) -> nat {
    if c == '1' {
        1
    } else if c == '2' {
        2
    } else if c == '3' {
        3
    } else if c == '4' {
        4
    } else if c == '5' {
        5
    } else if c == '6' {
        6
    } else if c == '7' {
        7
    } else if c == '8' {
        8
    } else if c == '9' {
        9
    } else {
        0
    }
}

/// End (exclusive) of the run of word characters that begins at `i`.
pub open spec fn word_end_at(s: Seq<char>, i: int) -> int
    decreases s.len() - i,
{
    if i < 0 || i >= s.len() {
        i
    } else if is_word_char(s[i]) {
        word_end_at(s, i + 1)
    } else {
        i
    }
}

pub proof fn lemma_word_end_at(s: Seq<char>, i: int)
    requires
        0 <= i <= s.len(),
    ensures
        i <= word_end_at(s, i) <= s.len(),
        forall|k: int| i <= k < word_end_at(s, i) ==> is_word_char(s[k]),
        word_end_at(s, i) < s.len() ==> !is_word_char(s[word_end_at(s, i)]),
    decreases s.len() - i,
{
    if i < s.len() && is_word_char(s[i]) {
        lemma_word_end_at(s, i + 1);
    }
}

/// End (exclusive) of the run of digit characters that begins at `i`.
pub open spec fn digits_end_at(s: Seq<char>, i: int) -> int
    decreases s.len() - i,
{
    if i < 0 || i >= s.len() {
        i
    } else if is_digit_char(s[i]) {
        digits_end_at(s, i + 1)
    } else {
        i
    }
}

pub proof fn lemma_digits_end_at(s: Seq<char>, i: int)
    requires
        0 <= i <= s.len(),
    ensures
        i <= digits_end_at(s, i) <= s.len(),
        forall|k: int| i <= k < digits_end_at(s, i) ==> is_digit_char(s[k]),
        digits_end_at(s, i) < s.len() ==> !is_digit_char(s[digits_end_at(s, i)]),
    decreases s.len() - i,
{
    if i < s.len() && is_digit_char(s[i]) {
        lemma_digits_end_at(s, i + 1);
    }
}

/// End (exclusive) of the run of spaces that begins at `i`.
pub open spec fn spaces_end_at(s: Seq<char>, i: int) -> int
    decreases s.len() - i,
{
    if i < 0 || i >= s.len() {
        i
    } else if s[i] == ' ' {
        spaces_end_at(s, i + 1)
    } else {
        i
    }
}

pub proof fn lemma_spaces_end_at(s: Seq<char>, i: int)
    requires
        0 <= i <= s.len(),
    ensures
        i <= spaces_end_at(s, i) <= s.len(),
    decreases s.len() - i,
{
    if i < s.len() && s[i] == ' ' {
        lemma_spaces_end_at(s, i + 1);
    }
}

/// Executable form of `spaces_end_at`.
pub fn spaces_end(s: &str, from: usize) -> (r: usize)
    requires
        from <= s@.len(),
    ensures
        r == spaces_end_at(s@, from as int),
{
    let n = s.unicode_len();
    let mut pos = from;
    loop
        invariant
            from <= pos <= n,
            n == s@.len(),
            spaces_end_at(s@, from as int) == spaces_end_at(s@, pos as int),
        decreases n - pos,
    {
        if pos == n {
            return pos;
        }
        if !(s.get_char(pos) == ' ') {
            return pos;
        }
        assert(spaces_end_at(s@, pos as int) == spaces_end_at(s@, pos + 1));
        pos = pos + 1;
    }
}

/// Whitespace characters recognized when trimming.
pub open spec fn is_space_like(c: char) -> bool {
    c == ' ' || c == '\t' || c == '\n' || c == '\r'
}

/// End (exclusive) of the run of whitespace characters that begins at `i`.
pub open spec fn ws_end_at(s: Seq<char>, i: int) -> int
    decreases s.len() - i,
{
    if i < 0 || i >= s.len() {
        i
    } else if is_space_like(s[i]) {
        ws_end_at(s, i + 1)
    } else {
        i
    }
}

pub proof fn lemma_ws_end_at(s: Seq<char>, i: int)
    requires
        0 <= i <= s.len(),
    ensures
        i <= ws_end_at(s, i) <= s.len(),
    decreases s.len() - i,
{
    if i < s.len() && is_space_like(s[i]) {
        lemma_ws_end_at(s, i + 1);
    }
}

/// Executable form of `ws_end_at`.
pub fn ws_end(s: &str, from: usize) -> (r: usize)
    requires
        from <= s@.len(),
    ensures
        r == ws_end_at(s@, from as int),
{
    let n = s.unicode_len();
    let mut pos = from;
    loop
        invariant
            from <= pos <= n,
            n == s@.len(),
            ws_end_at(s@, from as int) == ws_end_at(s@, pos as int),
        decreases n - pos,
    {
        if pos == n {
            return pos;
        }
        let c = s.get_char(pos);
        if !(c == ' ' || c == '\t' || c == '\n' || c == '\r') {
            return pos;
        }
        assert(ws_end_at(s@, pos as int) == ws_end_at(s@, pos + 1));
        pos = pos + 1;
    }
}

/// Start (inclusive) of the run of whitespace characters that ends just
/// before `j`: walking back from `j`, the first position whose predecessor
/// is not whitespace.
pub open spec fn ws_start_back(s: Seq<char>, j: int) -> int
    decreases j,
{
    if j <= 0 || j > s.len() {
        j
    } else if is_space_like(s[j - 1]) {
        ws_start_back(s, j - 1)
    } else {
        j
    }
}

pub proof fn lemma_ws_start_back(s: Seq<char>, j: int)
    requires
        0 <= j <= s.len(),
    ensures
        0 <= ws_start_back(s, j) <= j,
    decreases j,
{
    if j > 0 && is_space_like(s[j - 1]) {
        lemma_ws_start_back(s, j - 1);
    }
}

/// Executable form of `ws_start_back`.
pub fn ws_back(s: &str, to: usize) -> (r: usize)
    requires
        to <= s@.len(),
    ensures
        r == ws_start_back(s@, to as int),
{
    let mut pos = to;
    loop
        invariant
            pos <= to <= s@.len(),
            ws_start_back(s@, to as int) == ws_start_back(s@, pos as int),
        decreases pos,
    {
        if pos == 0 {
            return pos;
        }
        let c = s.get_char(pos - 1);
        if !(c == ' ' || c == '\t' || c == '\n' || c == '\r') {
            return pos;
        }
        assert(ws_start_back(s@, pos as int) == ws_start_back(s@, pos - 1));
        pos = pos - 1;
    }
}

/// `pat` occurs in `s` at position `i`.
pub open spec fn starts_at(s: Seq<char>, i: int, pat: Seq<char>) -> bool {
    &&& 0 <= i
    &&& i + pat.len() <= s.len()
    &&& forall|k: int| 0 <= k < pat.len() ==> s[i + k] == pat[k]
}

/// Position of the first occurrence of `pat` in `s` at or after `from`.
pub open spec fn first_match(s: Seq<char>, from: int, pat: Seq<char>) -> Option<int>
    decreases s.len() - from,
{
    if from < 0 || from + pat.len() > s.len() {
        None
    } else if starts_at(s, from, pat) {
        Some(from)
    } else {
        first_match(s, from + 1, pat)
    }
}

pub proof fn lemma_first_match(s: Seq<char>, from: int, pat: Seq<char>)
    requires
        0 <= from,
    ensures
        match first_match(s, from, pat) {
            Some(j) => from <= j && starts_at(s, j, pat) && forall|k: int|
                from <= k < j ==> !starts_at(s, k, pat),
            None => forall|k: int| from <= k ==> !starts_at(s, k, pat),
        },
    decreases s.len() - from,
{
    if from + pat.len() > s.len() {
        assert forall|k: int| from <= k implies !starts_at(s, k, pat) by {}
    } else if !starts_at(s, from, pat) {
        lemma_first_match(s, from + 1, pat);
    }
}

/// Value of the decimal digit run `s[i..j]`.
pub open spec fn digits_value(s: Seq<char>, i: int, j: int) -> nat
    decreases j - i,
{
    if j <= i {
        0
    } else {
        digits_value(s, i, j - 1) * 10 + digit_value(s[j - 1])
    }
}

/// More digits never decrease the value.
pub proof fn lemma_digits_value_monotonic(s: Seq<char>, i: int, a: int, b: int)
    requires
        i <= a <= b,
    ensures
        digits_value(s, i, a) <= digits_value(s, i, b),
    decreases b - a,
{
    if a < b {
        lemma_digits_value_monotonic(s, i, a, b - 1);
    }
}

/// Executable form of `word_end_at`.
pub fn word_end(s: &str, from: usize) -> (r: usize)
    requires
        from <= s@.len(),
    ensures
        r == word_end_at(s@, from as int),
{
    let n = s.unicode_len();
    let mut pos = from;
    loop
        invariant
            from <= pos <= n,
            n == s@.len(),
            word_end_at(s@, from as int) == word_end_at(s@, pos as int),
        decreases n - pos,
    {
        if pos == n {
            return pos;
        }
        let c = s.get_char(pos);
        if !(('a' <= c && c <= 'z') || ('A' <= c && c <= 'Z') || ('0' <= c && c <= '9') || c
            == '_') {
            assert(!is_word_char(s@[pos as int]));
            return pos;
        }
        assert(word_end_at(s@, pos as int) == word_end_at(s@, pos + 1));
        pos = pos + 1;
    }
}

/// Executable form of `digits_end_at`.
pub fn digits_end(s: &str, from: usize) -> (r: usize)
    requires
        from <= s@.len(),
    ensures
        r == digits_end_at(s@, from as int),
{
    let n = s.unicode_len();
    let mut pos = from;
    loop
        invariant
            from <= pos <= n,
            n == s@.len(),
            digits_end_at(s@, from as int) == digits_end_at(s@, pos as int),
        decreases n - pos,
    {
        if pos == n {
            return pos;
        }
        let c = s.get_char(pos);
        if !('0' <= c && c <= '9') {
            assert(!is_digit_char(s@[pos as int]));
            return pos;
        }
        assert(digits_end_at(s@, pos as int) == digits_end_at(s@, pos + 1));
        pos = pos + 1;
    }
}

/// Does `pat` occur in `s` at position `i`?
pub fn starts_with_at(s: &str, i: usize, pat: &str) -> (r: bool)
    ensures
        r == starts_at(s@, i as int, pat@),
        s@.len() <= usize::MAX,
{
    let n = s.unicode_len();
    let m = pat.unicode_len();
    if i > n || m > n - i {
        return false;
    }
    let mut k: usize = 0;
    while k < m
        invariant
            k <= m,
            i + m <= n,
            n == s@.len(),
            m == pat@.len(),
            forall|j: int| 0 <= j < k ==> s@[i + j] == pat@[j],
        decreases m - k,
    {
        if s.get_char(i + k) != pat.get_char(k) {
            assert(s@[i + k as int] != pat@[k as int]);
            return false;
        }
        k = k + 1;
    }
    true
}

/// First occurrence of `pat` in `s` at or after `from`.
pub fn find_from(s: &str, from: usize, pat: &str) -> (r: Option<usize>)
    requires
        from <= s@.len(),
    ensures
        match r {
            Some(j) => Some(j as int) == first_match(s@, from as int, pat@),
            None => first_match(s@, from as int, pat@) is None,
        },
{
    let n = s.unicode_len();
    let m = pat.unicode_len();
    let mut pos = from;
    loop
        invariant
            from <= pos,
            n == s@.len(),
            m == pat@.len(),
            first_match(s@, from as int, pat@) == first_match(s@, pos as int, pat@),
        decreases n + 1 - pos,
    {
        if pos > n || m > n - pos {
            return None;
        }
        if starts_with_at(s, pos, pat) {
            return Some(pos);
        }
        assert(first_match(s@, pos as int, pat@) == first_match(s@, pos + 1, pat@));
        pos = pos + 1;
    }
}

/// Parse the digit run `s[from..to]` as a `u64`; `None` on overflow.
pub fn parse_digits_u64(s: &str, from: usize, to: usize) -> (r: Option<u64>)
    requires
        from <= to <= s@.len(),
        forall|k: int| from <= k < to ==> is_digit_char(s@[k]),
    ensures
        match r {
            Some(v) => v == digits_value(s@, from as int, to as int),
            None => digits_value(s@, from as int, to as int) > u64::MAX,
        },
{
    let mut acc: u64 = 0;
    let mut pos = from;
    while pos < to
        invariant
            from <= pos <= to <= s@.len(),
            forall|k: int| from <= k < to ==> is_digit_char(s@[k]),
            acc == digits_value(s@, from as int, pos as int),
        decreases to - pos,
    {
        let c = s.get_char(pos);
        let d: u64 = digit_of(c);
        if acc > (u64::MAX - d) / 10 {
            proof {
                assert(acc * 10 + d > u64::MAX) by {
                    let q = (u64::MAX - d) / 10;
                    assert(q * 10 + (u64::MAX - d) % 10 == u64::MAX - d);
                    assert(acc >= q + 1);
                    assert(acc * 10 >= (q + 1) * 10);
                };
                assert(digits_value(s@, from as int, pos + 1) == acc * 10 + d);
                lemma_digits_value_monotonic(s@, from as int, pos + 1, to as int);
            }
            return None;
        }
        acc = acc * 10 + d;
        pos = pos + 1;
    }
    Some(acc)
}

/// Numeric value of one digit character.
pub fn digit_of(c: char) -> (r: u64)
    ensures
        r == digit_value(c),
{
    match c {
        '1' => 1,
        '2' => 2,
        '3' => 3,
        '4' => 4,
        '5' => 5,
        '6' => 6,
        '7' => 7,
        '8' => 8,
        '9' => 9,
        _ => 0,
    }
}

/// Character-wise string equality.
pub fn str_eq(a: &str, b: &str) -> (r: bool)
    ensures
        r == (a@ == b@),
{
    let n = a.unicode_len();
    if n != b.unicode_len() {
        return false;
    }
    let mut k: usize = 0;
    while k < n
        invariant
            k <= n,
            n == a@.len(),
            n == b@.len(),
            forall|j: int| 0 <= j < k ==> a@[j] == b@[j],
        decreases n - k,
    {
        if a.get_char(k) != b.get_char(k) {
            assert(a@[k as int] != b@[k as int]);
            return false;
        }
        k = k + 1;
    }
    proof {
        assert(a@ =~= b@);
    }
    true
}

/// The digit character of one decimal digit value.
pub open spec fn dec_digit(n: nat) -> char {
    if n == 1 {
        '1'
    } else if n == 2 {
        '2'
    } else if n == 3 {
        '3'
    } else if n == 4 {
        '4'
    } else if n == 5 {
        '5'
    } else if n == 6 {
        '6'
    } else if n == 7 {
        '7'
    } else if n == 8 {
        '8'
    } else if n == 9 {
        '9'
    } else {
        '0'
    }
}

/// Canonical decimal representation of `n`, without leading zeros.
pub open spec fn dec_rep(n: nat) -> Seq<char>
    decreases n,
{
    if n < 10 {
        seq![dec_digit(n)]
    } else {
        dec_rep(n / 10).push(dec_digit(n % 10))
    }
}

/// Value of a standalone digit sequence.
pub open spec fn seq_digits_value(d: Seq<char>) -> nat
    decreases d.len(),
{
    if d.len() == 0 {
        0
    } else {
        seq_digits_value(d.drop_last()) * 10 + digit_value(d.last())
    }
}

/// Formatting a number and reading the digits back yields the number:
/// the decimal representation is made of digits, is never empty, and its
/// value is the number itself.
pub proof fn lemma_dec_rep_value(n: nat)
    ensures
        seq_digits_value(dec_rep(n)) == n,
        dec_rep(n).len() >= 1,
        forall|k: int| 0 <= k < dec_rep(n).len() ==> is_digit_char(dec_rep(n)[k]),
    decreases n,
{
    if n < 10 {
        assert(dec_rep(n) =~= seq![dec_digit(n)]);
        assert(dec_rep(n).drop_last() =~= Seq::<char>::empty());
        assert(dec_rep(n).last() == dec_digit(n));
        assert(seq_digits_value(Seq::<char>::empty()) == 0);
        assert(digit_value(dec_digit(n)) == n);
    } else {
        lemma_dec_rep_value(n / 10);
        assert(dec_rep(n).drop_last() =~= dec_rep(n / 10));
        assert(dec_rep(n).last() == dec_digit(n % 10));
        assert(digit_value(dec_digit(n % 10)) == n % 10);
        assert(seq_digits_value(dec_rep(n)) == (n / 10) * 10 + n % 10);
        assert forall|k: int| 0 <= k < dec_rep(n).len() implies is_digit_char(dec_rep(n)[k]) by {
            if k < dec_rep(n).len() - 1 {
                assert(dec_rep(n)[k] == dec_rep(n / 10)[k]);
            }
        }
    }
}

/// `digits_value` over a slice of `s` equals `seq_digits_value` of that slice.
pub proof fn lemma_digits_value_subrange(s: Seq<char>, i: int, j: int)
    requires
        0 <= i <= j <= s.len(),
    ensures
        digits_value(s, i, j) == seq_digits_value(s.subrange(i, j)),
    decreases j - i,
{
    if j > i {
        lemma_digits_value_subrange(s, i, j - 1);
        assert(s.subrange(i, j).drop_last() =~= s.subrange(i, j - 1));
        assert(s.subrange(i, j).last() == s[j - 1]);
    }
}

/// Value of a captured number: an optional leading `+`, `-` or `\u{B1}`
/// followed by decimal digits.  The neutral marker `\u{B1}` and `+` both
/// leave the magnitude positive.
pub open spec fn signed_value_of(a: Seq<char>) -> int {
    if a.len() > 0 && a[0] == '-' {
        -(seq_digits_value(a.subrange(1, a.len() as int)) as int)
    } else if a.len() > 0 && (a[0] == '+' || a[0] == '\u{B1}') {
        seq_digits_value(a.subrange(1, a.len() as int)) as int
    } else {
        seq_digits_value(a) as int
    }
}

/// The same value, expressed over positions into the surrounding text:
/// the capture spans `[c0, de)`, its digits span `[ds, de)`.
pub open spec fn capture_signed_value(s: Seq<char>, c0: int, ds: int, de: int) -> int {
    if ds > c0 && s[c0] == '-' {
        -(digits_value(s, ds, de) as int)
    } else {
        digits_value(s, ds, de) as int
    }
}

pub proof fn lemma_signed_value_capture(s: Seq<char>, c0: int, ds: int, de: int)
    requires
        0 <= c0 <= ds <= de <= s.len(),
        ds - c0 <= 1,
        ds == c0 + 1 ==> (s[c0] == '+' || s[c0] == '-' || s[c0] == '\u{B1}'),
        ds == c0 ==> de > ds && is_digit_char(s[c0]),
    ensures
        signed_value_of(s.subrange(c0, de)) == capture_signed_value(s, c0, ds, de),
{
    let a = s.subrange(c0, de);
    lemma_digits_value_subrange(s, ds, de);
    if ds == c0 + 1 {
        assert(a[0] == s[c0]);
        assert(a.subrange(1, a.len() as int) =~= s.subrange(ds, de));
    } else {
        assert(a =~= s.subrange(ds, de));
        assert(a.len() > 0 && is_digit_char(a[0]));
        assert(a[0] != '-' && a[0] != '+' && a[0] != '\u{B1}');
    }
}

/// Parse the capture `s[c0..de]` (digits at `[ds, de)`, an optional sign at
/// `c0`) as an `i32`; `None` when the value does not fit.
pub fn parse_capture_i32(s: &str, c0: usize, ds: usize, de: usize) -> (r: Option<i32>)
    requires
        c0 <= ds <= de <= s@.len(),
        ds - c0 <= 1,
        ds == c0 + 1 ==> (s@[c0 as int] == '+' || s@[c0 as int] == '-' || s@[c0 as int]
            == '\u{B1}'),
        ds < de,
        forall|k: int| ds <= k < de ==> is_digit_char(s@[k]),
    ensures
        ({
            let v = capture_signed_value(s@, c0 as int, ds as int, de as int);
            match r {
                Some(x) => i32::MIN <= v <= i32::MAX && x == v,
                None => v < i32::MIN || v > i32::MAX,
            }
        }),
{
    let neg = ds > c0 && s.get_char(c0) == '-';
    let v = match parse_digits_u64(s, ds, de) {
        Some(v) => v,
        None => { return None },
    };
    if neg {
        if v > 2147483648u64 {
            return None;
        }
        if v == 2147483648u64 {
            return Some(i32::MIN);
        }
        Some(0i32 - (v as i32))
    } else {
        if v > 2147483647u64 {
            return None;
        }
        Some(v as i32)
    }
}

/// One digit character as a string slice.
fn digit_str(d: u64) -> (r: &'static str)
    requires
        d < 10,
    ensures
        r@ =~= seq![dec_digit(d as nat)],
{
    proof {
        reveal_strlit("0");
        reveal_strlit("1");
        reveal_strlit("2");
        reveal_strlit("3");
        reveal_strlit("4");
        reveal_strlit("5");
        reveal_strlit("6");
        reveal_strlit("7");
        reveal_strlit("8");
        reveal_strlit("9");
    }
    match d {
        1 => "1",
        2 => "2",
        3 => "3",
        4 => "4",
        5 => "5",
        6 => "6",
        7 => "7",
        8 => "8",
        9 => "9",
        _ => "0",
    }
}

/// Decimal formatting of a `u64`.
pub fn u64_string(n: u64) -> (r: String)
    ensures
        r@ == dec_rep(n as nat),
    decreases n,
{
    if n < 10 {
        let s = String::from_str(digit_str(n));
        assert(s@ =~= dec_rep(n as nat));
        s
    } else {
        let head = u64_string(n / 10);
        let r = head.concat(digit_str(n % 10));
        assert(r@ =~= dec_rep(n as nat));
        r
    }
}

} // verus!
