//! Field-level decoding of the portal's formats.
//!
//! The portal reports dates as `DD-MM-YYYY`, money as strings like
//! `"5.611,10 €"`, execution deadlines as `"N dias"`, absent announcement
//! ids as negative numbers, and vocabulary terms as two pipe-separated
//! lists. These rules are reproduced here exactly, over plain characters.

use vstd::prelude::*;

use crate::contract::Cpv;
use crate::dates::{Date, days_in_month, days_in_month_of};

verus! {

/// A decimal digit.
pub open spec fn is_digit(c: char) -> bool {
    '0' as u32 <= c as u32 <= '9' as u32
}

/// The value of a decimal digit.
pub open spec fn digit_val(c: char) -> int {
    c as u32 - '0' as u32
}

/// The whitespace that trimming removes.
pub open spec fn is_ws(c: char) -> bool {
    c == ' ' || c == '\t' || c == '\n' || c == '\r'
}

/// Leading whitespace removed.
pub open spec fn spec_trim_front(s: Seq<char>) -> Seq<char>
    decreases s.len(),
{
    if s.len() > 0 && is_ws(s[0]) {
        spec_trim_front(s.drop_first())
    } else {
        s
    }
}

/// Trailing whitespace removed.
pub open spec fn spec_trim_back(s: Seq<char>) -> Seq<char>
    decreases s.len(),
{
    if s.len() > 0 && is_ws(s.last()) {
        spec_trim_back(s.drop_last())
    } else {
        s
    }
}

/// Whitespace removed from both ends.
pub open spec fn spec_trim(s: Seq<char>) -> Seq<char> {
    spec_trim_back(spec_trim_front(s))
}

/// If the first `k` characters are whitespace and the one after them (if
/// any) is not, front-trimming drops exactly those `k`.
proof fn lemma_trim_front_at(s: Seq<char>, k: int)
    requires
        0 <= k <= s.len(),
        forall|j: int| 0 <= j < k ==> is_ws(#[trigger] s[j]),
        k < s.len() ==> !is_ws(s[k]),
    ensures
        spec_trim_front(s) == s.skip(k),
    decreases k,
{
    if k == 0 {
        assert(s.skip(0) =~= s);
    } else {
        let t = s.drop_first();
        assert(t =~= s.skip(1));
        assert forall|j: int| 0 <= j < k - 1 implies is_ws(#[trigger] t[j]) by {
            assert(t[j] == s[j + 1]);
        }
        lemma_trim_front_at(t, k - 1);
        assert(t.skip(k - 1) =~= s.skip(k));
    }
}

/// If the characters from `k` on are whitespace and the one before them (if
/// any) is not, back-trimming keeps exactly the first `k`.
proof fn lemma_trim_back_at(s: Seq<char>, k: int)
    requires
        0 <= k <= s.len(),
        forall|j: int| k <= j < s.len() ==> is_ws(#[trigger] s[j]),
        k > 0 ==> !is_ws(s[k - 1]),
    ensures
        spec_trim_back(s) == s.take(k),
    decreases s.len(),
{
    if k == s.len() {
        if s.len() > 0 {
            assert(!is_ws(s.last()));
        }
        assert(s.take(k) =~= s);
    } else {
        assert(is_ws(s.last()));
        let t = s.drop_last();
        assert forall|j: int| k <= j < t.len() implies is_ws(#[trigger] t[j]) by {
            assert(t[j] == s[j]);
        }
        lemma_trim_back_at(t, k);
        assert(t.take(k) =~= s.take(k));
    }
}

/// Whether `c` is whitespace.
fn is_ws_char(c: char) -> (r: bool)
    ensures
        r == is_ws(c),
{
    c == ' ' || c == '\t' || c == '\n' || c == '\r'
}

/// Whether `c` is a decimal digit.
fn is_digit_char(c: char) -> (r: bool)
    ensures
        r == is_digit(c),
{
    '0' <= c && c <= '9'
}

/// The trimmed region of `s`: indices `lo <= hi` with
/// `spec_trim(s@) == s@.subrange(lo, hi)`.
fn trim_region(s: &str) -> (r: (usize, usize))
    ensures
        0 <= r.0 <= r.1 <= s@.len(),
        spec_trim(s@) == s@.subrange(r.0 as int, r.1 as int),
{
    let n = s.unicode_len();
    let mut lo: usize = 0;
    while lo < n && is_ws_char(s.get_char(lo))
        invariant
            0 <= lo <= n,
            n == s@.len(),
            forall|j: int| 0 <= j < lo ==> is_ws(#[trigger] s@[j]),
        decreases n - lo,
    {
        lo += 1;
    }
    proof {
        lemma_trim_front_at(s@, lo as int);
    }
    let mut hi: usize = n;
    while hi > lo && is_ws_char(s.get_char(hi - 1))
        invariant
            lo <= hi <= n,
            n == s@.len(),
            forall|j: int| 0 <= j < lo ==> is_ws(#[trigger] s@[j]),
            forall|j: int| hi <= j < n ==> is_ws(#[trigger] s@[j]),
        decreases hi,
    {
        hi -= 1;
    }
    proof {
        let t = s@.skip(lo as int);
        assert forall|j: int| hi - lo <= j < t.len() implies is_ws(#[trigger] t[j]) by {
            assert(t[j] == s@[j + lo]);
        }
        if hi > lo {
            assert(t[hi - lo - 1] == s@[hi - 1]);
        }
        lemma_trim_back_at(t, hi - lo as int);
        assert(t.take(hi - lo as int) =~= s@.subrange(lo as int, hi as int));
    }
    (lo, hi)
}

/// The value of a digit string read in base ten.
pub open spec fn spec_digits_val(s: Seq<char>) -> int
    decreases s.len(),
{
    if s.len() == 0 {
        0
    } else {
        spec_digits_val(s.drop_last()) * 10 + digit_val(s.last())
    }
}

/// Whether every character is a decimal digit.
pub open spec fn all_digits(s: Seq<char>) -> bool {
    forall|i: int| 0 <= i < s.len() ==> is_digit(#[trigger] s[i])
}

/// Reading an integer the way Rust's signed parse does: an optional sign,
/// then one or more digits and nothing else.
pub open spec fn spec_parse_int(s: Seq<char>) -> Option<int> {
    if s.len() > 0 && (s[0] == '+' || s[0] == '-') {
        if s.len() > 1 && all_digits(s.drop_first()) {
            if s[0] == '-' {
                Some(-spec_digits_val(s.drop_first()))
            } else {
                Some(spec_digits_val(s.drop_first()))
            }
        } else {
            None
        }
    } else {
        if s.len() > 0 && all_digits(s) {
            Some(spec_digits_val(s))
        } else {
            None
        }
    }
}

/// A digit string's value is non-negative.
proof fn lemma_digits_val_nonneg(s: Seq<char>)
    requires
        all_digits(s),
    ensures
        spec_digits_val(s) >= 0,
    decreases s.len(),
{
    if s.len() > 0 {
        let t = s.drop_last();
        assert forall|i: int| 0 <= i < t.len() implies is_digit(#[trigger] t[i]) by {
            assert(t[i] == s[i]);
        }
        lemma_digits_val_nonneg(t);
    }
}

/// A digit string's value is at least the value of any of its prefixes.
proof fn lemma_digits_val_prefix(s: Seq<char>, k: int)
    requires
        all_digits(s),
        0 <= k <= s.len(),
    ensures
        spec_digits_val(s.take(k)) <= spec_digits_val(s),
    decreases s.len(),
{
    if k == s.len() {
        assert(s.take(k) =~= s);
    } else {
        let t = s.drop_last();
        assert forall|i: int| 0 <= i < t.len() implies is_digit(#[trigger] t[i]) by {
            assert(t[i] == s[i]);
        }
        lemma_digits_val_prefix(t, k);
        assert(s.take(k) =~= t.take(k));
        lemma_digits_val_nonneg(t);
    }
}

/// Parse a signed integer from a character list, as Rust's `parse::<i64>`
/// does: `None` on a malformed number and on one that does not fit in an
/// `i64`.
#[verifier::loop_isolation(false)]
fn parse_int_chars(cs: &Vec<char>) -> (r: Option<i64>)
    ensures
        ({
            let v = spec_parse_int(cs@);
            if v is Some && i64::MIN <= v.unwrap() <= i64::MAX {
                r == Some(v.unwrap() as i64)
            } else {
                r is None
            }
        }),
{
    let n = cs.len();
    let mut start: usize = 0;
    let mut neg = false;
    if n > 0 && (cs[0] == '+' || cs[0] == '-') {
        neg = cs[0] == '-';
        start = 1;
    }
    if start >= n {
        return None;
    }
    let ghost ds = cs@.skip(start as int);
    proof {
        if start == 1 {
            assert(ds =~= cs@.drop_first());
        } else {
            assert(ds =~= cs@);
        }
    }
    let mut i: usize = start;
    let mut mag: u128 = 0;
    while i < n
        invariant
            start <= i <= n,
            n == cs@.len(),
            ds == cs@.skip(start as int),
            start <= 1,
            n > start,
            forall|j: int| 0 <= j < i - start ==> is_digit(#[trigger] ds[j]),
            mag == spec_digits_val(ds.take(i - start)),
            mag <= 0x8000_0000_0000_0000u128,
        decreases n - i,
    {
        let c = cs[i];
        if !is_digit_char(c) {
            proof {
                assert(!is_digit(ds[i - start]));
            }
            return None;
        }
        let d: u128 = (c as u32 - '0' as u32) as u128;
        mag = mag * 10 + d;
        proof {
            assert(ds.take(i - start + 1).drop_last() =~= ds.take(i - start));
            assert(ds.take(i - start + 1).last() == ds[i - start]);
        }
        if mag > 0x8000_0000_0000_0000u128 {
            proof {
                let k = i + 1 - start;
                if all_digits(ds) {
                    lemma_digits_val_prefix(ds, k);
                    lemma_digits_val_nonneg(ds);
                }
            }
            return None;
        }
        i += 1;
    }
    proof {
        assert(ds.take(n - start) =~= ds);
        assert(all_digits(ds));
        lemma_digits_val_nonneg(ds);
    }
    if neg {
        if mag == 0x8000_0000_0000_0000u128 {
            Some(i64::MIN)
        } else {
            Some(-((mag as u64) as i64))
        }
    } else {
        if mag > i64::MAX as u128 {
            return None;
        }
        Some(mag as i64)
    }
}

/// The trailing currency marks (`" €"`, repeatedly) removed.
pub open spec fn spec_strip_euro(s: Seq<char>) -> Seq<char>
    decreases s.len(),
{
    if s.len() >= 2 && s[s.len() - 2] == ' ' && s[s.len() - 1] == '€' {
        spec_strip_euro(s.take(s.len() - 2))
    } else {
        s
    }
}

/// The thousands and decimal separators removed.
pub open spec fn spec_strip_seps(s: Seq<char>) -> Seq<char> {
    s.filter(|c: char| c != '.' && c != ',')
}

/// The portal's currency rule: trim, drop the trailing `" €"`, drop every
/// `.` and `,`, and read the rest as a signed integer — giving the amount in
/// cents, since the last two digits were the fractional part.
pub open spec fn spec_parse_euros(s: Seq<char>) -> Option<int> {
    spec_parse_int(spec_strip_seps(spec_strip_euro(spec_trim(s))))
}

/// The characters of `s@.subrange(lo, hi)` that are not separators.
fn collect_non_seps(s: &str, lo: usize, hi: usize) -> (r: Vec<char>)
    requires
        0 <= lo <= hi <= s@.len(),
    ensures
        r@ == spec_strip_seps(s@.subrange(lo as int, hi as int)),
{
    let mut r: Vec<char> = Vec::new();
    proof {
        reveal(Seq::filter);
        assert(spec_strip_seps(s@.subrange(lo as int, lo as int)) =~= Seq::<char>::empty());
    }
    let mut j: usize = lo;
    while j < hi
        invariant
            lo <= j <= hi <= s@.len(),
            r@ == spec_strip_seps(s@.subrange(lo as int, j as int)),
        decreases hi - j,
    {
        let c = s.get_char(j);
        proof {
            reveal(Seq::filter);
            let prev = s@.subrange(lo as int, j as int);
            let cur = s@.subrange(lo as int, j as int + 1);
            assert(cur.drop_last() =~= prev);
            assert(cur.last() == s@[j as int]);
            if s@[j as int] != '.' && s@[j as int] != ',' {
                assert(spec_strip_seps(cur) == spec_strip_seps(prev).push(s@[j as int]));
            } else {
                assert(spec_strip_seps(cur) == spec_strip_seps(prev));
            }
        }
        if c != '.' && c != ',' {
            r.push(c);
        }
        j += 1;
    }
    r
}

/// Decode a portal money string to integer cents, `None` where the digits
/// are malformed or the amount does not fit.
pub fn parse_euros(s: &str) -> (r: Option<i64>)
    ensures
        ({
            let v = spec_parse_euros(s@);
            if v is Some && i64::MIN <= v.unwrap() <= i64::MAX {
                r == Some(v.unwrap() as i64)
            } else {
                r is None
            }
        }),
{
    let (lo, hi0) = trim_region(s);
    let ghost trimmed = spec_trim(s@);
    let mut hi: usize = hi0;
    while hi - lo >= 2 && s.get_char(hi - 2) == ' ' && s.get_char(hi - 1) == '€'
        invariant
            lo <= hi <= s@.len(),
            spec_strip_euro(trimmed) == spec_strip_euro(s@.subrange(lo as int, hi as int)),
        decreases hi,
    {
        proof {
            let cur = s@.subrange(lo as int, hi as int);
            assert(cur[cur.len() - 2] == s@[hi - 2]);
            assert(cur[cur.len() - 1] == s@[hi - 1]);
            assert(cur.take(cur.len() - 2) =~= s@.subrange(lo as int, hi - 2));
        }
        hi -= 2;
    }
    proof {
        let cur = s@.subrange(lo as int, hi as int);
        if cur.len() >= 2 {
            assert(cur[cur.len() - 2] == s@[hi - 2]);
            assert(cur[cur.len() - 1] == s@[hi - 1]);
        }
        assert(spec_strip_euro(cur) == cur);
    }
    let cleaned = collect_non_seps(s, lo, hi);
    parse_int_chars(&cleaned)
}

/// The portal's date rule: exactly `DD-MM-YYYY`, digits and dashes, naming a
/// real calendar day.
pub open spec fn spec_parse_date(s: Seq<char>) -> Option<Date> {
    if s.len() == 10 && is_digit(s[0]) && is_digit(s[1]) && s[2] == '-' && is_digit(s[3])
        && is_digit(s[4]) && s[5] == '-' && is_digit(s[6]) && is_digit(s[7]) && is_digit(s[8])
        && is_digit(s[9]) {
        let day = digit_val(s[0]) * 10 + digit_val(s[1]);
        let month = digit_val(s[3]) * 10 + digit_val(s[4]);
        let year = digit_val(s[6]) * 1000 + digit_val(s[7]) * 100 + digit_val(s[8]) * 10
            + digit_val(s[9]);
        if 1 <= year && 1 <= month <= 12 && 1 <= day <= days_in_month(year, month) {
            Some(Date { year: year as u32, month: month as u32, day: day as u32 })
        } else {
            None
        }
    } else {
        None
    }
}

/// Decode a `DD-MM-YYYY` date string.
pub fn parse_date(s: &str) -> (r: Option<Date>)
    ensures
        r == spec_parse_date(s@),
        r is Some ==> r.unwrap().valid(),
{
    if s.unicode_len() != 10 {
        return None;
    }
    let c0 = s.get_char(0);
    let c1 = s.get_char(1);
    let c2 = s.get_char(2);
    let c3 = s.get_char(3);
    let c4 = s.get_char(4);
    let c5 = s.get_char(5);
    let c6 = s.get_char(6);
    let c7 = s.get_char(7);
    let c8 = s.get_char(8);
    let c9 = s.get_char(9);
    if !(is_digit_char(c0) && is_digit_char(c1) && c2 == '-' && is_digit_char(c3) && is_digit_char(
        c4,
    ) && c5 == '-' && is_digit_char(c6) && is_digit_char(c7) && is_digit_char(c8) && is_digit_char(
        c9,
    )) {
        return None;
    }
    let day: u32 = (c0 as u32 - '0' as u32) * 10 + (c1 as u32 - '0' as u32);
    let month: u32 = (c3 as u32 - '0' as u32) * 10 + (c4 as u32 - '0' as u32);
    let year: u32 = (c6 as u32 - '0' as u32) * 1000 + (c7 as u32 - '0' as u32) * 100 + (c8
        as u32 - '0' as u32) * 10 + (c9 as u32 - '0' as u32);
    if 1 <= year && 1 <= month && month <= 12 && 1 <= day && day <= days_in_month_of(
        year,
        month,
    ) {
        Some(Date { year, month, day })
    } else {
        None
    }
}

/// The trailing `" dias"` marks removed.
pub open spec fn spec_strip_dias(s: Seq<char>) -> Seq<char>
    decreases s.len(),
{
    if s.len() >= 5 && s[s.len() - 5] == ' ' && s[s.len() - 4] == 'd' && s[s.len() - 3] == 'i'
        && s[s.len() - 2] == 'a' && s[s.len() - 1] == 's' {
        spec_strip_dias(s.take(s.len() - 5))
    } else {
        s
    }
}

/// Reading a non-negative integer the way Rust's unsigned parse does: an
/// optional plus sign, then one or more digits and nothing else.
pub open spec fn spec_parse_uint(s: Seq<char>) -> Option<int> {
    if s.len() > 0 && s[0] == '+' {
        if s.len() > 1 && all_digits(s.drop_first()) {
            Some(spec_digits_val(s.drop_first()))
        } else {
            None
        }
    } else {
        if s.len() > 0 && all_digits(s) {
            Some(spec_digits_val(s))
        } else {
            None
        }
    }
}

/// The portal's deadline rule: trim, drop the trailing `" dias"`, and read
/// the rest as a number of days.
pub open spec fn spec_parse_deadline(s: Seq<char>) -> Option<int> {
    spec_parse_uint(spec_strip_dias(spec_trim(s)))
}

/// The characters of `s@.subrange(lo, hi)`.
fn collect_chars(s: &str, lo: usize, hi: usize) -> (r: Vec<char>)
    requires
        0 <= lo <= hi <= s@.len(),
    ensures
        r@ == s@.subrange(lo as int, hi as int),
{
    let mut r: Vec<char> = Vec::new();
    let mut j: usize = lo;
    while j < hi
        invariant
            lo <= j <= hi <= s@.len(),
            r@ == s@.subrange(lo as int, j as int),
        decreases hi - j,
    {
        r.push(s.get_char(j));
        proof {
            assert(r@ =~= s@.subrange(lo as int, j as int + 1));
        }
        j += 1;
    }
    r
}

/// Parse an unsigned integer from a character list, as Rust's
/// `parse::<usize>` does: `None` on a malformed number and on one that does
/// not fit.
#[verifier::loop_isolation(false)]
fn parse_uint_chars(cs: &Vec<char>) -> (r: Option<usize>)
    ensures
        spec_parse_uint(cs@) is Some ==> spec_parse_uint(cs@).unwrap() >= 0,
        ({
            let v = spec_parse_uint(cs@);
            if v is Some && v.unwrap() <= usize::MAX {
                r == Some(v.unwrap() as usize)
            } else {
                r is None
            }
        }),
{
    let n = cs.len();
    let mut start: usize = 0;
    if n > 0 && cs[0] == '+' {
        start = 1;
    }
    if start >= n {
        return None;
    }
    let ghost ds = cs@.skip(start as int);
    proof {
        if start == 1 {
            assert(ds =~= cs@.drop_first());
        } else {
            assert(ds =~= cs@);
        }
    }
    let mut i: usize = start;
    let mut mag: u128 = 0;
    while i < n
        invariant
            start <= i <= n,
            forall|j: int| 0 <= j < i - start ==> is_digit(#[trigger] ds[j]),
            mag == spec_digits_val(ds.take(i - start)),
            mag <= usize::MAX as u128,
        decreases n - i,
    {
        let c = cs[i];
        if !is_digit_char(c) {
            proof {
                assert(!is_digit(ds[i - start]));
            }
            return None;
        }
        let d: u128 = (c as u32 - '0' as u32) as u128;
        mag = mag * 10 + d;
        proof {
            assert(ds.take(i - start + 1).drop_last() =~= ds.take(i - start));
            assert(ds.take(i - start + 1).last() == ds[i - start]);
        }
        if mag > usize::MAX as u128 {
            proof {
                let k = i + 1 - start;
                if all_digits(ds) {
                    lemma_digits_val_prefix(ds, k);
                    lemma_digits_val_nonneg(ds);
                }
            }
            return None;
        }
        i += 1;
    }
    proof {
        assert(ds.take(n - start) =~= ds);
        assert(all_digits(ds));
        lemma_digits_val_nonneg(ds);
    }
    Some(mag as usize)
}

/// Decode an execution deadline such as `"90 dias"` to the number of days,
/// `None` where the number is malformed or does not fit.
pub fn parse_execution_deadline(s: &str) -> (r: Option<usize>)
    ensures
        spec_parse_deadline(s@) is Some ==> spec_parse_deadline(s@).unwrap() >= 0,
        ({
            let v = spec_parse_deadline(s@);
            if v is Some && v.unwrap() <= usize::MAX {
                r == Some(v.unwrap() as usize)
            } else {
                r is None
            }
        }),
{
    let (lo, hi0) = trim_region(s);
    let ghost trimmed = spec_trim(s@);
    let mut hi: usize = hi0;
    while hi - lo >= 5 && s.get_char(hi - 5) == ' ' && s.get_char(hi - 4) == 'd' && s.get_char(
        hi - 3,
    ) == 'i' && s.get_char(hi - 2) == 'a' && s.get_char(hi - 1) == 's'
        invariant
            lo <= hi <= s@.len(),
            spec_strip_dias(trimmed) == spec_strip_dias(s@.subrange(lo as int, hi as int)),
        decreases hi,
    {
        proof {
            let cur = s@.subrange(lo as int, hi as int);
            assert(cur[cur.len() - 5] == s@[hi - 5]);
            assert(cur[cur.len() - 4] == s@[hi - 4]);
            assert(cur[cur.len() - 3] == s@[hi - 3]);
            assert(cur[cur.len() - 2] == s@[hi - 2]);
            assert(cur[cur.len() - 1] == s@[hi - 1]);
            assert(cur.take(cur.len() - 5) =~= s@.subrange(lo as int, hi - 5));
        }
        hi -= 5;
    }
    proof {
        let cur = s@.subrange(lo as int, hi as int);
        if cur.len() >= 5 {
            assert(cur[cur.len() - 5] == s@[hi - 5]);
            assert(cur[cur.len() - 4] == s@[hi - 4]);
            assert(cur[cur.len() - 3] == s@[hi - 3]);
            assert(cur[cur.len() - 2] == s@[hi - 2]);
            assert(cur[cur.len() - 1] == s@[hi - 1]);
        }
        assert(spec_strip_dias(cur) == cur);
    }
    let digits = collect_chars(s, lo, hi);
    parse_uint_chars(&digits)
}

/// Decode the portal's announcement id: a negative value means the contract
/// has none.
pub fn parse_announcement_id(raw: i64) -> (r: Option<usize>)
    ensures
        raw >= 0 ==> r == Some(raw as usize),
        raw < 0 ==> r is None,
{
    if raw >= 0 {
        Some(raw as usize)
    } else {
        None
    }
}

/// Whether positions `p..p+3` of `s` hold the separator `" | "`.
pub open spec fn pipe_at(s: Seq<char>, p: int) -> bool {
    &&& 0 <= p
    &&& p + 3 <= s.len()
    &&& s[p] == ' '
    &&& s[p + 1] == '|'
    &&& s[p + 2] == ' '
}

/// The first position of the separator `" | "`, or `-1` when there is none.
pub open spec fn spec_find_pipe(s: Seq<char>) -> int
    decreases s.len(),
{
    if s.len() < 3 {
        -1
    } else if s[0] == ' ' && s[1] == '|' && s[2] == ' ' {
        0
    } else {
        let r = spec_find_pipe(s.drop_first());
        if r < 0 {
            -1
        } else {
            r + 1
        }
    }
}

/// A found separator lies within the string.
proof fn lemma_find_pipe_bound(s: Seq<char>)
    ensures
        spec_find_pipe(s) >= 0 ==> pipe_at(s, spec_find_pipe(s)),
        spec_find_pipe(s) < 0 ==> forall|p: int| !pipe_at(s, p),
    decreases s.len(),
{
    if s.len() >= 3 && !(s[0] == ' ' && s[1] == '|' && s[2] == ' ') {
        let t = s.drop_first();
        lemma_find_pipe_bound(t);
        if spec_find_pipe(s) >= 0 {
            let r = spec_find_pipe(t);
            assert(t[r] == s[r + 1] && t[r + 1] == s[r + 2] && t[r + 2] == s[r + 3]);
        } else {
            assert forall|p: int| !pipe_at(s, p) by {
                if 1 <= p && p + 3 <= s.len() {
                    assert(t[p - 1] == s[p] && t[p] == s[p + 1] && t[p + 1] == s[p + 2]);
                    assert(!pipe_at(t, p - 1));
                }
            }
        }
    } else if s.len() < 3 {
        assert forall|p: int| !pipe_at(s, p) by {}
    }
}

/// If the first match is at `k`, `spec_find_pipe` returns `k`.
proof fn lemma_find_pipe_at(s: Seq<char>, k: int)
    requires
        pipe_at(s, k),
        forall|p: int| 0 <= p < k ==> !pipe_at(s, p),
    ensures
        spec_find_pipe(s) == k,
    decreases k,
{
    if k == 0 {
    } else {
        assert(!pipe_at(s, 0));
        let t = s.drop_first();
        assert(t[k - 1] == s[k] && t[k] == s[k + 1] && t[k + 1] == s[k + 2]);
        assert(pipe_at(t, k - 1));
        assert forall|p: int| 0 <= p < k - 1 implies !pipe_at(t, p) by {
            assert(t[p] == s[p + 1] && t[p + 1] == s[p + 2] && t[p + 2] == s[p + 3]);
            assert(!pipe_at(s, p + 1));
        }
        lemma_find_pipe_at(t, k - 1);
    }
}

/// The pieces of `s` between occurrences of `" | "`, in order. A string
/// without the separator is one piece; the empty string is one empty piece.
pub open spec fn spec_split_pipe(s: Seq<char>) -> Seq<Seq<char>>
    decreases s.len(),
{
    let i = spec_find_pipe(s);
    if i < 0 || i + 3 > s.len() {
        seq![s]
    } else {
        seq![s.take(i)] + spec_split_pipe(s.skip(i + 3))
    }
}

/// The index of the first separator at or after `from`, or the length when
/// there is none.
fn find_pipe_from(s: &str, from: usize) -> (r: usize)
    requires
        from <= s@.len(),
    ensures
        from <= r <= s@.len(),
        r < s@.len() ==> pipe_at(s@, r as int) && r + 3 <= s@.len(),
        forall|p: int| from <= p < r ==> !pipe_at(s@, p),
        r == s@.len() ==> forall|p: int| from <= p ==> !pipe_at(s@, p),
{
    let n = s.unicode_len();
    let mut j = from;
    while n >= 3 && j <= n - 3
        invariant
            from <= j,
            j <= n,
            n == s@.len(),
            forall|p: int| from <= p < j ==> !pipe_at(s@, p),
        decreases n - j,
    {
        if s.get_char(j) == ' ' && s.get_char(j + 1) == '|' && s.get_char(j + 2) == ' ' {
            return j;
        }
        j += 1;
    }
    proof {
        assert forall|p: int| from <= p implies !pipe_at(s@, p) by {
            if p < j {
            } else {
                assert(p + 3 > s@.len());
            }
        }
    }
    n
}

/// Split `s` on the separator `" | "` into its pieces.
pub fn split_pipe(s: &str) -> (parts: Vec<String>)
    ensures
        parts@.map_values(|p: String| p@) == spec_split_pipe(s@),
        parts@.len() >= 1,
    decreases s@.len(),
{
    let n = s.unicode_len();
    let j = find_pipe_from(s, 0);
    if j < n {
        proof {
            lemma_find_pipe_at(s@, j as int);
        }
        let piece = s.substring_char(0, j).to_owned();
        let rest = s.substring_char(j + 3, n);
        proof {
            assert(rest@ =~= s@.skip(j + 3));
        }
        let mut parts: Vec<String> = Vec::new();
        parts.push(piece);
        let mut tail = split_pipe(rest);
        let ghost tail0 = tail@;
        parts.append(&mut tail);
        proof {
            assert(parts@.map_values(|p: String| p@) =~= seq![s@.take(j as int)]
                + tail0.map_values(|p: String| p@));
        }
        parts
    } else {
        proof {
            if spec_find_pipe(s@) >= 0 {
                lemma_find_pipe_bound(s@);
            }
        }
        let mut parts: Vec<String> = Vec::new();
        parts.push(s.to_owned());
        proof {
            assert(parts@.map_values(|p: String| p@) =~= seq![s@]);
        }
        parts
    }
}

/// Why a portal record cannot be decoded.
#[derive(Clone, Copy, PartialEq, Eq, Structural, Debug)]
pub enum DecodeError {
    /// A date field is not a valid `DD-MM-YYYY` calendar day.
    InvalidDate,
    /// A money field is not a well-formed amount.
    InvalidCurrency,
    /// The execution deadline is not a well-formed number of days.
    InvalidDeadline,
    /// The CPV code and designation lists have different lengths.
    CpvMismatch,
}

/// Trim leading and trailing whitespace.
pub fn trim_str(s: &str) -> (r: String)
    ensures
        r@ == spec_trim(s@),
{
    let (lo, hi) = trim_region(s);
    s.substring_char(lo, hi).to_owned()
}

/// The portal's CPV rule: `code` and `designation` are pipe-separated lists
/// of equal length; they pair up, each part trimmed. Two empty fields mean
/// no terms at all, and lists of different lengths are an error.
pub fn split_cpvs(code: &str, designation: &str) -> (r: Result<Vec<Cpv>, DecodeError>)
    ensures
        ({
            let cs = spec_split_pipe(code@);
            let ds = spec_split_pipe(designation@);
            &&& (code@.len() == 0 && designation@.len() == 0) ==> (r is Ok && r.unwrap()@.len()
                == 0)
            &&& !(code@.len() == 0 && designation@.len() == 0) && cs.len() != ds.len() ==> r
                == Err::<Vec<Cpv>, DecodeError>(DecodeError::CpvMismatch)
            &&& !(code@.len() == 0 && designation@.len() == 0) && cs.len() == ds.len() ==> (r
                is Ok && r.unwrap()@.len() == cs.len() && (forall|i: int|
                0 <= i < cs.len() ==> (#[trigger] r.unwrap()@[i]).code@ == spec_trim(cs[i])
                    && r.unwrap()@[i].designation@ == spec_trim(ds[i])))
        }),
{
    if code.unicode_len() == 0 && designation.unicode_len() == 0 {
        return Ok(Vec::new());
    }
    let codes = split_pipe(code);
    let designations = split_pipe(designation);
    if codes.len() != designations.len() {
        return Err(DecodeError::CpvMismatch);
    }
    let n = codes.len();
    let mut out: Vec<Cpv> = Vec::new();
    let mut i: usize = 0;
    while i < n
        invariant
            i <= n,
            n == codes@.len(),
            n == designations@.len(),
            codes@.map_values(|p: String| p@) == spec_split_pipe(code@),
            designations@.map_values(|p: String| p@) == spec_split_pipe(designation@),
            out@.len() == i,
            forall|k: int|
                0 <= k < i ==> (#[trigger] out@[k]).code@ == spec_trim(spec_split_pipe(code@)[k])
                    && out@[k].designation@ == spec_trim(spec_split_pipe(designation@)[k]),
        decreases n - i,
    {
        let c = trim_str(&codes[i]);
        let d = trim_str(&designations[i]);
        out.push(Cpv { code: c, designation: d });
        proof {
            assert(codes@.map_values(|p: String| p@)[i as int] == codes@[i as int]@);
            assert(designations@.map_values(|p: String| p@)[i as int]
                == designations@[i as int]@);
        }
        i += 1;
    }
    Ok(out)
}

/// Pair up already-split CPV code and designation pieces, dropping each pair
/// where either side is empty and stopping at the shorter list. This is the
/// lenient pairing used when reshaping previously indexed records.
pub open spec fn spec_zip_cpvs(cs: Seq<Seq<char>>, ds: Seq<Seq<char>>) -> Seq<
    (Seq<char>, Seq<char>),
>
    decreases cs.len(),
{
    if cs.len() == 0 || ds.len() == 0 {
        Seq::empty()
    } else {
        let rest = spec_zip_cpvs(cs.drop_first(), ds.drop_first());
        if cs[0].len() == 0 || ds[0].len() == 0 {
            rest
        } else {
            seq![(cs[0], ds[0])] + rest
        }
    }
}

/// Pair up a combined CPV field the lenient way: split both sides on the
/// separator, walk the pairs, and keep those where both sides are non-empty,
/// untrimmed.
pub fn migrate_contract_cpv(code: &str, designation: &str) -> (r: Vec<Cpv>)
    ensures
        r@.map_values(|v: Cpv| (v.code@, v.designation@)) == spec_zip_cpvs(
            spec_split_pipe(code@),
            spec_split_pipe(designation@),
        ),
{
    let codes = split_pipe(code);
    let designations = split_pipe(designation);
    let n = if codes.len() <= designations.len() {
        codes.len()
    } else {
        designations.len()
    };
    let ghost cs = spec_split_pipe(code@);
    let ghost ds = spec_split_pipe(designation@);
    let mut out: Vec<Cpv> = Vec::new();
    proof {
        assert(cs.skip(0) =~= cs);
        assert(ds.skip(0) =~= ds);
        assert(out@.map_values(|v: Cpv| (v.code@, v.designation@)) + spec_zip_cpvs(cs, ds)
            =~= spec_zip_cpvs(cs, ds));
    }
    let mut i: usize = 0;
    while i < n
        invariant
            i <= n,
            n == if codes@.len() <= designations@.len() {
                codes@.len()
            } else {
                designations@.len()
            },
            codes@.map_values(|p: String| p@) == cs,
            designations@.map_values(|p: String| p@) == ds,
            spec_zip_cpvs(cs, ds) == out@.map_values(|v: Cpv| (v.code@, v.designation@))
                + spec_zip_cpvs(cs.skip(i as int), ds.skip(i as int)),
        decreases n - i,
    {
        proof {
            assert(codes@.map_values(|p: String| p@)[i as int] == codes@[i as int]@);
            assert(designations@.map_values(|p: String| p@)[i as int]
                == designations@[i as int]@);
            assert(cs.skip(i as int)[0] == cs[i as int]);
            assert(ds.skip(i as int)[0] == ds[i as int]);
            assert(cs.skip(i as int).drop_first() =~= cs.skip(i as int + 1));
            assert(ds.skip(i as int).drop_first() =~= ds.skip(i as int + 1));
        }
        let c = &codes[i];
        let d = &designations[i];
        if !c.as_str().is_empty() && !d.as_str().is_empty() {
            out.push(Cpv { code: c.clone(), designation: d.clone() });
            proof {
                let f = |v: Cpv| (v.code@, v.designation@);
                assert(out@.map_values(f) =~= out@.map_values(f).take(out@.len() - 1).push(
                    (cs[i as int], ds[i as int]),
                ));
                assert(out@.map_values(f).take(out@.len() - 1) + seq![(cs[i as int], ds[i as int])]
                    + spec_zip_cpvs(cs.skip(i as int + 1), ds.skip(i as int + 1)) =~= out@.map_values(
                    f,
                ) + spec_zip_cpvs(cs.skip(i as int + 1), ds.skip(i as int + 1)));
            }
        }
        i += 1;
    }
    proof {
        if cs.skip(i as int).len() == 0 || ds.skip(i as int).len() == 0 {
            assert(spec_zip_cpvs(cs.skip(i as int), ds.skip(i as int)) =~= Seq::<(
                Seq<char>,
                Seq<char>,
            )>::empty());
        }
        assert(out@.map_values(|v: Cpv| (v.code@, v.designation@)) + Seq::<(
            Seq<char>,
            Seq<char>,
        )>::empty() =~= out@.map_values(|v: Cpv| (v.code@, v.designation@)));
    }
    out
}

} // verus!
