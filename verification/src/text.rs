//! Rendering numbers and dates as text, for filter expressions, form
//! payloads and file names.

use vstd::prelude::*;

use crate::dates::Date;

verus! {

/// The character of a decimal digit.
pub open spec fn digit_char(d: int) -> char {
    ((48 + d) as u8) as char
}

/// The decimal digits of `n`, most significant first, with no sign and no
/// leading zeros (a single `0` for zero).
pub open spec fn spec_digits(n: nat) -> Seq<char>
    decreases n,
{
    if n < 10 {
        seq![digit_char(n as int)]
    } else {
        spec_digits(n / 10).push(digit_char(n as int % 10))
    }
}

/// One decimal digit as a string.
fn digit_str(d: u64) -> (s: String)
    requires
        d < 10,
    ensures
        s@ == seq![digit_char(d as int)],
{
    let s: &str = if d == 0 {
        "0"
    } else if d == 1 {
        "1"
    } else if d == 2 {
        "2"
    } else if d == 3 {
        "3"
    } else if d == 4 {
        "4"
    } else if d == 5 {
        "5"
    } else if d == 6 {
        "6"
    } else if d == 7 {
        "7"
    } else if d == 8 {
        "8"
    } else {
        "9"
    };
    proof {
        reveal_strlit("0");
        reveal_strlit("1");
        reveal_strlit("2");
        reveal_strlit("3");
        reveal_strlit("4");
        reveal_strlit("5");
        reveal_strlit("6");
        reveal_strlit("7");
        reveal_strlit("8");
        reveal_strlit("9");
        assert(s@ =~= seq![digit_char(d as int)]);
    }
    s.to_owned()
}

/// Render `n` in decimal.
pub fn u64_to_string(n: u64) -> (s: String)
    ensures
        s@ == spec_digits(n as nat),
    decreases n,
{
    if n < 10 {
        digit_str(n)
    } else {
        let mut s = u64_to_string(n / 10);
        let last = digit_str(n % 10);
        s.append(last.as_str());
        s
    }
}

/// The rendering of a signed value: a minus sign before the digits of its
/// magnitude.
pub open spec fn spec_signed_digits(n: int) -> Seq<char> {
    if n < 0 {
        seq!['-'] + spec_digits((-n) as nat)
    } else {
        spec_digits(n as nat)
    }
}

/// Render `n` in decimal, with a sign where negative.
pub fn i64_to_string(n: i64) -> (s: String)
    ensures
        s@ == spec_signed_digits(n as int),
{
    if n >= 0 {
        u64_to_string(n as u64)
    } else {
        let mag: u64 = if n == i64::MIN {
            0x8000_0000_0000_0000u64
        } else {
            (-n) as u64
        };
        let mut s = "-".to_owned();
        proof {
            reveal_strlit("-");
            assert("-"@ =~= seq!['-']);
        }
        let digits = u64_to_string(mag);
        s.append(digits.as_str());
        s
    }
}

/// Two digits, zero padded.
pub open spec fn spec_pad2(n: int) -> Seq<char> {
    seq![digit_char(n / 10), digit_char(n % 10)]
}

/// Four digits, zero padded.
pub open spec fn spec_pad4(n: int) -> Seq<char> {
    seq![
        digit_char(n / 1000),
        digit_char(n / 100 % 10),
        digit_char(n / 10 % 10),
        digit_char(n % 10),
    ]
}

/// Render `n` as two zero-padded digits.
pub fn pad2(n: u32) -> (s: String)
    requires
        n <= 99,
    ensures
        s@ == spec_pad2(n as int),
{
    let mut s = digit_str((n / 10) as u64);
    let last = digit_str((n % 10) as u64);
    s.append(last.as_str());
    proof {
        assert(s@ =~= spec_pad2(n as int));
    }
    s
}

/// Render `n` as four zero-padded digits.
pub fn pad4(n: u32) -> (s: String)
    requires
        n <= 9999,
    ensures
        s@ == spec_pad4(n as int),
{
    let mut s = digit_str((n / 1000) as u64);
    let d1 = digit_str((n / 100 % 10) as u64);
    let d2 = digit_str((n / 10 % 10) as u64);
    let d3 = digit_str((n % 10) as u64);
    s.append(d1.as_str());
    s.append(d2.as_str());
    s.append(d3.as_str());
    proof {
        assert(s@ =~= spec_pad4(n as int));
    }
    s
}

/// A date rendered as `YYYY-MM-DD`.
pub open spec fn spec_date_string(d: Date) -> Seq<char> {
    spec_pad4(d.year as int) + seq!['-'] + spec_pad2(d.month as int) + seq!['-'] + spec_pad2(
        d.day as int,
    )
}

/// Render a date as `YYYY-MM-DD`.
pub fn date_to_string(d: &Date) -> (s: String)
    requires
        d.valid(),
    ensures
        s@ == spec_date_string(*d),
{
    let mut s = pad4(d.year);
    let dash1 = "-".to_owned();
    proof {
        reveal_strlit("-");
        assert("-"@ =~= seq!['-']);
    }
    s.append(dash1.as_str());
    let m = pad2(d.month);
    s.append(m.as_str());
    s.append(dash1.as_str());
    let dd = pad2(d.day);
    s.append(dd.as_str());
    proof {
        assert(s@ =~= spec_date_string(*d));
    }
    s
}

/// At least five digits, zero padded.
pub open spec fn spec_pad5(n: nat) -> Seq<char> {
    if n >= 100000 {
        spec_digits(n)
    } else {
        seq![
            digit_char(n as int / 10000),
            digit_char(n as int / 1000 % 10),
            digit_char(n as int / 100 % 10),
            digit_char(n as int / 10 % 10),
            digit_char(n as int % 10),
        ]
    }
}

/// The directory a page's contract file is grouped under: pages are bundled
/// a hundred at a time, as `contracts/group_NNNNN` with the group number
/// zero padded to at least five digits.
pub open spec fn spec_folder_path(page: int) -> Seq<char> {
    "contracts/group_"@ + spec_pad5((page / 100) as nat)
}

/// Compute the folder a page's contracts are filed under.
pub fn get_folder_path(page: usize) -> (s: String)
    ensures
        s@ == spec_folder_path(page as int),
{
    let group = page / 100;
    let mut s = "contracts/group_".to_owned();
    if group >= 100000 {
        let digits = u64_to_string(group as u64);
        s.append(digits.as_str());
    } else {
        let g = group as u64;
        let d0 = digit_str(g / 10000);
        let d1 = digit_str(g / 1000 % 10);
        let d2 = digit_str(g / 100 % 10);
        let d3 = digit_str(g / 10 % 10);
        let d4 = digit_str(g % 10);
        s.append(d0.as_str());
        s.append(d1.as_str());
        s.append(d2.as_str());
        s.append(d3.as_str());
        s.append(d4.as_str());
    }
    proof {
        assert(s@ =~= spec_folder_path(page as int));
    }
    s
}

} // verus!
