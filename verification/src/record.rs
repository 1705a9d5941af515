//! The text form of a cache record: `<expires_at>:<url>:<size>`.
//!
//! The first and the last field hold no colon, so the first colon ends
//! the expiry and the last colon begins the size; what stands between is
//! the URL, colons and all.

use crate::decimal::{
    decimal_digits, format_decimal, lemma_decimal_digits, parse_decimal, parse_decimal_exec,
};
use crate::text::{append, subvec};
use vstd::prelude::*;

verus! {

/// First index at or after `i` that holds `c`, or the length.
pub open spec fn find_char(s: Seq<char>, c: char, i: int) -> int
    decreases s.len() - i,
{
    if i < 0 || i >= s.len() {
        s.len() as int
    } else if s[i] == c {
        i
    } else {
        find_char(s, c, i + 1)
    }
}

/// One past the last index before `j` that holds `c`, or 0.
pub open spec fn rfind_char(s: Seq<char>, c: char, j: int) -> int
    decreases j,
{
    if j <= 0 || j > s.len() {
        0
    } else if s[j - 1] == c {
        j
    } else {
        rfind_char(s, c, j - 1)
    }
}

pub proof fn lemma_find_char(s: Seq<char>, c: char, i: int)
    requires
        0 <= i <= s.len(),
    ensures
        i <= find_char(s, c, i) <= s.len(),
        find_char(s, c, i) < s.len() ==> s[find_char(s, c, i)] == c,
        forall|k: int| i <= k < find_char(s, c, i) ==> s[k] != c,
    decreases s.len() - i,
{
    if i < s.len() && s[i] != c {
        lemma_find_char(s, c, i + 1);
    }
}

pub proof fn lemma_rfind_char(s: Seq<char>, c: char, j: int)
    requires
        0 <= j <= s.len(),
    ensures
        0 <= rfind_char(s, c, j) <= j,
        rfind_char(s, c, j) > 0 ==> s[rfind_char(s, c, j) - 1] == c,
        forall|k: int| rfind_char(s, c, j) <= k < j ==> s[k] != c,
    decreases j,
{
    if j > 0 && s[j - 1] != c {
        lemma_rfind_char(s, c, j - 1);
    }
}

/// The three fields of a record text, where it has two colons or more:
/// what stands before the first colon, between the first and the last,
/// and after the last.
pub open spec fn record_fields(value: Seq<char>) -> Option<(Seq<char>, Seq<char>, Seq<char>)> {
    let first = find_char(value, ':', 0);
    let last = rfind_char(value, ':', value.len() as int) - 1;
    if first < last && last < value.len() {
        Some(
            (
                value.subrange(0, first),
                value.subrange(first + 1, last),
                value.subrange(last + 1, value.len() as int),
            ),
        )
    } else {
        None
    }
}

/// The expiry of a record, in seconds since the epoch.
pub open spec fn record_expiry(value: Seq<char>) -> Option<u64> {
    match record_fields(value) {
        Some(f) => match parse_decimal(f.0, u64::MAX as nat) {
            Some(n) => Some(n as u64),
            None => None,
        },
        None => None,
    }
}

/// The size of a record, in bytes.
pub open spec fn record_size(value: Seq<char>) -> Option<usize> {
    match record_fields(value) {
        Some(f) => match parse_decimal(f.2, usize::MAX as nat) {
            Some(n) => Some(n as usize),
            None => None,
        },
        None => None,
    }
}

/// The URL of a record.
pub open spec fn record_url(value: Seq<char>) -> Seq<char> {
    match record_fields(value) {
        Some(f) => f.1,
        None => Seq::empty(),
    }
}

/// The text of a record.
pub open spec fn record_text(expires: u64, url: Seq<char>, size: usize) -> Seq<char> {
    decimal_digits(expires as nat) + seq![':'] + url + seq![':'] + decimal_digits(size as nat)
}

/// A record text reads back as the record that was written, whatever
/// colons the URL holds.
pub proof fn lemma_record_round_trip(expires: u64, url: Seq<char>, size: usize)
    ensures
        record_expiry(record_text(expires, url, size)) == Some(expires),
        record_url(record_text(expires, url, size)) == url,
        record_size(record_text(expires, url, size)) == Some(size),
{
    let e = decimal_digits(expires as nat);
    let s = decimal_digits(size as nat);
    let value = record_text(expires, url, size);
    lemma_decimal_digits(expires as nat);
    lemma_decimal_digits(size as nat);
    let a = e.len() as int;
    let b = a + 1 + url.len();
    assert(value.len() == b + 1 + s.len());
    assert(value[a] == ':');
    assert(value[b] == ':');
    assert forall|k: int| 0 <= k < a implies value[k] != ':' by {
        assert(value[k] == e[k]);
    }
    assert forall|k: int| b < k < value.len() implies value[k] != ':' by {
        assert(value[k] == s[k - b - 1]);
    }
    lemma_find_char(value, ':', 0);
    lemma_rfind_char(value, ':', value.len() as int);
    let first = find_char(value, ':', 0);
    let last = rfind_char(value, ':', value.len() as int) - 1;
    assert(first == a) by {
        if first < a {
            assert(value[first] == ':');
        }
        if first > a {
            assert(value[a] != ':');
        }
    }
    assert(last == b) by {
        if last > b {
            assert(value[last] == ':');
        }
        if last < b {
            assert(value[b] != ':');
        }
    }
    assert(value.subrange(0, first) =~= e);
    assert(value.subrange(first + 1, last) =~= url);
    assert(value.subrange(last + 1, value.len() as int) =~= s);
    crate::decimal::lemma_parse_decimal_digits(expires as nat, u64::MAX as nat);
    crate::decimal::lemma_parse_decimal_digits(size as nat, usize::MAX as nat);
}

/// Writes a record.
pub fn format_record(expires: u64, url: &Vec<char>, size: usize) -> (r: Vec<char>)
    ensures
        r@ == record_text(expires, url@, size),
{
    let mut out = format_decimal(expires);
    out.push(':');
    append(&mut out, url);
    out.push(':');
    append(&mut out, &format_decimal(size as u64));
    assert(out@ =~= record_text(expires, url@, size));
    out
}

/// A record as it was read.
#[derive(Debug)]
pub struct Record {
    pub expires: Option<u64>,
    pub url: Vec<char>,
    pub size: Option<usize>,
}

/// Reads a record text: its expiry and size where they are numbers, and
/// its URL. Nothing where the text has fewer than two colons.
pub fn parse_record(value: &Vec<char>) -> (r: Option<Record>)
    ensures
        match r {
            Some(rec) => record_fields(value@) is Some && rec.expires == record_expiry(value@)
                && rec.size == record_size(value@) && rec.url@ == record_url(value@),
            None => record_fields(value@) is None,
        },
{
    let mut first: usize = 0;
    while first < value.len() && value[first] != ':'
        invariant
            first <= value.len(),
            find_char(value@, ':', 0) == find_char(value@, ':', first as int),
        decreases value.len() - first,
    {
        first += 1;
    }
    let mut end: usize = value.len();
    while end > 0 && value[end - 1] != ':'
        invariant
            end <= value.len(),
            rfind_char(value@, ':', value.len() as int) == rfind_char(value@, ':', end as int),
        decreases end,
    {
        end -= 1;
    }
    if end == 0 || first >= end - 1 {
        return None;
    }
    let last: usize = end - 1;
    let head = subvec(value, 0, first);
    let url = subvec(value, first + 1, last);
    let tail = subvec(value, last + 1, value.len());
    let expires = parse_decimal_exec(&head, u64::MAX);
    let size = match parse_decimal_exec(&tail, usize::MAX as u64) {
        Some(n) => Some(n as usize),
        None => None,
    };
    Some(Record { expires, url, size })
}

} // verus!
