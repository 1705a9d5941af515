//! Small rules of the HTTP surface: the bearer token, the headers that a
//! preflight allows, the wait of the rate limiter, and settings that come
//! as text.

use crate::decimal::{parse_decimal, parse_decimal_exec};
use crate::split::{join, split, trim, vec_join, vec_split, vec_trim};
use crate::text::{
    chars_of, lowercase_of, starts_with, str_eq, string_of, subvec, to_lowercase,
    vec_starts_with, vec_views,
};
use vstd::prelude::*;

verus! {

// ---------------------------------------------------------------------
// Authorization

/// Why a request carries no usable token.
#[derive(Debug, Clone, Copy, PartialEq, Eq, Structural)]
pub enum AuthError {
    Missing,
    Invalid,
}

/// The token of an `Authorization` header: what follows `Bearer `.
pub open spec fn bearer_of(header: Option<Seq<char>>) -> Result<Seq<char>, AuthError> {
    match header {
        Some(h) => if starts_with(h, "Bearer "@) {
            Ok(h.subrange("Bearer "@.len() as int, h.len() as int))
        } else {
            Err(AuthError::Invalid)
        },
        None => Err(AuthError::Missing),
    }
}

/// Reads the bearer token; it goes upstream as it is.
pub fn bearer_token(header: Option<&str>) -> (r: Result<String, AuthError>)
    ensures
        match r {
            Ok(token) => bearer_of(header.deep_view()) == Ok::<Seq<char>, AuthError>(token@),
            Err(e) => bearer_of(header.deep_view()) == Err::<Seq<char>, AuthError>(e),
        },
{
    match header {
        Some(h) => {
            let text = chars_of(h);
            let prefix = chars_of("Bearer ");
            if vec_starts_with(&text, &prefix) {
                Ok(string_of(&subvec(&text, prefix.len(), text.len())))
            } else {
                Err(AuthError::Invalid)
            }
        },
        None => Err(AuthError::Missing),
    }
}

// ---------------------------------------------------------------------
// Preflight headers

/// A header name, trimmed and in lower case, that a preflight may allow:
/// any `x-` header and the known harmless ones, never a cookie header.
pub open spec fn is_safe_name(h: Seq<char>) -> bool {
    h.len() > 0 && h != "cookie"@ && h != "set-cookie"@ && (starts_with(h, "x-"@) || h == "accept"@
        || h == "accept-encoding"@ || h == "accept-language"@ || h == "authorization"@ || h
        == "cache-control"@ || h == "connection"@ || h == "content-type"@ || h == "user-agent"@ || h
        == "referer"@ || h == "origin"@ || h == "pragma"@ || h == "sec-fetch-dest"@ || h
        == "sec-fetch-mode"@ || h == "sec-fetch-site"@)
}

/// Whether a preflight may allow the header.
pub open spec fn is_safe(header: Seq<char>) -> bool {
    is_safe_name(lowercase_of(trim(header)))
}

pub fn is_safe_header(header: &str) -> (r: bool)
    ensures
        r == is_safe(header@),
{
    let trimmed = string_of(&vec_trim(&chars_of(header)));
    let lower = to_lowercase(trimmed.as_str());
    let h = lower.as_str();
    let text = chars_of(h);
    if text.len() == 0 || str_eq(h, "cookie") || str_eq(h, "set-cookie") {
        return false;
    }
    vec_starts_with(&text, &chars_of("x-")) || str_eq(h, "accept") || str_eq(h, "accept-encoding")
        || str_eq(h, "accept-language") || str_eq(h, "authorization") || str_eq(h, "cache-control")
        || str_eq(h, "connection") || str_eq(h, "content-type") || str_eq(h, "user-agent")
        || str_eq(h, "referer") || str_eq(h, "origin") || str_eq(h, "pragma") || str_eq(
        h,
        "sec-fetch-dest",
    ) || str_eq(h, "sec-fetch-mode") || str_eq(h, "sec-fetch-site")
}

/// The safe names among `parts[i..]`, trimmed.
pub open spec fn safe_names(parts: Seq<Seq<char>>, i: int) -> Seq<Seq<char>>
    decreases parts.len() - i,
{
    if i < 0 || i >= parts.len() {
        Seq::empty()
    } else if trim(parts[i]).len() > 0 && is_safe(trim(parts[i])) {
        seq![trim(parts[i])] + safe_names(parts, i + 1)
    } else {
        safe_names(parts, i + 1)
    }
}

/// The headers that a preflight asks for and may have.
pub open spec fn requested_headers(raw: Option<Seq<char>>) -> Seq<Seq<char>> {
    match raw {
        Some(text) => safe_names(split(text, seq![',']), 0),
        None => Seq::empty(),
    }
}

/// Reads `Access-Control-Request-Headers` and keeps the safe names.
pub fn parse_requested_headers(raw: Option<&str>) -> (r: Vec<String>)
    ensures
        r.deep_view() == requested_headers(raw.deep_view()),
{
    let mut out: Vec<String> = Vec::new();
    assert(out.deep_view() =~= Seq::<Seq<char>>::empty());
    match raw {
        Some(text) => {
            let mut comma: Vec<char> = Vec::new();
            comma.push(',');
            assert(comma@ =~= seq![',']);
            let parts = vec_split(&chars_of(text), &comma);
            let mut i: usize = 0;
            while i < parts.len()
                invariant
                    i <= parts.len(),
                    out.deep_view() + safe_names(vec_views(parts@), i as int) == safe_names(
                        vec_views(parts@),
                        0,
                    ),
                decreases parts.len() - i,
            {
                assert(vec_views(parts@)[i as int] == parts@[i as int]@);
                let name = vec_trim(&parts[i]);
                let name_text = string_of(&name);
                if name.len() > 0 && is_safe_header(name_text.as_str()) {
                    let ghost before = out.deep_view();
                    out.push(name_text);
                    assert(out.deep_view() =~= before.push(name@));
                    assert(before + (seq![name@] + safe_names(vec_views(parts@), i + 1))
                        =~= out.deep_view() + safe_names(vec_views(parts@), i + 1));
                }
                i += 1;
            }
            assert(out.deep_view() + Seq::<Seq<char>>::empty() =~= out.deep_view());
        },
        None => {},
    }
    out
}

/// A name that reads like `name` without regard to case is in the list.
pub open spec fn has_name(list: Seq<Seq<char>>, name: Seq<char>) -> bool {
    exists|k: int| 0 <= k < list.len() && lowercase_of(#[trigger] list[k]) == lowercase_of(name)
}

/// The list `acc` with the names `extra[i..]` that it does not hold yet.
pub open spec fn merged_names(extra: Seq<Seq<char>>, i: int, acc: Seq<Seq<char>>) -> Seq<Seq<char>>
    decreases extra.len() - i,
{
    if i < 0 || i >= extra.len() {
        acc
    } else if has_name(acc, extra[i]) {
        merged_names(extra, i + 1, acc)
    } else {
        merged_names(extra, i + 1, acc.push(extra[i]))
    }
}

/// The value of `Access-Control-Allow-Headers`: the base names, then the
/// requested names that are not among them, separated by `, `.
pub open spec fn allowed_headers_text(base: Seq<Seq<char>>, requested: Seq<Seq<char>>) -> Seq<char> {
    join(merged_names(requested, 0, base), ", "@)
}

fn has_name_exec(list: &Vec<Vec<char>>, lowered: &Vec<String>, name: &str) -> (r: bool)
    requires
        lowered.len() == list.len(),
        forall|k: int| 0 <= k < list.len() ==> (#[trigger] lowered@[k])@ == lowercase_of(list@[k]@),
    ensures
        r == has_name(vec_views(list@), name@),
{
    let wanted = to_lowercase(name);
    let mut k: usize = 0;
    while k < list.len()
        invariant
            k <= list.len(),
            lowered.len() == list.len(),
            wanted@ == lowercase_of(name@),
            forall|j: int|
                0 <= j < list.len() ==> (#[trigger] lowered@[j])@ == lowercase_of(list@[j]@),
            forall|j: int|
                0 <= j < k ==> lowercase_of(#[trigger] vec_views(list@)[j]) != lowercase_of(name@),
        decreases list.len() - k,
    {
        assert(vec_views(list@)[k as int] == list@[k as int]@);
        if str_eq(lowered[k].as_str(), wanted.as_str()) {
            return true;
        }
        k += 1;
    }
    false
}

/// Builds the value of `Access-Control-Allow-Headers`.
pub fn allowed_headers(base: &Vec<String>, requested: &Vec<String>) -> (r: String)
    ensures
        r@ == allowed_headers_text(base.deep_view(), requested.deep_view()),
{
    let mut names: Vec<Vec<char>> = Vec::new();
    let mut lowered: Vec<String> = Vec::new();
    let mut b: usize = 0;
    while b < base.len()
        invariant
            b <= base.len(),
            names.len() == b,
            lowered.len() == b,
            forall|k: int| 0 <= k < b ==> (#[trigger] names@[k])@ == base@[k]@,
            forall|k: int| 0 <= k < b ==> (#[trigger] lowered@[k])@ == lowercase_of(names@[k]@),
        decreases base.len() - b,
    {
        names.push(chars_of(base[b].as_str()));
        lowered.push(to_lowercase(base[b].as_str()));
        b += 1;
    }
    assert(vec_views(names@) =~= base.deep_view());
    let ghost extra = requested.deep_view();
    let mut i: usize = 0;
    while i < requested.len()
        invariant
            i <= requested.len(),
            extra == requested.deep_view(),
            lowered.len() == names.len(),
            forall|k: int|
                0 <= k < names.len() ==> (#[trigger] lowered@[k])@ == lowercase_of(names@[k]@),
            merged_names(extra, 0, base.deep_view()) == merged_names(
                extra,
                i as int,
                vec_views(names@),
            ),
        decreases requested.len() - i,
    {
        assert(extra[i as int] == requested@[i as int]@);
        if !has_name_exec(&names, &lowered, requested[i].as_str()) {
            let ghost before = vec_views(names@);
            names.push(chars_of(requested[i].as_str()));
            lowered.push(to_lowercase(requested[i].as_str()));
            assert(vec_views(names@) =~= before.push(extra[i as int]));
        }
        i += 1;
    }
    string_of(&vec_join(&names, &chars_of(", ")))
}

/// The headers that every preflight allows.
pub open spec fn base_header_names() -> Seq<Seq<char>> {
    seq![
        "Authorization"@,
        "Content-Type"@,
        "User-Agent"@,
        "Accept"@,
        "Origin"@,
        "X-Requested-With"@,
        "Access-Control-Request-Method"@,
        "Access-Control-Request-Headers"@,
        "Accept-Encoding"@,
        "Accept-Language"@,
        "Cache-Control"@,
        "Connection"@,
        "Referer"@,
        "Sec-Fetch-Dest"@,
        "Sec-Fetch-Mode"@,
        "Sec-Fetch-Site"@,
        "Pragma"@,
        "X-Api-Key"@,
    ]
}

/// The headers that every preflight allows.
pub fn base_headers() -> (r: Vec<String>)
    ensures
        r.deep_view() == base_header_names(),
{
    let mut r: Vec<String> = Vec::new();
    r.push("Authorization".to_owned());
    r.push("Content-Type".to_owned());
    r.push("User-Agent".to_owned());
    r.push("Accept".to_owned());
    r.push("Origin".to_owned());
    r.push("X-Requested-With".to_owned());
    r.push("Access-Control-Request-Method".to_owned());
    r.push("Access-Control-Request-Headers".to_owned());
    r.push("Accept-Encoding".to_owned());
    r.push("Accept-Language".to_owned());
    r.push("Cache-Control".to_owned());
    r.push("Connection".to_owned());
    r.push("Referer".to_owned());
    r.push("Sec-Fetch-Dest".to_owned());
    r.push("Sec-Fetch-Mode".to_owned());
    r.push("Sec-Fetch-Site".to_owned());
    r.push("Pragma".to_owned());
    r.push("X-Api-Key".to_owned());
    assert(r.deep_view() =~= base_header_names());
    r
}

/// The value of `Access-Control-Allow-Headers` for a preflight that asks
/// for the headers in `raw`: the base headers, then the safe ones among
/// those asked for.
pub fn preflight_allowed_headers(raw: Option<&str>) -> (r: String)
    ensures
        r@ == allowed_headers_text(base_header_names(), requested_headers(raw.deep_view())),
{
    allowed_headers(&base_headers(), &parse_requested_headers(raw))
}

// ---------------------------------------------------------------------
// Rate limit

/// How long a request waits so that `interval_ms` lie between two
/// requests, where `elapsed_ms` have passed since the last one.
pub fn rate_limit_wait(interval_ms: u64, elapsed_ms: u64) -> (r: u64)
    ensures
        r == if elapsed_ms < interval_ms {
            interval_ms - elapsed_ms
        } else {
            0
        },
{
    if elapsed_ms < interval_ms {
        interval_ms - elapsed_ms
    } else {
        0
    }
}

// ---------------------------------------------------------------------
// Settings

/// The number that a setting states, or the default where it is not set
/// or states none.
pub open spec fn setting_value(raw: Option<Seq<char>>, max: nat, default: nat) -> nat {
    match raw {
        Some(text) => match parse_decimal(text, max) {
            Some(n) => n,
            None => default,
        },
        None => default,
    }
}

pub fn setting_or(raw: Option<&str>, default: u64) -> (r: u64)
    ensures
        r == setting_value(raw.deep_view(), u64::MAX as nat, default as nat),
{
    match raw {
        Some(text) => match parse_decimal_exec(&chars_of(text), u64::MAX) {
            Some(n) => n,
            None => default,
        },
        None => default,
    }
}

/// The time-to-live of cache entries in seconds: `URL_CACHE_TTL_SECONDS`,
/// three days by default.
pub fn get_url_cache_ttl(raw: Option<&str>) -> (r: u64)
    ensures
        r == setting_value(raw.deep_view(), u64::MAX as nat, 259200),
{
    setting_or(raw, crate::cache::DEFAULT_TTL_SECS)
}

/// The budget of the caches in mebibytes: `URL_CACHE_SIZE_MB`, a hundred
/// by default.
pub fn get_url_cache_size_mb(raw: Option<&str>) -> (r: usize)
    ensures
        r == setting_value(raw.deep_view(), usize::MAX as nat, 100),
{
    match raw {
        Some(text) => match parse_decimal_exec(&chars_of(text), usize::MAX as u64) {
            Some(n) => n as usize,
            None => crate::cache::DEFAULT_CACHE_MB,
        },
        None => crate::cache::DEFAULT_CACHE_MB,
    }
}

/// The budget of the caches in bytes, capped at what the machine can
/// count.
pub fn cache_budget_bytes(megabytes: usize) -> (r: usize)
    ensures
        r == if megabytes * 1048576 > usize::MAX {
            usize::MAX as int
        } else {
            megabytes * 1048576
        },
{
    if megabytes > usize::MAX / 1048576 {
        usize::MAX
    } else {
        megabytes * 1048576
    }
}

/// The least interval between two chat requests: `RATE_LIMIT_MS`, a
/// hundred milliseconds by default; none where it is 0.
pub fn get_rate_limit_ms(raw: Option<&str>) -> (r: Option<u64>)
    ensures
        r == if setting_value(raw.deep_view(), u64::MAX as nat, 100) == 0 {
            None
        } else {
            Some(setting_value(raw.deep_view(), u64::MAX as nat, 100) as u64)
        },
{
    let ms = setting_or(raw, 100);
    if ms == 0 {
        None
    } else {
        Some(ms)
    }
}

} // verus!
