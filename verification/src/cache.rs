//! The cache store: the configuration document, and the two caches that
//! map an uploaded file to its CDN URL, by source URL and by payload
//! fingerprint. Entries expire a fixed time after their last use, and the
//! caches share one byte budget.

use crate::ledger::{
    counted, Counted, entry_size, lemma_listed_size_prefix, lemma_listing_total, lemma_total_remove, lemma_total_zero, listed_size,
    stored_text, total_size,
};
use crate::record::{
    format_record, lemma_record_round_trip, parse_record, record_expiry, record_size,
    record_text, record_url,
};
use crate::store::{
    is_listing, open_temporary, open_tree, pair_views, tree_entries, tree_flush, tree_get,
    tree_insert, tree_list, tree_remove,
};
use crate::text::{chars_of, concat, string_of, utf8_str};
use vstd::prelude::*;
use vstd::utf8::encode_utf8;

verus! {

/// Entries live three days after their last use unless configured
/// otherwise.
pub const DEFAULT_TTL_SECS: u64 = 259200;

/// The caches may hold a hundred mebibytes unless configured otherwise.
pub const DEFAULT_CACHE_MB: usize = 100;

/// The cache store. Its trees are reached through this value only.
pub struct CacheStore {
    db: sled::Db,
    config: sled::Tree,
    urls: sled::Tree,
    base64: sled::Tree,
    ttl_secs: u64,
    max_bytes: usize,
    healthy: bool,
}

/// What a cache store holds.
pub struct CacheModel {
    pub config: Map<Seq<u8>, Seq<u8>>,
    pub urls: Map<Seq<u8>, Seq<u8>>,
    pub base64: Map<Seq<u8>, Seq<u8>>,
    pub ttl_secs: u64,
    pub max_bytes: usize,
}

impl View for CacheStore {
    type V = CacheModel;

    closed spec fn view(&self) -> CacheModel {
        CacheModel {
            config: tree_entries(self.config),
            urls: tree_entries(self.urls),
            base64: tree_entries(self.base64),
            ttl_secs: self.ttl_secs,
            max_bytes: self.max_bytes,
        }
    }
}

// ---------------------------------------------------------------------
// Keys, values, lookups

/// The key of a source URL in the URL cache.
pub open spec fn url_key(original_url: Seq<char>) -> Seq<u8> {
    encode_utf8("url:"@ + original_url)
}

/// The key of a payload fingerprint in the fingerprint cache.
pub open spec fn base64_key(hash: Seq<char>) -> Seq<u8> {
    encode_utf8("base64:"@ + hash)
}

/// The key of a configuration document.
pub open spec fn config_key(name: Seq<char>) -> Seq<u8> {
    encode_utf8(name)
}

/// When an entry that is used at `now` expires.
pub open spec fn expiry_from(now: u64, ttl: u64) -> u64 {
    if now + ttl > u64::MAX {
        u64::MAX
    } else {
        (now + ttl) as u64
    }
}

/// The stored value of an entry that is used at `now`.
pub open spec fn record_bytes(now: u64, ttl: u64, url: Seq<char>, size: usize) -> Seq<u8> {
    encode_utf8(record_text(expiry_from(now, ttl), url, size))
}

/// What a tree holds under a key.
pub open spec fn entry_of(m: Map<Seq<u8>, Seq<u8>>, key: Seq<u8>) -> Option<Seq<u8>> {
    if m.contains_key(key) {
        Some(m[key])
    } else {
        None
    }
}

/// The outcome of a lookup.
#[derive(Debug)]
pub enum Lookup {
    /// No entry, or none that can be read.
    Miss,
    /// An entry whose time is over.
    Expired,
    /// A live entry.
    Hit { url: String, size: usize },
}

pub enum LookupModel {
    Miss,
    Expired,
    Hit { url: Seq<char>, size: usize },
}

impl DeepView for Lookup {
    type V = LookupModel;

    open spec fn deep_view(&self) -> LookupModel {
        match self {
            Lookup::Miss => LookupModel::Miss,
            Lookup::Expired => LookupModel::Expired,
            Lookup::Hit { url, size } => LookupModel::Hit { url: url@, size: *size },
        }
    }
}

/// What a lookup at `now` makes of an entry: a record whose expiry lies
/// after `now` is a hit where its size can be read; a record whose expiry
/// has come is expired; anything else is a miss.
pub open spec fn lookup(entry: Option<Seq<u8>>, now: u64) -> LookupModel {
    match entry {
        Some(bytes) => match stored_text(bytes) {
            Some(text) => match record_expiry(text) {
                Some(expires) => if expires > now {
                    match record_size(text) {
                        Some(size) => LookupModel::Hit { url: record_url(text), size },
                        None => LookupModel::Miss,
                    }
                } else {
                    LookupModel::Expired
                },
                None => LookupModel::Miss,
            },
            None => LookupModel::Miss,
        },
        None => LookupModel::Miss,
    }
}

pub open spec fn bytes_view(found: Option<Vec<u8>>) -> Option<Seq<u8>> {
    match found {
        Some(v) => Some(v@),
        None => None,
    }
}

/// Decides a lookup for what the store returned.
pub fn decide_lookup(found: &Option<Vec<u8>>, now: u64) -> (r: Lookup)
    ensures
        r.deep_view() == lookup(bytes_view(*found), now),
{
    match found {
        Some(bytes) => match utf8_str(bytes.as_slice()) {
            Some(text) => match parse_record(&chars_of(text)) {
                Some(rec) => match rec.expires {
                    Some(expires) => if expires > now {
                        match rec.size {
                            Some(size) => Lookup::Hit { url: string_of(&rec.url), size },
                            None => Lookup::Miss,
                        }
                    } else {
                        Lookup::Expired
                    },
                    None => Lookup::Miss,
                },
                None => Lookup::Miss,
            },
            None => Lookup::Miss,
        },
        None => Lookup::Miss,
    }
}

/// Expiry and size of a stored value that counts towards the budget.
pub fn count_entry(value: &Vec<u8>) -> (r: Option<Counted>)
    ensures
        r == counted(value@),
{
    match utf8_str(value.as_slice()) {
        Some(text) => match parse_record(&chars_of(text)) {
            Some(rec) => match rec.expires {
                Some(e) => match rec.size {
                    Some(s) => Some(Counted { expires: e, size: s }),
                    None => None,
                },
                None => None,
            },
            None => None,
        },
        None => None,
    }
}

// ---------------------------------------------------------------------
// The budget

/// The key was evicted from the tree.
pub open spec fn evicted_from(m0: Map<Seq<u8>, Seq<u8>>, m: Map<Seq<u8>, Seq<u8>>, k: Seq<u8>) -> bool {
    m0.contains_key(k) && !m.contains_key(k)
}

/// The key stayed in the tree, and its entry counts.
pub open spec fn kept_counted(m: Map<Seq<u8>, Seq<u8>>, k: Seq<u8>) -> bool {
    m.contains_key(k) && counted(m[k]) is Some
}

/// Whatever was evicted from the first tree counted, and expired no later
/// than any entry that was kept in the tree `other`.
pub open spec fn evicts_oldest(
    m0: Map<Seq<u8>, Seq<u8>>,
    m: Map<Seq<u8>, Seq<u8>>,
    other: Map<Seq<u8>, Seq<u8>>,
) -> bool {
    &&& forall|k: Seq<u8>| #[trigger] evicted_from(m0, m, k) ==> counted(m0[k]) is Some
    &&& forall|k: Seq<u8>, k2: Seq<u8>|
        #[trigger] evicted_from(m0, m, k) && #[trigger] kept_counted(other, k2) ==> counted(
            m0[k],
        )->0.expires <= counted(other[k2])->0.expires
}

/// What the caches may weigh after an eviction: nine tenths of the
/// budget.
pub open spec fn eviction_target(max_bytes: usize) -> int {
    9 * max_bytes / 10
}

/// The key was evicted from the tree, and with its entry back the caches
/// would weigh more than `target`.
pub open spec fn last_straw(
    m0: Map<Seq<u8>, Seq<u8>>,
    m: Map<Seq<u8>, Seq<u8>>,
    k: Seq<u8>,
    total_after: nat,
    target: int,
) -> bool {
    evicted_from(m0, m, k) && total_after + entry_size(m0[k]) > target
}

/// The two caches after size maintenance: untouched where they are within
/// the budget; else entries were evicted, oldest expiry first, until a
/// tenth of the budget is free, and no longer than that.
pub open spec fn maintained(
    urls0: Map<Seq<u8>, Seq<u8>>,
    base0: Map<Seq<u8>, Seq<u8>>,
    urls1: Map<Seq<u8>, Seq<u8>>,
    base1: Map<Seq<u8>, Seq<u8>>,
    max_bytes: usize,
) -> bool {
    if total_size(urls0) + total_size(base0) <= max_bytes {
        urls1 == urls0 && base1 == base0
    } else {
        &&& urls1.submap_of(urls0)
        &&& base1.submap_of(base0)
        &&& total_size(urls1) + total_size(base1) <= eviction_target(max_bytes)
        &&& evicts_oldest(urls0, urls1, urls1)
        &&& evicts_oldest(urls0, urls1, base1)
        &&& evicts_oldest(base0, base1, urls1)
        &&& evicts_oldest(base0, base1, base1)
        &&& {
            let after = total_size(urls1) + total_size(base1);
            let target = eviction_target(max_bytes);
            (exists|k: Seq<u8>| #[trigger] last_straw(urls0, urls1, k, after, target)) || (exists|
                k: Seq<u8>,
            | #[trigger] last_straw(base0, base1, k, after, target))
        }
    }
}

/// An entry that can still be evicted: it counts and is not gone.
pub open spec fn is_candidate(info: Seq<Option<Counted>>, gone: Seq<bool>, i: int) -> bool {
    0 <= i < info.len() && i < gone.len() && !gone[i] && info[i] is Some
}

/// Every entry that is gone from the first list expired no later than any
/// candidate of the second.
pub open spec fn settled(
    info_a: Seq<Option<Counted>>,
    gone_a: Seq<bool>,
    info_b: Seq<Option<Counted>>,
    gone_b: Seq<bool>,
) -> bool {
    forall|i: int, j: int|
        0 <= i < info_a.len() && i < gone_a.len() && #[trigger] gone_a[i] && #[trigger] is_candidate(
            info_b,
            gone_b,
            j,
        ) ==> info_a[i] is Some && info_a[i]->0.expires <= info_b[j]->0.expires
}

/// The tree `m` is the listed tree `m0` without the entries that are
/// marked as gone.
pub open spec fn tracks(
    entries: Seq<(Seq<u8>, Seq<u8>)>,
    info: Seq<Option<Counted>>,
    gone: Seq<bool>,
    m0: Map<Seq<u8>, Seq<u8>>,
    m: Map<Seq<u8>, Seq<u8>>,
) -> bool {
    &&& gone.len() == entries.len()
    &&& info.len() == entries.len()
    &&& is_listing(entries, m0)
    &&& m.submap_of(m0)
    &&& m.dom().finite()
    &&& forall|i: int|
        0 <= i < entries.len() ==> (m.contains_key((#[trigger] entries[i]).0) <==> !gone[i])
    &&& forall|i: int| 0 <= i < entries.len() ==> #[trigger] info[i] == counted(entries[i].1)
    &&& forall|i: int| 0 <= i < entries.len() && #[trigger] gone[i] ==> info[i] is Some
}

proof fn lemma_settled_evicts(
    entries_a: Seq<(Seq<u8>, Seq<u8>)>,
    info_a: Seq<Option<Counted>>,
    gone_a: Seq<bool>,
    a0: Map<Seq<u8>, Seq<u8>>,
    a: Map<Seq<u8>, Seq<u8>>,
    entries_b: Seq<(Seq<u8>, Seq<u8>)>,
    info_b: Seq<Option<Counted>>,
    gone_b: Seq<bool>,
    b0: Map<Seq<u8>, Seq<u8>>,
    b: Map<Seq<u8>, Seq<u8>>,
)
    requires
        tracks(entries_a, info_a, gone_a, a0, a),
        tracks(entries_b, info_b, gone_b, b0, b),
        settled(info_a, gone_a, info_b, gone_b),
    ensures
        evicts_oldest(a0, a, b),
{
    assert forall|k: Seq<u8>| #[trigger] evicted_from(a0, a, k) implies counted(a0[k]) is Some by {
        let i = choose|i: int| 0 <= i < entries_a.len() && (#[trigger] entries_a[i]).0 == k;
        assert(gone_a[i]);
        assert(info_a[i] == counted(entries_a[i].1));
    }
    assert forall|k: Seq<u8>, k2: Seq<u8>|
        #[trigger] evicted_from(a0, a, k) && #[trigger] kept_counted(b, k2) implies counted(
        a0[k],
    )->0.expires <= counted(b[k2])->0.expires by {
        let i = choose|i: int| 0 <= i < entries_a.len() && (#[trigger] entries_a[i]).0 == k;
        assert(gone_a[i]);
        assert(info_a[i] == counted(entries_a[i].1));
        assert(b0.contains_key(k2));
        let j = choose|j: int| 0 <= j < entries_b.len() && (#[trigger] entries_b[j]).0 == k2;
        assert(!gone_b[j]);
        assert(info_b[j] == counted(entries_b[j].1));
        assert(b[k2] == b0[k2]);
        assert(is_candidate(info_b, gone_b, j));
    }
}

/// How many entries are not gone.
pub open spec fn live(gone: Seq<bool>) -> nat
    decreases gone.len(),
{
    if gone.len() == 0 {
        0
    } else {
        live(gone.drop_last()) + if gone.last() {
            0nat
        } else {
            1
        }
    }
}

proof fn lemma_live_update(gone: Seq<bool>, p: int)
    requires
        0 <= p < gone.len(),
        !gone[p],
    ensures
        live(gone.update(p, true)) + 1 == live(gone),
    decreases gone.len(),
{
    let after = gone.update(p, true);
    if p == gone.len() - 1 {
        assert(after.drop_last() =~= gone.drop_last());
    } else {
        assert(after.drop_last() =~= gone.drop_last().update(p, true));
        lemma_live_update(gone.drop_last(), p);
    }
}

/// Reads what the listed entries count for, and what they weigh together.
/// Nothing exactly where the weight exceeds what the machine can add up.
fn survey(entries: &Vec<(Vec<u8>, Vec<u8>)>) -> (r: Option<(Vec<Option<Counted>>, u128)>)
    ensures
        r is Some <==> listed_size(pair_views(entries@)) <= u128::MAX,
        r matches Some(found) ==> found.0.len() == entries.len() && found.1 == listed_size(
            pair_views(entries@),
        ) && forall|i: int|
            0 <= i < entries.len() ==> #[trigger] found.0@[i] == counted(entries@[i].1@),
{
    let mut info: Vec<Option<Counted>> = Vec::new();
    let mut total: u128 = 0;
    let mut i: usize = 0;
    assert(pair_views(entries@).take(0) =~= Seq::empty());
    while i < entries.len()
        invariant
            i <= entries.len(),
            info.len() == i,
            total == listed_size(pair_views(entries@).take(i as int)),
            forall|k: int| 0 <= k < i ==> #[trigger] info@[k] == counted(entries@[k].1@),
        decreases entries.len() - i,
    {
        let c = count_entry(&entries[i].1);
        let size: u128 = match c {
            Some(found) => found.size as u128,
            None => 0,
        };
        assert(pair_views(entries@).take(i + 1).drop_last() =~= pair_views(entries@).take(i as int));
        assert(pair_views(entries@).take(i + 1).last().1 == entries@[i as int].1@);
        if total > u128::MAX - size {
            proof {
                lemma_listed_size_prefix(pair_views(entries@), i + 1);
            }
            return None;
        }
        total = total + size;
        info.push(c);
        i += 1;
    }
    assert(pair_views(entries@).take(entries.len() as int) =~= pair_views(entries@));
    Some((info, total))
}

/// The candidate with the earliest expiry, in which list and where.
fn pick_oldest(
    info_u: &Vec<Option<Counted>>,
    gone_u: &Vec<bool>,
    info_b: &Vec<Option<Counted>>,
    gone_b: &Vec<bool>,
) -> (r: Option<(bool, usize)>)
    requires
        info_u.len() == gone_u.len(),
        info_b.len() == gone_b.len(),
    ensures
        match r {
            Some(pick) => {
                let e = if pick.0 {
                    info_u@[pick.1 as int]->0.expires
                } else {
                    info_b@[pick.1 as int]->0.expires
                };
                &&& (if pick.0 {
                    is_candidate(info_u@, gone_u@, pick.1 as int)
                } else {
                    is_candidate(info_b@, gone_b@, pick.1 as int)
                })
                &&& forall|j: int| #[trigger] is_candidate(info_u@, gone_u@, j) ==> e <= info_u@[j]->0.expires
                &&& forall|j: int| #[trigger] is_candidate(info_b@, gone_b@, j) ==> e <= info_b@[j]->0.expires
            },
            None => (forall|j: int| !#[trigger] is_candidate(info_u@, gone_u@, j)) && (forall|j: int|
                !#[trigger] is_candidate(info_b@, gone_b@, j)),
        },
{
    let mut best: Option<(bool, usize)> = None;
    let mut best_expiry: u64 = 0;
    let mut i: usize = 0;
    while i < info_u.len()
        invariant
            i <= info_u.len(),
            info_u.len() == gone_u.len(),
            match best {
                Some(pick) => pick.0 && is_candidate(info_u@, gone_u@, pick.1 as int)
                    && best_expiry == info_u@[pick.1 as int]->0.expires,
                None => true,
            },
            forall|j: int|
                0 <= j < i && #[trigger] is_candidate(info_u@, gone_u@, j) ==> best is Some
                    && best_expiry <= info_u@[j]->0.expires,
        decreases info_u.len() - i,
    {
        if !gone_u[i] {
            match info_u[i] {
                Some(c) => {
                    if best.is_none() || c.expires < best_expiry {
                        best = Some((true, i));
                        best_expiry = c.expires;
                    }
                },
                None => {},
            }
        }
        i += 1;
    }
    let mut k: usize = 0;
    while k < info_b.len()
        invariant
            k <= info_b.len(),
            info_b.len() == gone_b.len(),
            info_u.len() == gone_u.len(),
            match best {
                Some(pick) => (if pick.0 {
                    is_candidate(info_u@, gone_u@, pick.1 as int) && best_expiry
                        == info_u@[pick.1 as int]->0.expires
                } else {
                    is_candidate(info_b@, gone_b@, pick.1 as int) && best_expiry
                        == info_b@[pick.1 as int]->0.expires
                }),
                None => true,
            },
            forall|j: int|
                #[trigger] is_candidate(info_u@, gone_u@, j) ==> best is Some && best_expiry
                    <= info_u@[j]->0.expires,
            forall|j: int|
                0 <= j < k && #[trigger] is_candidate(info_b@, gone_b@, j) ==> best is Some
                    && best_expiry <= info_b@[j]->0.expires,
        decreases info_b.len() - k,
    {
        if !gone_b[k] {
            match info_b[k] {
                Some(c) => {
                    if best.is_none() || c.expires < best_expiry {
                        best = Some((false, k));
                        best_expiry = c.expires;
                    }
                },
                None => {},
            }
        }
        k += 1;
    }
    best
}

fn all_false(n: usize) -> (r: Vec<bool>)
    ensures
        r.len() == n,
        forall|i: int| 0 <= i < n ==> !#[trigger] r@[i],
{
    let mut r: Vec<bool> = Vec::new();
    while r.len() < n
        invariant
            r.len() <= n,
            forall|i: int| 0 <= i < r.len() ==> !#[trigger] r@[i],
        decreases n - r.len(),
    {
        r.push(false);
    }
    r
}

/// Size maintenance: where the two caches together exceed `max_bytes`,
/// entries are evicted, earliest expiry first, until a tenth of the budget
/// is free. Returns whether the store did its part; where it did not,
/// nothing is known of caches that were over their budget. Caches within
/// their budget are left as they are, whatever the store does.
fn check_and_control_cache_size(urls: &mut sled::Tree, base64: &mut sled::Tree, max_bytes: usize) -> (ok:
    bool)
    ensures
        total_size(tree_entries(*old(urls))) + total_size(tree_entries(*old(base64))) <= max_bytes
            ==> tree_entries(*final(urls)) == tree_entries(*old(urls)) && tree_entries(
            *final(base64),
        ) == tree_entries(*old(base64)),
        ok ==> maintained(
            tree_entries(*old(urls)),
            tree_entries(*old(base64)),
            tree_entries(*final(urls)),
            tree_entries(*final(base64)),
            max_bytes,
        ),
{
    let ghost u0 = tree_entries(*urls);
    let ghost b0 = tree_entries(*base64);
    let list_u = match tree_list(urls) {
        Ok(l) => l,
        Err(_) => {
            return false;
        },
    };
    let list_b = match tree_list(base64) {
        Ok(l) => l,
        Err(_) => {
            return false;
        },
    };
    let ghost eu = pair_views(list_u@);
    let ghost eb = pair_views(list_b@);
    proof {
        lemma_listing_total(eu, u0);
        lemma_listing_total(eb, b0);
    }
    let (info_u, total_u) = match survey(&list_u) {
        Some(s) => s,
        None => {
            return false;
        },
    };
    let (info_b, total_b) = match survey(&list_b) {
        Some(s) => s,
        None => {
            return false;
        },
    };
    if total_u > u128::MAX - total_b {
        return false;
    }
    let total: u128 = total_u + total_b;
    if total <= max_bytes as u128 {
        return true;
    }
    let target: u128 = 9 * (max_bytes as u128) / 10;
    let mut left: u128 = total - target;
    let ghost goal: int = left as int;
    let mut gone_u = all_false(list_u.len());
    let mut gone_b = all_false(list_b.len());
    let ghost mut freed: int = 0;
    let ghost mut last_in_urls: bool = true;
    let ghost mut last_index: int = -1;
    assert(u0.submap_of(u0));
    assert(b0.submap_of(b0));
    while left > 0
        invariant
            u0 == tree_entries(*old(urls)),
            b0 == tree_entries(*old(base64)),
            eu == pair_views(list_u@),
            eb == pair_views(list_b@),
            tracks(eu, info_u@, gone_u@, u0, tree_entries(*urls)),
            tracks(eb, info_b@, gone_b@, b0, tree_entries(*base64)),
            settled(info_u@, gone_u@, info_u@, gone_u@),
            settled(info_u@, gone_u@, info_b@, gone_b@),
            settled(info_b@, gone_b@, info_u@, gone_u@),
            settled(info_b@, gone_b@, info_b@, gone_b@),
            total_size(tree_entries(*urls)) + total_size(tree_entries(*base64)) + freed == total,
            total == total_size(u0) + total_size(b0),
            total > max_bytes,
            goal == total - eviction_target(max_bytes),
            0 <= freed,
            left == (if goal - freed > 0 {
                goal - freed
            } else {
                0
            }),
            last_index < 0 ==> freed == 0,
            last_index >= 0 ==> (if last_in_urls {
                last_index < eu.len() && gone_u@[last_index] && freed
                    - info_u@[last_index]->0.size < goal
            } else {
                last_index < eb.len() && gone_b@[last_index] && freed
                    - info_b@[last_index]->0.size < goal
            }),
        ensures
            total_size(tree_entries(*urls)) + total_size(tree_entries(*base64)) + freed == total,
            last_index >= 0,
            if last_in_urls {
                last_index < eu.len() && gone_u@[last_index] && freed
                    - info_u@[last_index]->0.size < goal
            } else {
                last_index < eb.len() && gone_b@[last_index] && freed
                    - info_b@[last_index]->0.size < goal
            },
            tracks(eu, info_u@, gone_u@, u0, tree_entries(*urls)),
            tracks(eb, info_b@, gone_b@, b0, tree_entries(*base64)),
            settled(info_u@, gone_u@, info_u@, gone_u@),
            settled(info_u@, gone_u@, info_b@, gone_b@),
            settled(info_b@, gone_b@, info_u@, gone_u@),
            settled(info_b@, gone_b@, info_b@, gone_b@),
            total_size(tree_entries(*urls)) + total_size(tree_entries(*base64)) <= eviction_target(
                max_bytes,
            ),
        decreases live(gone_u@) + live(gone_b@),
    {
        let ghost u = tree_entries(*urls);
        let ghost b = tree_entries(*base64);
        match pick_oldest(&info_u, &gone_u, &info_b, &gone_b) {
            None => {
                proof {
                    assert forall|k: Seq<u8>| u.contains_key(k) implies entry_size(#[trigger] u[k])
                        == 0 by {
                        assert(u0.contains_key(k));
                        let i = choose|i: int| 0 <= i < eu.len() && (#[trigger] eu[i]).0 == k;
                        assert(!is_candidate(info_u@, gone_u@, i));
                        assert(info_u@[i] == counted(eu[i].1));
                    }
                    assert forall|k: Seq<u8>| b.contains_key(k) implies entry_size(#[trigger] b[k])
                        == 0 by {
                        assert(b0.contains_key(k));
                        let i = choose|i: int| 0 <= i < eb.len() && (#[trigger] eb[i]).0 == k;
                        assert(!is_candidate(info_b@, gone_b@, i));
                        assert(info_b@[i] == counted(eb[i].1));
                    }
                    lemma_total_zero(u);
                    lemma_total_zero(b);
                }
                break ;
            },
            Some(pick) => {
                let in_urls = pick.0;
                let p = pick.1;
                if in_urls {
                    let size = match info_u[p] {
                        Some(c) => c.size,
                        None => 0,
                    };
                    assert(eu[p as int] == (list_u@[p as int].0@, list_u@[p as int].1@));
                    match tree_remove(urls, list_u[p].0.as_slice()) {
                        Ok(_) => {},
                        Err(_) => {
                            return false;
                        },
                    }
                    proof {
                        let key = eu[p as int].0;
                        assert(u.contains_key(key));
                        assert(u[key] == u0[key]);
                        lemma_total_remove(u, key);
                        assert(info_u@[p as int] == counted(eu[p as int].1));
                        freed = freed + size;
                        last_in_urls = true;
                        last_index = p as int;
                    }
                    let ghost old_gone = gone_u@;
                    gone_u.set(p, true);
                    proof {
                        lemma_live_update(old_gone, p as int);
                        let u1 = tree_entries(*urls);
                        assert(u1.dom() =~= u.dom().remove(eu[p as int].0));
                        assert forall|i: int| 0 <= i < eu.len() implies (u1.contains_key(
                            (#[trigger] eu[i]).0,
                        ) <==> !gone_u@[i]) by {
                            if i != p {
                                if i < p {
                                    assert(eu[i].0 != eu[p as int].0);
                                } else {
                                    assert(eu[p as int].0 != eu[i].0);
                                }
                                assert(u.contains_key(eu[i].0) <==> !old_gone[i]);
                            }
                        }
                        assert forall|i: int, j: int|
                            0 <= i < info_u@.len() && i < gone_u@.len() && #[trigger] gone_u@[i]
                                && #[trigger] is_candidate(
                                info_u@,
                                gone_u@,
                                j,
                            ) implies info_u@[i] is Some && info_u@[i]->0.expires <= info_u@[j]->0.expires by {
                            assert(is_candidate(info_u@, old_gone, j));
                            if i != p {
                                assert(old_gone[i]);
                            }
                        }
                        assert forall|i: int, j: int|
                            0 <= i < info_u@.len() && i < gone_u@.len() && #[trigger] gone_u@[i]
                                && #[trigger] is_candidate(
                                info_b@,
                                gone_b@,
                                j,
                            ) implies info_u@[i] is Some && info_u@[i]->0.expires <= info_b@[j]->0.expires by {
                            if i != p {
                                assert(old_gone[i]);
                            }
                        }
                        assert forall|i: int, j: int|
                            0 <= i < info_b@.len() && i < gone_b@.len() && #[trigger] gone_b@[i]
                                && #[trigger] is_candidate(
                                info_u@,
                                gone_u@,
                                j,
                            ) implies info_b@[i] is Some && info_b@[i]->0.expires <= info_u@[j]->0.expires by {
                            assert(is_candidate(info_u@, old_gone, j));
                        }
                    }
                    left = if left > size as u128 {
                        left - size as u128
                    } else {
                        0
                    };
                } else {
                    let size = match info_b[p] {
                        Some(c) => c.size,
                        None => 0,
                    };
                    assert(eb[p as int] == (list_b@[p as int].0@, list_b@[p as int].1@));
                    match tree_remove(base64, list_b[p].0.as_slice()) {
                        Ok(_) => {},
                        Err(_) => {
                            return false;
                        },
                    }
                    proof {
                        let key = eb[p as int].0;
                        assert(b.contains_key(key));
                        assert(b[key] == b0[key]);
                        lemma_total_remove(b, key);
                        assert(info_b@[p as int] == counted(eb[p as int].1));
                        freed = freed + size;
                        last_in_urls = false;
                        last_index = p as int;
                    }
                    let ghost old_gone = gone_b@;
                    gone_b.set(p, true);
                    proof {
                        lemma_live_update(old_gone, p as int);
                        let b1 = tree_entries(*base64);
                        assert(b1.dom() =~= b.dom().remove(eb[p as int].0));
                        assert forall|i: int| 0 <= i < eb.len() implies (b1.contains_key(
                            (#[trigger] eb[i]).0,
                        ) <==> !gone_b@[i]) by {
                            if i != p {
                                if i < p {
                                    assert(eb[i].0 != eb[p as int].0);
                                } else {
                                    assert(eb[p as int].0 != eb[i].0);
                                }
                                assert(b.contains_key(eb[i].0) <==> !old_gone[i]);
                            }
                        }
                        assert forall|i: int, j: int|
                            0 <= i < info_b@.len() && i < gone_b@.len() && #[trigger] gone_b@[i]
                                && #[trigger] is_candidate(
                                info_b@,
                                gone_b@,
                                j,
                            ) implies info_b@[i] is Some && info_b@[i]->0.expires <= info_b@[j]->0.expires by {
                            assert(is_candidate(info_b@, old_gone, j));
                            if i != p {
                                assert(old_gone[i]);
                            }
                        }
                        assert forall|i: int, j: int|
                            0 <= i < info_b@.len() && i < gone_b@.len() && #[trigger] gone_b@[i]
                                && #[trigger] is_candidate(
                                info_u@,
                                gone_u@,
                                j,
                            ) implies info_b@[i] is Some && info_b@[i]->0.expires <= info_u@[j]->0.expires by {
                            if i != p {
                                assert(old_gone[i]);
                            }
                        }
                        assert forall|i: int, j: int|
                            0 <= i < info_u@.len() && i < gone_u@.len() && #[trigger] gone_u@[i]
                                && #[trigger] is_candidate(
                                info_b@,
                                gone_b@,
                                j,
                            ) implies info_u@[i] is Some && info_u@[i]->0.expires <= info_b@[j]->0.expires by {
                            assert(is_candidate(info_b@, old_gone, j));
                        }
                    }
                    left = if left > size as u128 {
                        left - size as u128
                    } else {
                        0
                    };
                }
            },
        }
    }
    proof {
        let u1 = tree_entries(*urls);
        let b1 = tree_entries(*base64);
        lemma_settled_evicts(eu, info_u@, gone_u@, u0, u1, eu, info_u@, gone_u@, u0, u1);
        lemma_settled_evicts(eu, info_u@, gone_u@, u0, u1, eb, info_b@, gone_b@, b0, b1);
        lemma_settled_evicts(eb, info_b@, gone_b@, b0, b1, eu, info_u@, gone_u@, u0, u1);
        lemma_settled_evicts(eb, info_b@, gone_b@, b0, b1, eb, info_b@, gone_b@, b0, b1);
        let after = total_size(u1) + total_size(b1);
        let target = eviction_target(max_bytes);
        if last_in_urls {
            let key = eu[last_index].0;
            assert(u0.contains_key(key) && u0[key] == eu[last_index].1);
            assert(info_u@[last_index] == counted(eu[last_index].1));
            assert(last_straw(u0, u1, key, after, target));
        } else {
            let key = eb[last_index].0;
            assert(b0.contains_key(key) && b0[key] == eb[last_index].1);
            assert(info_b@[last_index] == counted(eb[last_index].1));
            assert(last_straw(b0, b1, key, after, target));
        }
    }
    true
}

// ---------------------------------------------------------------------
// The store

/// The store could not do its part.
#[derive(Debug, Clone, Copy, PartialEq, Eq, Structural)]
pub enum CacheError {
    Storage,
}

/// A cache after `value` was put under `key` and the size was maintained.
pub open spec fn put_in_urls(before: CacheModel, after: CacheModel, key: Seq<u8>, value: Seq<u8>) -> bool {
    &&& after.config == before.config
    &&& after.ttl_secs == before.ttl_secs
    &&& after.max_bytes == before.max_bytes
    &&& maintained(
        before.urls.insert(key, value),
        before.base64,
        after.urls,
        after.base64,
        before.max_bytes,
    )
}

/// A cache after `value` was put under `key` and the size was maintained.
pub open spec fn put_in_base64(before: CacheModel, after: CacheModel, key: Seq<u8>, value: Seq<u8>) -> bool {
    &&& after.config == before.config
    &&& after.ttl_secs == before.ttl_secs
    &&& after.max_bytes == before.max_bytes
    &&& maintained(
        before.urls,
        before.base64.insert(key, value),
        after.urls,
        after.base64,
        before.max_bytes,
    )
}

/// What the caches weigh together.
pub open spec fn cache_total(c: CacheModel) -> nat {
    total_size(c.urls) + total_size(c.base64)
}

fn expiry(now_secs: u64, ttl_secs: u64) -> (r: u64)
    ensures
        r == expiry_from(now_secs, ttl_secs),
{
    if now_secs > u64::MAX - ttl_secs {
        u64::MAX
    } else {
        now_secs + ttl_secs
    }
}

impl CacheStore {
    /// Whether the store did its part in the last operation. Where it did
    /// not, the operation's contract says nothing of the caches.
    pub closed spec fn storage_ok(&self) -> bool {
        self.healthy
    }

    pub fn healthy(&self) -> (r: bool)
        ensures
            r == self.storage_ok(),
    {
        self.healthy
    }

    /// How long an entry lives after its last use, in seconds.
    pub fn ttl_secs(&self) -> (r: u64)
        ensures
            r == self@.ttl_secs,
    {
        self.ttl_secs
    }

    /// The byte budget of the two caches.
    pub fn max_bytes(&self) -> (r: usize)
        ensures
            r == self@.max_bytes,
    {
        self.max_bytes
    }

    /// The store over a database and what opening its three trees gave: a
    /// store that holds the trees where all three were opened, and nothing
    /// otherwise. The trees are to be three different trees, each reached
    /// through this handle only, as `open` hands them over; hence the
    /// function is not public.
    pub(crate) fn with_trees(
        db: sled::Db,
        config: Result<sled::Tree, sled::Error>,
        urls: Result<sled::Tree, sled::Error>,
        base64: Result<sled::Tree, sled::Error>,
        ttl_secs: u64,
        max_bytes: usize,
    ) -> (r: Option<CacheStore>)
        ensures
            r is Some <==> config is Ok && urls is Ok && base64 is Ok,
            r matches Some(store) ==> store.storage_ok() && store@ == (CacheModel {
                config: tree_entries(config->Ok_0),
                urls: tree_entries(urls->Ok_0),
                base64: tree_entries(base64->Ok_0),
                ttl_secs,
                max_bytes,
            }),
    {
        match config {
            Ok(config) => match urls {
                Ok(urls) => match base64 {
                    Ok(base64) => Some(
                        CacheStore { db, config, urls, base64, ttl_secs, max_bytes, healthy: true },
                    ),
                    Err(_) => None,
                },
                Err(_) => None,
            },
            Err(_) => None,
        }
    }

    /// Opens a store of its own, which lives as long as the value. Nothing
    /// where the storage cannot be opened.
    pub fn open(ttl_secs: u64, max_bytes: usize) -> (r: Option<CacheStore>)
        ensures
            r matches Some(store) ==> store@.ttl_secs == ttl_secs && store@.max_bytes == max_bytes
                && store.storage_ok(),
    {
        match open_temporary() {
            Ok(db) => {
                let config = open_tree(&db, "config");
                let urls = open_tree(&db, "urls");
                let base64 = open_tree(&db, "base64");
                CacheStore::with_trees(db, config, urls, base64, ttl_secs, max_bytes)
            },
            Err(_) => None,
        }
    }
}

/// What a read of the store gave, as the library reports it: the document
/// that was found, if any, or the failure of the storage.
pub fn stored_document(read: Result<Option<Vec<u8>>, sled::Error>) -> (r: Result<
    Option<Vec<u8>>,
    CacheError,
>)
    ensures
        match read {
            Ok(found) => r == Ok::<Option<Vec<u8>>, CacheError>(found),
            Err(_) => r == Err::<Option<Vec<u8>>, CacheError>(CacheError::Storage),
        },
{
    match read {
        Ok(found) => Ok(found),
        Err(_) => Err(CacheError::Storage),
    }
}

/// Stores a configuration document under `key`.
pub fn save_config_sled(store: &mut CacheStore, key: &str, document: &[u8]) -> (r: Result<
    (),
    CacheError,
>)
    ensures
        final(store)@.urls == old(store)@.urls,
        final(store)@.base64 == old(store)@.base64,
        final(store)@.ttl_secs == old(store)@.ttl_secs,
        final(store)@.max_bytes == old(store)@.max_bytes,
        r is Ok ==> final(store)@ == (CacheModel {
            config: old(store)@.config.insert(config_key(key@), document@),
            ..old(store)@
        }),
        final(store).storage_ok() == (r is Ok),
{
    match tree_insert(&mut store.config, key.as_bytes(), document) {
        Ok(_) => {
            tree_flush(&store.config);
            store.healthy = true;
            Ok(())
        },
        Err(_) => {
            store.healthy = false;
            Err(CacheError::Storage)
        },
    }
}

/// The configuration document under `key`, if there is one.
pub fn load_config_sled(store: &CacheStore, key: &str) -> (r: Result<Option<Vec<u8>>, CacheError>)
    ensures
        r matches Ok(found) ==> bytes_view(found) == entry_of(store@.config, config_key(key@)),
{
    stored_document(tree_get(&store.config, key.as_bytes()))
}

/// Removes the configuration document under `key`.
pub fn remove_config_sled(store: &mut CacheStore, key: &str)
    ensures
        final(store)@.urls == old(store)@.urls,
        final(store)@.base64 == old(store)@.base64,
        final(store)@.ttl_secs == old(store)@.ttl_secs,
        final(store)@.max_bytes == old(store)@.max_bytes,
        final(store).storage_ok() ==> final(store)@ == (CacheModel {
            config: old(store)@.config.remove(config_key(key@)),
            ..old(store)@
        }),
{
    match tree_remove(&mut store.config, key.as_bytes()) {
        Ok(_) => {
            tree_flush(&store.config);
            store.healthy = true;
        },
        Err(_) => {
            store.healthy = false;
        },
    }
}

/// Caches the CDN URL of an uploaded source URL. The entry expires one
/// time-to-live after `now_secs`; then the size is maintained.
pub fn cache_url(
    store: &mut CacheStore,
    original_url: &str,
    poe_url: &str,
    size_bytes: usize,
    now_secs: u64,
)
    ensures
        final(store)@.config == old(store)@.config,
        final(store)@.ttl_secs == old(store)@.ttl_secs,
        final(store)@.max_bytes == old(store)@.max_bytes,
        final(store).storage_ok() ==> put_in_urls(
            old(store)@,
            final(store)@,
            url_key(original_url@),
            record_bytes(now_secs, old(store)@.ttl_secs, poe_url@, size_bytes),
        ),
{
    let key = concat("url:", original_url);
    let value = string_of(
        &format_record(expiry(now_secs, store.ttl_secs), &chars_of(poe_url), size_bytes),
    );
    match tree_insert(&mut store.urls, key.as_str().as_bytes(), value.as_str().as_bytes()) {
        Ok(_) => {},
        Err(_) => {
            store.healthy = false;
            return ;
        },
    }
    tree_flush(&store.urls);
    store.healthy = check_and_control_cache_size(&mut store.urls, &mut store.base64, store.max_bytes);
}

/// Caches the CDN URL of an uploaded payload under its fingerprint. The
/// entry expires one time-to-live after `now_secs`; then the size is
/// maintained.
pub fn cache_base64(store: &mut CacheStore, hash: &str, poe_url: &str, size_bytes: usize, now_secs: u64)
    ensures
        final(store)@.config == old(store)@.config,
        final(store)@.ttl_secs == old(store)@.ttl_secs,
        final(store)@.max_bytes == old(store)@.max_bytes,
        final(store).storage_ok() ==> put_in_base64(
            old(store)@,
            final(store)@,
            base64_key(hash@),
            record_bytes(now_secs, old(store)@.ttl_secs, poe_url@, size_bytes),
        ),
{
    let key = concat("base64:", hash);
    let value = string_of(
        &format_record(expiry(now_secs, store.ttl_secs), &chars_of(poe_url), size_bytes),
    );
    match tree_insert(&mut store.base64, key.as_str().as_bytes(), value.as_str().as_bytes()) {
        Ok(_) => {},
        Err(_) => {
            store.healthy = false;
            return ;
        },
    }
    tree_flush(&store.base64);
    store.healthy = check_and_control_cache_size(&mut store.urls, &mut store.base64, store.max_bytes);
}

/// Renews the entry of a source URL.
pub fn refresh_url_cache_ttl(
    store: &mut CacheStore,
    original_url: &str,
    poe_url: &str,
    size_bytes: usize,
    now_secs: u64,
)
    ensures
        final(store)@.config == old(store)@.config,
        final(store)@.ttl_secs == old(store)@.ttl_secs,
        final(store)@.max_bytes == old(store)@.max_bytes,
        final(store).storage_ok() ==> put_in_urls(
            old(store)@,
            final(store)@,
            url_key(original_url@),
            record_bytes(now_secs, old(store)@.ttl_secs, poe_url@, size_bytes),
        ),
{
    cache_url(store, original_url, poe_url, size_bytes, now_secs)
}

/// Renews the entry of a payload fingerprint.
pub fn refresh_base64_cache_ttl(
    store: &mut CacheStore,
    hash: &str,
    poe_url: &str,
    size_bytes: usize,
    now_secs: u64,
)
    ensures
        final(store)@.config == old(store)@.config,
        final(store)@.ttl_secs == old(store)@.ttl_secs,
        final(store)@.max_bytes == old(store)@.max_bytes,
        final(store).storage_ok() ==> put_in_base64(
            old(store)@,
            final(store)@,
            base64_key(hash@),
            record_bytes(now_secs, old(store)@.ttl_secs, poe_url@, size_bytes),
        ),
{
    cache_base64(store, hash, poe_url, size_bytes, now_secs)
}

/// Looks a source URL up at `now_secs`. A live entry is returned and
/// renewed; an expired entry is removed.
pub fn get_cached_url(store: &mut CacheStore, original_url: &str, now_secs: u64) -> (r: Option<
    (String, usize),
>)
    ensures
        final(store)@.config == old(store)@.config,
        final(store)@.ttl_secs == old(store)@.ttl_secs,
        final(store)@.max_bytes == old(store)@.max_bytes,
        r matches Some(hit) ==> lookup(
            entry_of(old(store)@.urls, url_key(original_url@)),
            now_secs,
        ) == (LookupModel::Hit { url: hit.0@, size: hit.1 }),
        final(store).storage_ok() ==> match lookup(
            entry_of(old(store)@.urls, url_key(original_url@)),
            now_secs,
        ) {
            LookupModel::Hit { url, size } => r matches Some(hit) && hit.0@ == url && hit.1 == size
                && put_in_urls(
                old(store)@,
                final(store)@,
                url_key(original_url@),
                record_bytes(now_secs, old(store)@.ttl_secs, url, size),
            ),
            LookupModel::Expired => r is None && final(store)@ == (CacheModel {
                urls: old(store)@.urls.remove(url_key(original_url@)),
                ..old(store)@
            }),
            LookupModel::Miss => r is None && final(store)@ == old(store)@,
        },
{
    let key = concat("url:", original_url);
    let found = match tree_get(&store.urls, key.as_str().as_bytes()) {
        Ok(found) => found,
        Err(_) => {
            store.healthy = false;
            return None;
        },
    };
    match decide_lookup(&found, now_secs) {
        Lookup::Hit { url, size } => {
            refresh_url_cache_ttl(store, original_url, url.as_str(), size, now_secs);
            Some((url, size))
        },
        Lookup::Expired => {
            store.healthy = tree_remove(&mut store.urls, key.as_str().as_bytes()).is_ok();
            None
        },
        Lookup::Miss => {
            store.healthy = true;
            None
        },
    }
}

/// Looks a payload fingerprint up at `now_secs`. A live entry is returned
/// and renewed; an expired entry is removed.
pub fn get_cached_base64(store: &mut CacheStore, hash: &str, now_secs: u64) -> (r: Option<
    (String, usize),
>)
    ensures
        final(store)@.config == old(store)@.config,
        final(store)@.ttl_secs == old(store)@.ttl_secs,
        final(store)@.max_bytes == old(store)@.max_bytes,
        r matches Some(hit) ==> lookup(entry_of(old(store)@.base64, base64_key(hash@)), now_secs)
            == (LookupModel::Hit { url: hit.0@, size: hit.1 }),
        final(store).storage_ok() ==> match lookup(
            entry_of(old(store)@.base64, base64_key(hash@)),
            now_secs,
        ) {
            LookupModel::Hit { url, size } => r matches Some(hit) && hit.0@ == url && hit.1 == size
                && put_in_base64(
                old(store)@,
                final(store)@,
                base64_key(hash@),
                record_bytes(now_secs, old(store)@.ttl_secs, url, size),
            ),
            LookupModel::Expired => r is None && final(store)@ == (CacheModel {
                base64: old(store)@.base64.remove(base64_key(hash@)),
                ..old(store)@
            }),
            LookupModel::Miss => r is None && final(store)@ == old(store)@,
        },
{
    let key = concat("base64:", hash);
    let found = match tree_get(&store.base64, key.as_str().as_bytes()) {
        Ok(found) => found,
        Err(_) => {
            store.healthy = false;
            return None;
        },
    };
    match decide_lookup(&found, now_secs) {
        Lookup::Hit { url, size } => {
            refresh_base64_cache_ttl(store, hash, url.as_str(), size, now_secs);
            Some((url, size))
        },
        Lookup::Expired => {
            store.healthy = tree_remove(&mut store.base64, key.as_str().as_bytes()).is_ok();
            None
        },
        Lookup::Miss => {
            store.healthy = true;
            None
        },
    }
}

// ---------------------------------------------------------------------
// What holds of the caches

/// A stored record is read back as it was written: before its expiry it
/// is a hit with the URL and the size that were put, from its expiry on it
/// is expired.
pub proof fn lemma_record_lookup(now: u64, ttl: u64, url: Seq<char>, size: usize, later: u64)
    ensures
        later < expiry_from(now, ttl) ==> lookup(Some(record_bytes(now, ttl, url, size)), later)
            == (LookupModel::Hit { url, size }),
        later >= expiry_from(now, ttl) ==> lookup(Some(record_bytes(now, ttl, url, size)), later)
            == LookupModel::Expired,
{
    let text = record_text(expiry_from(now, ttl), url, size);
    vstd::utf8::encode_utf8_valid_utf8(text);
    vstd::utf8::encode_utf8_decode_utf8(text);
    lemma_record_round_trip(expiry_from(now, ttl), url, size);
}

/// A put that leaves the caches within their budget stores exactly the
/// record of the URL and the size, with its expiry one time-to-live
/// after the put. A lookup before that expiry finds what was put, colons
/// in the URL and all; a lookup from the expiry on finds the entry
/// expired. (The lookup of a live entry puts it again at the time of the
/// lookup, so the same holds of its renewed expiry.)
pub proof fn lemma_cache_round_trip(
    before: CacheModel,
    after: CacheModel,
    key: Seq<u8>,
    now: u64,
    url: Seq<char>,
    size: usize,
    later: u64,
)
    requires
        put_in_urls(before, after, key, record_bytes(now, before.ttl_secs, url, size)),
        total_size(before.urls.insert(key, record_bytes(now, before.ttl_secs, url, size)))
            + total_size(before.base64) <= before.max_bytes,
    ensures
        entry_of(after.urls, key) == Some(record_bytes(now, before.ttl_secs, url, size)),
        after.base64 == before.base64,
        later < expiry_from(now, before.ttl_secs) ==> lookup(entry_of(after.urls, key), later) == (
        LookupModel::Hit { url, size }),
        later >= expiry_from(now, before.ttl_secs) ==> lookup(entry_of(after.urls, key), later)
            == LookupModel::Expired,
{
    lemma_record_lookup(now, before.ttl_secs, url, size, later);
}

/// The same of the cache of payload fingerprints.
pub proof fn lemma_base64_round_trip(
    before: CacheModel,
    after: CacheModel,
    key: Seq<u8>,
    now: u64,
    url: Seq<char>,
    size: usize,
    later: u64,
)
    requires
        put_in_base64(before, after, key, record_bytes(now, before.ttl_secs, url, size)),
        total_size(before.urls) + total_size(
            before.base64.insert(key, record_bytes(now, before.ttl_secs, url, size)),
        ) <= before.max_bytes,
    ensures
        entry_of(after.base64, key) == Some(record_bytes(now, before.ttl_secs, url, size)),
        after.urls == before.urls,
        later < expiry_from(now, before.ttl_secs) ==> lookup(entry_of(after.base64, key), later)
            == (LookupModel::Hit { url, size }),
        later >= expiry_from(now, before.ttl_secs) ==> lookup(entry_of(after.base64, key), later)
            == LookupModel::Expired,
{
    lemma_record_lookup(now, before.ttl_secs, url, size, later);
}

/// Once the lookup of an expired entry has removed it, the tree holds
/// nothing under its key, and every later lookup is a miss.
pub proof fn lemma_expired_entry_is_gone(tree: Map<Seq<u8>, Seq<u8>>, key: Seq<u8>, later: u64)
    ensures
        entry_of(tree.remove(key), key) is None,
        lookup(entry_of(tree.remove(key), key), later) == LookupModel::Miss,
{
}

/// After a put the caches weigh no more than their budget; where the put
/// took them over it, they weigh no more than nine tenths of the budget.
pub proof fn lemma_eviction_budget(before: CacheModel, after: CacheModel, key: Seq<u8>, value: Seq<u8>)
    requires
        put_in_urls(before, after, key, value) || put_in_base64(before, after, key, value),
    ensures
        cache_total(after) <= before.max_bytes,
        put_in_urls(before, after, key, value) && total_size(before.urls.insert(key, value))
            + total_size(before.base64) > before.max_bytes ==> 10 * cache_total(after) <= 9
            * before.max_bytes,
        put_in_base64(before, after, key, value) && total_size(before.urls) + total_size(
            before.base64.insert(key, value),
        ) > before.max_bytes ==> 10 * cache_total(after) <= 9 * before.max_bytes,
{
}

// ---------------------------------------------------------------------
// Sizes

/// The marker between the media type and the payload of a data URI.
pub open spec fn base64_marker() -> Seq<char> {
    ";base64,"@
}

/// Three quarters of `n`, rounded up.
pub open spec fn three_quarters(n: nat) -> nat {
    (3 * n + 3) / 4
}

/// The decoded size of a data URI's payload: three quarters of the bytes
/// of what stands after the first `;base64,`, up to the next one; 0 for a
/// text without the marker.
pub open spec fn estimated_size(data_url: Seq<char>) -> nat {
    let parts = crate::split::split(data_url, base64_marker());
    if parts.len() >= 2 {
        three_quarters(encode_utf8(parts[1]).len())
    } else {
        0
    }
}

/// Estimates the decoded size of a data URI's payload.
pub fn estimate_base64_size(data_url: &str) -> (r: usize)
    ensures
        r == estimated_size(data_url@),
{
    let parts = crate::split::vec_split(&chars_of(data_url), &chars_of(";base64,"));
    if parts.len() >= 2 {
        assert(crate::text::vec_views(parts@)[1] == parts@[1]@);
        let payload = string_of(&parts[1]);
        let n = payload.as_str().as_bytes().len();
        ((3 * (n as u128) + 3) / 4) as usize
    } else {
        0
    }
}

} // verus!
