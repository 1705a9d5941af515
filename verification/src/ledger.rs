//! The byte count of the caches: what each entry weighs, what a tree
//! weighs, and how the weight follows insertions and removals.

use crate::record::{record_expiry, record_size};
use crate::store::is_listing;
use vstd::prelude::*;
use vstd::utf8::{decode_utf8, valid_utf8};

verus! {

/// The text of a stored value, where it is UTF-8.
pub open spec fn stored_text(bytes: Seq<u8>) -> Option<Seq<char>> {
    if valid_utf8(bytes) {
        Some(decode_utf8(bytes))
    } else {
        None
    }
}

/// Expiry and size of an entry that counts towards the budget.
#[derive(Debug, Clone, Copy, PartialEq, Eq, Structural)]
pub struct Counted {
    pub expires: u64,
    pub size: usize,
}

/// Expiry and size of a stored value, where it is a record with both.
/// Only such entries count towards the budget and can be evicted.
pub open spec fn counted(bytes: Seq<u8>) -> Option<Counted> {
    match stored_text(bytes) {
        Some(text) => match (record_expiry(text), record_size(text)) {
            (Some(e), Some(s)) => Some(Counted { expires: e, size: s }),
            _ => None,
        },
        None => None,
    }
}

/// What a stored value weighs.
pub open spec fn entry_size(bytes: Seq<u8>) -> nat {
    match counted(bytes) {
        Some(c) => c.size as nat,
        None => 0,
    }
}

/// What the entries of a tree weigh together.
pub open spec fn total_size(m: Map<Seq<u8>, Seq<u8>>) -> nat
    decreases m.dom().len(),
    when m.dom().finite()
{
    if m.dom().len() == 0 {
        0
    } else {
        let k = m.dom().choose();
        entry_size(m[k]) + total_size(m.remove(k))
    }
}

/// What the listed entries weigh together.
pub open spec fn listed_size(entries: Seq<(Seq<u8>, Seq<u8>)>) -> nat
    decreases entries.len(),
{
    if entries.len() == 0 {
        0
    } else {
        listed_size(entries.drop_last()) + entry_size(entries.last().1)
    }
}

/// Taking an entry out of a tree takes its weight off the total.
pub proof fn lemma_total_remove(m: Map<Seq<u8>, Seq<u8>>, k: Seq<u8>)
    requires
        m.dom().finite(),
        m.contains_key(k),
    ensures
        total_size(m) == entry_size(m[k]) + total_size(m.remove(k)),
    decreases m.dom().len(),
{
    let c = m.dom().choose();
    assert(m.dom().len() != 0);
    if c != k {
        assert(m.remove(c).dom() =~= m.dom().remove(c));
        assert(m.remove(k).dom() =~= m.dom().remove(k));
        lemma_total_remove(m.remove(c), k);
        lemma_total_remove(m.remove(k), c);
        assert(m.remove(c).remove(k) =~= m.remove(k).remove(c));
    }
}

/// A tree whose entries weigh nothing weighs nothing.
pub proof fn lemma_total_zero(m: Map<Seq<u8>, Seq<u8>>)
    requires
        m.dom().finite(),
        forall|k: Seq<u8>| m.contains_key(k) ==> entry_size(#[trigger] m[k]) == 0,
    ensures
        total_size(m) == 0,
    decreases m.dom().len(),
{
    if m.dom().len() != 0 {
        let c = m.dom().choose();
        assert(m.remove(c).dom() =~= m.dom().remove(c));
        assert forall|k: Seq<u8>| m.remove(c).contains_key(k) implies entry_size(
            #[trigger] m.remove(c)[k],
        ) == 0 by {
            assert(m.contains_key(k));
            assert(m.remove(c)[k] == m[k]);
        }
        lemma_total_zero(m.remove(c));
        assert(m.contains_key(c));
    }
}

/// A tree that has a listing is finite, and weighs what the listed
/// entries weigh.
pub proof fn lemma_listing_total(entries: Seq<(Seq<u8>, Seq<u8>)>, m: Map<Seq<u8>, Seq<u8>>)
    requires
        is_listing(entries, m),
    ensures
        m.dom().finite(),
        total_size(m) == listed_size(entries),
    decreases entries.len(),
{
    if entries.len() == 0 {
        assert(m.dom() =~= Set::<Seq<u8>>::empty()) by {
            assert forall|k: Seq<u8>| !m.dom().contains(k) by {
                if m.contains_key(k) {
                    let i = choose|i: int| 0 <= i < entries.len() && (#[trigger] entries[i]).0 == k;
                }
            }
        }
    } else {
        let last = entries.last();
        let rest = entries.drop_last();
        let m1 = m.remove(last.0);
        assert(is_listing(rest, m1)) by {
            assert forall|i: int| 0 <= i < rest.len() implies m1.contains_key(
                (#[trigger] rest[i]).0,
            ) && m1[rest[i].0] == rest[i].1 by {
                assert(rest[i] == entries[i]);
                assert(entries[i].0 != entries[entries.len() - 1].0);
            }
            assert forall|i: int, j: int| 0 <= i < j < rest.len() implies (#[trigger] rest[i]).0
                != (#[trigger] rest[j]).0 by {
                assert(rest[i] == entries[i]);
                assert(rest[j] == entries[j]);
            }
            assert forall|k: Seq<u8>| m1.contains_key(k) implies exists|i: int|
                0 <= i < rest.len() && (#[trigger] rest[i]).0 == k by {
                assert(m.contains_key(k));
                let i = choose|i: int| 0 <= i < entries.len() && (#[trigger] entries[i]).0 == k;
                assert(i < rest.len());
                assert(rest[i] == entries[i]);
            }
        }
        lemma_listing_total(rest, m1);
        assert(m.contains_key(last.0));
        assert(m.dom() =~= m1.dom().insert(last.0));
        lemma_total_remove(m, last.0);
    }
}

/// The first entries of a listing weigh no more than the whole listing.
pub proof fn lemma_listed_size_prefix(entries: Seq<(Seq<u8>, Seq<u8>)>, k: int)
    requires
        0 <= k <= entries.len(),
    ensures
        listed_size(entries.take(k)) <= listed_size(entries),
    decreases entries.len(),
{
    if k == entries.len() {
        assert(entries.take(k) =~= entries);
    } else {
        assert(entries.drop_last().take(k) =~= entries.take(k));
        lemma_listed_size_prefix(entries.drop_last(), k);
    }
}

} // verus!
