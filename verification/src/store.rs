//! The embedded key-value store behind the caches: `sled`, reached
//! through a handful of operations on one tree each.
//!
//! A tree is modelled by the map of its entries. The contracts below are
//! not proved; they state what `sled` documents of each operation, for a
//! tree that is reached through this one handle only.

use vstd::prelude::*;

verus! {

/// `sled::Tree`: one keyspace of a database. Its value is opaque here;
/// the contracts speak of it through `tree_entries`.
#[verifier::external_type_specification]
#[verifier::external_body]
pub struct ExTree(sled::Tree);

/// `sled::Db`: the database that owns the trees. Its value is opaque
/// here; it is held so that the database lives as long as its trees.
#[verifier::external_type_specification]
#[verifier::external_body]
pub struct ExDb(sled::Db);

/// `sled::Error`: why an operation of the store failed. Its value is
/// opaque here; the library reads only that there was an error.
#[verifier::external_type_specification]
#[verifier::external_body]
pub struct ExStoreError(sled::Error);

/// The entries of a tree: each key with its value.
pub uninterp spec fn tree_entries(tree: sled::Tree) -> Map<Seq<u8>, Seq<u8>>;

/// `entries` lists the map `m`: every pair is an entry of it, no key comes
/// twice, and every key of the map comes once.
pub open spec fn is_listing(entries: Seq<(Seq<u8>, Seq<u8>)>, m: Map<Seq<u8>, Seq<u8>>) -> bool {
    &&& forall|i: int|
        0 <= i < entries.len() ==> m.contains_key((#[trigger] entries[i]).0) && m[entries[i].0]
            == entries[i].1
    &&& forall|i: int, j: int|
        0 <= i < j < entries.len() ==> (#[trigger] entries[i]).0 != (#[trigger] entries[j]).0
    &&& forall|k: Seq<u8>|
        m.contains_key(k) ==> exists|i: int| 0 <= i < entries.len() && (#[trigger] entries[i]).0 == k
}

/// The pairs of byte sequences that a vector of pairs of byte vectors
/// holds.
pub open spec fn pair_views(v: Seq<(Vec<u8>, Vec<u8>)>) -> Seq<(Seq<u8>, Seq<u8>)> {
    Seq::new(v.len(), |i: int| (v[i].0@, v[i].1@))
}

/// `sled::Config::new().temporary(true).open()`: a new database that is
/// deleted when it is dropped. Nothing is claimed of the result.
#[verifier::external_body]
pub(crate) fn open_temporary() -> (r: Result<sled::Db, sled::Error>) {
    sled::Config::new().temporary(true).open()
}

/// `Db::open_tree`: the tree of the given name, created where there is
/// none. Nothing is claimed of its entries.
#[verifier::external_body]
pub(crate) fn open_tree(db: &sled::Db, name: &str) -> (r: Result<sled::Tree, sled::Error>) {
    db.open_tree(name)
}

/// `Tree::insert`: where it succeeds, the tree holds `value` under `key`
/// and is unchanged otherwise. Nothing is claimed where it fails.
#[verifier::external_body]
pub(crate) fn tree_insert(tree: &mut sled::Tree, key: &[u8], value: &[u8]) -> (r: Result<
    (),
    sled::Error,
>)
    ensures
        r is Ok ==> tree_entries(*final(tree)) == tree_entries(*old(tree)).insert(key@, value@),
{
    tree.insert(key, value).map(|_| ())
}

/// `Tree::get`: where it succeeds, the value that the tree holds under
/// `key`, if any.
#[verifier::external_body]
pub(crate) fn tree_get(tree: &sled::Tree, key: &[u8]) -> (r: Result<Option<Vec<u8>>, sled::Error>)
    ensures
        r matches Ok(found) ==> match found {
            Some(value) => tree_entries(*tree).contains_key(key@) && tree_entries(*tree)[key@]
                == value@,
            None => !tree_entries(*tree).contains_key(key@),
        },
{
    tree.get(key).map(|found| found.map(|value| value.to_vec()))
}

/// `Tree::remove`: where it succeeds, the tree holds nothing under `key`
/// and is unchanged otherwise. Nothing is claimed where it fails.
#[verifier::external_body]
pub(crate) fn tree_remove(tree: &mut sled::Tree, key: &[u8]) -> (r: Result<(), sled::Error>)
    ensures
        r is Ok ==> tree_entries(*final(tree)) == tree_entries(*old(tree)).remove(key@),
{
    tree.remove(key).map(|_| ())
}

/// `Tree::iter`, collected: where every step succeeds, all entries of the
/// tree, each once.
#[verifier::external_body]
pub(crate) fn tree_list(tree: &sled::Tree) -> (r: Result<Vec<(Vec<u8>, Vec<u8>)>, sled::Error>)
    ensures
        r matches Ok(entries) ==> is_listing(pair_views(entries@), tree_entries(*tree)),
{
    tree.iter().map(|step| step.map(|(key, value)| (key.to_vec(), value.to_vec()))).collect()
}

/// `Tree::flush`: a hint to write the tree out. Its outcome is ignored.
#[verifier::external_body]
pub(crate) fn tree_flush(tree: &sled::Tree) {
    let _ = tree.flush();
}

} // verus!
