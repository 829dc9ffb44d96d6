//! Files in the order of their use, most used first, held in a [`ds_ext::LinkedHashMap`].
use ds_ext::LinkedHashMap;
use vstd::prelude::*;

use crate::path::{component_views, FilePath};

verus! {

/// A linked hash map of the crate `ds_ext`.
#[verifier::external_type_specification]
#[verifier::external_body]
#[verifier::reject_recursive_types(K)]
#[verifier::reject_recursive_types(V)]
pub struct ExLinkedHashMap<K, V>(LinkedHashMap<K, V>);

/// The files of a cache, each with the ticket by which its owner finds it again.
pub type Lfu = LinkedHashMap<Vec<Vec<u8>>, u64>;

/// The files of a cache in the order of their use: the path of each, and its ticket.
pub type Ranking = Seq<(Seq<Seq<u8>>, u64)>;

/// What a linked hash map holds, in the order in which it is walked from its head.
pub uninterp spec fn lfu_entries(files: LinkedHashMap<Vec<Vec<u8>>, u64>) -> Seq<(Seq<Seq<u8>>, u64)>;

/// Whether `files` ranks a file at `path`.
pub open spec fn ranks(files: Ranking, path: Seq<Seq<u8>>) -> bool {
    exists|i: int| 0 <= i < files.len() && #[trigger] files[i].0 == path
}

/// The rank of the file at `path`.
pub open spec fn rank_of(files: Ranking, path: Seq<Seq<u8>>) -> int {
    choose|i: int| 0 <= i < files.len() && #[trigger] files[i].0 == path
}

/// No path is ranked twice.
pub open spec fn distinct(files: Ranking) -> bool {
    forall|i: int, j: int|
        0 <= i < j < files.len() ==> #[trigger] files[i].0 != #[trigger] files[j].0
}

/// `files` with the file at `path` moved up by one rank, if it is ranked and not the first.
pub open spec fn raised(files: Ranking, path: Seq<Seq<u8>>) -> Ranking {
    let rank = rank_of(files, path);
    if ranks(files, path) && rank > 0 {
        files.update(rank, files[rank - 1]).update(rank - 1, files[rank])
    } else {
        files
    }
}

/// `files` without the file at `path`.
pub open spec fn without(files: Ranking, path: Seq<Seq<u8>>) -> Ranking {
    if ranks(files, path) {
        files.remove(rank_of(files, path))
    } else {
        files
    }
}

/// `files` with the file at `path` in the first rank.
pub open spec fn with_first(files: Ranking, path: Seq<Seq<u8>>, ticket: u64) -> Ranking {
    seq![(path, ticket)] + without(files, path)
}

/// An empty map.
///
/// Calls [`LinkedHashMap::new`].
#[verifier::external_body]
pub(crate) fn lfu_new() -> (files: Lfu)
    ensures
        lfu_entries(files) == Seq::<(Seq<Seq<u8>>, u64)>::empty(),
{
    LinkedHashMap::new()
}

/// Move the file at `path` up by one rank, and say whether it is there.
///
/// Calls [`LinkedHashMap::bump`], which swaps an entry with the one before it, and leaves an
/// entry at the head where it is.
#[verifier::external_body]
pub(crate) fn lfu_bump(files: &mut Lfu, path: &FilePath) -> (exists: bool)
    ensures
        exists == ranks(lfu_entries(*old(files)), path@),
        lfu_entries(*final(files)) == raised(lfu_entries(*old(files)), path@),
{
    files.bump(&path.components)
}

/// Put the file at `path` in the first rank, in place of any other file at this path.
///
/// Calls [`LinkedHashMap::insert`], which removes any entry of the key that it is given, and
/// puts the new one at the head.
#[verifier::external_body]
pub(crate) fn lfu_insert(files: &mut Lfu, path: FilePath, ticket: u64)
    ensures
        lfu_entries(*final(files)) == with_first(lfu_entries(*old(files)), path@, ticket),
{
    files.insert(path.components, ticket);
}

/// Take the file at `path` out, and say whether it was there.
///
/// Calls [`LinkedHashMap::remove`], which leaves the order of the other entries as it is.
#[verifier::external_body]
pub(crate) fn lfu_remove(files: &mut Lfu, path: &FilePath) -> (removed: bool)
    ensures
        removed == ranks(lfu_entries(*old(files)), path@),
        lfu_entries(*final(files)) == without(lfu_entries(*old(files)), path@),
{
    files.remove(&path.components).is_some()
}

/// The path and the ticket of each file, least used first.
///
/// Calls [`LinkedHashMap::iter`] and walks it from the back, from the tail to the head.
#[verifier::external_body]
pub(crate) fn lfu_least_used(files: &Lfu) -> (entries: Vec<(Vec<Vec<u8>>, u64)>)
    ensures
        entries@.map_values(|entry: (Vec<Vec<u8>>, u64)| (component_views(entry.0@), entry.1))
            == lfu_entries(*files).reverse(),
{
    files.iter().rev().map(|(path, ticket)| (path.clone(), *ticket)).collect()
}

/// Moving a file up keeps paths distinct.
pub proof fn lemma_raised_is_distinct(files: Ranking, path: Seq<Seq<u8>>)
    requires
        distinct(files),
    ensures
        distinct(raised(files, path)),
{
}

/// Taking a file out keeps paths distinct, and leaves none at its path.
pub proof fn lemma_without_is_distinct(files: Ranking, path: Seq<Seq<u8>>)
    requires
        distinct(files),
    ensures
        distinct(without(files, path)),
        !ranks(without(files, path), path),
{
}

/// Putting a file first keeps paths distinct.
pub proof fn lemma_with_first_is_distinct(files: Ranking, path: Seq<Seq<u8>>, ticket: u64)
    requires
        distinct(files),
    ensures
        distinct(with_first(files, path, ticket)),
{
    lemma_without_is_distinct(files, path);
}

/// A use of a file moves it up by one rank past the file before it, and leaves all other files
/// where they are. The file in the first rank stays there.
pub proof fn lemma_use_raises_by_one(files: Ranking, path: Seq<Seq<u8>>, rank: int)
    requires
        distinct(files),
        0 <= rank < files.len(),
        files[rank].0 == path,
    ensures
        ({
            let after = raised(files, path);
            &&& after.len() == files.len()
            &&& rank == 0 ==> after == files
            &&& rank > 0 ==> after[rank - 1] == files[rank] && after[rank] == files[rank - 1]
            &&& forall|i: int|
                0 <= i < files.len() && i != rank && i != rank - 1 ==> #[trigger] after[i] == files[i]
        }),
{
    assert(ranks(files, path));
    assert(rank_of(files, path) == rank);
}

/// Files are offered for eviction from the last rank to the first: of two files, the one which
/// ranks lower is offered before the other.
pub proof fn lemma_lower_rank_is_offered_first(files: Ranking, high: int, low: int)
    requires
        0 <= high < low < files.len(),
    ensures
        exists|i: int, j: int|
            0 <= i < j < files.len() && #[trigger] files.reverse()[i] == files[low]
                && #[trigger] files.reverse()[j] == files[high],
{
    assert(files.reverse()[files.len() - 1 - low] == files[low]);
    assert(files.reverse()[files.len() - 1 - high] == files[high]);
}

} // verus!
