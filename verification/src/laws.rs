//! What the operations of this library promise, said of what goes into them and what comes out.
//!
//! The other modules define each operation by a function on its model. Here it is stated what the
//! results of these functions must satisfy, in terms of the fields of the models alone.
use tokio::sync::OwnedSemaphorePermit;
use vstd::prelude::*;
use vstd::utf8::valid_utf8;

use crate::backpressure::{
    default_config, down, fresh_device, lemma_magnitude_orders_encodings, up, BackpressureConfig,
    DeviceState, ManagerView, PressureSignal, Rescore, Score, SUCCESS_CREDIT,
};
use crate::cache::{
    handle_limit, handle_limit_reached, settled, ChannelsView, MAX_EVICT_REQUESTS,
    MAX_FILE_HANDLES,
};
use crate::channels::Sent;
use crate::contents::Contents;
use crate::disk::{create_dir_next, no_root, probe_start, CreateDir, CreateDirEvent};
use crate::error::{
    decimal, deleted_view, digit, failure, in_context, is_outcome, Error, ErrorKind, ErrorView,
};
use crate::file::{
    deleted_from, evicted_from, loaded_for, locked, locks, missing, missing_source, not_cached,
    overwritten_by, retained, saved_as, syncs, text_of, unlinked_from, Access, FileLock,
    FileLockState, Locking,
};
use crate::gc::{candidate_views, GcView};
use crate::lfu::{lemma_use_raises_by_one, rank_of, ranks, with_first, without, Ranking};
use crate::path::{
    component_views, file_name_of, is_extension_dot, is_tmp_name, is_tmp_path, parent_of, FilePath,
};
use crate::persist::{persist_next, PersistEvent, PersistStage};
use crate::state::{
    already_loaded, bytes_in, disk_full, resizing, root_views, Resized, StateView,
};

verus! {

// The ranking

/// A file which is taken out leaves the others in their order. Where there is none, nothing is taken
/// out.
pub proof fn lemma_taking_out_keeps_the_others(files: Ranking, path: Seq<Seq<u8>>, rank: int)
    requires
        forall|i: int, j: int|
            0 <= i < j < files.len() ==> #[trigger] files[i].0 != #[trigger] files[j].0,
    ensures
        0 <= rank < files.len() && files[rank].0 == path ==> without(files, path) == files.take(rank)
            + files.skip(rank + 1),
        (forall|i: int| 0 <= i < files.len() ==> #[trigger] files[i].0 != path) ==> without(
            files,
            path,
        ) == files,
{
    if 0 <= rank < files.len() && files[rank].0 == path {
        assert(ranks(files, path));
        assert(rank_of(files, path) == rank);
        assert(without(files, path) =~= files.take(rank) + files.skip(rank + 1));
    }
}

/// A file which is put first is followed by the others in their order.
pub proof fn lemma_putting_first_keeps_the_others(
    files: Ranking,
    path: Seq<Seq<u8>>,
    ticket: u64,
    rank: int,
)
    requires
        forall|i: int, j: int|
            0 <= i < j < files.len() ==> #[trigger] files[i].0 != #[trigger] files[j].0,
    ensures
        with_first(files, path, ticket)[0] == (path, ticket),
        0 <= rank < files.len() && files[rank].0 == path ==> with_first(files, path, ticket).skip(1)
            == files.take(rank) + files.skip(rank + 1),
        (forall|i: int| 0 <= i < files.len() ==> #[trigger] files[i].0 != path) ==> with_first(
            files,
            path,
            ticket,
        ).skip(1) == files,
{
    lemma_taking_out_keeps_the_others(files, path, rank);
    assert(with_first(files, path, ticket).skip(1) =~= without(files, path));
}

/// A file is ranked if there is an entry for its path.
pub proof fn lemma_ranked_files_have_an_entry(files: Ranking, path: Seq<Seq<u8>>)
    ensures
        ranks(files, path) <==> exists|i: int| 0 <= i < files.len() && #[trigger] files[i].0 == path,
{
}

// The books

/// `after` says the same as `before`, but for the ranking, the size, and whether an eviction is
/// pending.
pub open spec fn same_books(before: StateView, after: StateView) -> bool {
    &&& after.roots == before.roots
    &&& after.capacity == before.capacity
    &&& after.max_file_handles == before.max_file_handles
    &&& after.minimum_free_disk_bytes == before.minimum_free_disk_bytes
    &&& after.requested == before.requested
    &&& after.eviction_failed == before.eviction_failed
}

/// A use moves a file past the one before it, and no other file. What is counted is what the file
/// retains in addition. A use of a file which is not ranked changes no rank.
pub proof fn lemma_a_use_moves_a_file_up(
    state: StateView,
    path: Seq<Seq<u8>>,
    bytes: int,
    rank: int,
)
    requires
        forall|i: int, j: int|
            0 <= i < j < state.files.len() ==> #[trigger] state.files[i].0
                != #[trigger] state.files[j].0,
    ensures
        ({
            let after = state.bumped(path, bytes);
            &&& after.size == state.size + bytes
            &&& after.gc_pending == state.gc_pending
            &&& same_books(state, after)
            &&& after.files.len() == state.files.len()
            &&& 0 <= rank < state.files.len() && state.files[rank].0 == path ==> {
                &&& rank == 0 ==> after.files == state.files
                &&& rank > 0 ==> after.files[rank - 1] == state.files[rank] && after.files[rank]
                    == state.files[rank - 1]
                &&& forall|i: int|
                    0 <= i < state.files.len() && i != rank && i != rank - 1
                        ==> #[trigger] after.files[i] == state.files[i]
            }
            &&& (forall|i: int| 0 <= i < state.files.len() ==> #[trigger] state.files[i].0 != path)
                ==> after.files == state.files
        }),
{
    if 0 <= rank < state.files.len() && state.files[rank].0 == path {
        lemma_use_raises_by_one(state.files, path, rank);
    }
}

/// A file which is added comes first, in place of any other at its path, and is counted.
pub proof fn lemma_an_added_file_comes_first(
    state: StateView,
    path: Seq<Seq<u8>>,
    ticket: u64,
    bytes: int,
    rank: int,
)
    requires
        forall|i: int, j: int|
            0 <= i < j < state.files.len() ==> #[trigger] state.files[i].0
                != #[trigger] state.files[j].0,
    ensures
        ({
            let after = state.inserted(path, ticket, bytes);
            &&& after.size == state.size + bytes
            &&& after.gc_pending == state.gc_pending
            &&& same_books(state, after)
            &&& after.files[0] == (path, ticket)
            &&& 0 <= rank < state.files.len() && state.files[rank].0 == path ==> after.files.skip(1)
                == state.files.take(rank) + state.files.skip(rank + 1)
            &&& (forall|i: int| 0 <= i < state.files.len() ==> #[trigger] state.files[i].0 != path)
                ==> after.files.skip(1) == state.files
        }),
{
    lemma_putting_first_keeps_the_others(state.files, path, ticket, rank);
}

/// A file which is removed is no longer ranked or counted. One which is not ranked changes nothing.
pub proof fn lemma_a_removed_file_is_not_counted(
    state: StateView,
    path: Seq<Seq<u8>>,
    bytes: int,
    rank: int,
)
    requires
        forall|i: int, j: int|
            0 <= i < j < state.files.len() ==> #[trigger] state.files[i].0
                != #[trigger] state.files[j].0,
    ensures
        ({
            let after = state.removed(path, bytes);
            &&& after.gc_pending == state.gc_pending
            &&& same_books(state, after)
            &&& 0 <= rank < state.files.len() && state.files[rank].0 == path ==> after.files
                == state.files.take(rank) + state.files.skip(rank + 1) && after.size == state.size
                - bytes
            &&& (forall|i: int| 0 <= i < state.files.len() ==> #[trigger] state.files[i].0 != path)
                ==> after == state
        }),
{
    lemma_taking_out_keeps_the_others(state.files, path, rank);
    if 0 <= rank < state.files.len() && state.files[rank].0 == path {
        assert(ranks(state.files, path));
    }
}

/// Counting bytes changes the size by them, and nothing else.
pub proof fn lemma_counting_changes_the_size(state: StateView, bytes: int)
    ensures
        state.grown(bytes).size == state.size + bytes,
        state.grown(bytes).files == state.files,
        state.grown(bytes).gc_pending == state.gc_pending,
        same_books(state, state.grown(bytes)),
        bytes_in(None) == 0,
        forall|n: usize| #[trigger] bytes_in(Some(n)) == n,
{
}

/// An eviction is asked for if more is retained than the capacity, or someone waits for bytes, and
/// none is pending; it is then pending. Nothing else changes.
pub proof fn lemma_eviction_is_asked_for_when_needed(state: StateView)
    ensures
        state.crowded() <==> state.size > state.capacity || state.requested > 0,
        state.asks_for_eviction() <==> (state.size > state.capacity || state.requested > 0)
            && !state.gc_pending,
        state.checked().gc_pending <==> state.gc_pending || state.size > state.capacity
            || state.requested > 0,
        state.checked().files == state.files,
        state.checked().size == state.size,
        same_books(state, state.checked()),
{
}

/// Bytes are granted if and only if the size stays within the capacity with them. They are refused
/// at once if they are more than the capacity, or if an eviction has failed and nobody was told.
/// Whoever has to wait is counted, and changes nothing else but that an eviction is asked for.
pub proof fn lemma_bytes_are_granted_within_capacity(state: StateView, bytes: int)
    requires
        0 <= bytes,
        0 <= state.size <= usize::MAX,
        0 <= state.capacity <= usize::MAX,
        state.capacity < usize::MAX || state.size + bytes <= usize::MAX,
    ensures
        state.refusal(bytes) is None <==> bytes <= state.capacity && !state.eviction_failed,
        bytes > state.capacity ==> {
            &&& state.refusal(bytes) == Some(
                ErrorView {
                    kind: ErrorKind::OutOfMemory,
                    code: None,
                    message: "retained file exceeds cache capacity"@,
                },
            )
            &&& state.after_request(bytes) == state
        },
        bytes <= state.capacity && state.eviction_failed ==> {
            &&& state.refusal(bytes) == Some(
                ErrorView {
                    kind: ErrorKind::Other,
                    code: None,
                    message: "cache eviction failed"@,
                },
            )
            &&& !state.after_request(bytes).eviction_failed
            &&& same_books(
                state,
                StateView { eviction_failed: true, ..state.after_request(bytes) },
            )
            &&& state.after_request(bytes).size == state.size
            &&& state.after_request(bytes).files == state.files
            &&& state.after_request(bytes).gc_pending == state.gc_pending
        },
        state.has_room(bytes) <==> state.size + bytes <= state.capacity,
        bytes <= state.capacity && !state.eviction_failed && state.size + bytes <= state.capacity ==> {
            let after = state.after_request(bytes);
            &&& after.size == state.size + bytes
            &&& after.files == state.files
            &&& after.gc_pending == state.gc_pending
            &&& same_books(state, after)
        },
        bytes <= state.capacity && !state.eviction_failed && state.size + bytes > state.capacity ==> {
            let after = state.after_request(bytes);
            &&& after.size == state.size
            &&& after.files == state.files
            &&& after.roots == state.roots
            &&& after.capacity == state.capacity
            &&& after.max_file_handles == state.max_file_handles
            &&& after.minimum_free_disk_bytes == state.minimum_free_disk_bytes
            &&& !after.eviction_failed
            &&& after.requested == if bytes > state.requested {
                bytes
            } else {
                state.requested
            }
            &&& after.gc_pending == (state.gc_pending || state.size > state.capacity
                || after.requested > 0)
        },
        ({
            let after = state.waited_on(bytes);
            &&& after.requested == if bytes > state.requested {
                bytes
            } else {
                state.requested
            }
            &&& after.size == state.size
            &&& after.files == state.files
            &&& after.roots == state.roots
            &&& after.capacity == state.capacity
            &&& after.max_file_handles == state.max_file_handles
            &&& after.minimum_free_disk_bytes == state.minimum_free_disk_bytes
            &&& after.gc_pending == state.gc_pending
            &&& after.eviction_failed == state.eviction_failed
        }),
{
}

/// A round of eviction has to release exactly what is missing: as long as less has been released,
/// there is no room for the `requested` bytes, and once as much has been, there is.
pub proof fn lemma_a_round_releases_what_is_missing(state: StateView, requested: int, released: int)
    requires
        0 <= requested,
        0 <= state.size,
        0 <= state.capacity <= usize::MAX,
        state.size + requested <= usize::MAX,
        0 <= released,
    ensures
        released < state.round_for(requested).over <==> state.size - released + requested
            > state.capacity,
        state.round_for(requested).over == 0 <==> state.size + requested <= state.capacity,
{
}

/// A round of eviction begins with nothing tried, may begin as many evictions as are allowed at
/// once, and offers every file, from the last rank to the first. It offers none if there is room.
pub proof fn lemma_a_round_offers_every_file(state: StateView, requested: int, rank: int)
    requires
        0 <= requested,
        0 <= state.size,
        0 <= state.capacity <= usize::MAX,
        state.size + requested <= usize::MAX,
        0 <= rank < state.files.len(),
    ensures
        ({
            let round = state.round_for(requested);
            &&& round.offered == 0
            &&& round.evictions == 0
            &&& round.limit == state.max_file_handles
            &&& state.size + requested <= state.capacity ==> round.candidates.len() == 0
            &&& state.size + requested > state.capacity ==> round.candidates.len()
                == state.files.len() && round.candidates[state.files.len() - 1 - rank]
                == state.files[rank]
        }),
{
}

/// Where the sum of what is retained and requested does not fit, a round releases what is missing of
/// the largest number that does.
pub proof fn lemma_a_round_for_too_much_is_capped(state: StateView, requested: int)
    requires
        0 <= state.capacity <= usize::MAX,
        state.size + requested > usize::MAX,
    ensures
        state.round_for(requested).over == usize::MAX - state.capacity,
{
}

/// Each file which is tried is passed over, or counts as one eviction of its size. The round goes on
/// while bytes have to be released, evictions are allowed, and files are left.
pub proof fn lemma_each_file_is_tried_once(round: GcView, size: usize)
    requires
        0 <= round.over,
    ensures
        round.done() <==> round.over == 0 || round.evictions >= round.limit || round.offered
            >= round.candidates.len(),
        ({
            let after = round.tried(None);
            &&& after.over == round.over
            &&& after.offered == round.offered + 1
            &&& after.evictions == round.evictions
            &&& after.limit == round.limit
            &&& after.candidates == round.candidates
        }),
        ({
            let after = round.tried(Some(size));
            &&& size <= round.over ==> after.over + size == round.over
            &&& size > round.over ==> after.over == 0
            &&& after.offered == round.offered + 1
            &&& after.evictions == round.evictions + 1
            &&& after.limit == round.limit
            &&& after.candidates == round.candidates
        }),
{
}

/// The candidates of a round are known by their path and their ticket.
pub proof fn lemma_candidates_have_path_and_ticket(
    candidates: Seq<(Vec<Vec<u8>>, u64)>,
    i: int,
)
    requires
        0 <= i < candidates.len(),
    ensures
        candidate_views(candidates).len() == candidates.len(),
        candidate_views(candidates)[i].1 == candidates[i].1,
        candidate_views(candidates)[i].0.len() == candidates[i].0@.len(),
        forall|j: int|
            0 <= j < candidates[i].0@.len() ==> #[trigger] candidate_views(candidates)[i].0[j]
                == candidates[i].0@[j]@,
{
}

/// A directory overlaps with those that have been loaded if and only if it is one of them, lies under
/// one of them, or has one of them under it, at any depth.
pub proof fn lemma_overlap_is_at_any_depth(state: StateView, path: Seq<Seq<u8>>)
    ensures
        state.overlaps(path) <==> exists|i: int|
            0 <= i < state.roots.len() && ((#[trigger] state.roots[i]).is_prefix_of(path)
                || path.is_prefix_of(state.roots[i])),
{
    if exists|i: int|
        0 <= i < state.roots.len() && ((#[trigger] state.roots[i]).is_prefix_of(path)
            || path.is_prefix_of(state.roots[i])) {
        let i = choose|i: int|
            0 <= i < state.roots.len() && ((#[trigger] state.roots[i]).is_prefix_of(path)
                || path.is_prefix_of(state.roots[i]));
        assert(crate::state::overlap(state.roots[i], path));
    }
}

/// Once a directory has been loaded, none under it may be, however deep, and once one deep under it
/// has been, neither may the directory itself.
pub proof fn lemma_directories_below_and_above_are_refused(
    state: StateView,
    path: Seq<Seq<u8>>,
    rest: Seq<Seq<u8>>,
    i: int,
)
    requires
        0 <= i < state.roots.len(),
    ensures
        state.roots[i] == path ==> state.overlaps(path + rest),
        state.roots[i] == path + rest ==> state.overlaps(path),
{
    assert(path =~= (path + rest).subrange(0, path.len() as int));
    assert(path.is_prefix_of(path + rest));
    lemma_overlap_is_at_any_depth(state, path + rest);
    lemma_overlap_is_at_any_depth(state, path);
}

/// Two directories which part ways do not keep each other from being loaded.
pub proof fn lemma_directories_apart_are_not_refused(
    state: StateView,
    path: Seq<Seq<u8>>,
)
    requires
        forall|i: int|
            0 <= i < state.roots.len() ==> exists|k: int|
                0 <= k < path.len() && k < (#[trigger] state.roots[i]).len() && #[trigger] path[k]
                    != state.roots[i][k],
    ensures
        !state.overlaps(path),
{
    if state.overlaps(path) {
        lemma_overlap_is_at_any_depth(state, path);
        let i = choose|i: int|
            0 <= i < state.roots.len() && ((#[trigger] state.roots[i]).is_prefix_of(path)
                || path.is_prefix_of(state.roots[i]));
        let root = state.roots[i];
        let k = choose|k: int| 0 <= k < path.len() && k < root.len() && #[trigger] path[k] != root[k];
        if root.is_prefix_of(path) {
            assert(root[k] == path.subrange(0, root.len() as int)[k]);
        } else {
            assert(path[k] == root.subrange(0, path.len() as int)[k]);
        }
    }
}

/// The paths of the directories that have been loaded are those that were given, in their order.
pub proof fn lemma_roots_are_paths(roots: Seq<FilePath>, i: int)
    requires
        0 <= i < roots.len(),
    ensures
        root_views(roots).len() == roots.len(),
        root_views(roots)[i].len() == roots[i].components@.len(),
        forall|j: int|
            0 <= j < roots[i].components@.len() ==> #[trigger] root_views(roots)[i][j]
                == roots[i].components@[j]@,
{
}

/// A path is the bytes of each of its components.
pub proof fn lemma_paths_are_components(components: Seq<Vec<u8>>, i: int)
    requires
        0 <= i < components.len(),
    ensures
        component_views(components).len() == components.len(),
        component_views(components)[i] == components[i]@,
{
}

/// Bytes may be written to the disk if and only if the reserve is still free afterwards. Where the
/// sum of both does not fit, the whole of what fits has to be free.
pub proof fn lemma_the_disk_reserve_is_left_alone(state: StateView, available: int, bytes: int)
    requires
        0 <= state.minimum_free_disk_bytes,
        0 <= bytes,
    ensures
        state.minimum_free_disk_bytes + bytes <= u64::MAX ==> (available
            < state.required_disk_bytes(bytes) <==> available - bytes
            < state.minimum_free_disk_bytes),
        state.minimum_free_disk_bytes + bytes > u64::MAX ==> (available
            < state.required_disk_bytes(bytes) <==> available < u64::MAX),
{
}

/// A change in size is counted by what it releases, or has to reserve what it adds.
pub proof fn lemma_a_change_in_size_is_the_difference(old_size: usize, new_size: usize)
    ensures
        new_size == old_size <==> resizing(old_size, new_size) is Unchanged,
        new_size < old_size <==> resizing(old_size, new_size) is Released,
        new_size > old_size <==> (resizing(old_size, new_size) matches Resized::Grow { bytes } && bytes
            + old_size == new_size),
        resizing(old_size, new_size) is Grow ==> new_size > old_size,
{
}

/// A new cache ranks and counts nothing, and has what it was given.
pub proof fn lemma_a_new_cache_is_empty(capacity: int, handles: int, reserve: int)
    ensures
        ({
            let state = StateView::empty(capacity, handles, reserve);
            &&& state.files.len() == 0
            &&& state.size == 0
            &&& state.roots.len() == 0
            &&& state.capacity == capacity
            &&& state.max_file_handles == handles
            &&& state.minimum_free_disk_bytes == reserve
            &&& state.requested == 0
            &&& !state.gc_pending
            &&& !state.eviction_failed
        }),
{
}

// The channels

/// The books are kept but for a pending eviction. One request is sent where an eviction has to be
/// asked for, and none elsewhere; those who wait are woken once where that is owed, and not
/// elsewhere.
pub proof fn lemma_signals_are_exact(
    changed: StateView,
    notify: bool,
    before: ChannelsView,
    after: (StateView, ChannelsView),
    stopped: bool,
)
    requires
        settled(changed, notify, before, after, stopped),
    ensures
        ({
            let asked = (changed.size > changed.capacity || changed.requested > 0)
                && !changed.gc_pending;
            &&& after.1.requests.len() == before.requests.len() + if asked {
                1int
            } else {
                0
            }
            &&& after.1.requests.take(before.requests.len() as int) == before.requests
            &&& stopped == (asked && after.1.requests.last() is Closed)
            &&& after.0.gc_pending == (changed.gc_pending || asked && !stopped)
        }),
        after.1.wakes == before.wakes + if notify {
            1int
        } else {
            0
        },
        after.1.file_handles == before.file_handles,
        after.1.asked == before.asked,
        after.1.capacity_released == before.capacity_released,
        after.1.tx == before.tx,
        after.0.files == changed.files,
        after.0.size == changed.size,
        same_books(changed, after.0),
{
    assert(after.1.requests.take(before.requests.len() as int) =~= before.requests);
}

/// A signal is a wake-up, a request, both or neither. A handle which is asked for is recorded.
pub proof fn lemma_signals_are_recorded(
    before: ChannelsView,
    notify: bool,
    sent: Sent,
    permit: Option<OwnedSemaphorePermit>,
)
    ensures
        ({
            let after = before.signalled(notify, None);
            &&& after.wakes == before.wakes + if notify {
                1int
            } else {
                0
            }
            &&& after.requests == before.requests
            &&& after.asked == before.asked
            &&& after.file_handles == before.file_handles
            &&& after.capacity_released == before.capacity_released
            &&& after.tx == before.tx
        }),
        before.signalled(notify, Some(sent)).requests == before.requests.push(sent),
        before.signalled(notify, Some(sent)).wakes == before.signalled(notify, None).wakes,
        before.signalled(notify, Some(sent)).asked == before.asked,
        before.asked_for_handle(permit).asked == before.asked.push(permit),
        before.asked_for_handle(permit).requests == before.requests,
        before.asked_for_handle(permit).wakes == before.wakes,
        before.asked_for_handle(permit).file_handles == before.file_handles,
        before.asked_for_handle(permit).capacity_released == before.capacity_released,
        before.asked_for_handle(permit).tx == before.tx,
{
}

/// A cache has as many file handles as it was asked for, or 512. One request may wait to be served.
pub proof fn lemma_handles_are_as_many_as_asked_for(limit: usize)
    ensures
        handle_limit(Some(limit)) == limit,
        handle_limit(None) == 512,
        MAX_FILE_HANDLES == 512,
        MAX_EVICT_REQUESTS == 1,
{
}

// Files

/// A file retains the bytes of its contents in memory, and none if they are not there.
pub proof fn lemma_files_retain_their_contents(size: usize, unlink: bool)
    ensures
        retained(FileLockState::Read(size)) == size,
        retained(FileLockState::Modified(size)) == size,
        retained(FileLockState::Pending) == 0,
        retained(FileLockState::Deleted(unlink)) == 0,
        FileLockState::Read(size).loaded(),
        FileLockState::Modified(size).loaded(),
        !FileLockState::Pending.loaded(),
        !FileLockState::Deleted(unlink).loaded(),
{
}

/// A file in memory which is locked, for reading or for writing, moves past the one before it in the
/// ranking; nothing else in the books changes but that an eviction may be pending. A file which is
/// read stays as it is. One which is written has changed, and retains as much as before.
pub proof fn lemma_locking_counts_a_use(
    path: Seq<Seq<u8>>,
    access: Access,
    absent: Result<Locking, ErrorView>,
    before: (FileLockState, StateView, ChannelsView),
    after: (FileLockState, StateView, ChannelsView),
    outcome: Result<Locking, Error>,
    rank: int,
)
    requires
        locks(path, access, absent, before, after, outcome),
        before.0 is Read || before.0 is Modified,
        forall|i: int, j: int|
            0 <= i < j < before.1.files.len() ==> #[trigger] before.1.files[i].0
                != #[trigger] before.1.files[j].0,
    ensures
        outcome matches Ok(locking) && (locking is Cached || locking is Stopped),
        after.1.files.len() == before.1.files.len(),
        0 <= rank < before.1.files.len() && before.1.files[rank].0 == path ==> {
            &&& rank == 0 ==> after.1.files == before.1.files
            &&& rank > 0 ==> after.1.files[rank - 1] == before.1.files[rank] && after.1.files[rank]
                == before.1.files[rank - 1]
            &&& forall|i: int|
                0 <= i < before.1.files.len() && i != rank && i != rank - 1
                    ==> #[trigger] after.1.files[i] == before.1.files[i]
        },
        (forall|i: int| 0 <= i < before.1.files.len() ==> #[trigger] before.1.files[i].0 != path)
            ==> after.1.files == before.1.files,
        after.1.size == before.1.size,
        same_books(before.1, after.1),
        after.2.wakes == before.2.wakes,
        after.2.requests.len() == before.2.requests.len() + if (before.1.size > before.1.capacity
            || before.1.requested > 0) && !before.1.gc_pending {
            1int
        } else {
            0
        },
        after.0 == match (access, before.0) {
            (Access::Read, state) => state,
            (Access::Write, FileLockState::Read(size)) => FileLockState::Modified(size),
            (Access::Write, state) => state,
        },
{
    lemma_a_use_moves_a_file_up(before.1, path, 0, rank);
    let locking = outcome->Ok_0;
    lemma_signals_are_exact(
        before.1.bumped(path, 0),
        false,
        before.2,
        (after.1, after.2),
        locking is Stopped,
    );
}

/// Of two neighbours in the ranking, the lower is offered for eviction first. Once the lower has been
/// locked, for reading or for writing, it is the other one which is offered first.
pub proof fn lemma_a_locked_file_is_offered_after_its_neighbour(
    path: Seq<Seq<u8>>,
    access: Access,
    absent: Result<Locking, ErrorView>,
    before: (FileLockState, StateView, ChannelsView),
    after: (FileLockState, StateView, ChannelsView),
    outcome: Result<Locking, Error>,
    rank: int,
    requested: int,
)
    requires
        locks(path, access, absent, before, after, outcome),
        before.0 is Read || before.0 is Modified,
        forall|i: int, j: int|
            0 <= i < j < before.1.files.len() ==> #[trigger] before.1.files[i].0
                != #[trigger] before.1.files[j].0,
        0 < rank < before.1.files.len(),
        before.1.files[rank].0 == path,
        0 <= requested,
        0 <= before.1.size,
        0 <= before.1.capacity <= usize::MAX,
        before.1.capacity < before.1.size + requested <= usize::MAX,
    ensures
        ({
            let first = before.1.files.len() - 1 - rank;
            let was = before.1.round_for(requested).candidates;
            let is = after.1.round_for(requested).candidates;
            &&& was[first].0 == path
            &&& is[first + 1].0 == path
            &&& is[first] == was[first + 1]
            &&& is[first + 1] == was[first]
        }),
{
    lemma_locking_counts_a_use(path, access, absent, before, after, outcome, rank);
    lemma_a_round_offers_every_file(before.1, requested, rank);
    lemma_a_round_offers_every_file(before.1, requested, rank - 1);
    lemma_a_round_offers_every_file(after.1, requested, rank);
    lemma_a_round_offers_every_file(after.1, requested, rank - 1);
}

/// A file which has been deleted is not found, and one which is not in memory is answered as it has
/// to be. Neither changes anything.
pub proof fn lemma_files_out_of_memory_are_not_locked(
    path: Seq<Seq<u8>>,
    access: Access,
    absent: Result<Locking, ErrorView>,
    before: (FileLockState, StateView, ChannelsView),
    after: (FileLockState, StateView, ChannelsView),
    outcome: Result<Locking, Error>,
)
    requires
        locks(path, access, absent, before, after, outcome),
        before.0 is Pending || before.0 is Deleted,
    ensures
        after == before,
        before.0 is Deleted ==> (outcome matches Err(error) && error.kind == ErrorKind::NotFound
            && error.code is None && error.message@ == "this file has been deleted"@),
        before.0 is Pending ==> match absent {
            Ok(locking) => outcome == Ok::<Locking, Error>(locking),
            Err(expected) => outcome matches Err(error) && error@ == expected,
        },
        not_cached() == (ErrorView {
            kind: ErrorKind::WouldBlock,
            code: None,
            message: "this file is not in the cache"@,
        }),
{
}

/// A file which is loaded retains the bytes that were reserved for it. It has changed if and only if
/// it was loaded to be written.
pub proof fn lemma_loaded_files_retain_what_was_reserved(access: Access, size: usize)
    ensures
        loaded_for(access, size).loaded(),
        retained(loaded_for(access, size)) == size,
        loaded_for(access, size) is Modified <==> access == Access::Write,
        locked(FileLockState::Read(size), Access::Read) == FileLockState::Read(size),
        locked(FileLockState::Modified(size), Access::Read) == FileLockState::Modified(size),
        locked(FileLockState::Read(size), Access::Write) == FileLockState::Modified(size),
        locked(FileLockState::Modified(size), Access::Write) == FileLockState::Modified(size),
{
}

/// A file which has changed has to be written back, and one which was deleted by itself to be
/// unlinked. Nothing else has to be backed up.
pub proof fn lemma_what_has_to_be_backed_up(state: FileLockState)
    ensures
        syncs(state) is WriteBack <==> state is Modified,
        syncs(state) is Unlink <==> state == FileLockState::Deleted(true),
        syncs(state) is Nothing <==> state is Pending || state is Read || state
            == FileLockState::Deleted(false),
{
}

/// Whatever was known of a file, once it has been deleted by itself it has to be removed from the
/// disk, until it has been. One which is deleted with its directory does not. A file which has been
/// deleted before stays as it is.
pub proof fn lemma_deleted_files_have_to_be_unlinked(state: FileLockState, file_only: bool)
    ensures
        deleted_from(state, file_only) is Deleted,
        !(state is Deleted) ==> (syncs(deleted_from(state, file_only)) is Unlink <==> file_only),
        !(state is Deleted) && !file_only ==> syncs(deleted_from(state, file_only)) is Nothing,
        state is Deleted ==> deleted_from(state, file_only) == state,
        unlinked_from(deleted_from(state, file_only)) is Deleted,
        syncs(unlinked_from(deleted_from(state, file_only))) is Nothing,
{
}

/// A file which is deleted by itself is gone for readers at once, and from the disk once it has been
/// backed up. One which is deleted with its directory is left to the directory.
pub proof fn lemma_deleted_files_leave_the_disk(file: Contents, file_only: bool)
    requires
        !(file.state is Deleted),
    ensures
        ({
            let deleted = file.after(crate::contents::Step::Delete { file_only })->0;
            let synced = deleted.synced(Seq::empty(), true);
            &&& file.after(crate::contents::Step::Delete { file_only }) is Some
            &&& deleted.state is Deleted
            &&& deleted.seen() is None
            &&& deleted.disk == file.disk
            &&& synced.seen() is None
            &&& file_only ==> synced.disk.file is None
            &&& !file_only ==> synced.disk == file.disk
        }),
{
}

/// A file which has been written back is in memory as it is on the disk, and retains what was
/// written. One which is evicted retains nothing, and has to be loaded again.
pub proof fn lemma_saved_and_evicted_files(state: FileLockState, size: usize)
    ensures
        saved_as(size) is Read,
        retained(saved_as(size)) == size,
        evicted_from(state) is Pending,
        retained(evicted_from(state)) == 0,
{
}

/// A file is overwritten with what the other file is: on the disk, deleted, or in memory. In the last
/// case it has changed, and retains as much as the other.
pub proof fn lemma_overwritten_files_are_like_the_other(other: FileLockState)
    ensures
        overwritten_by(other) is Pending <==> other is Pending,
        overwritten_by(other) is Deleted <==> other is Deleted,
        other is Deleted ==> syncs(overwritten_by(other)) is Unlink,
        overwritten_by(other) is Modified <==> other is Read || other is Modified,
        retained(overwritten_by(other)) == match other {
            FileLockState::Read(size) => size as int,
            FileLockState::Modified(size) => size as int,
            _ => 0,
        },
{
}

/// A file stays the same file if its path and the root of its path do.
pub proof fn lemma_files_are_known_by_their_path(file: FileLock, other: FileLock)
    ensures
        file.is_file(other) <==> file.spec_path() == other.spec_path() && file.anchor()
            == other.anchor(),
{
}

// Errors

/// An error has the kind and the message that it is given. In a context, it keeps its kind, and the
/// context comes before its message.
pub proof fn lemma_errors_say_what_they_are_given(
    kind: ErrorKind,
    message: Seq<char>,
    cause: ErrorView,
)
    ensures
        failure(kind, message).kind == kind,
        failure(kind, message).message == message,
        failure(kind, message).code is None,
        in_context(cause, message).kind == cause.kind,
        in_context(cause, message).message == message + cause.message,
        in_context(cause, message).code is None,
{
}

/// An outcome is the one that is described if both are the same value, or errors which tell the same.
pub proof fn lemma_outcomes_agree<T>(outcome: Result<T, Error>, expected: Result<T, ErrorView>)
    ensures
        is_outcome(outcome, expected) <==> match expected {
            Ok(value) => outcome == Ok::<T, Error>(value),
            Err(error) => outcome matches Err(actual) && actual.kind == error.kind && actual.code
                == error.code && actual.message@ == error.message,
        },
{
}

/// Each error of the library has its kind and says what is wrong.
pub proof fn lemma_errors_have_their_kinds(text: Seq<char>, reserve: nat)
    ensures
        deleted_view().kind == ErrorKind::NotFound,
        deleted_view().message == "this file has been deleted"@,
        handle_limit_reached().kind == ErrorKind::ResourceBusy,
        handle_limit_reached().message == "file handle limit reached"@,
        already_loaded(text).kind == ErrorKind::AlreadyExists,
        already_loaded(text).message
            == "called Cache::load on a directory that's already loaded: "@ + text,
        disk_full(reserve).kind == ErrorKind::StorageFull,
        disk_full(reserve).message
            == "filesystem free space is below the configured reserve of "@ + decimal(reserve)
            + " bytes"@,
        no_root().kind == ErrorKind::NotFound,
        no_root().message == "no filesystem root for cache path"@,
        missing(Some(text)).kind == ErrorKind::NotFound,
        missing(Some(text)).message == "there is no file at "@ + text,
        missing(None).kind == ErrorKind::NotFound,
        missing(None).message
            == "the requested file is not in cache and does not exist on the filesystem"@,
        missing_source(Some(text)).kind == ErrorKind::NotFound,
        missing_source(Some(text)).message
            == "tried to copy a file from a nonexistent source: "@ + text,
        text_of(None) is None,
        forall|path: &str| #[trigger] text_of(Some(path)) == Some(path@),
        missing_source(None).kind == ErrorKind::NotFound,
        missing_source(None).message == "tried to copy a file from a nonexistent source"@,
{
}

/// The number that a text of decimal digits stands for.
pub open spec fn number(text: Seq<char>) -> int
    decreases text.len(),
{
    if text.len() == 0 {
        0
    } else {
        10 * number(text.drop_last()) + (text.last() as int - '0' as int)
    }
}

/// A number which is written in decimal can be read back: it is made of digits, without a leading
/// zero, and stands for the number.
pub proof fn lemma_decimals_are_read_back(n: nat)
    ensures
        number(decimal(n)) == n,
        decimal(n).len() > 0,
        forall|i: int| 0 <= i < decimal(n).len() ==> '0' <= #[trigger] decimal(n)[i] <= '9',
        n > 0 ==> decimal(n)[0] != '0',
    decreases n,
{
    if n < 10 {
        assert(decimal(n) =~= seq![digit(n)]);
        assert(decimal(n).drop_last() =~= Seq::<char>::empty());
        assert(number(Seq::<char>::empty()) == 0);
    } else {
        lemma_decimals_are_read_back(n / 10);
        assert(decimal(n).drop_last() =~= decimal(n / 10));
        assert(decimal(n).last() == digit(n % 10));
    }
}

// Paths and the disk

/// A path is its parent and one component more. There is no parent of a root.
pub proof fn lemma_parents_are_one_component_shorter(path: Seq<Seq<u8>>, anchor: int)
    requires
        0 <= anchor,
    ensures
        match parent_of(path, anchor) {
            Some(parent) => path.len() > anchor && parent.push(path.last()) == path,
            None => path.len() <= anchor,
        },
        probe_start(path, anchor) == match parent_of(path, anchor) {
            Some(parent) => parent,
            None => path,
        },
        path.len() > anchor ==> probe_start(path, anchor).len() == path.len() - 1,
{
    if parent_of(path, anchor) is Some {
        assert(path.drop_last().push(path.last()) =~= path);
    }
}

/// A path names a file unless it is a root, or ends in a dot or two.
pub proof fn lemma_paths_which_name_files(path: Seq<Seq<u8>>, anchor: int)
    requires
        0 <= anchor,
    ensures
        file_name_of(path, anchor) == if path.len() > anchor && path.last() != seq![46u8]
            && path.last() != seq![46u8, 46u8] {
            Some(path.last())
        } else {
            None
        },
{
}

/// The temporary twin of a file is called as the file is, with `._freqfs` appended if the name has
/// no extension, and `__freqfs` if it has one that is text. If it has one that is not, `_freqfs`
/// takes its place.
pub proof fn lemma_twins_have_the_name_of_their_file(name: Seq<u8>, tmp: Seq<u8>, dot: int)
    requires
        is_tmp_name(name, tmp),
    ensures
        (forall|i: int| 0 < i < name.len() ==> #[trigger] name[i] != 46) ==> tmp == name + seq![
            46u8,
            95u8,
            102u8,
            114u8,
            101u8,
            113u8,
            102u8,
            115u8,
        ],
        0 < dot < name.len() && name[dot] == 46 && (forall|i: int|
            dot < i < name.len() ==> #[trigger] name[i] != 46) ==> tmp == if valid_utf8(
            name.skip(dot + 1),
        ) {
            name + seq![95u8, 95u8, 102u8, 114u8, 101u8, 113u8, 102u8, 115u8]
        } else {
            name.take(dot) + seq![46u8, 95u8, 102u8, 114u8, 101u8, 113u8, 102u8, 115u8]
        },
{
    if 0 < dot < name.len() && name[dot] == 46 && (forall|i: int|
        dot < i < name.len() ==> #[trigger] name[i] != 46) {
        assert(is_extension_dot(name, dot));
        let other = choose|other: int| #[trigger]
            is_extension_dot(name, other) && tmp == (if valid_utf8(name.skip(other + 1)) {
                name.push(95u8) + crate::path::tmp_extension()
            } else {
                name.take(other).push(46u8) + crate::path::tmp_extension()
            });
        assert(other == dot);
        assert(name.push(95u8) + crate::path::tmp_extension() =~= name + seq![
            95u8,
            95u8,
            102u8,
            114u8,
            101u8,
            113u8,
            102u8,
            115u8,
        ]);
        assert(name.take(dot).push(46u8) + crate::path::tmp_extension() =~= name.take(dot) + seq![
            46u8,
            95u8,
            102u8,
            114u8,
            101u8,
            113u8,
            102u8,
            115u8,
        ]);
    }
    if forall|i: int| 0 < i < name.len() ==> #[trigger] name[i] != 46 {
        assert(name.push(46u8) + crate::path::tmp_extension() =~= name + seq![
            46u8,
            95u8,
            102u8,
            114u8,
            101u8,
            113u8,
            102u8,
            115u8,
        ]);
    }
}

/// The temporary twin of a file lies in the directory of the file.
pub proof fn lemma_twins_lie_beside_their_file(path: Seq<Seq<u8>>, anchor: int, tmp: Seq<Seq<u8>>)
    requires
        0 <= anchor,
        is_tmp_path(path, anchor, tmp),
    ensures
        tmp.len() == path.len(),
        forall|i: int| 0 <= i < path.len() - 1 ==> #[trigger] tmp[i] == path[i],
        file_name_of(path, anchor) is Some ==> is_tmp_name(path.last(), tmp.last()),
        file_name_of(path, anchor) is None ==> tmp == path,
{
    assert forall|i: int| 0 <= i < path.len() - 1 implies #[trigger] tmp[i] == path[i] by {
        assert(tmp.drop_last()[i] == tmp[i]);
        assert(path.drop_last()[i] == path[i]);
    }
}

/// What succeeds leads on: the twin is opened if it exists, and else created in its directory; it is
/// then saved, and put in the place of the file, which holds as many bytes as were saved.
pub proof fn lemma_writing_back_goes_on(exists: bool, size: u64)
    ensures
        persist_next(PersistStage::Probe, PersistEvent::Exists(exists)) == Ok::<_, ErrorView>(
            if exists {
                PersistStage::Open
            } else {
                PersistStage::MakeDir
            },
        ),
        persist_next(PersistStage::MakeDir, PersistEvent::Done) == Ok::<_, ErrorView>(
            PersistStage::Create,
        ),
        persist_next(PersistStage::MakeDirAgain, PersistEvent::Done) == Ok::<_, ErrorView>(
            PersistStage::CreateAgain,
        ),
        persist_next(PersistStage::Open, PersistEvent::Done) == Ok::<_, ErrorView>(
            PersistStage::Save,
        ),
        persist_next(PersistStage::Create, PersistEvent::Done) == Ok::<_, ErrorView>(
            PersistStage::Save,
        ),
        persist_next(PersistStage::CreateAgain, PersistEvent::Done) == Ok::<_, ErrorView>(
            PersistStage::Save,
        ),
        persist_next(PersistStage::Save, PersistEvent::Saved(size)) == Ok::<_, ErrorView>(
            PersistStage::Rename { size },
        ),
        persist_next(PersistStage::Rename { size }, PersistEvent::Done) == Ok::<_, ErrorView>(
            PersistStage::Done { size },
        ),
{
}

/// What fails ends the attempt, with an error of the same kind. The one exception is that the twin
/// could not be created for want of a directory: this is tried once more.
pub proof fn lemma_failures_end_writing_back(stage: PersistStage, cause: Error)
    ensures
        match stage {
            PersistStage::Probe | PersistStage::Done { .. } => persist_next(
                stage,
                PersistEvent::Failed(cause),
            ) == Ok::<_, ErrorView>(stage),
            PersistStage::Create if cause.kind == ErrorKind::NotFound => persist_next(
                stage,
                PersistEvent::Failed(cause),
            ) == Ok::<_, ErrorView>(PersistStage::MakeDirAgain),
            _ => {
                &&& persist_next(stage, PersistEvent::Failed(cause)) matches Err(error)
                &&& error.kind == cause.kind
                &&& error.message == match stage {
                    PersistStage::Open | PersistStage::MakeDir | PersistStage::MakeDirAgain =>
                        cause.message@,
                    PersistStage::Save => "failed to save tmp file: "@ + cause.message@,
                    PersistStage::Rename { .. } => "failed to rename tmp file: "@ + cause.message@,
                    _ => "failed to create tmp file: "@ + cause.message@,
                }
                &&& error.code == match stage {
                    PersistStage::Open | PersistStage::MakeDir | PersistStage::MakeDirAgain =>
                        cause.code,
                    _ => None,
                }
            },
        },
{
}

/// An event out of turn changes nothing: only looking for the twin tells whether it exists, and only
/// saving it how many bytes it holds.
pub proof fn lemma_events_out_of_turn_change_nothing(
    stage: PersistStage,
    exists: bool,
    size: u64,
)
    ensures
        !(stage is Probe) ==> persist_next(stage, PersistEvent::Exists(exists)) == Ok::<_, ErrorView>(
            stage,
        ),
        !(stage is Save) ==> persist_next(stage, PersistEvent::Saved(size)) == Ok::<_, ErrorView>(
            stage,
        ),
        stage is Probe || stage is Save || stage is Done ==> persist_next(stage, PersistEvent::Done)
            == Ok::<_, ErrorView>(stage),
{
}

/// A directory is there once it was found or created, or is found after it could not be created. If
/// it is not found then, the error is the one with which it could not be created.
pub proof fn lemma_directories_are_created(found: bool, cause: Error)
    ensures
        create_dir_next(CreateDir::Probe, CreateDirEvent::Exists(found)) == Ok::<_, ErrorView>(
            if found {
                CreateDir::Done
            } else {
                CreateDir::Create
            },
        ),
        create_dir_next(CreateDir::Create, CreateDirEvent::Created) == Ok::<_, ErrorView>(
            CreateDir::Done,
        ),
        create_dir_next(CreateDir::Create, CreateDirEvent::Failed(cause)) == Ok::<_, ErrorView>(
            CreateDir::Recheck(cause),
        ),
        found ==> create_dir_next(CreateDir::Recheck(cause), CreateDirEvent::IsDir(found)) == Ok::<
            _,
            ErrorView,
        >(CreateDir::Done),
        !found ==> (create_dir_next(CreateDir::Recheck(cause), CreateDirEvent::IsDir(found)) matches Err(
            error,
        ) && error.kind == cause.kind && error.code is None && error.message
            == "failed to create directory: "@ + cause.message@),
{
}

/// An event out of turn changes nothing.
pub proof fn lemma_directory_events_out_of_turn_change_nothing(
    stage: CreateDir,
    event: CreateDirEvent,
)
    requires
        stage is Probe ==> !(event is Exists),
        stage is Create ==> !(event is Created || event is Failed),
        stage is Recheck ==> !(event is IsDir),
    ensures
        create_dir_next(stage, event) == Ok::<_, ErrorView>(stage),
{
}

// Devices

/// Neither a signal of pressure, nor a success, nor bringing the score up to date changes how many
/// operations are under way. To begin one adds one, and to end one takes one off, if there is any.
pub proof fn lemma_only_operations_count_as_under_way(
    state: DeviceState,
    config: BackpressureConfig,
    now: u128,
    score: Score,
)
    ensures
        state.signalled().inflight == state.inflight,
        state.succeeded(config).inflight == state.inflight,
        state.decayed(now, score).inflight == state.inflight,
        state.inflight < u32::MAX ==> state.acquired().inflight == state.inflight + 1,
        state.inflight > 0 ==> state.released().inflight == state.inflight - 1,
        state.inflight == 0 ==> state.released().inflight == 0,
{
}

/// Beginning or ending an operation changes nothing but how many are under way.
pub proof fn lemma_operations_do_not_count_as_reports(state: DeviceState)
    ensures
        ({
            let after = state.acquired();
            &&& after.pressure_streak == state.pressure_streak
            &&& after.recovery_streak == state.recovery_streak
            &&& after.score == state.score
            &&& after.last_decay == state.last_decay
        }),
        ({
            let after = state.released();
            &&& after.pressure_streak == state.pressure_streak
            &&& after.recovery_streak == state.recovery_streak
            &&& after.score == state.score
            &&& after.last_decay == state.last_decay
        }),
        forall|n: u32| n < u32::MAX ==> #[trigger] up(n) == n + 1,
        up(u32::MAX) == u32::MAX,
        forall|n: u32| n > 0 ==> #[trigger] down(n) == n - 1,
        down(0) == 0,
{
}

/// A signal of pressure lengthens the run of signals by one, and ends any run of successes.
pub proof fn lemma_a_signal_lengthens_the_run(state: DeviceState)
    ensures
        ({
            let after = state.signalled();
            &&& state.pressure_streak < u32::MAX ==> after.pressure_streak == state.pressure_streak
                + 1
            &&& state.pressure_streak == u32::MAX ==> after.pressure_streak == u32::MAX
            &&& after.recovery_streak == 0
            &&& after.score == state.score
            &&& after.last_decay == state.last_decay
        }),
{
}

/// A success ends a run of signals, at once if it has not led to denial, and else if it is the last
/// of as many in a row as the configuration asks for. It counts as one of them until then.
pub proof fn lemma_a_success_ends_the_run(state: DeviceState, config: BackpressureConfig)
    ensures
        ({
            let after = state.succeeded(config);
            let enough = state.recovery_streak == u32::MAX || state.recovery_streak + 1
                >= config.recover_threshold;
            &&& state.pressure_streak < config.hard_threshold || enough ==> after.pressure_streak
                == 0
            &&& state.pressure_streak >= config.hard_threshold && !enough
                ==> after.pressure_streak == state.pressure_streak
            &&& enough ==> after.recovery_streak == 0
            &&& !enough ==> after.recovery_streak == state.recovery_streak + 1
            &&& after.score == state.score
            &&& after.last_decay == state.last_decay
        }),
{
}

/// A device is given new work if and only if fewer operations are under way than may be, its run of
/// signals is shorter than the threshold, and its score is not above the threshold.
pub proof fn lemma_admission_needs_all_three(state: DeviceState, config: BackpressureConfig)
    ensures
        !state.is_denied(config) <==> state.inflight < config.max_inflight && state.pressure_streak
            < config.hard_threshold && !state.score.exceeds(config.score_threshold),
{
}

/// What may be done to a device.
pub enum Operation {
    /// An attempt to begin an operation.
    Acquire,
    /// An operation is over.
    Release,
    /// A signal of pressure, after which the score is `score`.
    Signal { score: Score },
    /// A success, after which the score is `score`.
    Success { score: Score },
    /// The score is brought up to date.
    Decay { now: u128, score: Score },
}

/// The device after an operation.
pub open spec fn operated(
    state: DeviceState,
    config: BackpressureConfig,
    operation: Operation,
) -> DeviceState {
    match operation {
        Operation::Acquire => if state.is_denied(config) {
            state
        } else {
            state.acquired()
        },
        Operation::Release => state.released(),
        Operation::Signal { score } => DeviceState { score, ..state.signalled() },
        Operation::Success { score } => DeviceState { score, ..state.succeeded(config) },
        Operation::Decay { now, score } => state.decayed(now, score),
    }
}

/// The device after all `operations`.
pub open spec fn operated_all(
    state: DeviceState,
    config: BackpressureConfig,
    operations: Seq<Operation>,
) -> DeviceState
    decreases operations.len(),
{
    if operations.len() == 0 {
        state
    } else {
        operated(
            operated_all(state, config, operations.drop_last()),
            config,
            operations.last(),
        )
    }
}

/// How many operations were begun and not ended, among `operations`: each attempt to begin one that
/// was admitted counts, each end takes one off, and reports count for nothing.
pub open spec fn under_way(
    state: DeviceState,
    config: BackpressureConfig,
    operations: Seq<Operation>,
) -> int
    decreases operations.len(),
{
    if operations.len() == 0 {
        state.inflight as int
    } else {
        let before = under_way(state, config, operations.drop_last());
        let device = operated_all(state, config, operations.drop_last());
        match operations.last() {
            Operation::Acquire => if device.inflight < config.max_inflight && device.pressure_streak
                < config.hard_threshold && !device.score.exceeds(config.score_threshold) {
                before + 1
            } else {
                before
            },
            Operation::Release => if before > 0 {
                before - 1
            } else {
                0
            },
            _ => before,
        }
    }
}

/// Whatever is reported of a device in between, the operations under way on it are those that were
/// begun and not ended, and never more than may be if there were no more to begin with.
pub proof fn lemma_operations_under_way_are_those_begun(
    state: DeviceState,
    config: BackpressureConfig,
    operations: Seq<Operation>,
)
    ensures
        operated_all(state, config, operations).inflight == under_way(state, config, operations),
        state.inflight <= config.max_inflight ==> operated_all(state, config, operations).inflight
            <= config.max_inflight,
    decreases operations.len(),
{
    if operations.len() > 0 {
        lemma_operations_under_way_are_those_begun(state, config, operations.drop_last());
    }
}

/// A score decays if time has passed, scores decay at all, and it is above zero or not a number. It
/// then decays over the time that has passed.
pub proof fn lemma_scores_decay_over_time(
    state: DeviceState,
    config: BackpressureConfig,
    now: u128,
    score: Score,
)
    ensures
        match state.decaying(config, now) {
            Rescore::Keep { score } => score == state.score && (now <= state.last_decay
                || config.decay_half_life == 0 || state.score.is_clear()),
            Rescore::Decay { score, elapsed, half_life } => {
                &&& score == state.score
                &&& elapsed > 0
                &&& state.last_decay + elapsed == now
                &&& half_life == config.decay_half_life
                &&& half_life > 0
                &&& !state.score.is_clear()
            },
            _ => false,
        },
        ({
            let after = state.decayed(now, score);
            &&& after.score == score
            &&& after.last_decay == now
            &&& after.pressure_streak == state.pressure_streak
            &&& after.recovery_streak == state.recovery_streak
        }),
{
}

/// Scores compare as single-precision numbers do: what is not a number compares with nothing; of
/// positive ones the larger encoding is the larger, of negative ones the smaller; a negative one is
/// never above a positive one; and both zeros are equal.
pub proof fn lemma_scores_compare_by_their_encoding(left: Score, right: Score)
    ensures
        ({
            let l = left.bits as int % 0x8000_0000;
            let r = right.bits as int % 0x8000_0000;
            let negative_left = left.bits >= 0x8000_0000;
            let negative_right = right.bits >= 0x8000_0000;
            &&& l > 0x7f80_0000 || r > 0x7f80_0000 ==> !left.exceeds(right)
            &&& l <= 0x7f80_0000 && r <= 0x7f80_0000 ==> (left.exceeds(right) <==> match (
                negative_left,
                negative_right,
            ) {
                (false, false) => l > r,
                (true, true) => l < r,
                (false, true) => l > 0 || r > 0,
                (true, false) => false,
            })
            &&& left.is_clear() <==> l <= 0x7f80_0000 && (l == 0 || negative_left)
        }),
{
    lemma_magnitude_orders_encodings(left.bits as nat % 0x8000_0000, right.bits as nat % 0x8000_0000);
    lemma_magnitude_orders_encodings(left.bits as nat % 0x8000_0000, 0);
    lemma_magnitude_orders_encodings(right.bits as nat % 0x8000_0000, 0);
}

/// What each signal adds to a score, and a success takes off, in hundredths.
pub proof fn lemma_signals_have_their_weights()
    ensures
        PressureSignal::AllocationFailure.weight() == 100,
        PressureSignal::EnqueueFailure.weight() == 75,
        PressureSignal::TransferFailure.weight() == 50,
        PressureSignal::Saturation.weight() == 60,
        SUCCESS_CREDIT == 50,
{
}

/// The usual configuration: three signals in a row, two successes in a row, a score of one and a
/// half, 64 operations, and half a second.
pub proof fn lemma_usual_configuration()
    ensures
        default_config().hard_threshold == 3,
        default_config().recover_threshold == 2,
        default_config().score_threshold.bits == 0x3fc0_0000,
        default_config().max_inflight == 64,
        default_config().decay_half_life == 500_000_000,
{
}

/// What is set of a device is known of it, and nothing else changes. Of a device of which nothing was
/// said there is no pressure, and nothing is under way.
pub proof fn lemma_devices_are_known_as_set(
    manager: ManagerView,
    device: Seq<char>,
    state: DeviceState,
    other: Seq<char>,
)
    ensures
        manager.with_device(device, state).device(device) == state,
        manager.with_device(device, state).config == manager.config,
        other != device ==> manager.with_device(device, state).device(other) == manager.device(
            other,
        ),
        !manager.devices.contains_key(other) ==> {
            let fresh = manager.device(other);
            &&& fresh.pressure_streak == 0
            &&& fresh.recovery_streak == 0
            &&& fresh.inflight == 0
            &&& fresh.score.bits == 0
            &&& fresh.last_decay == 0
        },
        manager.devices.contains_key(other) ==> manager.device(other) == manager.devices[other],
        fresh_device().inflight == 0,
{
}

} // verus!
