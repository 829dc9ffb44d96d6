//! The books of a cache: which files it ranks, how many bytes they retain, who waits for bytes,
//! and when files have to be evicted.
use vstd::prelude::*;
use vstd::string::*;

use crate::error::{decimal, failure, is_outcome, to_decimal, Error, ErrorKind, ErrorView};
use crate::gc::{Gc, GcView};
use crate::lfu::{
    distinct, lemma_raised_is_distinct, lemma_with_first_is_distinct, lemma_without_is_distinct,
    lfu_bump, lfu_entries, lfu_insert, lfu_least_used, lfu_new, lfu_remove, raised, ranks,
    with_first, without, Lfu, Ranking,
};
use crate::path::FilePath;

verus! {

/// The books of a cache.
pub struct State {
    files: Lfu,
    size: usize,
    roots: Vec<FilePath>,
    capacity: usize,
    max_file_handles: usize,
    minimum_free_disk_bytes: u64,
    requested: usize,
    gc_pending: bool,
    eviction_failed: bool,
}

/// What the books of a cache say.
#[verifier::ext_equal]
pub struct StateView {
    /// The files, most used first.
    pub files: Ranking,
    /// How many bytes are retained or reserved.
    pub size: int,
    /// The directories that have been loaded.
    pub roots: Seq<Seq<Seq<u8>>>,
    /// How many bytes the cache is meant to retain at most.
    pub capacity: int,
    /// How many files may be evicted at once.
    pub max_file_handles: int,
    /// How many bytes of the disk are left alone.
    pub minimum_free_disk_bytes: int,
    /// The largest reservation that waits, since files were last evicted for one.
    pub requested: int,
    /// Whether an eviction has been asked for and is not over.
    pub gc_pending: bool,
    /// Whether an eviction has failed, and nobody has been told.
    pub eviction_failed: bool,
}

/// What has to be done outside the books after a change to them.
#[derive(Debug, Clone, Copy, PartialEq, Eq, Structural)]
pub struct Signals {
    /// Wake those who wait for bytes.
    pub notify: bool,
    /// Ask for an eviction.
    pub evict: bool,
}

/// Bytes that have been reserved for a file.
#[derive(Debug)]
pub struct Reservation {
    bytes: usize,
}

impl View for Reservation {
    type V = int;

    closed spec fn view(&self) -> int {
        self.bytes as int
    }
}

impl Reservation {
    /// How many bytes are reserved.
    pub fn bytes(&self) -> (bytes: usize)
        ensures
            bytes == self@,
    {
        self.bytes
    }

    /// Keep the bytes for the file that they were reserved for.
    pub fn commit(self) -> (bytes: usize)
        ensures
            bytes == self@,
    {
        self.bytes
    }
}

/// What became of a request for bytes.
#[derive(Debug)]
pub enum Reserved {
    /// The bytes are reserved.
    Granted(Reservation),
    /// There is no room: wait until bytes are released, then ask again.
    Wait { evict: bool },
}

/// What is left to do after a change of a file's size.
#[derive(Debug, Clone, Copy, PartialEq, Eq, Structural)]
pub enum Resized {
    /// Nothing.
    Unchanged,
    /// Wake those who wait for bytes.
    Released,
    /// Reserve this many bytes more.
    Grow { bytes: usize },
}

/// The least of `left + right` and the largest number that a `usize` can hold.
pub open spec fn capped_sum(left: int, right: int) -> int {
    if left + right > usize::MAX {
        usize::MAX as int
    } else {
        left + right
    }
}

/// The bytes that a file is known to retain.
pub open spec fn bytes_in(file_size: Option<usize>) -> int {
    match file_size {
        Some(bytes) => bytes as int,
        None => 0,
    }
}

/// What is left to do once a file's size changes from `old_size` to `new_size`.
pub open spec fn resizing(old_size: usize, new_size: usize) -> Resized {
    if new_size > old_size {
        Resized::Grow { bytes: (new_size - old_size) as usize }
    } else if old_size > new_size {
        Resized::Released
    } else {
        Resized::Unchanged
    }
}

/// The error for a disk with less than `reserve` bytes to spare.
pub open spec fn disk_full(reserve: nat) -> ErrorView {
    failure(
        ErrorKind::StorageFull,
        "filesystem free space is below the configured reserve of "@ + decimal(reserve)
            + " bytes"@,
    )
}

/// The error for a directory that overlaps with one that has been loaded.
pub open spec fn already_loaded(text: Seq<char>) -> ErrorView {
    failure(
        ErrorKind::AlreadyExists,
        "called Cache::load on a directory that's already loaded: "@ + text,
    )
}

/// The paths of `roots`.
pub open spec fn root_views(roots: Seq<FilePath>) -> Seq<Seq<Seq<u8>>> {
    roots.map_values(|root: FilePath| root@)
}

/// One of two directories is the other, or lies under it.
pub open spec fn overlap(left: Seq<Seq<u8>>, right: Seq<Seq<u8>>) -> bool {
    left.is_prefix_of(right) || right.is_prefix_of(left)
}

impl StateView {
    /// No path is ranked twice, and a file can be evicted.
    pub open spec fn wf(self) -> bool {
        &&& distinct(self.files)
        &&& self.max_file_handles > 0
        &&& 0 <= self.size <= usize::MAX
        &&& 0 <= self.capacity <= usize::MAX
    }

    /// The books of a cache that has just been made.
    pub open spec fn empty(
        capacity: int,
        max_file_handles: int,
        minimum_free_disk_bytes: int,
    ) -> StateView {
        StateView {
            files: Seq::empty(),
            size: 0,
            roots: Seq::empty(),
            capacity,
            max_file_handles,
            minimum_free_disk_bytes,
            requested: 0,
            gc_pending: false,
            eviction_failed: false,
        }
    }

    /// Files have to be evicted: too much is retained, or someone waits for bytes.
    pub open spec fn crowded(self) -> bool {
        self.size > self.capacity || self.requested > 0
    }

    /// An eviction has to be asked for: none has been, or the last one is over.
    pub open spec fn asks_for_eviction(self) -> bool {
        self.crowded() && !self.gc_pending
    }

    /// The books once an eviction has been asked for, if one has to be.
    pub open spec fn checked(self) -> StateView {
        StateView { gc_pending: self.gc_pending || self.crowded(), ..self }
    }

    /// The books with other files.
    pub open spec fn with_files(self, files: Ranking) -> StateView {
        StateView { files, ..self }
    }

    /// The books with `bytes` more retained, or fewer.
    pub open spec fn grown(self, bytes: int) -> StateView {
        StateView { size: self.size + bytes, ..self }
    }

    /// The books once the file at `path` has been used, and retains `bytes` more.
    pub open spec fn bumped(self, path: Seq<Seq<u8>>, bytes: int) -> StateView {
        self.grown(bytes).with_files(raised(self.files, path))
    }

    /// The books once the file at `path` has been ranked first, and retains `bytes` more.
    pub open spec fn inserted(self, path: Seq<Seq<u8>>, ticket: u64, bytes: int) -> StateView {
        self.grown(bytes).with_files(with_first(self.files, path, ticket))
    }

    /// The books without the file at `path`, which retained `bytes`.
    pub open spec fn removed(self, path: Seq<Seq<u8>>, bytes: int) -> StateView {
        if ranks(self.files, path) {
            self.grown(-bytes).with_files(without(self.files, path))
        } else {
            self
        }
    }

    /// There is room for `bytes` more.
    pub open spec fn has_room(self, bytes: int) -> bool {
        capped_sum(self.size, bytes) <= self.capacity
    }

    /// The books once someone waits for `bytes`.
    pub open spec fn waited_on(self, bytes: int) -> StateView {
        StateView {
            requested: if bytes > self.requested {
                bytes
            } else {
                self.requested
            },
            ..self
        }
    }

    /// Why a request for `bytes` is refused at once, if it is.
    pub open spec fn refusal(self, bytes: int) -> Option<ErrorView> {
        if bytes > self.capacity {
            Some(failure(ErrorKind::OutOfMemory, "retained file exceeds cache capacity"@))
        } else if self.eviction_failed {
            Some(failure(ErrorKind::Other, "cache eviction failed"@))
        } else {
            None
        }
    }

    /// The books after a request for `bytes`.
    pub open spec fn after_request(self, bytes: int) -> StateView {
        if bytes > self.capacity {
            self
        } else if self.eviction_failed {
            StateView { eviction_failed: false, ..self }
        } else if self.has_room(bytes) {
            self.grown(bytes)
        } else {
            self.waited_on(bytes).checked()
        }
    }

    /// By how much the cache is over its capacity once `requested` more bytes are retained.
    pub open spec fn excess(self, requested: int) -> int {
        if capped_sum(self.size, requested) <= self.capacity {
            0
        } else {
            capped_sum(self.size, requested) - self.capacity
        }
    }

    /// The round of eviction which makes room for `requested` bytes: it offers the least used file
    /// first, and none if there is room.
    pub open spec fn round_for(self, requested: int) -> GcView {
        GcView::start(
            self.excess(requested),
            self.max_file_handles,
            if self.excess(requested) > 0 {
                self.files.reverse()
            } else {
                Seq::empty()
            },
        )
    }

    /// One of the directories that have been loaded overlaps with `path`.
    pub open spec fn overlaps(self, path: Seq<Seq<u8>>) -> bool {
        exists|i: int| 0 <= i < self.roots.len() && overlap(#[trigger] self.roots[i], path)
    }

    /// How many bytes of the disk have to be free before `bytes` are written to it.
    pub open spec fn required_disk_bytes(self, bytes: int) -> int {
        if self.minimum_free_disk_bytes + bytes > u64::MAX {
            u64::MAX as int
        } else {
            self.minimum_free_disk_bytes + bytes
        }
    }
}

impl View for State {
    type V = StateView;

    closed spec fn view(&self) -> StateView {
        StateView {
            files: lfu_entries(self.files),
            size: self.size as int,
            roots: root_views(self.roots@),
            capacity: self.capacity as int,
            max_file_handles: self.max_file_handles as int,
            minimum_free_disk_bytes: self.minimum_free_disk_bytes as int,
            requested: self.requested as int,
            gc_pending: self.gc_pending,
            eviction_failed: self.eviction_failed,
        }
    }
}

impl State {
    /// The books of a new cache.
    pub fn new(capacity: usize, max_file_handles: usize, minimum_free_disk_bytes: u64) -> (state: Self)
        ensures
            state@ == StateView::empty(
                capacity as int,
                max_file_handles as int,
                minimum_free_disk_bytes as int,
            ),
    {
        let state = State {
            files: lfu_new(),
            size: 0,
            roots: Vec::new(),
            capacity,
            max_file_handles,
            minimum_free_disk_bytes,
            requested: 0,
            gc_pending: false,
            eviction_failed: false,
        };
        assert(state@.roots =~= Seq::empty());
        state
    }

    /// How many bytes the cache is meant to retain at most.
    pub fn capacity(&self) -> (capacity: usize)
        ensures
            capacity == self@.capacity,
    {
        self.capacity
    }

    /// How many bytes are retained or reserved.
    pub fn size(&self) -> (size: usize)
        ensures
            size == self@.size,
    {
        self.size
    }

    /// Whether an eviction has to be asked for now. If so, no other is asked for until it is over.
    pub fn check(&mut self) -> (evict: bool)
        ensures
            evict == old(self)@.asks_for_eviction(),
            final(self)@ == old(self)@.checked(),
            evict == ((old(self)@.size > old(self)@.capacity || old(self)@.requested > 0)
                && !old(self)@.gc_pending),
    {
        if (self.size > self.capacity || self.requested > 0) && !self.gc_pending {
            self.gc_pending = true;
            true
        } else {
            false
        }
    }

    /// The eviction that was asked for will not happen.
    pub fn cancel_eviction(&mut self)
        ensures
            final(self)@ == (StateView { gc_pending: false, ..old(self)@ }),
    {
        self.gc_pending = false;
    }

    /// Count a use of the file at `path`, and `file_size` bytes that it now retains. Say whether
    /// the file is ranked.
    pub fn bump(&mut self, path: &FilePath, file_size: Option<usize>) -> (outcome: (bool, bool))
        requires
            old(self)@.wf(),
            old(self)@.size + bytes_in(file_size) <= usize::MAX,
        ensures
            outcome.0 == ranks(old(self)@.files, path@),
            outcome.1 == old(self)@.bumped(path@, bytes_in(file_size)).asks_for_eviction(),
            final(self)@ == old(self)@.bumped(path@, bytes_in(file_size)).checked(),
            final(self)@.wf(),
    {
        proof {
            lemma_raised_is_distinct(self@.files, path@);
        }
        if let Some(bytes) = file_size {
            self.size += bytes;
        }
        let exists = lfu_bump(&mut self.files, path);
        (exists, self.check())
    }

    /// Reserve `bytes`, if they fit. Whoever is told to wait asks again when bytes are released.
    pub fn reserve(&mut self, bytes: usize) -> (outcome: Result<Reserved, Error>)
        requires
            old(self)@.wf(),
            old(self)@.capacity < usize::MAX || old(self)@.size + bytes <= usize::MAX,
        ensures
            final(self)@.wf(),
            final(self)@ == old(self)@.after_request(bytes as int),
            match outcome {
                Err(error) => old(self)@.refusal(bytes as int) == Some(error@),
                Ok(reserved) => {
                    &&& old(self)@.refusal(bytes as int) is None
                    &&& match reserved {
                        Reserved::Granted(reservation) => {
                            &&& old(self)@.has_room(bytes as int)
                            &&& reservation@ == bytes
                        },
                        Reserved::Wait { evict } => {
                            &&& !old(self)@.has_room(bytes as int)
                            &&& evict == old(self)@.waited_on(bytes as int).asks_for_eviction()
                        },
                    }
                },
            },
            bytes > old(self)@.capacity ==> outcome is Err,
            outcome is Ok ==> ((outcome->Ok_0 is Granted) <==> old(self)@.size + bytes
                <= old(self)@.capacity),
            outcome is Ok && outcome->Ok_0 is Granted ==> final(self)@.size == old(self)@.size
                + bytes,
            !(outcome is Ok && outcome->Ok_0 is Granted) ==> final(self)@.size == old(self)@.size,
    {
        if bytes > self.capacity {
            return Err(Error::new(ErrorKind::OutOfMemory, "retained file exceeds cache capacity"));
        }
        if self.eviction_failed {
            self.eviction_failed = false;
            return Err(Error::new(ErrorKind::Other, "cache eviction failed"));
        }
        if self.size.saturating_add(bytes) <= self.capacity {
            self.size += bytes;
            return Ok(Reserved::Granted(Reservation { bytes }));
        }
        if bytes > self.requested {
            self.requested = bytes;
        }
        Ok(Reserved::Wait { evict: self.check() })
    }

    /// Give back bytes that were reserved and are not kept.
    pub fn release(&mut self, reservation: Reservation) -> (signals: Signals)
        requires
            old(self)@.wf(),
            reservation@ <= old(self)@.size,
        ensures
            final(self)@ == old(self)@.grown(-reservation@),
            final(self)@.wf(),
            signals == (Signals { notify: true, evict: false }),
    {
        self.size -= reservation.bytes;
        Signals { notify: true, evict: false }
    }

    /// Rank the file at `path` first, and count the `file_size` bytes that it retains.
    pub fn insert(&mut self, path: FilePath, ticket: u64, file_size: usize) -> (evict: bool)
        requires
            old(self)@.wf(),
            old(self)@.size + file_size <= usize::MAX,
        ensures
            evict == old(self)@.inserted(path@, ticket, file_size as int).asks_for_eviction(),
            final(self)@ == old(self)@.inserted(path@, ticket, file_size as int).checked(),
            final(self)@.wf(),
    {
        proof {
            lemma_with_first_is_distinct(self@.files, path@, ticket);
        }
        lfu_insert(&mut self.files, path, ticket);
        self.size += file_size;
        self.check()
    }

    /// Rank the file at `path` first, for which bytes have been reserved.
    pub fn insert_reserved(&mut self, path: FilePath, ticket: u64, reservation: Reservation)
        requires
            old(self)@.wf(),
        ensures
            final(self)@ == old(self)@.inserted(path@, ticket, 0),
            final(self)@.wf(),
    {
        proof {
            lemma_with_first_is_distinct(self@.files, path@, ticket);
        }
        lfu_insert(&mut self.files, path, ticket);
        reservation.commit();
    }

    /// Forget the file at `path`, which retains `size` bytes.
    pub fn remove(&mut self, path: &FilePath, size: usize) -> (signals: Signals)
        requires
            old(self)@.wf(),
            ranks(old(self)@.files, path@) ==> size <= old(self)@.size,
        ensures
            signals == (Signals {
                notify: ranks(old(self)@.files, path@),
                evict: old(self)@.removed(path@, size as int).asks_for_eviction(),
            }),
            final(self)@ == old(self)@.removed(path@, size as int).checked(),
            final(self)@.wf(),
    {
        proof {
            lemma_without_is_distinct(self@.files, path@);
        }
        let removed = lfu_remove(&mut self.files, path);
        if removed {
            self.size -= size;
        }
        Signals { notify: removed, evict: self.check() }
    }

    /// Count the change in size of a file from `old_size` to `new_size` bytes, if it shrinks. If
    /// it grows, the difference has to be reserved.
    pub fn resize(&mut self, old_size: usize, new_size: usize) -> (resized: Resized)
        requires
            old(self)@.wf(),
            old_size - new_size <= old(self)@.size,
        ensures
            final(self)@.wf(),
            resized == resizing(old_size, new_size),
            final(self)@ == (if resized is Grow {
                old(self)@
            } else {
                old(self)@.grown(new_size - old_size)
            }),
    {
        if new_size > old_size {
            Resized::Grow { bytes: new_size - old_size }
        } else if old_size > new_size {
            self.size -= old_size - new_size;
            Resized::Released
        } else {
            Resized::Unchanged
        }
    }

    /// Say whether `bytes` may be written to a disk on which `available` bytes are free.
    pub fn ensure_disk_capacity(&self, available: u64, bytes: u64) -> (outcome: Result<(), Error>)
        ensures
            is_outcome(outcome, if available < self@.required_disk_bytes(bytes as int) {
                Err(disk_full(self@.minimum_free_disk_bytes as nat))
            } else {
                Ok(())
            }),
            self@.minimum_free_disk_bytes + bytes <= u64::MAX ==> (outcome is Err <==> available
                < self@.minimum_free_disk_bytes + bytes),
    {
        let required = self.minimum_free_disk_bytes.saturating_add(bytes);
        if available < required {
            let mut message = "filesystem free space is below the configured reserve of ".to_owned();
            message.append(to_decimal(self.minimum_free_disk_bytes).as_str());
            message.append(" bytes");
            Err(Error::new(ErrorKind::StorageFull, message.as_str()))
        } else {
            Ok(())
        }
    }

    /// Say whether the directory at `path` may be loaded. `text` is how an error writes the path.
    pub fn load(&self, path: &FilePath, text: &str) -> (outcome: Result<(), Error>)
        ensures
            is_outcome(outcome, if self@.overlaps(path@) {
                Err(already_loaded(text@))
            } else {
                Ok(())
            }),
            outcome is Err <==> exists|i: int|
                0 <= i < self@.roots.len() && ((#[trigger] self@.roots[i]).is_prefix_of(path@)
                    || path@.is_prefix_of(self@.roots[i])),
    {
        let mut i: usize = 0;
        while i < self.roots.len()
            invariant
                i <= self.roots@.len(),
                forall|j: int| 0 <= j < i ==> !overlap(#[trigger] self@.roots[j], path@),
            decreases self.roots@.len() - i,
        {
            assert(self@.roots[i as int] == self.roots@[i as int]@);
            if self.roots[i].starts_with(path) || path.starts_with(&self.roots[i]) {
                let mut message =
                    "called Cache::load on a directory that's already loaded: ".to_owned();
                message.append(text);
                return Err(Error::new(ErrorKind::AlreadyExists, message.as_str()));
            }
            i += 1;
        }
        Ok(())
    }

    /// The directory at `path` has been loaded.
    pub fn add_root(&mut self, path: FilePath)
        ensures
            final(self)@ == (StateView { roots: old(self)@.roots.push(path@), ..old(self)@ }),
    {
        self.roots.push(path);
        assert(self@.roots =~= old(self)@.roots.push(path@));
    }

    /// Begin a round of eviction which makes room for `requested` bytes.
    pub fn gc_for(&self, requested: usize) -> (gc: Gc)
        requires
            self@.wf(),
        ensures
            gc@ == self@.round_for(requested as int),
            self@.size + requested <= self@.capacity ==> gc@.over == 0,
            self@.capacity < self@.size + requested <= usize::MAX ==> gc@.over == self@.size + requested
                - self@.capacity,
            gc@.limit == self@.max_file_handles,
            gc@.over > 0 ==> gc@.candidates == self@.files.reverse(),
    {
        let total = self.size.saturating_add(requested);
        if total <= self.capacity {
            let gc = Gc::new(0, self.max_file_handles, Vec::new());
            assert(gc@.candidates =~= Seq::empty());
            return gc;
        }
        Gc::new(total - self.capacity, self.max_file_handles, lfu_least_used(&self.files))
    }

    /// Begin the eviction that has been asked for.
    pub fn begin_eviction(&mut self) -> (gc: Gc)
        requires
            old(self)@.wf(),
        ensures
            gc@ == old(self)@.round_for(old(self)@.requested),
            final(self)@ == (StateView { requested: 0, ..old(self)@ }),
            final(self)@.wf(),
            old(self)@.capacity < old(self)@.size + old(self)@.requested <= usize::MAX ==> gc@.over
                == old(self)@.size + old(self)@.requested - old(self)@.capacity,
    {
        let requested = self.requested;
        self.requested = 0;
        self.gc_for(requested)
    }

    /// Record what became of the eviction of a file.
    pub fn evicted(&mut self, outcome: Result<(), Error>)
        ensures
            final(self)@ == (StateView {
                eviction_failed: old(self)@.eviction_failed || outcome is Err,
                ..old(self)@
            }),
    {
        if outcome.is_err() {
            self.eviction_failed = true;
        }
    }

    /// Every eviction of the round `gc` has come to its end. If there were any, another may be
    /// asked for.
    pub fn end_eviction(&mut self, gc: &Gc) -> (signals: Signals)
        requires
            old(self)@.wf(),
        ensures
            signals.notify,
            signals.evict == (gc@.evictions > 0 && old(self)@.crowded()),
            final(self)@ == (StateView {
                gc_pending: gc@.evictions > 0 && old(self)@.crowded(),
                ..old(self)@
            }),
            final(self)@.wf(),
            signals.evict == (gc@.evictions > 0 && (old(self)@.size > old(self)@.capacity || old(self)@.requested > 0)),
    {
        self.gc_pending = false;
        let evict = if gc.has_evictions() {
            self.check()
        } else {
            false
        };
        Signals { notify: true, evict }
    }
}

/// Bytes that are given back leave the books as they were before they were reserved.
pub proof fn lemma_release_undoes_reserve(state: StateView, bytes: int)
    requires
        state.refusal(bytes) is None,
        state.has_room(bytes),
    ensures
        state.after_request(bytes).grown(-bytes) == state,
{
}

/// No reservation brings a cache over its capacity.
pub proof fn lemma_reserve_keeps_to_capacity(state: StateView, bytes: int)
    requires
        state.wf(),
        0 <= bytes,
        state.size + bytes <= usize::MAX || state.capacity < usize::MAX,
        state.size <= state.capacity,
    ensures
        state.after_request(bytes).size <= state.capacity,
{
}

/// What does not fit into the whole cache is refused, and nothing changes.
pub proof fn lemma_oversized_is_refused(state: StateView, bytes: int)
    requires
        bytes > state.capacity,
    ensures
        state.refusal(bytes) matches Some(error) && error.kind == ErrorKind::OutOfMemory,
        state.after_request(bytes) == state,
{
}

/// An eviction that has failed is told of once: to the next who asks for bytes that could fit.
pub proof fn lemma_failed_eviction_is_told_once(state: StateView, bytes: int)
    requires
        state.eviction_failed,
        bytes <= state.capacity,
    ensures
        state.refusal(bytes) matches Some(error) && error.kind == ErrorKind::Other,
        state.after_request(bytes).refusal(bytes) is None,
{
}

/// Once an eviction has been asked for, none is asked for again until it is over, whatever
/// happens to the files and their sizes.
pub proof fn lemma_evictions_are_coalesced(
    state: StateView,
    path: Seq<Seq<u8>>,
    ticket: u64,
    bytes: int,
)
    ensures
        !state.checked().asks_for_eviction(),
        state.gc_pending ==> {
            &&& !state.bumped(path, bytes).checked().asks_for_eviction()
            &&& !state.inserted(path, ticket, bytes).checked().asks_for_eviction()
            &&& !state.removed(path, bytes).checked().asks_for_eviction()
            &&& !state.waited_on(bytes).checked().asks_for_eviction()
            &&& !state.bumped(path, bytes).asks_for_eviction()
            &&& !state.inserted(path, ticket, bytes).asks_for_eviction()
            &&& !state.removed(path, bytes).asks_for_eviction()
            &&& !state.waited_on(bytes).asks_for_eviction()
        },
{
}

/// Forgetting a file undoes that it was ranked.
pub proof fn lemma_remove_undoes_insert(
    state: StateView,
    path: Seq<Seq<u8>>,
    ticket: u64,
    bytes: int,
)
    requires
        distinct(state.files),
        !ranks(state.files, path),
    ensures
        state.inserted(path, ticket, bytes).removed(path, bytes) == state,
{
    let files = with_first(state.files, path, ticket);
    assert(files[0].0 == path);
    assert(ranks(files, path));
    assert(without(files, path) =~= state.files);
}

/// A round of eviction which releases as much as it has to makes room for whoever waits.
pub proof fn lemma_round_makes_room(state: StateView, bytes: int, released: int)
    requires
        state.wf(),
        0 <= bytes <= state.requested,
        state.size + state.requested <= usize::MAX,
        state.excess(state.requested) <= released <= state.size,
    ensures
        state.grown(-released).has_room(bytes),
{
}

/// Whoever waits for bytes is counted: the next round of eviction makes room for no fewer.
pub proof fn lemma_waiting_is_counted(state: StateView, bytes: int)
    ensures
        state.waited_on(bytes).requested >= bytes,
        state.waited_on(bytes).requested >= state.requested,
        bytes > 0 ==> state.waited_on(bytes).crowded(),
{
}

/// No two of the directories overlap.
pub open spec fn disjoint(roots: Seq<Seq<Seq<u8>>>) -> bool {
    forall|i: int, j: int|
        0 <= i < j < roots.len() ==> !overlap(#[trigger] roots[i], #[trigger] roots[j])
}

/// The directories that have been loaded never overlap, as long as none is loaded that may not be.
pub proof fn lemma_roots_are_disjoint(state: StateView, path: Seq<Seq<u8>>)
    requires
        disjoint(state.roots),
        !state.overlaps(path),
    ensures
        disjoint(state.roots.push(path)),
{
}

/// A directory that has been loaded may not be loaded again, nor may any directory above it or
/// under it.
pub proof fn lemma_loaded_is_not_loaded_again(
    state: StateView,
    path: Seq<Seq<u8>>,
    other: Seq<Seq<u8>>,
)
    requires
        overlap(path, other),
    ensures
        (StateView { roots: state.roots.push(path), ..state }).overlaps(other),
{
    let after = StateView { roots: state.roots.push(path), ..state };
    assert(overlap(after.roots[state.roots.len() as int], other));
}

} // verus!
