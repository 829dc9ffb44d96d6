//! A file of a cache: whether it is in memory, whether it has changed since it was read, and what
//! each operation on it has to do.
use std::sync::Arc;

use vstd::prelude::*;
use vstd::string::*;

use crate::cache::{settled, Cache, ChannelsView, CleanupStopped};
use crate::error::{
    deleted, deleted_view, failure, invalid_data, is_outcome, would_block, Error,
    ErrorKind, ErrorView,
};
use crate::lfu::{raised, ranks};
use crate::path::{is_tmp_path, FilePath};
use crate::persist::{Persist, PersistStage, Persisted};
use crate::state::{disk_full, resizing, Reservation, Resized, StateView};

verus! {

/// What is known of a file.
#[derive(Debug, Clone, Copy, PartialEq, Eq, Structural)]
pub enum FileLockState {
    /// The file is on the disk only.
    Pending,
    /// The file is in memory as it is on the disk, and retains this many bytes.
    Read(usize),
    /// The file has changed in memory, and retains this many bytes.
    Modified(usize),
    /// The file has been deleted. Whether it has to be removed from the disk, too.
    Deleted(bool),
}

/// How many bytes a file retains.
pub open spec fn retained(state: FileLockState) -> int {
    match state {
        FileLockState::Read(size) => size as int,
        FileLockState::Modified(size) => size as int,
        _ => 0,
    }
}

impl FileLockState {
    /// The file is in memory.
    pub open spec fn loaded(self) -> bool {
        self is Read || self is Modified
    }

    /// Whether the file has been deleted.
    pub fn is_deleted(&self) -> (is: bool)
        ensures
            is == (self is Deleted),
    {
        matches!(self, FileLockState::Deleted(_))
    }

    /// Whether the file is in memory.
    pub fn is_loaded(&self) -> (is: bool)
        ensures
            is == self.loaded(),
    {
        matches!(self, FileLockState::Read(_) | FileLockState::Modified(_))
    }

    /// Whether the file is on the disk only.
    pub fn is_pending(&self) -> (is: bool)
        ensures
            is == (self is Pending),
    {
        matches!(self, FileLockState::Pending)
    }

    /// The file, which is in memory, changes.
    pub fn upgrade(&mut self)
        requires
            old(self).loaded(),
        ensures
            *final(self) == FileLockState::Modified(retained(*old(self)) as usize),
    {
        let size = self.size();
        *self = FileLockState::Modified(size);
    }

    /// How many bytes the file retains.
    pub fn size(&self) -> (size: usize)
        ensures
            size == retained(*self),
    {
        match self {
            FileLockState::Read(size) => *size,
            FileLockState::Modified(size) => *size,
            _ => 0,
        }
    }
}

/// A file, as a cache knows it.
#[derive(Debug)]
pub struct FileLock {
    path: FilePath,
    state: FileLockState,
}

/// What a file is locked for.
#[derive(Debug, Clone, Copy, PartialEq, Eq, Structural)]
pub enum Access {
    Read,
    Write,
}

/// What has to be done to lock a file.
#[derive(Debug, Clone, Copy, PartialEq, Eq, Structural)]
pub enum Locking {
    /// Load the file.
    Load,
    /// Nothing: the file is in memory.
    Cached,
    /// The file is in memory, but nobody is left to evict files.
    Stopped,
}

/// What has to be done to back a file up.
#[derive(Debug, Clone, Copy, PartialEq, Eq, Structural)]
pub enum Syncing {
    /// Nothing.
    Nothing,
    /// Write the file back.
    WriteBack,
    /// Remove the file from the disk, if it is there.
    Unlink,
}

/// What has to be done to overwrite a file with another.
#[derive(Debug, Clone, Copy, PartialEq, Eq, Structural)]
pub enum Overwriting {
    /// Copy the other file on the disk.
    CopyFile,
    /// Copy the contents of the other file in memory, then count the change in size.
    CopyContents { old_size: usize, new_size: usize },
    /// Nothing.
    Nothing,
}

/// A file which has been written back, and is larger than it was thought to be.
#[derive(Debug)]
pub struct Growth {
    persisted: Persisted,
    bytes: usize,
}

impl Growth {
    /// The path of the file.
    pub closed spec fn path(&self) -> Seq<Seq<u8>> {
        self.persisted.path()
    }

    /// How many bytes the file retains from now on.
    pub closed spec fn new_size(&self) -> usize {
        self.persisted.size() as usize
    }

    /// How many bytes more that is.
    pub closed spec fn spec_bytes(&self) -> usize {
        self.bytes
    }

    /// How many bytes have to be reserved for the file.
    #[verifier::when_used_as_spec(spec_bytes)]
    pub fn bytes(&self) -> (bytes: usize)
        ensures
            bytes == self.bytes(),
    {
        self.bytes
    }
}

/// The bytes of a file which has left memory.
#[derive(Debug)]
pub struct Evicted {
    size: usize,
}

impl View for Evicted {
    type V = int;

    closed spec fn view(&self) -> int {
        self.size as int
    }
}

impl Evicted {
    /// How many bytes the file retained.
    pub fn size(&self) -> (size: usize)
        ensures
            size == self@,
    {
        self.size
    }

    /// Count that the bytes are no longer retained.
    pub fn count(self, cache: &mut Cache) -> (resized: Resized)
        requires
            old(cache)@.wf(),
            self@ <= old(cache)@.size,
        ensures
            final(cache)@.wf(),
            final(cache)@ == old(cache)@.grown(-self@),
            resized == resizing(self@ as usize, 0),
            final(cache).channels() == old(cache).channels().signalled(self@ > 0, None),
    {
        cache.resize(self.size, 0)
    }
}

/// The state of a file once it is locked.
pub open spec fn locked(state: FileLockState, access: Access) -> FileLockState {
    match access {
        Access::Read => state,
        Access::Write => FileLockState::Modified(retained(state) as usize),
    }
}

/// The state of a file once it is loaded.
pub open spec fn loaded_for(access: Access, size: usize) -> FileLockState {
    match access {
        Access::Read => FileLockState::Read(size),
        Access::Write => FileLockState::Modified(size),
    }
}

/// The state of a file once it has been written back, and retains `size` bytes.
pub open spec fn saved_as(size: usize) -> FileLockState {
    FileLockState::Read(size)
}

/// The state of a file once it has left memory.
pub open spec fn evicted_from(state: FileLockState) -> FileLockState {
    FileLockState::Pending
}

/// The state of a file once it has been deleted, by itself or with its directory.
pub open spec fn deleted_from(state: FileLockState, file_only: bool) -> FileLockState {
    if state is Deleted {
        state
    } else {
        FileLockState::Deleted(file_only)
    }
}

/// The state of a file which has been deleted once it is no longer on the disk.
pub open spec fn unlinked_from(state: FileLockState) -> FileLockState {
    FileLockState::Deleted(false)
}

/// The state of a file once it has been overwritten with one in the state `other`.
pub open spec fn overwritten_by(other: FileLockState) -> FileLockState {
    match other {
        FileLockState::Pending => FileLockState::Pending,
        FileLockState::Deleted(_) => FileLockState::Deleted(true),
        state => FileLockState::Modified(retained(state) as usize),
    }
}

/// What has to be done to back up a file in this state.
pub open spec fn syncs(state: FileLockState) -> Syncing {
    match state {
        FileLockState::Modified(_) => Syncing::WriteBack,
        FileLockState::Deleted(true) => Syncing::Unlink,
        _ => Syncing::Nothing,
    }
}

/// How many of the bytes that a cache counts are not retained by a file in this state.
pub open spec fn balance(cache: StateView, state: FileLockState) -> int {
    cache.size - retained(state)
}

/// The error for locking a file without waiting which is not in memory.
pub open spec fn not_cached() -> ErrorView {
    failure(ErrorKind::WouldBlock, "this file is not in the cache"@)
}

/// What locking the file at `path` does, to the state of the file, and to the books and the channels
/// of its cache: a file which has been deleted is not locked; for one which is not in memory the
/// outcome is `absent`; one which is in memory is locked, and its use is counted.
pub open spec fn locks(
    path: Seq<Seq<u8>>,
    access: Access,
    absent: Result<Locking, ErrorView>,
    before: (FileLockState, StateView, ChannelsView),
    after: (FileLockState, StateView, ChannelsView),
    outcome: Result<Locking, Error>,
) -> bool {
    match before.0 {
        FileLockState::Deleted(_) => is_outcome(outcome, Err(deleted_view())) && after == before,
        FileLockState::Pending => is_outcome(outcome, absent) && after == before,
        state => {
            &&& outcome matches Ok(locking)
            &&& locking is Cached || locking is Stopped
            &&& after.0 == locked(state, access)
            &&& settled(
                before.1.bumped(path, 0),
                false,
                before.2,
                (after.1, after.2),
                locking is Stopped,
            )
        },
    }
}

impl FileLock {
    /// The path of this file.
    pub closed spec fn spec_path(&self) -> Seq<Seq<u8>> {
        self.path@
    }

    /// The number of leading components of the path which are its root.
    pub closed spec fn anchor(&self) -> int {
        self.path.anchor as int
    }

    /// What is known of this file.
    pub closed spec fn spec_state(&self) -> FileLockState {
        self.state
    }

    /// This is the same file as `other`, in whatever state.
    pub open spec fn is_file(&self, other: FileLock) -> bool {
        self.spec_path() == other.spec_path() && self.anchor() == other.anchor()
    }

    /// A file whose contents, of `size` bytes, are in memory and have not been saved.
    pub fn new(path: FilePath, size: usize) -> (file: Self)
        ensures
            file.spec_path() == path@,
            file.anchor() == path.anchor,
            file.state() == FileLockState::Modified(size),
    {
        FileLock { path, state: FileLockState::Modified(size) }
    }

    /// A file which is on the disk.
    pub fn load(path: FilePath) -> (file: Self)
        ensures
            file.spec_path() == path@,
            file.anchor() == path.anchor,
            file.state() == FileLockState::Pending,
    {
        FileLock { path, state: FileLockState::Pending }
    }

    /// The path of this file.
    pub fn path(&self) -> (path: &FilePath)
        ensures
            path@ == self.spec_path(),
            path.anchor == self.anchor(),
    {
        &self.path
    }

    /// What is known of this file.
    #[verifier::when_used_as_spec(spec_state)]
    pub fn state(&self) -> (state: FileLockState)
        ensures
            state == self.state(),
    {
        self.state
    }

    /// Count a use of this file.
    fn count_use(&self, cache: &mut Cache) -> (locking: Locking)
        requires
            old(cache)@.wf(),
        ensures
            final(cache)@.wf(),
            locking is Cached || locking is Stopped,
            settled(
                old(cache)@.bumped(self.spec_path(), 0),
                false,
                old(cache).channels(),
                (final(cache)@, final(cache).channels()),
                locking is Stopped,
            ),
    {
        match cache.bump(&self.path, None) {
            Ok(_) => Locking::Cached,
            Err(_) => Locking::Stopped,
        }
    }

    /// Lock this file for reading. A file which is not in memory has to be loaded.
    pub fn read(&self, cache: &mut Cache) -> (outcome: Result<Locking, Error>)
        requires
            old(cache)@.wf(),
        ensures
            final(cache)@.wf(),
            locks(
                self.spec_path(),
                Access::Read,
                Ok(Locking::Load),
                (self.state(), old(cache)@, old(cache).channels()),
                (self.state(), final(cache)@, final(cache).channels()),
                outcome,
            ),
            self.state() is Read || self.state() is Modified ==> final(cache)@.files == raised(
                old(cache)@.files,
                self.spec_path(),
            ),
            self.state() is Pending || self.state() is Deleted ==> final(cache)@ == old(cache)@,
    {
        if self.state.is_deleted() {
            Err(deleted())
        } else if self.state.is_pending() {
            Ok(Locking::Load)
        } else {
            Ok(self.count_use(cache))
        }
    }

    /// Lock this file for reading without waiting, which cannot be done if it is not in memory.
    pub fn try_read(&self, cache: &mut Cache) -> (outcome: Result<Locking, Error>)
        requires
            old(cache)@.wf(),
        ensures
            final(cache)@.wf(),
            locks(
                self.spec_path(),
                Access::Read,
                Err(not_cached()),
                (self.state(), old(cache)@, old(cache).channels()),
                (self.state(), final(cache)@, final(cache).channels()),
                outcome,
            ),
            self.state() is Read || self.state() is Modified ==> final(cache)@.files == raised(
                old(cache)@.files,
                self.spec_path(),
            ),
            self.state() is Pending || self.state() is Deleted ==> final(cache)@ == old(cache)@,
    {
        match self.state {
            FileLockState::Pending => Err(would_block("this file is not in the cache")),
            FileLockState::Deleted(_) => Err(deleted()),
            _ => Ok(self.count_use(cache)),
        }
    }

    /// Lock this file for writing. A file which is not in memory has to be loaded.
    pub fn write(&mut self, cache: &mut Cache) -> (outcome: Result<Locking, Error>)
        requires
            old(cache)@.wf(),
        ensures
            final(cache)@.wf(),
            final(self).is_file(*old(self)),
            locks(
                old(self).spec_path(),
                Access::Write,
                Ok(Locking::Load),
                (old(self).state(), old(cache)@, old(cache).channels()),
                (final(self).state(), final(cache)@, final(cache).channels()),
                outcome,
            ),
            old(self).state() is Read || old(self).state() is Modified ==> {
                &&& final(cache)@.files == raised(old(cache)@.files, old(self).spec_path())
                &&& final(self).state() is Modified
            },
            old(self).state() is Pending || old(self).state() is Deleted ==> {
                &&& final(cache)@ == old(cache)@
                &&& final(self).state() == old(self).state()
            },
    {
        if self.state.is_deleted() {
            Err(deleted())
        } else if self.state.is_pending() {
            Ok(Locking::Load)
        } else {
            self.state.upgrade();
            Ok(self.count_use(cache))
        }
    }

    /// Lock this file for writing without waiting, which cannot be done if it is not in memory.
    pub fn try_write(&mut self, cache: &mut Cache) -> (outcome: Result<Locking, Error>)
        requires
            old(cache)@.wf(),
        ensures
            final(cache)@.wf(),
            final(self).is_file(*old(self)),
            locks(
                old(self).spec_path(),
                Access::Write,
                Err(not_cached()),
                (old(self).state(), old(cache)@, old(cache).channels()),
                (final(self).state(), final(cache)@, final(cache).channels()),
                outcome,
            ),
            old(self).state() is Read || old(self).state() is Modified ==> {
                &&& final(cache)@.files == raised(old(cache)@.files, old(self).spec_path())
                &&& final(self).state() is Modified
            },
            old(self).state() is Pending || old(self).state() is Deleted ==> {
                &&& final(cache)@ == old(cache)@
                &&& final(self).state() == old(self).state()
            },
    {
        if self.state.is_pending() {
            Err(would_block("this file is not in the cache"))
        } else if self.state.is_deleted() {
            Err(deleted())
        } else {
            self.state.upgrade();
            Ok(self.count_use(cache))
        }
    }

    /// This file has been loaded for `access`, into the bytes of `reservation`.
    pub fn loaded(&mut self, cache: &mut Cache, access: Access, reservation: Reservation) -> (outcome:
        Result<(), CleanupStopped>)
        requires
            old(cache)@.wf(),
            old(self).state() is Pending,
        ensures
            final(cache)@.wf(),
            final(self).is_file(*old(self)),
            final(self).state() == loaded_for(access, reservation@ as usize),
            settled(
                old(cache)@.bumped(old(self).spec_path(), 0),
                false,
                old(cache).channels(),
                (final(cache)@, final(cache).channels()),
                outcome is Err,
            ),
            balance(final(cache)@, final(self).state()) == balance(old(cache)@, old(self).state())
                - reservation@,
            final(cache)@.files == raised(old(cache)@.files, old(self).spec_path()),
            match access {
                Access::Read => final(self).state() == FileLockState::Read(reservation@ as usize),
                Access::Write => final(self).state() == FileLockState::Modified(
                    reservation@ as usize,
                ),
            },
    {
        let size = reservation.commit();
        let outcome = match cache.bump(&self.path, None) {
            Ok(_) => Ok(()),
            Err(stopped) => Err(stopped),
        };
        self.state = match access {
            Access::Read => FileLockState::Read(size),
            Access::Write => FileLockState::Modified(size),
        };
        outcome
    }

    /// Back this file up to the disk.
    pub fn sync(&self) -> (syncing: Syncing)
        ensures
            syncing == syncs(self.state()),
            match self.state() {
                FileLockState::Pending => syncing is Nothing,
                FileLockState::Read(_) => syncing is Nothing,
                FileLockState::Modified(_) => syncing is WriteBack,
                FileLockState::Deleted(unlink) => syncing == (if unlink {
                    Syncing::Unlink
                } else {
                    Syncing::Nothing
                }),
            },
    {
        match self.state {
            FileLockState::Pending => Syncing::Nothing,
            FileLockState::Read(_) => Syncing::Nothing,
            FileLockState::Modified(_) => Syncing::WriteBack,
            FileLockState::Deleted(needs_sync) => if needs_sync {
                Syncing::Unlink
            } else {
                Syncing::Nothing
            },
        }
    }

    /// Begin to write this file back to a disk on which `available` bytes are free.
    pub fn write_back(&self, cache: &Cache, available: u64) -> (outcome: Result<Persist, Error>)
        ensures
            match outcome {
                Ok(persist) => {
                    &&& available >= cache@.required_disk_bytes(retained(self.state()))
                    &&& persist.path() == self.spec_path()
                    &&& persist.anchor() == self.anchor()
                    &&& is_tmp_path(self.spec_path(), self.anchor(), persist.tmp())
                    &&& persist.stage() == PersistStage::Probe
                },
                Err(error) => {
                    &&& available < cache@.required_disk_bytes(retained(self.state()))
                    &&& error@ == disk_full(cache@.minimum_free_disk_bytes as nat)
                },
            },
    {
        match cache.ensure_disk_capacity(available, self.state.size() as u64) {
            Ok(()) => Ok(Persist::new(&self.path)),
            Err(error) => Err(error),
        }
    }

    /// This file, which had changed, has been written back. If it has grown, the bytes by which it
    /// has have to be reserved.
    pub fn saved(&mut self, cache: &mut Cache, persisted: Persisted) -> (growth: Option<Growth>)
        requires
            old(cache)@.wf(),
            old(self).state() is Modified,
            retained(old(self).state()) - persisted.size() as usize <= old(cache)@.size,
            persisted.path() == old(self).spec_path(),
        ensures
            final(cache)@.wf(),
            final(self).is_file(*old(self)),
            ({
                let old_size = retained(old(self).state());
                let new_size = persisted.size() as usize;
                if new_size > old_size {
                    &&& growth matches Some(growth)
                    &&& growth.path() == old(self).spec_path()
                    &&& growth.bytes() == new_size - old_size
                    &&& growth.new_size() == new_size
                    &&& final(self).state() == old(self).state()
                    &&& final(cache)@ == old(cache)@
                    &&& final(cache).channels() == old(cache).channels()
                } else {
                    &&& growth is None
                    &&& final(self).state() == saved_as(new_size)
                    &&& final(cache)@ == old(cache)@.grown(new_size - old_size)
                    &&& final(cache).channels() == old(cache).channels().signalled(
                        new_size < old_size,
                        None,
                    )
                }
            }),
            balance(final(cache)@, final(self).state()) == balance(
                old(cache)@,
                old(self).state(),
            ),
    {
        let size = persisted.size() as usize;
        match cache.resize(self.state.size(), size) {
            Resized::Grow { bytes } => Some(Growth { persisted, bytes }),
            _ => {
                self.state = FileLockState::Read(size);
                None
            },
        }
    }

    /// This file, which had changed, has been written back, and the bytes by which it has grown
    /// have been reserved.
    pub fn saved_grown(&mut self, growth: Growth, reservation: Reservation)
        requires
            old(self).state() is Modified,
            growth.path() == old(self).spec_path(),
            retained(old(self).state()) + reservation@ == growth.new_size(),
        ensures
            final(self).is_file(*old(self)),
            final(self).state() == saved_as(growth.new_size()),
            retained(final(self).state()) == retained(old(self).state()) + reservation@,
            final(self).state() is Read,
    {
        reservation.commit();
        self.state = FileLockState::Read(growth.persisted.size() as usize);
    }

    /// This file, which has been deleted, is no longer on the disk.
    pub fn unlinked(&mut self)
        requires
            old(self).state() is Deleted,
        ensures
            final(self).is_file(*old(self)),
            final(self).state() == unlinked_from(old(self).state()),
            final(self).state() == FileLockState::Deleted(false),
    {
        self.state = FileLockState::Deleted(false);
    }

    /// Delete this file. `file_only` says that it has to be removed from the disk by itself, and
    /// not with its directory.
    pub fn delete(&mut self, cache: &mut Cache, file_only: bool) -> (outcome: Result<
        (),
        CleanupStopped,
    >)
        requires
            old(cache)@.wf(),
            ranks(old(cache)@.files, old(self).spec_path()) ==> retained(old(self).state())
                <= old(cache)@.size,
        ensures
            final(cache)@.wf(),
            final(self).is_file(*old(self)),
            final(self).state() == deleted_from(old(self).state(), file_only),
            if old(self).state() is Deleted {
                &&& outcome is Ok
                &&& final(cache)@ == old(cache)@
                &&& final(cache).channels() == old(cache).channels()
            } else {
                settled(
                    old(cache)@.removed(old(self).spec_path(), retained(old(self).state())),
                    ranks(old(cache)@.files, old(self).spec_path()),
                    old(cache).channels(),
                    (final(cache)@, final(cache).channels()),
                    outcome is Err,
                )
            },
            ranks(old(cache)@.files, old(self).spec_path()) ==> balance(
                final(cache)@,
                final(self).state(),
            ) == balance(old(cache)@, old(self).state()),
            !(old(self).state() is Deleted) ==> final(self).state() == FileLockState::Deleted(
                file_only,
            ),
            old(self).state() is Deleted ==> final(self).state() == old(self).state(),
    {
        if self.state.is_deleted() {
            return Ok(());
        }
        let outcome = cache.remove(&self.path, self.state.size());
        self.state = FileLockState::Deleted(file_only);
        outcome
    }

    /// Say whether this file can be evicted, and how many bytes that releases. `contents_free`
    /// says that nobody uses its contents.
    pub fn evict(&self, contents_free: bool) -> (size: Option<usize>)
        requires
            !(self.state() is Deleted),
        ensures
            size == (if self.state().loaded() && contents_free {
                Some(retained(self.state()) as usize)
            } else {
                None
            }),
            match self.state() {
                FileLockState::Read(bytes) => size == (if contents_free {
                    Some(bytes)
                } else {
                    None
                }),
                FileLockState::Modified(bytes) => size == (if contents_free {
                    Some(bytes)
                } else {
                    None
                }),
                _ => size is None,
            },
    {
        if self.state.is_pending() || !contents_free {
            None
        } else {
            Some(self.state.size())
        }
    }

    /// This file leaves memory. If it had changed, it has been written back. The bytes which it
    /// retained are still counted.
    pub fn evicted(&mut self, persisted: Option<Persisted>) -> (evicted: Evicted)
        requires
            old(self).state().loaded(),
            syncs(old(self).state()) is WriteBack ==> persisted is Some,
            persisted matches Some(persisted) ==> persisted.path() == old(self).spec_path(),
        ensures
            final(self).is_file(*old(self)),
            final(self).state() == evicted_from(old(self).state()),
            evicted@ == retained(old(self).state()),
            final(self).state() is Pending,
    {
        let size = self.state.size();
        self.state = FileLockState::Pending;
        Evicted { size }
    }

    /// Replace the contents of this file with those of `other`.
    pub fn overwrite(&mut self, cache: &mut Cache, other: &FileLock) -> (overwriting: Overwriting)
        requires
            old(cache)@.wf(),
            other.state() is Deleted ==> retained(old(self).state()) <= old(cache)@.size,
        ensures
            final(cache)@.wf(),
            final(self).is_file(*old(self)),
            match other.state() {
                FileLockState::Pending => {
                    &&& overwriting is CopyFile
                    &&& final(self).state() == old(self).state()
                    &&& final(cache)@ == old(cache)@
                    &&& final(cache).channels() == old(cache).channels()
                },
                FileLockState::Deleted(_) => {
                    &&& overwriting is Nothing
                    &&& final(self).state() == overwritten_by(other.state())
                    &&& final(cache)@ == old(cache)@.grown(-retained(old(self).state()))
                    &&& final(cache).channels() == old(cache).channels().signalled(
                        retained(old(self).state()) > 0,
                        None,
                    )
                },
                state => {
                    &&& overwriting == (Overwriting::CopyContents {
                        old_size: retained(old(self).state()) as usize,
                        new_size: retained(state) as usize,
                    })
                    &&& final(self).state() == overwritten_by(other.state())
                    &&& final(cache)@ == old(cache)@
                    &&& final(cache).channels() == old(cache).channels()
                },
            },
            other.state() is Deleted ==> final(self).state() == FileLockState::Deleted(true),
            other.state() matches FileLockState::Read(size) ==> final(self).state()
                == FileLockState::Modified(size),
            other.state() matches FileLockState::Modified(size) ==> final(self).state()
                == FileLockState::Modified(size),
    {
        let old_size = self.state.size();
        match other.state {
            FileLockState::Pending => Overwriting::CopyFile,
            FileLockState::Deleted(_) => {
                self.state = FileLockState::Deleted(true);
                cache.resize(old_size, 0);
                Overwriting::Nothing
            },
            FileLockState::Read(new_size) | FileLockState::Modified(new_size) => {
                self.state = FileLockState::Modified(new_size);
                Overwriting::CopyContents { old_size, new_size }
            },
        }
    }

    /// The file that replaces this one has been copied on the disk.
    pub fn copied(&mut self, cache: &mut Cache) -> (resized: Resized)
        requires
            old(cache)@.wf(),
            retained(old(self).state()) <= old(cache)@.size,
        ensures
            final(cache)@.wf(),
            final(self).is_file(*old(self)),
            final(self).state() == overwritten_by(FileLockState::Pending),
            final(cache)@ == old(cache)@.grown(-retained(old(self).state())),
            resized == resizing(retained(old(self).state()) as usize, 0),
            final(cache).channels() == old(cache).channels().signalled(
                retained(old(self).state()) > 0,
                None,
            ),
            balance(final(cache)@, final(self).state()) == balance(
                old(cache)@,
                old(self).state(),
            ),
            final(self).state() is Pending,
    {
        let size = self.state.size();
        self.state = FileLockState::Pending;
        cache.resize(size, 0)
    }
}

/// How many bytes a number of files retain together.
pub open spec fn retained_by(files: Seq<FileLockState>) -> int
    decreases files.len(),
{
    if files.len() == 0 {
        0
    } else {
        retained_by(files.drop_last()) + retained(files.last())
    }
}

proof fn lemma_retained_by_update(files: Seq<FileLockState>, i: int, state: FileLockState)
    requires
        0 <= i < files.len(),
    ensures
        retained_by(files.update(i, state)) == retained_by(files) - retained(files[i]) + retained(
            state,
        ),
    decreases files.len(),
{
    let updated = files.update(i, state);
    if i == files.len() - 1 {
        assert(updated.drop_last() =~= files.drop_last());
    } else {
        assert(updated.drop_last() =~= files.drop_last().update(i, state));
        lemma_retained_by_update(files.drop_last(), i, state);
    }
}

/// A cache counts the bytes that its files retain, and those that are reserved. Whatever keeps the
/// balance of one file, but for `kept` bytes that had been reserved and are now retained, keeps
/// the books of the whole cache balanced.
pub proof fn lemma_books_stay_balanced(
    before: StateView,
    after: StateView,
    files: Seq<FileLockState>,
    i: int,
    state: FileLockState,
    reserved: int,
    kept: int,
)
    requires
        0 <= i < files.len(),
        before.size == retained_by(files) + reserved,
        balance(after, state) == balance(before, files[i]) - kept,
    ensures
        after.size == retained_by(files.update(i, state)) + (reserved - kept),
{
    lemma_retained_by_update(files, i, state);
}

/// Locking a file changes neither how many bytes it retains nor how many its cache counts.
pub proof fn lemma_locking_keeps_balance(
    path: Seq<Seq<u8>>,
    access: Access,
    absent: Result<Locking, ErrorView>,
    before: (FileLockState, StateView, ChannelsView),
    after: (FileLockState, StateView, ChannelsView),
    outcome: Result<Locking, Error>,
)
    requires
        locks(path, access, absent, before, after, outcome),
    ensures
        retained(after.0) == retained(before.0),
        after.1.size == before.1.size,
        balance(after.1, after.0) == balance(before.1, before.0),
{
}

/// Once the change in size of a file which was overwritten has been counted, the file is balanced.
pub proof fn lemma_overwriting_keeps_balance(cache: StateView, state: FileLockState, new_size: usize)
    ensures
        balance(cache.grown(new_size - retained(state)), FileLockState::Modified(new_size))
            == balance(cache, state),
{
}

/// Once the bytes of a file which was evicted have been counted, the file is balanced.
pub proof fn lemma_eviction_keeps_balance(cache: StateView, state: FileLockState)
    ensures
        balance(cache.grown(-retained(state)), FileLockState::Pending) == balance(cache, state),
{
}

/// A file which has been backed up is as it is on the disk: there is nothing to back up until it
/// changes. One which changes has to be backed up.
pub proof fn lemma_sync_is_idempotent(size: usize)
    ensures
        syncs(FileLockState::Read(size)) == Syncing::Nothing,
        syncs(FileLockState::Pending) == Syncing::Nothing,
        syncs(FileLockState::Deleted(false)) == Syncing::Nothing,
        syncs(locked(FileLockState::Read(size), Access::Write)) == Syncing::WriteBack,
        syncs(loaded_for(Access::Write, size)) == Syncing::WriteBack,
        syncs(locked(FileLockState::Read(size), Access::Read)) == Syncing::Nothing,
        syncs(loaded_for(Access::Read, size)) == Syncing::Nothing,
{
}

/// Locking a file does not forget that it has changed, nor how much it retains.
pub proof fn lemma_locking_keeps_changes(state: FileLockState, access: Access)
    requires
        state.loaded(),
    ensures
        locked(state, access).loaded(),
        retained(locked(state, access)) == retained(state),
        state is Modified ==> locked(state, access) == state,
        access == Access::Write ==> locked(state, access) is Modified,
{
}

/// The error for a file which is not on the disk. It names the file if it is told the path.
pub open spec fn missing(path: Option<Seq<char>>) -> ErrorView {
    failure(
        ErrorKind::NotFound,
        match path {
            Some(path) => "there is no file at "@ + path,
            None => "the requested file is not in cache and does not exist on the filesystem"@,
        },
    )
}

/// The text of an optional path.
pub open spec fn text_of(path: Option<&str>) -> Option<Seq<char>> {
    match path {
        Some(path) => Some(path@),
        None => None,
    }
}

/// Say why a file could not be opened.
pub fn open_failed(cause: Error, path: Option<&str>) -> (error: Error)
    ensures
        error@ == (if cause@.kind == ErrorKind::NotFound {
            missing(text_of(path))
        } else {
            cause@
        }),
{
    if cause.kind() != ErrorKind::NotFound {
        return cause;
    }
    match path {
        Some(path) => {
            let message = "there is no file at ".to_owned().concat(path);
            Error::new(ErrorKind::NotFound, message.as_str())
        },
        None => Error::new(
            ErrorKind::NotFound,
            "the requested file is not in cache and does not exist on the filesystem",
        ),
    }
}

/// Say how many bytes a file of `len` bytes retains in a cache of the given capacity, if it fits.
pub fn open(len: u64, capacity: usize) -> (outcome: Result<usize, Error>)
    ensures
        is_outcome(outcome, if len > usize::MAX {
            Err(
                failure(
                    ErrorKind::OutOfMemory,
                    "this file is too large to load into the cache"@,
                ),
            )
        } else if len > capacity {
            Err(
                failure(
                    ErrorKind::OutOfMemory,
                    "this file exceeds the configured cache capacity"@,
                ),
            )
        } else {
            Ok(len as usize)
        }),
{
    if len > usize::MAX as u64 {
        return Err(
            Error::new(
                ErrorKind::OutOfMemory,
                "this file is too large to load into the cache",
            ),
        );
    }
    let size = len as usize;
    if size > capacity {
        return Err(
            Error::new(
                ErrorKind::OutOfMemory,
                "this file exceeds the configured cache capacity",
            ),
        );
    }
    Ok(size)
}

/// The error for a copy of a file which is not on the disk. It names the file if it is told the
/// path.
pub open spec fn missing_source(path: Option<Seq<char>>) -> ErrorView {
    failure(
        ErrorKind::NotFound,
        match path {
            Some(path) => "tried to copy a file from a nonexistent source: "@ + path,
            None => "tried to copy a file from a nonexistent source"@,
        },
    )
}

/// Say why a file could not be copied.
pub fn copy_failed(cause: Error, path: Option<&str>) -> (error: Error)
    ensures
        error@ == (if cause@.kind == ErrorKind::NotFound {
            missing_source(text_of(path))
        } else {
            cause@
        }),
{
    if cause.kind() != ErrorKind::NotFound {
        return cause;
    }
    match path {
        Some(path) => {
            let message = "tried to copy a file from a nonexistent source: ".to_owned().concat(path);
            Error::new(ErrorKind::NotFound, message.as_str())
        },
        None => Error::new(
            ErrorKind::NotFound,
            "tried to copy a file from a nonexistent source",
        ),
    }
}

/// Say whether a file is gone, after an attempt to remove it: one which was not there is.
pub fn delete_file(attempt: Result<(), Error>) -> (outcome: Result<(), Error>)
    ensures
        match attempt {
            Ok(()) => outcome is Ok,
            Err(cause) => is_outcome(outcome, if cause@.kind == ErrorKind::NotFound {
                Ok(())
            } else {
                Err(cause@)
            }),
        },
{
    match attempt {
        Ok(()) => Ok(()),
        Err(cause) => if cause.kind() == ErrorKind::NotFound {
            Ok(())
        } else {
            Err(cause)
        },
    }
}

/// Say whether a file may be used as the type called `expected`, which it `is` or is not.
pub fn check_type(is: bool, expected: &str) -> (outcome: Result<(), Error>)
    ensures
        is_outcome(outcome, if is {
            Ok(())
        } else {
            Err(failure(ErrorKind::InvalidData, "invalid file type, expected "@ + expected@))
        }),
{
    if is {
        Ok(())
    } else {
        let message = "invalid file type, expected ".to_owned().concat(expected);
        Err(invalid_data(message.as_str()))
    }
}

/// Something which lends a file of a certain type, such as a lock on it.
pub trait FileDeref {
    /// The type of the file.
    type File;

    /// Borrow the file.
    fn as_file(&self) -> (file: &Self::File);
}

impl<T: FileDeref> FileDeref for Arc<T> {
    type File = T::File;

    /// Borrow the file which the shared value lends.
    fn as_file(&self) -> (file: &T::File)
        ensures
            call_ensures(T::as_file, (&**self,), file),
    {
        (**self).as_file()
    }
}

} // verus!
