//! What whoever reads a file sees, through all that a cache does with the file in between.
use vstd::prelude::*;

use crate::error::ErrorView;
use crate::file::{
    balance, deleted_from, evicted_from, loaded_for, locked, overwritten_by, retained, saved_as,
    syncs, unlinked_from, Access, FileLockState, Syncing,
};
use crate::persist::{lemma_persist_is_atomic, persist_run, Disk, PersistEvent, PersistStage};
use crate::state::StateView;

verus! {

/// A file and its contents, as the bytes which they are saved as.
#[verifier::ext_equal]
pub struct Contents {
    /// What is known of the file.
    pub state: FileLockState,
    /// Its contents in memory, if the file is in memory.
    pub memory: Seq<u8>,
    /// Its contents on the disk.
    pub disk: Disk,
}

/// Something that happens to a file.
pub enum Step {
    /// The file is loaded for `access`, and retains `size` bytes.
    Load { access: Access, size: usize },
    /// The file, which is in memory, is locked for `access`.
    Lock { access: Access },
    /// Whoever has locked the file for writing changes its contents.
    Change { contents: Seq<u8> },
    /// The file is backed up. `done` says that its change in size was counted, or that it was
    /// removed from the disk; either can fail.
    Sync { events: Seq<(PersistEvent, Seq<u8>)>, done: bool },
    /// The file is evicted.
    Evict { events: Seq<(PersistEvent, Seq<u8>)> },
    /// The file is overwritten with `other`.
    Overwrite { other: Contents },
    /// The file is deleted, by itself or with its directory.
    Delete { file_only: bool },
}

impl Contents {
    /// What whoever reads the file sees, if there is anything to see.
    pub open spec fn seen(self) -> Option<Seq<u8>> {
        match self.state {
            FileLockState::Pending => self.disk.file,
            FileLockState::Deleted(_) => None,
            _ => Some(self.memory),
        }
    }

    /// A file which has not changed is in memory as it is on the disk.
    pub open spec fn coherent(self) -> bool {
        self.state is Read ==> self.disk.file == Some(self.memory)
    }

    /// Where `events` lead when the file is written back.
    pub open spec fn write_back(self, events: Seq<(PersistEvent, Seq<u8>)>) -> (
        Result<PersistStage, ErrorView>,
        Disk,
    ) {
        persist_run(self.disk, self.memory, events)
    }

    /// The file once it has been backed up, or an attempt at it has failed.
    pub open spec fn synced(self, events: Seq<(PersistEvent, Seq<u8>)>, done: bool) -> Contents {
        match syncs(self.state) {
            Syncing::Nothing => self,
            Syncing::WriteBack => {
                let (reached, disk) = self.write_back(events);
                match reached {
                    Ok(PersistStage::Done { size }) if done => Contents {
                        state: saved_as(size as usize),
                        disk,
                        ..self
                    },
                    _ => Contents { disk, ..self },
                }
            },
            Syncing::Unlink => if done {
                Contents {
                    state: unlinked_from(self.state),
                    disk: Disk { file: None, ..self.disk },
                    ..self
                }
            } else {
                self
            },
        }
    }

    /// The file once it has been overwritten with `other`: with a copy on the disk, if the other is
    /// there only, and else with a copy in memory.
    pub open spec fn overwritten(self, other: Contents) -> Contents {
        let state = overwritten_by(other.state);
        match other.state {
            FileLockState::Pending => Contents {
                state,
                disk: Disk { file: other.disk.file, ..self.disk },
                ..self
            },
            FileLockState::Deleted(_) => Contents { state, ..self },
            _ => Contents { state, memory: other.memory, ..self },
        }
    }

    /// The file after a step, if the step can be taken.
    pub open spec fn after(self, step: Step) -> Option<Contents> {
        match step {
            Step::Load { access, size } => match (self.state, self.disk.file) {
                (FileLockState::Pending, Some(memory)) => Some(
                    Contents { state: loaded_for(access, size), memory, ..self },
                ),
                _ => None,
            },
            Step::Lock { access } => if self.state.loaded() {
                Some(Contents { state: locked(self.state, access), ..self })
            } else {
                None
            },
            Step::Change { contents } => if self.state is Modified {
                Some(Contents { memory: contents, ..self })
            } else {
                None
            },
            Step::Sync { events, done } => Some(self.synced(events, done)),
            Step::Evict { events } => if !self.state.loaded() {
                None
            } else if syncs(self.state) is WriteBack {
                let (reached, disk) = self.write_back(events);
                match reached {
                    Ok(PersistStage::Done { .. }) => Some(
                        Contents { state: evicted_from(self.state), disk, ..self },
                    ),
                    _ => Some(Contents { disk, ..self }),
                }
            } else {
                Some(Contents { state: evicted_from(self.state), ..self })
            },
            Step::Overwrite { other } => if other.state is Pending && other.disk.file is None {
                None
            } else {
                Some(self.overwritten(other))
            },
            Step::Delete { file_only } => Some(
                Contents { state: deleted_from(self.state, file_only), ..self },
            ),
        }
    }

    /// The file after all `steps`, if they can be taken.
    pub open spec fn after_all(self, steps: Seq<Step>) -> Option<Contents>
        decreases steps.len(),
    {
        if steps.len() == 0 {
            Some(self)
        } else {
            match self.after_all(steps.drop_last()) {
                Some(before) => before.after(steps.last()),
                None => None,
            }
        }
    }
}

/// What the last of `steps` which changes, overwrites or deletes a file leaves to see, or `before`
/// if there is none.
pub open spec fn last_written(before: Option<Seq<u8>>, steps: Seq<Step>) -> Option<Seq<u8>>
    decreases steps.len(),
{
    if steps.len() == 0 {
        before
    } else {
        match steps.last() {
            Step::Change { contents } => Some(contents),
            Step::Overwrite { other } => other.seen(),
            Step::Delete { .. } => None,
            _ => last_written(before, steps.drop_last()),
        }
    }
}

/// A reader sees what was last written, however often the file was loaded, locked, backed up and
/// evicted in between, and whichever of its backups failed. If the file was overwritten last, that
/// is what readers of the other file saw; if it was deleted last, there is nothing to see.
pub proof fn lemma_readers_see_the_last_write(file: Contents, steps: Seq<Step>)
    requires
        file.coherent(),
        file.after_all(steps) is Some,
    ensures
        file.after_all(steps) matches Some(after) && after.coherent() && after.seen()
            == last_written(file.seen(), steps),
    decreases steps.len(),
{
    if steps.len() > 0 {
        lemma_readers_see_the_last_write(file, steps.drop_last());
        let before = file.after_all(steps.drop_last())->0;
        match steps.last() {
            Step::Sync { events, .. } => {
                lemma_persist_is_atomic(before.disk, before.memory, events);
            },
            Step::Evict { events } => {
                lemma_persist_is_atomic(before.disk, before.memory, events);
            },
            _ => {},
        }
    }
}

/// Once a file which has changed has been backed up, the disk holds what a reader sees, and the file
/// is in memory as it is on the disk: to back it up again changes nothing.
pub proof fn lemma_sync_writes_changes(
    file: Contents,
    events: Seq<(PersistEvent, Seq<u8>)>,
    size: u64,
    again: Seq<(PersistEvent, Seq<u8>)>,
    done: bool,
)
    requires
        file.state is Modified,
        file.write_back(events).0 == Ok::<_, ErrorView>(PersistStage::Done { size }),
    ensures
        ({
            let after = file.synced(events, true);
            &&& after.state == FileLockState::Read(size as usize)
            &&& after.disk.file == file.seen()
            &&& after.seen() == file.seen()
            &&& after.synced(again, done) == after
        }),
{
    lemma_persist_is_atomic(file.disk, file.memory, events);
}

/// To back up a file which is on the disk only, or in memory as it is on the disk, changes nothing.
pub proof fn lemma_sync_leaves_clean_files_alone(
    file: Contents,
    events: Seq<(PersistEvent, Seq<u8>)>,
    done: bool,
)
    requires
        file.state is Pending || file.state is Read,
    ensures
        file.synced(events, done) == file,
{
}

/// However the size of a file which is backed up changes, its cache counts the new size in place of
/// the old one: bytes which the file no longer retains are released, and bytes which it retains in
/// addition are those that are reserved for it.
pub proof fn lemma_sync_counts_the_new_size(
    cache: StateView,
    state: FileLockState,
    new_size: usize,
)
    requires
        state is Modified,
        new_size > retained(state) ==> cache.refusal(new_size - retained(state)) is None
            && cache.has_room(new_size - retained(state)),
    ensures
        ({
            let after = if new_size > retained(state) {
                cache.after_request(new_size - retained(state))
            } else {
                cache.grown(new_size - retained(state))
            };
            &&& after.size == cache.size - retained(state) + new_size
            &&& balance(after, FileLockState::Read(new_size)) == balance(cache, state)
        }),
{
}

} // verus!
