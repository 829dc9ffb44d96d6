//! How a file is written back: to a temporary twin first, which then takes the file's place.
use vstd::prelude::*;

use crate::error::{in_context, Error, ErrorKind, ErrorView};
use crate::path::{is_tmp_path, FilePath};

verus! {

/// What has to be done next to write a file back.
#[derive(Debug, Clone, Copy, PartialEq, Eq, Structural)]
pub enum PersistStage {
    /// Look whether the temporary twin exists.
    Probe,
    /// Open the twin and empty it.
    Open,
    /// Create the directory of the twin, if there is none.
    MakeDir,
    /// Create the twin.
    Create,
    /// Create the directory again: it may have been removed in the meantime.
    MakeDirAgain,
    /// Create the twin again.
    CreateAgain,
    /// Save the contents to the twin.
    Save,
    /// Put the twin, which holds `size` bytes, in the place of the file.
    Rename { size: u64 },
    /// Nothing: the file holds `size` bytes.
    Done { size: u64 },
}

/// What came of it.
#[derive(Debug)]
pub enum PersistEvent {
    /// The twin exists, or does not.
    Exists(bool),
    /// It was done.
    Done,
    /// This many bytes were saved.
    Saved(u64),
    /// It could not be done.
    Failed(Error),
}

/// `failed to create tmp file: `
pub open spec fn create_context() -> Seq<char> {
    "failed to create tmp file: "@
}

/// `failed to save tmp file: `
pub open spec fn save_context() -> Seq<char> {
    "failed to save tmp file: "@
}

/// `failed to rename tmp file: `
pub open spec fn rename_context() -> Seq<char> {
    "failed to rename tmp file: "@
}

/// What follows an event: the next thing to do, or the error with which the file is given up. An
/// event which does not belong to a stage changes nothing.
pub open spec fn persist_next(stage: PersistStage, event: PersistEvent) -> Result<
    PersistStage,
    ErrorView,
> {
    match (stage, event) {
        (PersistStage::Probe, PersistEvent::Exists(exists)) => Ok(
            if exists {
                PersistStage::Open
            } else {
                PersistStage::MakeDir
            },
        ),
        (PersistStage::Open, PersistEvent::Done) => Ok(PersistStage::Save),
        (PersistStage::Open, PersistEvent::Failed(cause)) => Err(cause@),
        (PersistStage::MakeDir, PersistEvent::Done) => Ok(PersistStage::Create),
        (PersistStage::MakeDir, PersistEvent::Failed(cause)) => Err(cause@),
        (PersistStage::Create, PersistEvent::Done) => Ok(PersistStage::Save),
        (PersistStage::Create, PersistEvent::Failed(cause)) => if cause@.kind
            == ErrorKind::NotFound {
            Ok(PersistStage::MakeDirAgain)
        } else {
            Err(in_context(cause@, create_context()))
        },
        (PersistStage::MakeDirAgain, PersistEvent::Done) => Ok(PersistStage::CreateAgain),
        (PersistStage::MakeDirAgain, PersistEvent::Failed(cause)) => Err(cause@),
        (PersistStage::CreateAgain, PersistEvent::Done) => Ok(PersistStage::Save),
        (PersistStage::CreateAgain, PersistEvent::Failed(cause)) => Err(
            in_context(cause@, create_context()),
        ),
        (PersistStage::Save, PersistEvent::Saved(size)) => Ok(PersistStage::Rename { size }),
        (PersistStage::Save, PersistEvent::Failed(cause)) => Err(
            in_context(cause@, save_context()),
        ),
        (PersistStage::Rename { size }, PersistEvent::Done) => Ok(PersistStage::Done { size }),
        (PersistStage::Rename { size }, PersistEvent::Failed(cause)) => Err(
            in_context(cause@, rename_context()),
        ),
        _ => Ok(stage),
    }
}

/// A file on its way to the disk.
#[derive(Debug)]
pub struct Persist {
    path: FilePath,
    tmp: FilePath,
    stage: PersistStage,
}

/// The proof that a file has been written back.
#[derive(Debug)]
pub struct Persisted {
    path: FilePath,
    size: u64,
}

impl Persisted {
    /// The path of the file.
    pub closed spec fn path(&self) -> Seq<Seq<u8>> {
        self.path@
    }

    /// How many bytes the file holds on the disk.
    pub closed spec fn spec_size(&self) -> u64 {
        self.size
    }

    /// How many bytes the file holds on the disk.
    #[verifier::when_used_as_spec(spec_size)]
    pub fn size(&self) -> (size: u64)
        ensures
            size == self.size(),
    {
        self.size
    }
}

impl Persist {
    /// The path of the file.
    pub closed spec fn path(&self) -> Seq<Seq<u8>> {
        self.path@
    }

    /// The number of leading components of the path which are its root.
    pub closed spec fn anchor(&self) -> int {
        self.path.anchor as int
    }

    /// The path of the temporary twin.
    pub closed spec fn tmp(&self) -> Seq<Seq<u8>> {
        self.tmp@
    }

    /// What has to be done next.
    pub closed spec fn spec_stage(&self) -> PersistStage {
        self.stage
    }

    /// Begin to write back the file at `path`.
    pub fn new(path: &FilePath) -> (persist: Self)
        ensures
            persist.path() == path@,
            persist.anchor() == path.anchor,
            is_tmp_path(path@, path.anchor as int, persist.tmp()),
            persist.stage() == PersistStage::Probe,
    {
        Persist { path: path.duplicate(), tmp: path.tmp_path(), stage: PersistStage::Probe }
    }

    /// The temporary twin has the root of the file.
    #[verifier::type_invariant]
    spec fn inv(&self) -> bool {
        self.tmp.anchor == self.path.anchor
    }

    /// The temporary twin.
    pub fn tmp_path(&self) -> (tmp: &FilePath)
        ensures
            tmp@ == self.tmp(),
            tmp.anchor == self.anchor(),
    {
        proof {
            use_type_invariant(self);
        }
        &self.tmp
    }

    /// What has to be done next.
    #[verifier::when_used_as_spec(spec_stage)]
    pub fn stage(&self) -> (stage: PersistStage)
        ensures
            stage == self.stage(),
    {
        self.stage
    }

    /// Go on after `event`, or give the file up.
    pub fn advance(&mut self, event: PersistEvent) -> (outcome: Result<(), Error>)
        ensures
            final(self).path() == old(self).path(),
            final(self).anchor() == old(self).anchor(),
            final(self).tmp() == old(self).tmp(),
            match persist_next(old(self).stage(), event) {
                Ok(stage) => outcome is Ok && final(self).stage() == stage,
                Err(error) => {
                    &&& outcome matches Err(outcome) && outcome@ == error
                    &&& final(self).stage() == old(self).stage()
                },
            },
    {
        proof {
            use_type_invariant(&*self);
        }
        self.stage = match (self.stage, event) {
            (PersistStage::Probe, PersistEvent::Exists(exists)) => if exists {
                PersistStage::Open
            } else {
                PersistStage::MakeDir
            },
            (PersistStage::MakeDir, PersistEvent::Done) => PersistStage::Create,
            (PersistStage::MakeDirAgain, PersistEvent::Done) => PersistStage::CreateAgain,
            (
                PersistStage::Open | PersistStage::MakeDir | PersistStage::MakeDirAgain,
                PersistEvent::Failed(cause),
            ) => {
                return Err(cause);
            },
            (
                PersistStage::Open | PersistStage::Create | PersistStage::CreateAgain,
                PersistEvent::Done,
            ) => PersistStage::Save,
            (PersistStage::Create, PersistEvent::Failed(cause)) => {
                if cause.kind() != ErrorKind::NotFound {
                    return Err(cause.context("failed to create tmp file: "));
                }
                PersistStage::MakeDirAgain
            },
            (PersistStage::CreateAgain, PersistEvent::Failed(cause)) => {
                return Err(cause.context("failed to create tmp file: "));
            },
            (PersistStage::Save, PersistEvent::Saved(size)) => PersistStage::Rename { size },
            (PersistStage::Save, PersistEvent::Failed(cause)) => {
                return Err(cause.context("failed to save tmp file: "));
            },
            (PersistStage::Rename { size }, PersistEvent::Done) => PersistStage::Done { size },
            (PersistStage::Rename { .. }, PersistEvent::Failed(cause)) => {
                return Err(cause.context("failed to rename tmp file: "));
            },
            (stage, _) => stage,
        };
        Ok(())
    }

    /// The proof that the file has been written back, once it has been.
    pub fn finish(self) -> (persisted: Option<Persisted>)
        ensures
            match persisted {
                Some(persisted) => {
                    &&& self.stage() == PersistStage::Done { size: persisted.size() }
                    &&& persisted.path() == self.path()
                },
                None => !(self.stage() is Done),
            },
    {
        match self.stage {
            PersistStage::Done { size } => Some(Persisted { path: self.path, size }),
            _ => None,
        }
    }
}

/// What the disk holds at the path of a file, and at that of its temporary twin. These are two
/// places, as [`crate::path::lemma_tmp_path_is_another_file`] says of every path that names a file.
#[verifier::ext_equal]
pub struct Disk {
    pub file: Option<Seq<u8>>,
    pub tmp: Option<Seq<u8>>,
}

/// What an event does to the disk. A save which fails may have written anything to the twin, here
/// `part`. A rename is done or not: it does not fail halfway.
pub open spec fn effect(
    disk: Disk,
    stage: PersistStage,
    event: PersistEvent,
    contents: Seq<u8>,
    part: Seq<u8>,
) -> Disk {
    match (stage, event) {
        (PersistStage::Open, PersistEvent::Done) => Disk { tmp: Some(Seq::empty()), ..disk },
        (PersistStage::Create, PersistEvent::Done) => Disk { tmp: Some(Seq::empty()), ..disk },
        (PersistStage::CreateAgain, PersistEvent::Done) => Disk {
            tmp: Some(Seq::empty()),
            ..disk
        },
        (PersistStage::Save, PersistEvent::Saved(_)) => Disk { tmp: Some(contents), ..disk },
        (PersistStage::Save, PersistEvent::Failed(_)) => Disk { tmp: Some(part), ..disk },
        (PersistStage::Rename { .. }, PersistEvent::Done) => Disk { file: disk.tmp, tmp: None },
        _ => disk,
    }
}

/// Where `events` lead from the beginning, and what the disk then holds. Each event comes with
/// what a save that failed has written.
pub open spec fn persist_run(
    disk: Disk,
    contents: Seq<u8>,
    events: Seq<(PersistEvent, Seq<u8>)>,
) -> (Result<PersistStage, ErrorView>, Disk)
    decreases events.len(),
{
    if events.len() == 0 {
        (Ok(PersistStage::Probe), disk)
    } else {
        let (reached, before) = persist_run(disk, contents, events.drop_last());
        let (event, part) = events.last();
        match reached {
            Ok(stage) => (
                persist_next(stage, event),
                effect(before, stage, event, contents, part),
            ),
            Err(error) => (Err(error), before),
        }
    }
}

/// Writing a file back either succeeds, and the file then holds its new contents; or it fails, or
/// is not over, and the file holds what it did before.
pub proof fn lemma_persist_is_atomic(
    disk: Disk,
    contents: Seq<u8>,
    events: Seq<(PersistEvent, Seq<u8>)>,
)
    ensures
        ({
            let (reached, after) = persist_run(disk, contents, events);
            match reached {
                Ok(PersistStage::Done { .. }) => after.file == Some(contents) && after.tmp is None,
                Ok(PersistStage::Rename { .. }) => after.file == disk.file && after.tmp == Some(
                    contents,
                ),
                _ => after.file == disk.file,
            }
        }),
    decreases events.len(),
{
    if events.len() > 0 {
        lemma_persist_is_atomic(disk, contents, events.drop_last());
    }
}

} // verus!
