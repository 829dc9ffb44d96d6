//! What is asked of the disk before a file is written to it.
use vstd::prelude::*;

use crate::error::{failure, in_context, is_outcome, Error, ErrorKind, ErrorView};
use crate::path::{parent_of, FilePath};

verus! {

/// A search for the nearest directory above a file which exists, and so tells on which disk the
/// file will be.
#[derive(Debug)]
pub struct DiskProbe {
    path: FilePath,
}

/// The error for a file none of whose directories exist.
pub open spec fn no_root() -> ErrorView {
    failure(ErrorKind::NotFound, "no filesystem root for cache path"@)
}

/// The first directory to look at: that of the file.
pub open spec fn probe_start(path: Seq<Seq<u8>>, anchor: int) -> Seq<Seq<u8>> {
    match parent_of(path, anchor) {
        Some(parent) => parent,
        None => path,
    }
}

impl DiskProbe {
    /// The directory to look at.
    pub closed spec fn path(&self) -> Seq<Seq<u8>> {
        self.path@
    }

    /// The number of leading components of the path which are its root.
    pub closed spec fn anchor(&self) -> int {
        self.path.anchor as int
    }

    /// Begin with the directory of the file at `path`.
    pub fn new(path: &FilePath) -> (probe: Self)
        ensures
            probe.path() == probe_start(path@, path.anchor as int),
            probe.anchor() == path.anchor,
    {
        match path.parent() {
            Some(path) => DiskProbe { path },
            None => DiskProbe { path: path.duplicate() },
        }
    }

    /// The directory to look at.
    pub fn candidate(&self) -> (path: &FilePath)
        ensures
            path@ == self.path(),
            path.anchor == self.anchor(),
    {
        &self.path
    }

    /// The directory does not exist: go on with the one above it.
    pub fn climb(&mut self) -> (outcome: Result<(), Error>)
        ensures
            final(self).anchor() == old(self).anchor(),
            match parent_of(old(self).path(), old(self).anchor()) {
                Some(parent) => outcome is Ok && final(self).path() == parent,
                None => {
                    &&& outcome matches Err(error) && error@ == no_root()
                    &&& final(self).path() == old(self).path()
                },
            },
    {
        match self.path.parent() {
            Some(parent) => {
                self.path = parent;
                Ok(())
            },
            None => Err(Error::new(ErrorKind::NotFound, "no filesystem root for cache path")),
        }
    }
}

/// The directory to look at after `steps` that did not exist, if there is one.
pub open spec fn climbed(path: Seq<Seq<u8>>, anchor: int, steps: nat) -> Option<Seq<Seq<u8>>>
    decreases steps,
{
    if steps == 0 {
        Some(path)
    } else {
        match climbed(path, anchor, (steps - 1) as nat) {
            Some(path) => parent_of(path, anchor),
            None => None,
        }
    }
}

/// The search looks at each directory above a file in turn, up to its root, so that the first
/// which exists is the nearest.
pub proof fn lemma_climb_visits_each_ancestor(path: Seq<Seq<u8>>, anchor: int, steps: nat)
    requires
        0 <= anchor,
    ensures
        climbed(path, anchor, steps) == (if steps == 0 {
            Some(path)
        } else if path.len() - steps >= anchor && path.len() >= steps {
            Some(path.take(path.len() - steps))
        } else {
            None
        }),
    decreases steps,
{
    if steps > 0 {
        lemma_climb_visits_each_ancestor(path, anchor, (steps - 1) as nat);
        if path.len() >= steps {
            let below = path.take(path.len() - (steps - 1));
            assert(path.take(path.len() as int) =~= path);
            assert(below.drop_last() =~= path.take(path.len() - steps));
        }
    }
}

/// A directory on its way to the disk: what has to be done next to create it.
#[derive(Debug)]
pub enum CreateDir {
    /// Look whether it exists.
    Probe,
    /// Create it, and the directories above it.
    Create,
    /// It could not be created: look whether it is there after all.
    Recheck(Error),
    /// Nothing.
    Done,
}

/// What came of it.
#[derive(Debug)]
pub enum CreateDirEvent {
    /// There is something at the path, or there is not.
    Exists(bool),
    /// The directory has been created.
    Created,
    /// The directory could not be created.
    Failed(Error),
    /// There is a directory at the path, or there is not.
    IsDir(bool),
}

/// What follows an event. An event which does not belong to a stage changes nothing.
pub open spec fn create_dir_next(stage: CreateDir, event: CreateDirEvent) -> Result<
    CreateDir,
    ErrorView,
> {
    match (stage, event) {
        (CreateDir::Probe, CreateDirEvent::Exists(exists)) => Ok(
            if exists {
                CreateDir::Done
            } else {
                CreateDir::Create
            },
        ),
        (CreateDir::Create, CreateDirEvent::Created) => Ok(CreateDir::Done),
        (CreateDir::Create, CreateDirEvent::Failed(cause)) => Ok(CreateDir::Recheck(cause)),
        (CreateDir::Recheck(cause), CreateDirEvent::IsDir(is_dir)) => if is_dir {
            Ok(CreateDir::Done)
        } else {
            Err(in_context(cause@, "failed to create directory: "@))
        },
        _ => Ok(stage),
    }
}

impl CreateDir {
    /// Go on after `event`, or give up.
    pub fn advance(self, event: CreateDirEvent) -> (outcome: Result<CreateDir, Error>)
        ensures
            is_outcome(outcome, create_dir_next(self, event)),
    {
        match (self, event) {
            (CreateDir::Probe, CreateDirEvent::Exists(exists)) => if exists {
                Ok(CreateDir::Done)
            } else {
                Ok(CreateDir::Create)
            },
            (CreateDir::Create, CreateDirEvent::Created) => Ok(CreateDir::Done),
            (CreateDir::Create, CreateDirEvent::Failed(cause)) => Ok(CreateDir::Recheck(cause)),
            (CreateDir::Recheck(cause), CreateDirEvent::IsDir(is_dir)) => if is_dir {
                Ok(CreateDir::Done)
            } else {
                Err(cause.context("failed to create directory: "))
            },
            (stage, _) => Ok(stage),
        }
    }
}

} // verus!
