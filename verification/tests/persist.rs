use std::collections::HashMap;

use freqfs::disk::{CreateDir, CreateDirEvent, DiskProbe};
use freqfs::persist::{Persist, PersistEvent, PersistStage};
use freqfs::{Error, ErrorKind, FilePath};

fn path(components: &[&str]) -> FilePath {
    FilePath::new(1, components.iter().map(|component| component.as_bytes().to_vec()).collect())
}

type Files = HashMap<Vec<Vec<u8>>, Vec<u8>>;

/// Write `contents` back to `files`. If `failure` is given, saving them stops after `part` bytes.
fn persist(
    files: &mut Files,
    path: &FilePath,
    contents: &[u8],
    failure: Option<(ErrorKind, usize)>,
) -> Result<u64, Error> {
    let mut persist = Persist::new(path);
    loop {
        let tmp = persist.tmp_path().components.clone();
        let event = match persist.stage() {
            PersistStage::Probe => PersistEvent::Exists(files.contains_key(&tmp)),
            PersistStage::Open | PersistStage::Create | PersistStage::CreateAgain => {
                files.insert(tmp, Vec::new());
                PersistEvent::Done
            }
            PersistStage::MakeDir | PersistStage::MakeDirAgain => PersistEvent::Done,
            PersistStage::Save => match failure {
                Some((kind, part)) => {
                    files.insert(tmp, contents[..part].to_vec());
                    PersistEvent::Failed(Error::new(kind, "intentional failure"))
                }
                None => {
                    files.insert(tmp, contents.to_vec());
                    PersistEvent::Saved(contents.len() as u64)
                }
            },
            PersistStage::Rename { .. } => {
                let contents = files.remove(&tmp).unwrap();
                files.insert(path.components.clone(), contents);
                PersistEvent::Done
            }
            PersistStage::Done { size } => {
                let persisted = persist.finish().unwrap();
                assert_eq!(persisted.size(), size);
                return Ok(size);
            }
        };
        persist.advance(event)?;
    }
}

#[test]
fn persist_does_not_corrupt_existing_file_on_save_error() {
    let path = path(&["/", "tmp", "data.txt"]);
    let mut files = Files::new();
    files.insert(path.components.clone(), b"original".to_vec());

    let err = persist(&mut files, &path, b"new", Some((ErrorKind::Other, 3))).unwrap_err();

    assert_eq!(err.kind(), ErrorKind::Other);
    assert_eq!(err.message, "failed to save tmp file: intentional failure");
    assert_eq!(files[&path.components], b"original");
}

#[test]
fn persist_replaces_the_file_and_leaves_no_twin() {
    let path = path(&["/", "tmp", "data.txt"]);
    let mut files = Files::new();
    files.insert(path.components.clone(), b"original".to_vec());

    assert!(persist(&mut files, &path, b"new contents", Some((ErrorKind::StorageFull, 5))).is_err());
    // what the first attempt left behind is overwritten by the second
    assert_eq!(persist(&mut files, &path, b"new contents", None).unwrap(), 12);
    assert_eq!(files[&path.components], b"new contents");
    assert_eq!(files.len(), 1);
}

fn reach(events: Vec<PersistEvent>) -> Result<PersistStage, Error> {
    let mut persist = Persist::new(&path(&["/", "a"]));
    for event in events {
        persist.advance(event)?;
    }
    Ok(persist.stage())
}

fn failed(kind: ErrorKind) -> PersistEvent {
    PersistEvent::Failed(Error { kind, code: Some(2), message: "cause".to_string() })
}

#[test]
fn a_directory_removed_in_the_meantime_is_created_again() {
    let events = vec![
        PersistEvent::Exists(false),
        PersistEvent::Done,
        failed(ErrorKind::NotFound),
    ];
    assert_eq!(reach(events).unwrap(), PersistStage::MakeDirAgain);

    let events = vec![
        PersistEvent::Exists(false),
        PersistEvent::Done,
        failed(ErrorKind::NotFound),
        PersistEvent::Done,
        PersistEvent::Done,
        PersistEvent::Saved(7),
    ];
    assert_eq!(reach(events).unwrap(), PersistStage::Rename { size: 7 });

    let events = vec![
        PersistEvent::Exists(false),
        PersistEvent::Done,
        failed(ErrorKind::NotFound),
        PersistEvent::Done,
        failed(ErrorKind::NotFound),
    ];
    let err = reach(events).unwrap_err();
    assert_eq!(err.kind(), ErrorKind::NotFound);
    assert_eq!(err.message, "failed to create tmp file: cause");
}

#[test]
fn each_failure_says_what_failed() {
    let err = reach(vec![PersistEvent::Exists(true), failed(ErrorKind::PermissionDenied)]);
    let err = err.unwrap_err();
    assert_eq!(err.kind(), ErrorKind::PermissionDenied);
    assert_eq!(err.message, "cause");
    assert_eq!(err.code, Some(2));

    let err = reach(vec![PersistEvent::Exists(false), failed(ErrorKind::NotFound)]).unwrap_err();
    assert_eq!(err.message, "cause");

    let err = reach(vec![
        PersistEvent::Exists(false),
        PersistEvent::Done,
        failed(ErrorKind::PermissionDenied),
    ])
    .unwrap_err();
    assert_eq!(err.kind(), ErrorKind::PermissionDenied);
    assert_eq!(err.message, "failed to create tmp file: cause");
    assert_eq!(err.code, None);

    let err = reach(vec![
        PersistEvent::Exists(true),
        PersistEvent::Done,
        PersistEvent::Saved(1),
        failed(ErrorKind::CrossesDevices),
    ])
    .unwrap_err();
    assert_eq!(err.kind(), ErrorKind::CrossesDevices);
    assert_eq!(err.message, "failed to rename tmp file: cause");
}

#[test]
fn an_event_out_of_turn_changes_nothing() {
    assert_eq!(reach(vec![PersistEvent::Saved(3)]).unwrap(), PersistStage::Probe);
    let events = vec![PersistEvent::Exists(true), PersistEvent::Exists(false)];
    assert_eq!(reach(events).unwrap(), PersistStage::Open);
    assert!(Persist::new(&path(&["/", "a"])).finish().is_none());
}

#[test]
fn the_nearest_directory_is_probed() {
    let mut probe = DiskProbe::new(&path(&["/", "a", "b", "file"]));
    assert_eq!(probe.candidate().components, path(&["/", "a", "b"]).components);
    probe.climb().unwrap();
    assert_eq!(probe.candidate().components, path(&["/", "a"]).components);
    probe.climb().unwrap();
    assert_eq!(probe.candidate().components, path(&["/"]).components);
    let err = probe.climb().unwrap_err();
    assert_eq!(err.kind(), ErrorKind::NotFound);
    assert_eq!(err.message, "no filesystem root for cache path");

    let probe = DiskProbe::new(&path(&["/"]));
    assert_eq!(probe.candidate().components, path(&["/"]).components);
}

#[test]
fn directories_are_created_once() {
    let create = CreateDir::Probe;
    assert!(matches!(create.advance(CreateDirEvent::Exists(true)), Ok(CreateDir::Done)));

    let create = CreateDir::Probe.advance(CreateDirEvent::Exists(false)).unwrap();
    assert!(matches!(create.advance(CreateDirEvent::Created), Ok(CreateDir::Done)));

    let cause = || CreateDirEvent::Failed(Error::new(ErrorKind::PermissionDenied, "cause"));
    let recheck = CreateDir::Create.advance(cause()).unwrap();
    assert!(matches!(recheck.advance(CreateDirEvent::IsDir(true)), Ok(CreateDir::Done)));

    let recheck = CreateDir::Create.advance(cause()).unwrap();
    let err = recheck.advance(CreateDirEvent::IsDir(false)).unwrap_err();
    assert_eq!(err.kind(), ErrorKind::PermissionDenied);
    assert_eq!(err.message, "failed to create directory: cause");

    let create = CreateDir::Create.advance(CreateDirEvent::IsDir(true)).unwrap();
    assert!(matches!(create, CreateDir::Create));
}
