use std::sync::Arc;

use freqfs::cache::Reserving;
use freqfs::channels::Evict;
use freqfs::error::to_decimal;
use freqfs::file::{check_type, copy_failed, delete_file, open, open_failed, Access, Locking, Overwriting, Syncing};
use freqfs::persist::{PersistEvent, Persisted};
use freqfs::state::{Reservation, Resized};
use freqfs::{deleted, invalid_data, would_block, Cache, Error, ErrorKind, FileDeref, FileLock, FileLockState, FilePath};
use tokio::sync::mpsc::Receiver;

fn path(name: &str) -> FilePath {
    let components = ["/", "tmp", name];
    FilePath::new(1, components.iter().map(|component| component.as_bytes().to_vec()).collect())
}

fn new_cache(capacity: usize) -> (Cache, Receiver<Evict>) {
    Cache::new(capacity, None, 0)
}

fn created(cache: &mut Cache, name: &str, size: usize) -> FileLock {
    cache.insert(path(name), 0, size).unwrap();
    FileLock::new(path(name), size)
}

fn reserved(cache: &mut Cache, bytes: usize) -> Reservation {
    match cache.reserve(bytes) {
        Ok(Reserving::Granted(reservation)) => reservation,
        other => panic!("not granted: {:?}", other),
    }
}

fn persisted(file: &FileLock, cache: &Cache, size: u64) -> Persisted {
    let mut persist = file.write_back(cache, u64::MAX).unwrap();
    for event in [
        PersistEvent::Exists(false),
        PersistEvent::Done,
        PersistEvent::Done,
        PersistEvent::Saved(size),
        PersistEvent::Done,
    ] {
        persist.advance(event).unwrap();
    }
    persist.finish().unwrap()
}

#[test]
fn wrong_type_read_returns_invalid_data() {
    let (mut cache, _rx) = Cache::new(1024 * 1024, None, 0);
    let mut file = created(&mut cache, "data.bin", 3);

    assert_eq!(file.read(&mut cache).unwrap(), Locking::Cached);
    let err = check_type(false, "String").unwrap_err();
    assert_eq!(err.kind(), ErrorKind::InvalidData);
    assert_eq!(err.message, "invalid file type, expected String");

    assert_eq!(file.write(&mut cache).unwrap(), Locking::Cached);
    let err = check_type(false, "String").unwrap_err();
    assert_eq!(err.kind(), ErrorKind::InvalidData);

    assert!(check_type(true, "Vec<u8>").is_ok());
}

#[test]
fn states_say_what_they_are() {
    let states = [
        (FileLockState::Pending, (true, false, false)),
        (FileLockState::Read(3), (false, true, false)),
        (FileLockState::Modified(3), (false, true, false)),
        (FileLockState::Deleted(true), (false, false, true)),
        (FileLockState::Deleted(false), (false, false, true)),
    ];
    for (state, expected) in states {
        assert_eq!((state.is_pending(), state.is_loaded(), state.is_deleted()), expected);
    }
    for mut state in [FileLockState::Read(5), FileLockState::Modified(5)] {
        state.upgrade();
        assert_eq!(state, FileLockState::Modified(5));
    }
}

#[test]
fn pending_files_are_loaded_into_reserved_bytes() {
    let (mut cache, _rx) = new_cache(10);
    for (access, state) in [
        (Access::Read, FileLockState::Read(4)),
        (Access::Write, FileLockState::Modified(4)),
    ] {
        let mut file = FileLock::load(path("a"));
        let locking = match access {
            Access::Read => file.read(&mut cache),
            Access::Write => file.write(&mut cache),
        };
        assert_eq!(locking.unwrap(), Locking::Load);
        assert_eq!(file.state(), FileLockState::Pending);
        let size = open(4, cache.capacity()).unwrap();
        let reservation = reserved(&mut cache, size);
        file.loaded(&mut cache, access, reservation).unwrap();
        assert_eq!(file.state(), state);
    }
    assert_eq!(cache.size(), 8);
}

#[test]
fn files_which_are_not_cached_would_block() {
    let (mut cache, _rx) = new_cache(10);
    let mut file = FileLock::load(path("a"));
    for err in [file.try_read(&mut cache), file.try_write(&mut cache)] {
        let err = err.unwrap_err();
        assert_eq!(err.kind(), ErrorKind::WouldBlock);
        assert_eq!(err.message, "this file is not in the cache");
    }

    let mut file = created(&mut cache, "b", 3);
    let saved = persisted(&file, &cache, 3);
    assert!(file.saved(&mut cache, saved).is_none());
    assert_eq!(file.state(), FileLockState::Read(3));
    assert_eq!(file.try_read(&mut cache).unwrap(), Locking::Cached);
    assert_eq!(file.state(), FileLockState::Read(3));
    assert_eq!(file.try_write(&mut cache).unwrap(), Locking::Cached);
    assert_eq!(file.state(), FileLockState::Modified(3));
}

#[test]
fn deleted_files_are_not_found() {
    let (mut cache, _rx) = new_cache(10);
    let mut file = created(&mut cache, "a", 3);
    file.delete(&mut cache, true).unwrap();
    assert_eq!(file.state(), FileLockState::Deleted(true));
    assert_eq!(cache.size(), 0);

    let outcomes = [
        file.read(&mut cache),
        file.write(&mut cache),
        file.try_read(&mut cache),
        file.try_write(&mut cache),
    ];
    for outcome in outcomes {
        let err = outcome.unwrap_err();
        assert_eq!(err.kind(), ErrorKind::NotFound);
        assert_eq!(err.message, "this file has been deleted");
    }

    assert_eq!(file.sync(), Syncing::Unlink);
    file.unlinked();
    assert_eq!(file.state(), FileLockState::Deleted(false));
    assert_eq!(file.sync(), Syncing::Nothing);

    file.delete(&mut cache, true).unwrap();
    assert_eq!(file.state(), FileLockState::Deleted(false));
}

#[test]
fn sync_writes_changes_back() {
    let (mut cache, _rx) = new_cache(100);
    let mut file = created(&mut cache, "a", 10);
    assert_eq!(file.sync(), Syncing::WriteBack);

    // the file is smaller on the disk than was thought
    let saved = persisted(&file, &cache, 7);
    assert!(file.saved(&mut cache, saved).is_none());
    assert_eq!(file.state(), FileLockState::Read(7));
    assert_eq!(cache.size(), 7);
    assert_eq!(file.sync(), Syncing::Nothing);

    // it is larger
    file.write(&mut cache).unwrap();
    assert_eq!(file.sync(), Syncing::WriteBack);
    let saved = persisted(&file, &cache, 9);
    let growth = file.saved(&mut cache, saved).unwrap();
    assert_eq!(growth.bytes(), 2);
    assert_eq!(file.state(), FileLockState::Modified(7));
    let reservation = reserved(&mut cache, 2);
    file.saved_grown(growth, reservation);
    assert_eq!(file.state(), FileLockState::Read(9));
    assert_eq!(cache.size(), 9);
    assert_eq!(FileLock::load(path("b")).sync(), Syncing::Nothing);
}

/// A file with its contents, in memory and on the disk.
struct Contents {
    file: FileLock,
    memory: Option<Vec<u8>>,
    disk: Option<Vec<u8>>,
}

impl Contents {
    fn lock(&mut self, cache: &mut Cache, access: Access) -> &mut Vec<u8> {
        let locking = match access {
            Access::Read => self.file.read(cache),
            Access::Write => self.file.write(cache),
        };
        if locking.unwrap() == Locking::Load {
            let contents = self.disk.clone().unwrap();
            let size = open(contents.len() as u64, cache.capacity()).unwrap();
            let reservation = reserved(cache, size);
            self.file.loaded(cache, access, reservation).unwrap();
            self.memory = Some(contents);
        }
        self.memory.as_mut().unwrap()
    }

    fn write_back(&mut self, cache: &Cache) -> Persisted {
        let size = self.memory.as_ref().unwrap().len() as u64;
        let persisted = persisted(&self.file, cache, size);
        self.disk = self.memory.clone();
        persisted
    }

    fn sync(&mut self, cache: &mut Cache) {
        if self.file.sync() == Syncing::WriteBack {
            let persisted = self.write_back(cache);
            if let Some(growth) = self.file.saved(cache, persisted) {
                let reservation = reserved(cache, growth.bytes());
                self.file.saved_grown(growth, reservation);
            }
        }
    }

    fn overwrite(&mut self, cache: &mut Cache, other: &Contents) {
        match self.file.overwrite(cache, &other.file) {
            Overwriting::CopyFile => {
                self.disk = other.disk.clone();
                self.file.copied(cache);
            }
            Overwriting::CopyContents { old_size, new_size } => {
                self.memory = other.memory.clone();
                if let Resized::Grow { bytes } = cache.resize(old_size, new_size) {
                    reserved(cache, bytes).commit();
                }
            }
            Overwriting::Nothing => {}
        }
    }

    fn evict(&mut self, cache: &mut Cache) {
        assert!(self.file.evict(true).is_some());
        let persisted = match self.file.state() {
            FileLockState::Modified(_) => Some(self.write_back(cache)),
            _ => None,
        };
        self.file.evicted(persisted).count(cache);
        self.memory = None;
    }
}

#[test]
fn readers_see_the_last_write() {
    let (mut cache, _rx) = new_cache(100);
    let mut contents = Contents {
        file: created(&mut cache, "a", 5),
        memory: Some(b"first".to_vec()),
        disk: None,
    };

    contents.evict(&mut cache);
    assert_eq!(contents.disk.as_deref(), Some(&b"first"[..]));
    assert_eq!(contents.lock(&mut cache, Access::Read), b"first");

    *contents.lock(&mut cache, Access::Write) = b"a second text".to_vec();
    assert_eq!(contents.lock(&mut cache, Access::Read), b"a second text");
    assert_eq!(contents.disk.as_deref(), Some(&b"first"[..]));

    contents.sync(&mut cache);
    assert_eq!(contents.disk.as_deref(), Some(&b"a second text"[..]));
    assert_eq!(cache.size(), 13);
    contents.evict(&mut cache);
    assert_eq!(cache.size(), 0);

    *contents.lock(&mut cache, Access::Write) = b"third".to_vec();
    contents.evict(&mut cache);
    assert_eq!(contents.lock(&mut cache, Access::Read), b"third");
    assert_eq!(cache.size(), 5);

    // with a file in memory, then with the same file on the disk
    let mut other = Contents {
        file: created(&mut cache, "b", 6),
        memory: Some(b"fourth".to_vec()),
        disk: None,
    };
    contents.overwrite(&mut cache, &other);
    assert_eq!(contents.lock(&mut cache, Access::Read), b"fourth");
    assert_eq!(cache.size(), 12);
    other.evict(&mut cache);
    *contents.lock(&mut cache, Access::Write) = b"fifth".to_vec();
    contents.overwrite(&mut cache, &other);
    assert_eq!(contents.lock(&mut cache, Access::Read), b"fourth");
    assert_eq!(cache.size(), 6);

    contents.file.delete(&mut cache, true).unwrap();
    assert_eq!(cache.size(), 0);
    assert_eq!(contents.file.read(&mut cache).unwrap_err().kind(), ErrorKind::NotFound);
}

#[test]
fn unused_files_are_evicted() {
    let (mut cache, _rx) = new_cache(100);
    let mut file = created(&mut cache, "a", 10);
    assert_eq!(file.evict(false), None);
    assert_eq!(file.evict(true), Some(10));
    let saved = persisted(&file, &cache, 10);
    assert!(file.saved(&mut cache, saved).is_none());
    assert_eq!(file.evict(true), Some(10));
    let evicted = file.evicted(None);
    assert_eq!(evicted.size(), 10);
    assert_eq!(cache.size(), 10);
    assert_eq!(evicted.count(&mut cache), Resized::Released);
    assert_eq!(file.state(), FileLockState::Pending);
    assert_eq!(file.evict(true), None);
    assert_eq!(cache.size(), 0);
}

#[test]
fn files_are_overwritten() {
    let (mut cache, _rx) = new_cache(100);
    let mut this = created(&mut cache, "a", 10);

    // with a file in memory
    let that = created(&mut cache, "b", 4);
    let overwriting = this.overwrite(&mut cache, &that);
    assert_eq!(overwriting, Overwriting::CopyContents { old_size: 10, new_size: 4 });
    assert_eq!(this.state(), FileLockState::Modified(4));
    assert_eq!(cache.resize(10, 4), Resized::Released);
    assert_eq!(cache.size(), 8);

    // with a file on the disk
    let on_disk = FileLock::load(path("c"));
    assert_eq!(this.overwrite(&mut cache, &on_disk), Overwriting::CopyFile);
    assert_eq!(this.state(), FileLockState::Modified(4));
    assert_eq!(this.copied(&mut cache), Resized::Released);
    assert_eq!(this.state(), FileLockState::Pending);
    assert_eq!(cache.size(), 4);

    // with a file which has been deleted
    let mut gone = that;
    gone.delete(&mut cache, false).unwrap();
    assert_eq!(this.overwrite(&mut cache, &gone), Overwriting::Nothing);
    assert_eq!(this.state(), FileLockState::Deleted(true));
    assert_eq!(cache.size(), 0);
}

#[test]
fn files_which_do_not_fit_are_not_opened() {
    assert_eq!(open(10, 10).unwrap(), 10);
    let err = open(11, 10).unwrap_err();
    assert_eq!(err.kind(), ErrorKind::OutOfMemory);
    assert_eq!(err.message, "this file exceeds the configured cache capacity");
    assert_eq!(open(u64::MAX, usize::MAX).is_ok(), usize::MAX as u64 == u64::MAX);
}

#[test]
fn missing_files_are_named() {
    let cause = |kind: ErrorKind| Error { kind, code: Some(2), message: "cause".to_string() };
    let err = open_failed(cause(ErrorKind::NotFound), Some("/tmp/a"));
    assert_eq!(err.kind(), ErrorKind::NotFound);
    assert_eq!(err.message, "there is no file at /tmp/a");
    let err = open_failed(cause(ErrorKind::NotFound), None);
    assert_eq!(
        err.message,
        "the requested file is not in cache and does not exist on the filesystem"
    );
    let err = open_failed(cause(ErrorKind::PermissionDenied), Some("/tmp/a"));
    assert_eq!(err.kind(), ErrorKind::PermissionDenied);
    assert_eq!(err.message, "cause");
    assert_eq!(err.code, Some(2));

    let err = copy_failed(cause(ErrorKind::NotFound), Some("/tmp/a"));
    assert_eq!(err.message, "tried to copy a file from a nonexistent source: /tmp/a");
    let err = copy_failed(cause(ErrorKind::NotFound), None);
    assert_eq!(err.message, "tried to copy a file from a nonexistent source");
    let err = copy_failed(cause(ErrorKind::StorageFull), None);
    assert_eq!(err.kind(), ErrorKind::StorageFull);

    assert!(delete_file(Ok(())).is_ok());
    assert!(delete_file(Err(cause(ErrorKind::NotFound))).is_ok());
    let err = delete_file(Err(cause(ErrorKind::PermissionDenied))).unwrap_err();
    assert_eq!(err.kind(), ErrorKind::PermissionDenied);
}

#[test]
fn errors_have_kinds_and_messages() {
    let err = deleted();
    assert_eq!(err.kind(), ErrorKind::NotFound);
    assert_eq!(err.message, "this file has been deleted");
    let err = invalid_data("cause");
    assert_eq!(err.kind(), ErrorKind::InvalidData);
    assert_eq!(err.message, "cause");
    let err = would_block("cause");
    assert_eq!(err.kind(), ErrorKind::WouldBlock);
    let err = err.context("context: ");
    assert_eq!(err.kind(), ErrorKind::WouldBlock);
    assert_eq!(err.message, "context: cause");

    for n in [0, 7, 10, 99, 100, 12_345, u64::MAX] {
        assert_eq!(to_decimal(n), n.to_string());
    }
}

struct Guard {
    file: u32,
}

impl FileDeref for Guard {
    type File = u32;

    fn as_file(&self) -> &u32 {
        &self.file
    }
}

#[test]
fn shared_guards_lend_their_file() {
    let guard = Arc::new(Guard { file: 5 });
    assert_eq!(*guard.as_file(), 5);
    assert_eq!(*Arc::new(guard).as_file(), 5);
}
