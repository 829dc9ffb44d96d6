use std::future::Future;
use std::pin::Pin;
use std::task::Context;

use freqfs::cache::{HandleWait, Reserving};
use freqfs::channels::{Evict, Sent};
use freqfs::file::Locking;
use freqfs::persist::{Persist, PersistEvent, Persisted};
use freqfs::state::{Reservation, Resized, State};
use freqfs::{Cache, Error, ErrorKind, FileLock, FilePath};
use tokio::sync::mpsc::Receiver;

fn path(name: &str) -> FilePath {
    let components = ["/", "tmp", name];
    FilePath::new(1, components.iter().map(|component| component.as_bytes().to_vec()).collect())
}

fn dir(components: &[&str]) -> FilePath {
    FilePath::new(1, components.iter().map(|component| component.as_bytes().to_vec()).collect())
}

fn new_cache(capacity: usize) -> (Cache, Receiver<Evict>) {
    Cache::new(capacity, None, 0)
}

fn persisted(file: &FileLock, cache: &Cache, size: u64) -> Persisted {
    let mut persist: Persist = file.write_back(cache, u64::MAX).unwrap();
    for event in [
        PersistEvent::Exists(true),
        PersistEvent::Done,
        PersistEvent::Saved(size),
        PersistEvent::Done,
    ] {
        persist.advance(event).unwrap();
    }
    persist.finish().unwrap()
}

fn is_ready<F: Future + Unpin>(future: &mut F) -> bool {
    let waker = futures::task::noop_waker();
    let mut context = Context::from_waker(&waker);
    Pin::new(future).poll(&mut context).is_ready()
}

fn granted(reserving: Result<Reserving, Error>) -> Reservation {
    match reserving {
        Ok(Reserving::Granted(reservation)) => reservation,
        other => panic!("not granted: {:?}", other),
    }
}

#[test]
fn lfu_eviction_prefers_least_used() {
    let (mut cache, _rx) = new_cache(10);

    let mut files = vec![FileLock::new(path("a.bin"), 10), FileLock::new(path("b.bin"), 10)];

    cache.insert(path("a.bin"), 0, 10).unwrap();
    cache.insert(path("b.bin"), 1, 10).unwrap();

    // make `a.bin` the most frequently used
    assert!(cache.bump(&path("a.bin"), None).unwrap());

    let mut gc = cache.gc_for(0);
    while let Some(ticket) = gc.candidate() {
        let file = &mut files[ticket as usize];
        let size = file.evict(true);
        gc.record(size);
        assert_eq!(size, Some(10));
        let persisted = persisted(file, &cache, 10);
        assert_eq!(file.evicted(Some(persisted)).count(&mut cache), Resized::Released);
    }

    assert_eq!(files[0].try_read(&mut cache).unwrap(), Locking::Cached);

    let evicted = files[1].try_read(&mut cache).unwrap_err();
    assert_eq!(evicted.kind(), ErrorKind::WouldBlock);
    assert_eq!(cache.size(), 10);
}

#[test]
fn tiny_capacity_coalesces_duplicate_evict_signals() {
    let (mut cache, mut rx) = new_cache(1);

    cache.insert(path("a.bin"), 0, 2).unwrap();
    assert!(rx.try_recv().is_ok());

    cache.insert(path("b.bin"), 1, 2).unwrap();
    assert!(rx.try_recv().is_err());

    let gc = cache.begin_eviction();
    cache.end_eviction(&gc).unwrap();

    cache.insert(path("c.bin"), 2, 2).unwrap();
    assert!(rx.try_recv().is_ok());
}

#[test]
fn a_request_which_waits_to_be_served_is_enough() {
    let (mut cache, mut rx) = new_cache(1);
    cache.insert(path("a.bin"), 0, 2).unwrap();

    let gc = cache.begin_eviction();
    cache.end_eviction(&gc).unwrap();

    cache.insert(path("b.bin"), 1, 2).unwrap();
    assert!(rx.try_recv().is_ok());
    assert!(rx.try_recv().is_err());
}

#[test]
fn disk_reserve_rejects_before_a_write() {
    let (cache, _rx) = Cache::new(10, Some(1), u64::MAX);

    let err = cache.ensure_disk_capacity(1 << 40, 1).unwrap_err();
    assert_eq!(err.kind(), ErrorKind::StorageFull);
    assert_eq!(
        err.message,
        format!(
            "filesystem free space is below the configured reserve of {} bytes",
            u64::MAX
        )
    );
    let file = FileLock::new(path("data.bin"), 1);
    assert_eq!(file.write_back(&cache, 1 << 40).unwrap_err().kind(), ErrorKind::StorageFull);
}

#[test]
fn disk_reserve_is_exact() {
    let (cache, _rx) = Cache::new(10, Some(1), 1000);
    assert!(cache.ensure_disk_capacity(1010, 10).is_ok());
    let err = cache.ensure_disk_capacity(1009, 10).unwrap_err();
    assert_eq!(err.message, "filesystem free space is below the configured reserve of 1000 bytes");
    assert!(cache.ensure_disk_capacity(u64::MAX, u64::MAX).is_ok());
}

#[test]
fn file_handle_admission_waits_and_recovers() {
    let (mut cache, _rx) = Cache::new(10, Some(1), 0);
    let first = FileLock::new(path("first.bin"), 1);
    let second = FileLock::new(path("second.bin"), 1);

    let first_guard = cache.try_acquire_file_handle().unwrap();
    assert_eq!(first.read(&mut cache).unwrap(), Locking::Cached);

    let err = cache.try_acquire_file_handle().unwrap_err();
    assert_eq!(err.kind(), ErrorKind::ResourceBusy);
    assert_eq!(err.message, "file handle limit reached");

    let mut waiting = Box::pin(cache.file_handles().acquire_owned());
    assert!(!is_ready(&mut waiting));

    drop(first_guard);
    assert!(is_ready(&mut waiting));
    assert_eq!(second.read(&mut cache).unwrap(), Locking::Cached);
}

#[test]
fn there_are_as_many_file_handles_as_asked_for() {
    for (limit, expected) in [(None, 512), (Some(1), 1), (Some(3), 3)] {
        let (mut cache, _rx) = Cache::new(10, limit, 0);
        let mut handles = Vec::new();
        for _ in 0..expected {
            handles.push(cache.try_acquire_file_handle().unwrap());
        }
        let err = cache.try_acquire_file_handle().unwrap_err();
        assert_eq!(err.kind(), ErrorKind::ResourceBusy);
        handles.pop();
        assert!(cache.try_acquire_file_handle().is_ok());
    }
}

#[test]
fn requests_which_nobody_serves_are_cancelled() {
    let (mut cache, mut rx) = new_cache(1);
    cache.insert(path("a.bin"), 0, 2).unwrap();
    assert!(rx.try_recv().is_ok());

    for sent in [Sent::Queued, Sent::Full] {
        assert!(cache.eviction_sent(sent).is_ok());
        cache.check().unwrap();
        assert!(rx.try_recv().is_err());
    }
    assert!(cache.eviction_sent(Sent::Closed).is_err());
    cache.check().unwrap();
    assert!(rx.try_recv().is_ok());
}

#[test]
fn file_handle_waits_end() {
    assert_eq!(Cache::acquire_file_handle(HandleWait::Granted(7)).unwrap(), 7);
    let err = Cache::acquire_file_handle(HandleWait::<u8>::TimedOut).unwrap_err();
    assert_eq!(err.kind(), ErrorKind::ResourceBusy);
    assert_eq!(err.message, "file handle limit reached");
    let err = Cache::acquire_file_handle(HandleWait::<u8>::Closed).unwrap_err();
    assert_eq!(err.kind(), ErrorKind::BrokenPipe);
    assert_eq!(err.message, "file handle admission closed");

    assert_eq!(Cache::file_handle_at_once(Some(7)).unwrap(), 7);
    let err = Cache::file_handle_at_once(None::<u8>).unwrap_err();
    assert_eq!(err.kind(), ErrorKind::ResourceBusy);
}

#[test]
fn byte_admission_waits_at_limit_and_recovers_on_release() {
    let (mut cache, _rx) = Cache::new(10, Some(1), 0);
    let first = granted(cache.reserve(10));

    let notify = cache.capacity_released();
    let mut waiting = Box::pin(notify.notified());
    assert!(matches!(cache.reserve(1), Ok(Reserving::Wait)));
    assert!(!is_ready(&mut waiting));

    cache.release(first);
    assert!(is_ready(&mut waiting));
    let second = granted(cache.reserve(1));
    second.commit();
    assert_eq!(cache.size(), 1);
}

#[test]
fn oversized_reservations_are_refused() {
    let (mut cache, mut rx) = new_cache(10);
    let err = cache.reserve(11).unwrap_err();
    assert_eq!(err.kind(), ErrorKind::OutOfMemory);
    assert_eq!(err.message, "retained file exceeds cache capacity");
    assert!(rx.try_recv().is_err());
    assert_eq!(cache.size(), 0);

    let err = Cache::reserve_timed_out();
    assert_eq!(err.kind(), ErrorKind::ResourceBusy);
    assert_eq!(err.message, "cache capacity is exhausted");
}

#[test]
fn a_waiting_reservation_asks_for_evictions() {
    let (mut cache, mut rx) = new_cache(10);
    let mut file = FileLock::new(path("a.bin"), 8);
    cache.insert(path("a.bin"), 0, 8).unwrap();
    assert!(rx.try_recv().is_err());

    assert!(matches!(cache.reserve(5), Ok(Reserving::Wait)));
    assert!(matches!(cache.reserve(3), Ok(Reserving::Wait)));
    assert!(rx.try_recv().is_ok());
    assert!(rx.try_recv().is_err());

    let mut gc = cache.begin_eviction();
    assert_eq!(gc.candidate(), Some(0));
    gc.record(file.evict(true));
    assert_eq!(gc.candidate(), None);
    let saved = persisted(&file, &cache, 8);
    file.evicted(Some(saved)).count(&mut cache);
    cache.evicted(Ok(()));
    cache.end_eviction(&gc).unwrap();

    assert_eq!(granted(cache.reserve(5)).bytes(), 5);
    assert_eq!(granted(cache.reserve(5)).bytes(), 5);
}

#[test]
fn a_failed_eviction_is_told_once() {
    let (mut cache, _rx) = new_cache(10);
    cache.evicted(Err(Error::new(ErrorKind::StorageFull, "no space")));
    cache.evicted(Ok(()));
    let err = cache.reserve(1).unwrap_err();
    assert_eq!(err.kind(), ErrorKind::Other);
    assert_eq!(err.message, "cache eviction failed");
    granted(cache.reserve(1));
}

#[test]
fn evictions_end_when_nobody_serves_them() {
    let (mut cache, rx) = new_cache(1);
    drop(rx);
    assert!(cache.insert(path("a.bin"), 0, 2).is_err());
    // none is pending, so that it is asked for again
    assert!(cache.check().is_err());
    assert!(matches!(cache.reserve(1), Ok(Reserving::Stopped)));
}

#[test]
fn another_eviction_is_asked_for_after_one_which_was_not_enough() {
    let (mut cache, mut rx) = Cache::new(1, Some(1), 0);
    let mut files = vec![FileLock::new(path("a.bin"), 2), FileLock::new(path("b.bin"), 2)];
    cache.insert(path("a.bin"), 0, 2).unwrap();
    cache.insert(path("b.bin"), 1, 2).unwrap();
    assert!(rx.try_recv().is_ok());

    for expected in [0u64, 1] {
        let mut gc = cache.begin_eviction();
        let mut tickets = Vec::new();
        while let Some(ticket) = gc.candidate() {
            let file = &mut files[ticket as usize];
            let size = file.evict(true);
            gc.record(size);
            if size.is_some() {
                tickets.push(ticket);
            }
        }
        assert_eq!(tickets, vec![expected]);
        let file = &mut files[expected as usize];
        let saved = persisted(file, &cache, 2);
        file.evicted(Some(saved)).count(&mut cache);
        cache.end_eviction(&gc).unwrap();
        assert_eq!(rx.try_recv().is_ok(), expected == 0);
    }
    assert_eq!(cache.size(), 0);
}

#[test]
fn files_in_use_are_passed_over() {
    let (mut cache, _rx) = new_cache(4);
    for (i, name) in ["a", "b", "c", "d"].iter().enumerate() {
        cache.insert(path(name), i as u64, 2).unwrap();
    }
    let mut gc = cache.gc_for(0);
    let mut offered = Vec::new();
    while let Some(ticket) = gc.candidate() {
        offered.push(ticket);
        gc.record(if ticket == 1 { None } else { Some(2) });
    }
    assert_eq!(offered, vec![0, 1, 2]);
    assert!(gc.has_evictions());

    let mut gc = cache.gc_for(0);
    while gc.candidate().is_some() {
        gc.record(None);
    }
    assert!(!gc.has_evictions());
    assert_eq!(cache.gc_for(100).candidate(), Some(0));
    let (empty, _rx) = new_cache(4);
    assert_eq!(empty.gc_for(4).candidate(), None);
}

#[test]
fn a_use_raises_a_file_by_one_rank() {
    let (mut cache, _rx) = new_cache(0);
    for (i, name) in ["a", "b", "c"].iter().enumerate() {
        cache.insert(path(name), i as u64, 1).unwrap();
    }
    let order = |cache: &Cache| {
        let mut gc = cache.gc_for(0);
        let mut tickets = Vec::new();
        while let Some(ticket) = gc.candidate() {
            tickets.push(ticket);
            gc.record(None);
        }
        tickets
    };
    assert_eq!(order(&cache), vec![0, 1, 2]);
    assert!(cache.bump(&path("a"), None).unwrap());
    assert_eq!(order(&cache), vec![1, 0, 2]);
    assert!(cache.bump(&path("c"), None).unwrap());
    assert_eq!(order(&cache), vec![1, 0, 2]);
    assert!(!cache.bump(&path("d"), None).unwrap());
    assert_eq!(order(&cache), vec![1, 0, 2]);
    cache.insert(path("b"), 7, 1).unwrap();
    assert_eq!(order(&cache), vec![0, 2, 7]);
    cache.remove(&path("c"), 1).unwrap();
    assert_eq!(order(&cache), vec![0, 7]);
}

#[test]
fn books_count_sizes() {
    let (mut cache, _rx) = new_cache(100);
    cache.insert(path("a"), 0, 10).unwrap();
    assert_eq!(cache.size(), 10);
    cache.bump(&path("a"), Some(5)).unwrap();
    assert_eq!(cache.size(), 15);
    assert_eq!(cache.resize(15, 20), Resized::Grow { bytes: 5 });
    assert_eq!(cache.size(), 15);
    assert_eq!(cache.resize(15, 12), Resized::Released);
    assert_eq!(cache.size(), 12);
    assert_eq!(cache.resize(12, 12), Resized::Unchanged);
    let reservation = granted(cache.reserve(3));
    cache.insert_reserved(path("b"), 1, reservation);
    assert_eq!(cache.size(), 15);
    cache.remove(&path("missing"), 9).unwrap();
    assert_eq!(cache.size(), 15);
    cache.remove(&path("a"), 12).unwrap();
    assert_eq!(cache.size(), 3);
    assert_eq!(cache.capacity(), 100);
}

#[test]
fn signals_tell_what_changed() {
    let mut state = State::new(4, 1, 0);
    assert!(!state.insert(path("a"), 0, 4));
    assert!(state.insert(path("b"), 1, 4));
    let signals = state.remove(&path("b"), 4);
    assert!(signals.notify);
    assert!(!signals.evict);
    let signals = state.remove(&path("b"), 4);
    assert!(!signals.notify);
    assert_eq!(state.size(), 4);
}

#[test]
fn cache_load_rejects_overlapping_roots() {
    let (mut cache, _rx) = Cache::new(1024 * 1024, None, 0);
    let root = || dir(&["/", "tmp", "root"]);

    cache.load(&root(), "root").unwrap();
    cache.add_root(root());

    let err = cache.load(&dir(&["/", "tmp", "root", "sub"]), "\"root/sub\"").unwrap_err();
    assert_eq!(err.kind(), ErrorKind::AlreadyExists);
    assert_eq!(
        err.message,
        "called Cache::load on a directory that's already loaded: \"root/sub\""
    );

    let err = cache.load(&root(), "root").unwrap_err();
    assert_eq!(err.kind(), ErrorKind::AlreadyExists);

    let err = cache.load(&dir(&["/", "tmp"]), "tmp").unwrap_err();
    assert_eq!(err.kind(), ErrorKind::AlreadyExists);

    assert!(cache.load(&dir(&["/", "tmp", "other"]), "other").is_ok());
    assert!(cache.load(&dir(&["/", "tmp", "root2"]), "root2").is_ok());
}

#[test]
fn waiters_are_woken_by_every_release() {
    let (mut cache, _rx) = new_cache(10);
    let notify = cache.capacity_released();

    cache.insert(path("a"), 0, 8).unwrap();
    let mut waiting = Box::pin(notify.notified());
    assert_eq!(cache.resize(8, 9), Resized::Grow { bytes: 1 });
    assert_eq!(cache.resize(8, 8), Resized::Unchanged);
    assert!(!is_ready(&mut waiting));
    assert_eq!(cache.resize(8, 6), Resized::Released);
    assert!(is_ready(&mut waiting));

    let mut waiting = Box::pin(notify.notified());
    cache.remove(&path("b"), 6).unwrap();
    assert!(!is_ready(&mut waiting));
    cache.remove(&path("a"), 6).unwrap();
    assert!(is_ready(&mut waiting));

    let mut waiting = Box::pin(notify.notified());
    let gc = cache.begin_eviction();
    assert!(!is_ready(&mut waiting));
    cache.end_eviction(&gc).unwrap();
    assert!(is_ready(&mut waiting));
}
