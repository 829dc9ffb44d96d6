//! A cache: its books, the handles that it admits to files, and the channels by which it wakes
//! those who wait for it.
use std::sync::Arc;

use tokio::sync::mpsc::{Receiver, Sender};
use tokio::sync::{Notify, OwnedSemaphorePermit, Semaphore};
use vstd::prelude::*;

use crate::channels::{admits, joined, Evict, Handles, Requests, Sent, Waiters};
use crate::error::{failure, is_outcome, Error, ErrorKind, ErrorView};
use crate::gc::Gc;
use crate::laws::lemma_overlap_is_at_any_depth;
use crate::lfu::ranks;
use crate::path::FilePath;
use crate::state::{
    already_loaded, bytes_in, disk_full, resizing, Reservation, Reserved, Resized, Signals, State,
    StateView,
};

verus! {

/// How many files may be evicted at once, and read or written at once, unless a cache is told
/// otherwise.
pub const MAX_FILE_HANDLES: usize = 512;

/// How many requests to evict files may wait to be served: one is enough, since they are coalesced.
pub const MAX_EVICT_REQUESTS: usize = 1;

/// Nobody is left to evict files.
#[derive(Debug)]
pub struct CleanupStopped;

/// A cache of files.
pub struct Cache {
    state: State,
    file_handles: Handles,
    capacity_released: Waiters,
    requests: Requests,
}

/// What a cache shares with the tasks around it, and what it has done with it so far.
#[verifier::ext_equal]
pub struct ChannelsView {
    /// The semaphore whose permits are the handles that the cache admits to files.
    pub file_handles: Arc<Semaphore>,
    /// How often a handle has been asked for without waiting, and what came of it each time.
    pub asked: Seq<Option<OwnedSemaphorePermit>>,
    /// What wakes those who wait for bytes.
    pub capacity_released: Arc<Notify>,
    /// How often they have been woken.
    pub wakes: nat,
    /// The end of the channel by which the cache asks for evictions.
    pub tx: Sender<Evict>,
    /// How many requests to evict files have been sent, and what became of each.
    pub requests: Seq<Sent>,
}

impl ChannelsView {
    /// The same once those who wait have been woken, if `notify` says so, and one request to evict
    /// files has been `sent`, if any.
    pub open spec fn signalled(self, notify: bool, sent: Option<Sent>) -> ChannelsView {
        ChannelsView {
            wakes: if notify {
                self.wakes + 1
            } else {
                self.wakes
            },
            requests: match sent {
                Some(sent) => self.requests.push(sent),
                None => self.requests,
            },
            ..self
        }
    }

    /// The same once a handle has been asked for, and `permit` came of it.
    pub open spec fn asked_for_handle(self, permit: Option<OwnedSemaphorePermit>) -> ChannelsView {
        ChannelsView { asked: self.asked.push(permit), ..self }
    }
}

/// What became of a request for bytes.
#[derive(Debug)]
pub enum Reserving {
    /// The bytes are reserved.
    Granted(Reservation),
    /// There is no room: wait until bytes are released, then ask again.
    Wait,
    /// There is no room, and nobody is left to make any.
    Stopped,
}

/// What became of the wait for a file handle.
#[derive(Debug)]
pub enum HandleWait<P> {
    /// There is a handle.
    Granted(P),
    /// The wait took too long.
    TimedOut,
    /// No more handles are given out.
    Closed,
}

/// The error for a file handle when there is none left.
pub open spec fn handle_limit_reached() -> ErrorView {
    failure(ErrorKind::ResourceBusy, "file handle limit reached"@)
}

impl View for Cache {
    type V = StateView;

    closed spec fn view(&self) -> StateView {
        self.state@
    }
}

/// `after` are the books and the channels of a cache once `changed` books have been checked, from
/// `before`: those who wait have been woken once if `notify` says so, and not at all otherwise; one
/// request has been sent if an eviction has to be asked for, and none otherwise. If nobody is left
/// to serve the request, no eviction is pending.
pub open spec fn settled(
    changed: StateView,
    notify: bool,
    before: ChannelsView,
    after: (StateView, ChannelsView),
    stopped: bool,
) -> bool {
    if changed.asks_for_eviction() {
        let sent = after.1.requests.last();
        &&& after.1 == before.signalled(notify, Some(sent))
        &&& stopped == (sent is Closed)
        &&& after.0 == if stopped {
            changed
        } else {
            changed.checked()
        }
    } else {
        !stopped && after.1 == before.signalled(notify, None) && after.0 == changed
    }
}

/// The number of file handles of a cache for which `max_file_handles` was asked.
pub open spec fn handle_limit(max_file_handles: Option<usize>) -> usize {
    match max_file_handles {
        Some(limit) => limit,
        None => MAX_FILE_HANDLES,
    }
}

impl Cache {
    /// What this cache shares with the tasks around it.
    pub closed spec fn channels(&self) -> ChannelsView {
        ChannelsView {
            file_handles: self.file_handles.semaphore(),
            asked: self.file_handles.asked(),
            capacity_released: self.capacity_released.notify(),
            wakes: self.capacity_released.wakes(),
            tx: self.requests.tx(),
            requests: self.requests.sent(),
        }
    }

    /// A new cache, and the end of the channel by which it asks for evictions.
    pub fn new(
        capacity: usize,
        max_file_handles: Option<usize>,
        minimum_free_disk_bytes: u64,
    ) -> (cache: (Self, Receiver<Evict>))
        requires
            0 < handle_limit(max_file_handles) <= usize::MAX / 8,
        ensures
            cache.0@ == StateView::empty(
                capacity as int,
                handle_limit(max_file_handles) as int,
                minimum_free_disk_bytes as int,
            ),
            cache.0@.wf(),
            admits(cache.0.channels().file_handles, handle_limit(max_file_handles)),
            joined(cache.0.channels().tx, cache.1, MAX_EVICT_REQUESTS),
            cache.0.channels().asked == Seq::<Option<OwnedSemaphorePermit>>::empty(),
            cache.0.channels().wakes == 0,
            cache.0.channels().requests == Seq::<Sent>::empty(),
    {
        let limit = match max_file_handles {
            Some(limit) => limit,
            None => MAX_FILE_HANDLES,
        };
        let (requests, rx) = Requests::new(MAX_EVICT_REQUESTS);
        let cache = Cache {
            state: State::new(capacity, limit, minimum_free_disk_bytes),
            file_handles: Handles::new(limit),
            capacity_released: Waiters::new(),
            requests,
        };
        (cache, rx)
    }

    /// How many bytes this cache is meant to retain at most.
    pub fn capacity(&self) -> (capacity: usize)
        ensures
            capacity == self@.capacity,
    {
        self.state.capacity()
    }

    /// How many bytes are retained or reserved.
    pub fn size(&self) -> (size: usize)
        ensures
            size == self@.size,
    {
        self.state.size()
    }

    /// The handles that this cache admits to files.
    pub fn file_handles(&self) -> (file_handles: Arc<Semaphore>)
        ensures
            file_handles == self.channels().file_handles,
    {
        self.file_handles.semaphore()
    }

    /// What wakes those who wait for bytes.
    pub fn capacity_released(&self) -> (capacity_released: Arc<Notify>)
        ensures
            capacity_released == self.channels().capacity_released,
    {
        self.capacity_released.notify()
    }

    /// A request to evict files has been sent. If nobody is left to serve it, none is pending.
    pub fn eviction_sent(&mut self, sent: Sent) -> (outcome: Result<(), CleanupStopped>)
        ensures
            final(self).channels() == old(self).channels(),
            (outcome is Err) == (sent is Closed),
            final(self)@ == (if sent is Closed {
                StateView { gc_pending: false, ..old(self)@ }
            } else {
                old(self)@
            }),
    {
        match sent {
            Sent::Queued => Ok(()),
            Sent::Full => Ok(()),
            Sent::Closed => {
                self.state.cancel_eviction();
                Err(CleanupStopped)
            },
        }
    }

    /// Do what `signals` ask for, and nothing else. An eviction is cancelled if nobody is left to
    /// serve it.
    fn deliver(&mut self, signals: Signals) -> (outcome: Result<(), CleanupStopped>)
        ensures
            ({
                let sent = final(self).channels().requests.last();
                if signals.evict {
                    &&& final(self).channels() == old(self).channels().signalled(
                        signals.notify,
                        Some(sent),
                    )
                    &&& (outcome is Err) == (sent is Closed)
                    &&& final(self)@ == if sent is Closed {
                        StateView { gc_pending: false, ..old(self)@ }
                    } else {
                        old(self)@
                    }
                } else {
                    &&& final(self).channels() == old(self).channels().signalled(
                        signals.notify,
                        None,
                    )
                    &&& outcome is Ok
                    &&& final(self)@ == old(self)@
                }
            }),
    {
        if signals.notify {
            self.capacity_released.wake();
        }
        if signals.evict {
            let sent = self.requests.try_send();
            self.eviction_sent(sent)
        } else {
            Ok(())
        }
    }

    /// Ask for an eviction, if one has to be asked for.
    pub fn check(&mut self) -> (outcome: Result<(), CleanupStopped>)
        ensures
            settled(
                old(self)@,
                false,
                old(self).channels(),
                (final(self)@, final(self).channels()),
                outcome is Err,
            ),
    {
        let evict = self.state.check();
        self.deliver(Signals { notify: false, evict })
    }

    /// Count a use of the file at `path`, and `file_size` bytes that it now retains. Say whether
    /// the file is ranked.
    pub fn bump(&mut self, path: &FilePath, file_size: Option<usize>) -> (outcome: Result<
        bool,
        CleanupStopped,
    >)
        requires
            old(self)@.wf(),
            old(self)@.size + bytes_in(file_size) <= usize::MAX,
        ensures
            settled(
                old(self)@.bumped(path@, bytes_in(file_size)),
                false,
                old(self).channels(),
                (final(self)@, final(self).channels()),
                outcome is Err,
            ),
            outcome matches Ok(exists) ==> exists == ranks(old(self)@.files, path@),
            final(self)@.wf(),
    {
        let (exists, evict) = self.state.bump(path, file_size);
        match self.deliver(Signals { notify: false, evict }) {
            Ok(()) => Ok(exists),
            Err(stopped) => Err(stopped),
        }
    }

    /// Reserve `bytes`, if they fit. Whoever is told to wait asks again when bytes are released.
    pub fn reserve(&mut self, bytes: usize) -> (outcome: Result<Reserving, Error>)
        requires
            old(self)@.wf(),
            old(self)@.capacity < usize::MAX || old(self)@.size + bytes <= usize::MAX,
        ensures
            final(self)@.wf(),
            match outcome {
                Err(error) => {
                    &&& old(self)@.refusal(bytes as int) == Some(error@)
                    &&& final(self)@ == old(self)@.after_request(bytes as int)
                    &&& final(self).channels() == old(self).channels()
                },
                Ok(reserving) => {
                    &&& old(self)@.refusal(bytes as int) is None
                    &&& old(self)@.has_room(bytes as int) == (reserving is Granted)
                    &&& match reserving {
                        Reserving::Granted(reservation) => {
                            &&& reservation@ == bytes
                            &&& final(self)@ == old(self)@.grown(bytes as int)
                            &&& final(self).channels() == old(self).channels()
                        },
                        _ => settled(
                            old(self)@.waited_on(bytes as int),
                            false,
                            old(self).channels(),
                            (final(self)@, final(self).channels()),
                            reserving is Stopped,
                        ),
                    }
                },
            },
            bytes > old(self)@.capacity ==> outcome is Err,
            outcome is Ok ==> ((outcome->Ok_0 is Granted) <==> old(self)@.size + bytes
                <= old(self)@.capacity),
    {
        match self.state.reserve(bytes) {
            Err(error) => Err(error),
            Ok(Reserved::Granted(reservation)) => Ok(Reserving::Granted(reservation)),
            Ok(Reserved::Wait { evict }) => {
                match self.deliver(Signals { notify: false, evict }) {
                    Ok(()) => Ok(Reserving::Wait),
                    Err(_) => Ok(Reserving::Stopped),
                }
            },
        }
    }

    /// The error for a wait for bytes that took too long.
    pub fn reserve_timed_out() -> (error: Error)
        ensures
            error@ == failure(ErrorKind::ResourceBusy, "cache capacity is exhausted"@),
    {
        Error::new(ErrorKind::ResourceBusy, "cache capacity is exhausted")
    }

    /// Give back bytes that were reserved and are not kept.
    pub fn release(&mut self, reservation: Reservation)
        requires
            old(self)@.wf(),
            reservation@ <= old(self)@.size,
        ensures
            final(self)@ == old(self)@.grown(-reservation@),
            final(self)@.wf(),
            final(self).channels() == old(self).channels().signalled(true, None),
    {
        let signals = self.state.release(reservation);
        let _ = self.deliver(signals);
    }

    /// Rank the file at `path` first, and count the `file_size` bytes that it retains.
    pub fn insert(&mut self, path: FilePath, ticket: u64, file_size: usize) -> (outcome: Result<
        (),
        CleanupStopped,
    >)
        requires
            old(self)@.wf(),
            old(self)@.size + file_size <= usize::MAX,
        ensures
            settled(
                old(self)@.inserted(path@, ticket, file_size as int),
                false,
                old(self).channels(),
                (final(self)@, final(self).channels()),
                outcome is Err,
            ),
            final(self)@.wf(),
    {
        let evict = self.state.insert(path, ticket, file_size);
        self.deliver(Signals { notify: false, evict })
    }

    /// Rank the file at `path` first, for which bytes have been reserved.
    pub fn insert_reserved(&mut self, path: FilePath, ticket: u64, reservation: Reservation)
        requires
            old(self)@.wf(),
        ensures
            final(self).channels() == old(self).channels(),
            final(self)@ == old(self)@.inserted(path@, ticket, 0),
            final(self)@.wf(),
    {
        self.state.insert_reserved(path, ticket, reservation)
    }

    /// Forget the file at `path`, which retains `size` bytes.
    pub fn remove(&mut self, path: &FilePath, size: usize) -> (outcome: Result<(), CleanupStopped>)
        requires
            old(self)@.wf(),
            ranks(old(self)@.files, path@) ==> size <= old(self)@.size,
        ensures
            settled(
                old(self)@.removed(path@, size as int),
                ranks(old(self)@.files, path@),
                old(self).channels(),
                (final(self)@, final(self).channels()),
                outcome is Err,
            ),
            final(self)@.wf(),
    {
        let signals = self.state.remove(path, size);
        self.deliver(signals)
    }

    /// Count the change in size of a file from `old_size` to `new_size` bytes, if it shrinks. If
    /// it grows, the difference has to be reserved.
    pub fn resize(&mut self, old_size: usize, new_size: usize) -> (resized: Resized)
        requires
            old(self)@.wf(),
            old_size - new_size <= old(self)@.size,
        ensures
            final(self)@.wf(),
            resized == resizing(old_size, new_size),
            final(self)@ == (if resized is Grow {
                old(self)@
            } else {
                old(self)@.grown(new_size - old_size)
            }),
            final(self).channels() == old(self).channels().signalled(resized is Released, None),
    {
        let resized = self.state.resize(old_size, new_size);
        if let Resized::Released = resized {
            let _ = self.deliver(Signals { notify: true, evict: false });
        }
        resized
    }

    /// Say what becomes of whoever waited for a file handle.
    pub fn acquire_file_handle<P>(wait: HandleWait<P>) -> (outcome: Result<P, Error>)
        ensures
            is_outcome(outcome, match wait {
                HandleWait::Granted(permit) => Ok(permit),
                HandleWait::TimedOut => Err(handle_limit_reached()),
                HandleWait::Closed => Err(
                    failure(ErrorKind::BrokenPipe, "file handle admission closed"@),
                ),
            }),
    {
        match wait {
            HandleWait::Granted(permit) => Ok(permit),
            HandleWait::TimedOut => Err(
                Error::new(ErrorKind::ResourceBusy, "file handle limit reached"),
            ),
            HandleWait::Closed => Err(
                Error::new(ErrorKind::BrokenPipe, "file handle admission closed"),
            ),
        }
    }

    /// Say what becomes of whoever asked for a file handle, but did not wait for one.
    pub fn file_handle_at_once<P>(permit: Option<P>) -> (outcome: Result<P, Error>)
        ensures
            is_outcome(outcome, match permit {
                Some(permit) => Ok(permit),
                None => Err(handle_limit_reached()),
            }),
    {
        match permit {
            Some(permit) => Ok(permit),
            None => Err(Error::new(ErrorKind::ResourceBusy, "file handle limit reached")),
        }
    }

    /// Take a file handle, if there is one.
    ///
    /// Whether there is one depends on who else holds them.
    pub fn try_acquire_file_handle(&mut self) -> (outcome: Result<OwnedSemaphorePermit, Error>)
        ensures
            final(self)@ == old(self)@,
            ({
                let permit = final(self).channels().asked.last();
                &&& final(self).channels() == old(self).channels().asked_for_handle(permit)
                &&& is_outcome(outcome, match permit {
                    Some(permit) => Ok(permit),
                    None => Err(handle_limit_reached()),
                })
            }),
    {
        Cache::file_handle_at_once(self.file_handles.try_acquire())
    }

    /// Say whether `bytes` may be written to a disk on which `available` bytes are free.
    pub fn ensure_disk_capacity(&self, available: u64, bytes: u64) -> (outcome: Result<(), Error>)
        ensures
            is_outcome(outcome, if available < self@.required_disk_bytes(bytes as int) {
                Err(disk_full(self@.minimum_free_disk_bytes as nat))
            } else {
                Ok(())
            }),
    {
        self.state.ensure_disk_capacity(available, bytes)
    }

    /// Say whether the directory at `path` may be loaded. `text` is how an error writes the path.
    pub fn load(&self, path: &FilePath, text: &str) -> (outcome: Result<(), Error>)
        ensures
            is_outcome(outcome, if self@.overlaps(path@) {
                Err(already_loaded(text@))
            } else {
                Ok(())
            }),
            outcome is Err <==> exists|i: int|
                0 <= i < self@.roots.len() && ((#[trigger] self@.roots[i]).is_prefix_of(path@)
                    || path@.is_prefix_of(self@.roots[i])),
    {
        proof {
            lemma_overlap_is_at_any_depth(self@, path@);
        }
        self.state.load(path, text)
    }

    /// The directory at `path` has been loaded.
    pub fn add_root(&mut self, path: FilePath)
        ensures
            final(self).channels() == old(self).channels(),
            final(self)@ == (StateView { roots: old(self)@.roots.push(path@), ..old(self)@ }),
    {
        self.state.add_root(path)
    }

    /// Begin a round of eviction which makes room for `requested` bytes.
    pub fn gc_for(&self, requested: usize) -> (gc: Gc)
        requires
            self@.wf(),
        ensures
            gc@ == self@.round_for(requested as int),
            self@.size + requested <= self@.capacity ==> gc@.over == 0,
            self@.capacity < self@.size + requested <= usize::MAX ==> gc@.over == self@.size + requested
                - self@.capacity,
            gc@.limit == self@.max_file_handles,
            gc@.over > 0 ==> gc@.candidates == self@.files.reverse(),
    {
        self.state.gc_for(requested)
    }

    /// Begin the eviction that has been asked for.
    pub fn begin_eviction(&mut self) -> (gc: Gc)
        requires
            old(self)@.wf(),
        ensures
            final(self).channels() == old(self).channels(),
            gc@ == old(self)@.round_for(old(self)@.requested),
            final(self)@ == (StateView { requested: 0, ..old(self)@ }),
            final(self)@.wf(),
    {
        self.state.begin_eviction()
    }

    /// Record what became of the eviction of a file.
    pub fn evicted(&mut self, outcome: Result<(), Error>)
        ensures
            final(self).channels() == old(self).channels(),
            final(self)@ == (StateView {
                eviction_failed: old(self)@.eviction_failed || outcome is Err,
                ..old(self)@
            }),
    {
        self.state.evicted(outcome)
    }

    /// Every eviction of the round `gc` has come to its end: wake those who wait for bytes. If there
    /// were any evictions, another round may be asked for.
    pub fn end_eviction(&mut self, gc: &Gc) -> (outcome: Result<(), CleanupStopped>)
        requires
            old(self)@.wf(),
        ensures
            ({
                let ended = StateView { gc_pending: false, ..old(self)@ };
                if gc@.evictions > 0 {
                    settled(
                        ended,
                        true,
                        old(self).channels(),
                        (final(self)@, final(self).channels()),
                        outcome is Err,
                    )
                } else {
                    &&& outcome is Ok
                    &&& final(self)@ == ended
                    &&& final(self).channels() == old(self).channels().signalled(true, None)
                }
            }),
            final(self)@.wf(),
    {
        let signals = self.state.end_eviction(gc);
        self.deliver(signals)
    }
}

/// While an eviction is pending, no other request is sent, whatever is done with the files and
/// whoever asks for bytes, and the eviction stays pending.
pub proof fn lemma_requests_are_coalesced(
    state: StateView,
    path: Seq<Seq<u8>>,
    ticket: u64,
    bytes: int,
    changed: StateView,
    notify: bool,
    before: ChannelsView,
    after: (StateView, ChannelsView),
    stopped: bool,
)
    requires
        state.gc_pending,
        changed == state || changed == state.bumped(path, bytes) || changed == state.inserted(
            path,
            ticket,
            bytes,
        ) || changed == state.removed(path, bytes) || changed == state.waited_on(bytes),
        settled(changed, notify, before, after, stopped),
    ensures
        !stopped,
        after.0.gc_pending,
        after.1.requests == before.requests,
{
}

/// A request which is sent, and is not in vain, makes an eviction pending: there is at most one
/// request for each eviction.
pub proof fn lemma_one_request_per_eviction(
    changed: StateView,
    notify: bool,
    before: ChannelsView,
    after: (StateView, ChannelsView),
    stopped: bool,
)
    requires
        settled(changed, notify, before, after, stopped),
    ensures
        after.1.requests.len() == before.requests.len() + if changed.asks_for_eviction() {
            1nat
        } else {
            0nat
        },
        changed.asks_for_eviction() && !stopped ==> !changed.gc_pending && after.0.gc_pending,
{
}

} // verus!
