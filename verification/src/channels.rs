//! What a cache shares with the tasks around it: handles to files, those who wait for bytes, and
//! the requests to evict files.
//!
//! Each of these counts, for the sake of proofs, what a cache has done with it.
use std::sync::Arc;

use tokio::sync::mpsc::error::TrySendError;
use tokio::sync::mpsc::{Receiver, Sender};
use tokio::sync::{Notify, OwnedSemaphorePermit, Semaphore};
use vstd::prelude::*;

verus! {

/// A request to evict files.
#[derive(Debug)]
pub struct Evict;

/// A semaphore of the crate `tokio`.
#[verifier::external_type_specification]
#[verifier::external_body]
pub struct ExSemaphore(Semaphore);

/// A permit of a semaphore of the crate `tokio`.
#[verifier::external_type_specification]
#[verifier::external_body]
pub struct ExOwnedSemaphorePermit(OwnedSemaphorePermit);

/// A notifier of the crate `tokio`.
#[verifier::external_type_specification]
#[verifier::external_body]
pub struct ExNotify(Notify);

/// The sending end of a channel of the crate `tokio`.
#[verifier::external_type_specification]
#[verifier::external_body]
#[verifier::reject_recursive_types(T)]
pub struct ExSender<T>(Sender<T>);

/// The receiving end of a channel of the crate `tokio`.
#[verifier::external_type_specification]
#[verifier::external_body]
#[verifier::reject_recursive_types(T)]
pub struct ExReceiver<T>(Receiver<T>);

/// What became of a request to evict files.
#[derive(Debug, Clone, Copy, PartialEq, Eq, Structural)]
pub enum Sent {
    /// It was sent.
    Queued,
    /// Another one is waiting to be served.
    Full,
    /// Nobody is left to serve it.
    Closed,
}

/// A semaphore with the given number of permits.
///
/// Calls [`Semaphore::new`], which panics if there are more permits than an eighth of the largest
/// `usize`. How many permits are left at any time depends on who holds them, so nothing is said of
/// the result.
#[verifier::external_body]
fn new_semaphore(permits: usize) -> (semaphore: Arc<Semaphore>)
    requires
        permits <= usize::MAX / 8,
{
    Arc::new(Semaphore::new(permits))
}

/// A notifier on which nobody waits.
///
/// Calls [`Notify::new`]. Who waits later on depends on the tasks which share it, so nothing is
/// said of the result.
#[verifier::external_body]
fn new_notify() -> (notify: Arc<Notify>) {
    Arc::new(Notify::new())
}

/// A channel which holds up to `buffer` requests.
///
/// Calls [`tokio::sync::mpsc::channel`], which panics if there is no room for a request, or for
/// more than an eighth of the largest `usize`. What passes through the channel depends on the
/// tasks at either end, so nothing is said of the result.
#[verifier::external_body]
fn new_channel(buffer: usize) -> (channel: (Sender<Evict>, Receiver<Evict>))
    requires
        0 < buffer <= usize::MAX / 8,
{
    tokio::sync::mpsc::channel(buffer)
}

/// `handles` are what making a semaphore with this number of permits can lead to.
pub closed spec fn admits(handles: Arc<Semaphore>, permits: usize) -> bool {
    call_ensures(new_semaphore, (permits,), handles)
}

/// `tx` and `rx` are what making a channel for up to `buffer` requests can lead to.
pub closed spec fn joined(tx: Sender<Evict>, rx: Receiver<Evict>, buffer: usize) -> bool {
    call_ensures(new_channel, (buffer,), (tx, rx))
}

/// Handles to files.
pub struct Handles {
    semaphore: Arc<Semaphore>,
    asked: Ghost<Seq<Option<OwnedSemaphorePermit>>>,
}

impl Handles {
    /// The semaphore whose permits are the handles.
    pub closed spec fn spec_semaphore(&self) -> Arc<Semaphore> {
        self.semaphore
    }

    /// How often a handle has been asked for without waiting, and what came of it each time.
    pub closed spec fn asked(&self) -> Seq<Option<OwnedSemaphorePermit>> {
        self.asked@
    }

    /// This number of handles.
    pub fn new(permits: usize) -> (handles: Self)
        requires
            permits <= usize::MAX / 8,
        ensures
            admits(handles.semaphore(), permits),
            handles.asked() == Seq::<Option<OwnedSemaphorePermit>>::empty(),
    {
        Handles { semaphore: new_semaphore(permits), asked: Ghost(Seq::empty()) }
    }

    /// The semaphore whose permits are the handles.
    #[verifier::when_used_as_spec(spec_semaphore)]
    pub fn semaphore(&self) -> (semaphore: Arc<Semaphore>)
        ensures
            semaphore == self.semaphore(),
    {
        self.semaphore.clone()
    }

    /// Take a permit, if there is one.
    ///
    /// Calls [`Semaphore::try_acquire_owned`], once. Whether there is a permit depends on who else
    /// holds one, so all that is said of the result is that it is recorded.
    #[verifier::external_body]
    pub(crate) fn try_acquire(&mut self) -> (permit: Option<OwnedSemaphorePermit>)
        ensures
            final(self).semaphore() == old(self).semaphore(),
            final(self).asked() == old(self).asked().push(permit),
    {
        Arc::clone(&self.semaphore).try_acquire_owned().ok()
    }
}

/// Those who wait for bytes.
pub struct Waiters {
    notify: Arc<Notify>,
    wakes: Ghost<nat>,
}

impl Waiters {
    /// The notifier on which they wait.
    pub closed spec fn spec_notify(&self) -> Arc<Notify> {
        self.notify
    }

    /// How often they have been woken.
    pub closed spec fn wakes(&self) -> nat {
        self.wakes@
    }

    /// Nobody waits yet.
    pub fn new() -> (waiters: Self)
        ensures
            waiters.wakes() == 0,
    {
        Waiters { notify: new_notify(), wakes: Ghost(0) }
    }

    /// The notifier on which they wait.
    #[verifier::when_used_as_spec(spec_notify)]
    pub fn notify(&self) -> (notify: Arc<Notify>)
        ensures
            notify == self.notify(),
    {
        self.notify.clone()
    }

    /// Wake all who wait.
    ///
    /// Calls [`Notify::notify_waiters`], once, which returns nothing. Its effect is on the tasks
    /// which wait, so all that is said of it is that it is counted.
    #[verifier::external_body]
    pub(crate) fn wake(&mut self)
        ensures
            final(self).notify() == old(self).notify(),
            final(self).wakes() == old(self).wakes() + 1,
    {
        self.notify.notify_waiters()
    }
}

/// The requests to evict files.
pub struct Requests {
    tx: Sender<Evict>,
    sent: Ghost<Seq<Sent>>,
}

impl Requests {
    /// The end of the channel by which they are sent.
    pub closed spec fn tx(&self) -> Sender<Evict> {
        self.tx
    }

    /// How many have been sent, and what became of each.
    pub closed spec fn sent(&self) -> Seq<Sent> {
        self.sent@
    }

    /// None have been sent. Up to `buffer` may wait at the other end of the channel to be served.
    pub fn new(buffer: usize) -> (requests: (Self, Receiver<Evict>))
        requires
            0 < buffer <= usize::MAX / 8,
        ensures
            joined(requests.0.tx(), requests.1, buffer),
            requests.0.sent() == Seq::<Sent>::empty(),
    {
        let (tx, rx) = new_channel(buffer);
        (Requests { tx, sent: Ghost(Seq::empty()) }, rx)
    }

    /// Send a request to evict files, without waiting.
    ///
    /// Calls [`Sender::try_send`], once. What becomes of the request depends on the other end of
    /// the channel, so all that is said of the result is that it is recorded.
    #[verifier::external_body]
    pub(crate) fn try_send(&mut self) -> (sent: Sent)
        ensures
            final(self).tx() == old(self).tx(),
            final(self).sent() == old(self).sent().push(sent),
    {
        match self.tx.try_send(Evict) {
            Ok(()) => Sent::Queued,
            Err(TrySendError::Full(_)) => Sent::Full,
            Err(TrySendError::Closed(_)) => Sent::Closed,
        }
    }
}

} // verus!
