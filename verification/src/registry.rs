//! The response registry: one single-use delivery slot for each outstanding
//! sequence number.

use crate::errors::WorkerError;
use std::collections::HashMap;
use std::sync::mpsc::{Receiver, SyncSender};
use vstd::prelude::*;

verus! {

broadcast use vstd::std_specs::hash::group_hash_axioms;

/// The write side of a delivery slot: `std::sync::mpsc::SyncSender`.
#[verifier::external_type_specification]
#[verifier::external_body]
#[verifier::reject_recursive_types(T)]
pub struct ExSyncSender<T>(SyncSender<T>);

/// The read side of a delivery slot: `std::sync::mpsc::Receiver`.
#[verifier::external_type_specification]
#[verifier::external_body]
#[verifier::reject_recursive_types(T)]
pub struct ExReceiver<T>(Receiver<T>);

/// How many responses a delivery slot holds without a reader.
pub const SLOT_CAPACITY: usize = 24;

/// What became of a response handed to the registry.
#[derive(Clone, Copy, Debug, PartialEq, Eq, Structural)]
pub enum Delivery {
    /// The payload was placed into the slot of its sequence number.
    Delivered,
    /// A slot was found and removed, but it was full or its reader was gone.
    Dropped,
    /// No slot was registered for the sequence number.
    Unknown,
}

/// How a wait on a delivery slot ended.
#[derive(Debug)]
pub enum Waited {
    Payload(String),
    Closed,
    TimedOut,
}

/// `std::sync::mpsc::sync_channel`: a fresh bounded channel. Nothing is
/// claimed of the two ends.
#[verifier::external_body]
fn open_slot(capacity: usize) -> (r: (SyncSender<String>, Receiver<String>)) {
    std::sync::mpsc::sync_channel(capacity)
}

/// `SyncSender::try_send`: never blocks; `true` where the payload was
/// queued. Which it is depends on the reader, so nothing is claimed.
#[verifier::external_body]
pub(crate) fn offer(slot: &SyncSender<String>, payload: String) -> (accepted: bool) {
    slot.try_send(payload).is_ok()
}

/// `Receiver::recv`: blocks until a payload arrives or every sender is gone,
/// and so does not return while the slot stays registered and empty. It
/// never reports a timeout.
#[verifier::external_body]
fn wait_forever(slot: &Receiver<String>) -> (r: Waited)
    ensures
        !(r is TimedOut),
{
    match slot.recv() {
        Ok(payload) => Waited::Payload(payload),
        Err(_) => Waited::Closed,
    }
}

/// `Receiver::recv_timeout` with a duration of `millis` milliseconds. How
/// the wait ends depends on the other side, so nothing is claimed.
#[verifier::external_body]
fn wait_millis(slot: &Receiver<String>, millis: u64) -> (r: Waited) {
    match slot.recv_timeout(std::time::Duration::from_millis(millis)) {
        Ok(payload) => Waited::Payload(payload),
        Err(std::sync::mpsc::RecvTimeoutError::Timeout) => Waited::TimedOut,
        Err(std::sync::mpsc::RecvTimeoutError::Disconnected) => Waited::Closed,
    }
}

/// The outcome of a delivery into a slot that was found, given whether the
/// slot took the payload.
pub fn outcome_of_offer(accepted: bool) -> (d: Delivery)
    ensures
        d == if accepted {
            Delivery::Delivered
        } else {
            Delivery::Dropped
        },
{
    if accepted {
        Delivery::Delivered
    } else {
        Delivery::Dropped
    }
}

/// The result of a call, given how the wait on its slot ended.
pub open spec fn response_of_wait(waited: Waited) -> Result<Seq<char>, WorkerError> {
    match waited {
        Waited::Payload(p) => Ok(p@),
        Waited::Closed => Err(WorkerError::WorkerChannelClosed),
        Waited::TimedOut => Err(WorkerError::WorkerTimeout),
    }
}

/// The view of a call's result.
pub open spec fn result_view(r: Result<String, WorkerError>) -> Result<Seq<char>, WorkerError> {
    match r {
        Ok(p) => Ok(p@),
        Err(e) => Err(e),
    }
}

/// Turns the end of a wait into the result of the call: the payload
/// unchanged, `WorkerChannelClosed` for a slot closed without delivery,
/// `WorkerTimeout` for a wait that ran out.
pub fn response_from_wait(waited: Waited) -> (r: Result<String, WorkerError>)
    ensures
        result_view(r) == response_of_wait(waited),
{
    match waited {
        Waited::Payload(p) => Ok(p),
        Waited::Closed => Err(WorkerError::WorkerChannelClosed),
        Waited::TimedOut => Err(WorkerError::WorkerTimeout),
    }
}

/// Blocks on the read side of a slot: without a limit for `None`, else for
/// at most that many milliseconds. Without a limit the wait never times out.
pub fn await_response(slot: &Receiver<String>, timeout_millis: Option<u64>) -> (r: Result<
    String,
    WorkerError,
>)
    ensures
        timeout_millis is None ==> r != Err::<String, WorkerError>(WorkerError::WorkerTimeout),
        r is Err ==> (r->Err_0 == WorkerError::WorkerChannelClosed || r->Err_0
            == WorkerError::WorkerTimeout),
{
    let waited = await_outcome(slot, timeout_millis);
    response_from_wait(waited)
}

/// Blocks on the read side of a slot as `await_response` does, and says how
/// the wait ended. Without a limit the wait never times out.
pub fn await_outcome(slot: &Receiver<String>, timeout_millis: Option<u64>) -> (waited: Waited)
    ensures
        timeout_millis is None ==> !(waited is TimedOut),
{
    match timeout_millis {
        Some(millis) => wait_millis(slot, millis),
        None => wait_forever(slot),
    }
}

/// The mapping from outstanding sequence numbers to the write sides of their
/// delivery slots. A map holds at most one slot for a sequence number.
pub struct Registry {
    slots: HashMap<u32, SyncSender<String>>,
}

impl View for Registry {
    type V = Map<u32, SyncSender<String>>;

    closed spec fn view(&self) -> Map<u32, SyncSender<String>> {
        self.slots@
    }
}

impl Registry {
    /// The sequence numbers that await a response.
    pub open spec fn pending(&self) -> Set<u32> {
        self@.dom()
    }

    /// An empty registry.
    pub fn new() -> (r: Self)
        ensures
            r@ == Map::<u32, SyncSender<String>>::empty(),
    {
        Registry { slots: HashMap::new() }
    }

    /// Whether a slot is registered for `sequence`.
    pub fn is_pending(&self, sequence: u32) -> (b: bool)
        ensures
            b == self.pending().contains(sequence),
    {
        self.slots.contains_key(&sequence)
    }

    /// How many sequence numbers await a response.
    pub fn len(&self) -> (n: usize)
        ensures
            n == self@.len(),
            self.pending().finite(),
    {
        self.slots.len()
    }

    /// Creates a fresh delivery slot for `sequence`, stores its write side and
    /// returns its read side. Fails with `DuplicateSequence`, and changes
    /// nothing, where a slot is already registered for `sequence`.
    pub fn register(&mut self, sequence: u32) -> (r: Result<Receiver<String>, WorkerError>)
        ensures
            r is Ok <==> !old(self).pending().contains(sequence),
            r is Ok ==> final(self).pending() == old(self).pending().insert(sequence),
            r is Ok ==> forall|s: u32|
                s != sequence && old(self)@.contains_key(s) ==> final(self)@[s] == old(self)@[s],
            r is Err ==> r->Err_0 == WorkerError::DuplicateSequence && final(self)@ == old(self)@,
    {
        if self.slots.contains_key(&sequence) {
            return Err(WorkerError::DuplicateSequence);
        }
        let (sender, receiver) = open_slot(SLOT_CAPACITY);
        self.slots.insert(sequence, sender);
        assert(final(self).pending() =~= old(self).pending().insert(sequence));
        Ok(receiver)
    }

    /// Looks up and removes the slot for `sequence`: the slot that was
    /// registered for it, or `None` where there is none. No other entry
    /// changes.
    pub fn take(&mut self, sequence: u32) -> (r: Option<SyncSender<String>>)
        ensures
            final(self)@ == old(self)@.remove(sequence),
            r is Some <==> old(self)@.contains_key(sequence),
            r is Some ==> r->Some_0 == old(self)@[sequence],
    {
        self.slots.remove(&sequence)
    }

    /// Removes the slot for `sequence` and places `payload` into it, without
    /// blocking. `Unknown` exactly where no slot was registered; else the slot
    /// decides between `Delivered` and `Dropped`.
    pub fn deliver(&mut self, sequence: u32, payload: String) -> (d: Delivery)
        ensures
            final(self)@ == old(self)@.remove(sequence),
            d == Delivery::Unknown <==> !old(self).pending().contains(sequence),
    {
        match self.take(sequence) {
            Some(slot) => {
                let accepted = offer(&slot, payload);
                outcome_of_offer(accepted)
            },
            None => Delivery::Unknown,
        }
    }

    /// Removes every slot, which closes the read side of each.
    pub fn clear(&mut self)
        ensures
            final(self)@ == Map::<u32, SyncSender<String>>::empty(),
    {
        self.slots.clear();
    }
}

} // verus!
