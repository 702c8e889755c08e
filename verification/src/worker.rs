//! The multiplexer: it allocates sequence numbers, registers a delivery slot
//! before a request is written, and routes each line of the worker's output
//! to the slot of the request that it answers.

use crate::codec::{decode, decoded, encode, json_string, request_line, single_line};
use crate::errors::WorkerError;
use crate::registry::{
    await_outcome, await_response, offer, outcome_of_offer, result_view, Delivery, Registry,
    Waited,
};
use std::sync::mpsc::{Receiver, SyncSender};
use vstd::prelude::*;

verus! {

/// The state of an exchange with one worker: the last sequence number that
/// was issued, the delivery slot of each request that awaits a response, and
/// whether the worker's output has ended.
pub struct Exchange<H> {
    pub issued: nat,
    pub slots: Map<u32, H>,
    pub terminated: bool,
}

/// What can happen to an exchange.
pub enum Event<H> {
    /// A caller starts a request, with the write side of its slot.
    Call(H),
    /// A line arrives on the worker's output.
    Line(Seq<char>),
    /// A caller gives up on a sequence number.
    Abandon(u32),
    /// The worker's output ends.
    EndOfStream,
    /// The owner of the exchange drops every slot.
    Close,
}

impl<H> Exchange<H> {
    /// Every outstanding sequence number was issued: it lies between 1 and
    /// the last one issued.
    pub open spec fn wf(self) -> bool {
        &&& self.issued <= u32::MAX
        &&& forall|s: u32| self.slots.contains_key(s) ==> 1 <= s <= self.issued
    }

    /// Whether a further sequence number exists.
    pub open spec fn can_begin(self) -> bool {
        self.issued < u32::MAX
    }

    /// The sequence number that the next request gets.
    pub open spec fn next_sequence(self) -> u32
        recommends
            self.can_begin(),
    {
        (self.issued + 1) as u32
    }

    /// The state after a request was started with `slot`.
    pub open spec fn begin(self, slot: H) -> Exchange<H>
        recommends
            self.can_begin(),
    {
        Exchange {
            issued: self.issued + 1,
            slots: self.slots.insert(self.next_sequence(), slot),
            terminated: self.terminated,
        }
    }

    /// The slot that `line` is delivered to, with the payload delivered: the
    /// slot registered for the sequence number that the line carries.
    pub open spec fn routed(self, line: Seq<char>) -> Option<(H, Seq<char>)> {
        match decoded(line) {
            Some((sequence, payload)) => if self.slots.contains_key(sequence) {
                Some((self.slots[sequence], payload))
            } else {
                None
            },
            None => None,
        }
    }

    /// The state after `line` arrived: the slot of its sequence number is
    /// gone; a line that does not decode changes nothing.
    pub open spec fn accept(self, line: Seq<char>) -> Exchange<H> {
        match decoded(line) {
            Some((sequence, _)) => self.abandon(sequence),
            None => self,
        }
    }

    /// The state without the slot of `sequence`: its response was delivered,
    /// or its caller gave up.
    pub open spec fn abandon(self, sequence: u32) -> Exchange<H> {
        Exchange {
            issued: self.issued,
            slots: self.slots.remove(sequence),
            terminated: self.terminated,
        }
    }

    /// The state after the worker's output ended: the end is recorded, and
    /// every slot stays registered.
    pub open spec fn terminate(self) -> Exchange<H> {
        Exchange { issued: self.issued, slots: self.slots, terminated: true }
    }

    /// The state after the owner dropped every slot: no slot is left.
    pub open spec fn close(self) -> Exchange<H> {
        Exchange { issued: self.issued, slots: Map::empty(), terminated: self.terminated }
    }

    /// The state after one event. A call without a sequence number left does
    /// not happen.
    pub open spec fn step(self, event: Event<H>) -> Exchange<H> {
        match event {
            Event::Call(slot) => if self.can_begin() {
                self.begin(slot)
            } else {
                self
            },
            Event::Line(line) => self.accept(line),
            Event::Abandon(sequence) => self.abandon(sequence),
            Event::EndOfStream => self.terminate(),
            Event::Close => self.close(),
        }
    }

    /// The state after a run of events, in their order.
    pub open spec fn run(self, events: Seq<Event<H>>) -> Exchange<H>
        decreases events.len(),
    {
        if events.len() == 0 {
            self
        } else {
            self.run(events.drop_last()).step(events.last())
        }
    }

    /// The sequence numbers that the calls of a run of events get, in the
    /// order of the calls.
    pub open spec fn issued_during(self, events: Seq<Event<H>>) -> Seq<u32>
        decreases events.len(),
    {
        if events.len() == 0 {
            Seq::empty()
        } else {
            let before = self.run(events.drop_last());
            let earlier = self.issued_during(events.drop_last());
            match events.last() {
                Event::Call(_) => if before.can_begin() {
                    earlier.push(before.next_sequence())
                } else {
                    earlier
                },
                _ => earlier,
            }
        }
    }
}

/// The event neither delivers to `sequence`, nor gives it up, nor drops
/// every slot.
pub open spec fn leaves_alone<H>(event: Event<H>, sequence: u32) -> bool {
    match event {
        Event::Call(_) => true,
        Event::Line(line) => decoded(line) is None || decoded(line)->Some_0.0 != sequence,
        Event::Abandon(given_up) => given_up != sequence,
        Event::EndOfStream => true,
        Event::Close => false,
    }
}

/// The result of a call, given how the wait on its slot ended and whether the
/// worker's output had ended by then: the payload unchanged;
/// `WorkerChannelClosed` for a slot closed without delivery, and for a wait
/// that ran out on a worker whose output has ended; `WorkerTimeout` for a wait
/// that ran out on a worker that may still answer.
pub open spec fn response_of_settled(waited: Waited, terminated: bool) -> Result<
    Seq<char>,
    WorkerError,
> {
    match waited {
        Waited::Payload(p) => Ok(p@),
        Waited::Closed => Err(WorkerError::WorkerChannelClosed),
        Waited::TimedOut => if terminated {
            Err(WorkerError::WorkerChannelClosed)
        } else {
            Err(WorkerError::WorkerTimeout)
        },
    }
}

/// Whatever happens in an exchange, its state stays well formed and the
/// last issued sequence number never decreases.
pub proof fn lemma_run_keeps_order<H>(x: Exchange<H>, events: Seq<Event<H>>)
    requires
        x.wf(),
    ensures
        x.run(events).wf(),
        x.run(events).issued >= x.issued,
    decreases events.len(),
{
    if events.len() > 0 {
        lemma_run_keeps_order(x, events.drop_last());
    }
}

/// Sequence numbers are never reused and strictly increase: a sequence
/// number is not outstanding when it is issued, and whatever happens between
/// two calls, the later call gets the greater number.
pub proof fn lemma_sequences_strictly_increase<H>(x: Exchange<H>, slot: H, between: Seq<Event<H>>)
    requires
        x.wf(),
        x.can_begin(),
        x.begin(slot).run(between).can_begin(),
    ensures
        x.next_sequence() >= 1,
        !x.slots.contains_key(x.next_sequence()),
        x.next_sequence() < x.begin(slot).run(between).next_sequence(),
        !x.begin(slot).run(between).slots.contains_key(
            x.begin(slot).run(between).next_sequence(),
        ),
{
    let started = x.begin(slot);
    assert(started.wf());
    lemma_run_keeps_order(started, between);
}

/// The sequence numbers issued in any run of events are pairwise distinct
/// and strictly increase in the order of the calls, whatever else happens in
/// between; each is greater than every number issued before the run.
pub proof fn lemma_sequences_issued_in_order<H>(x: Exchange<H>, events: Seq<Event<H>>)
    requires
        x.wf(),
    ensures
        forall|i: int|
            0 <= i < x.issued_during(events).len() ==> x.issued < #[trigger] x.issued_during(
                events,
            )[i] <= x.run(events).issued,
        forall|i: int, j: int|
            0 <= i < j < x.issued_during(events).len() ==> x.issued_during(events)[i]
                < x.issued_during(events)[j],
    decreases events.len(),
{
    if events.len() > 0 {
        let before = x.run(events.drop_last());
        let earlier = x.issued_during(events.drop_last());
        let all = x.issued_during(events);
        lemma_sequences_issued_in_order(x, events.drop_last());
        lemma_run_keeps_order(x, events.drop_last());
        lemma_run_keeps_order(x, events);
        if events.last() is Call && before.can_begin() {
            assert(all == earlier.push(before.next_sequence()));
            assert(x.run(events).issued == before.issued + 1);
            assert forall|i: int| 0 <= i < all.len() implies x.issued < #[trigger] all[i]
                <= x.run(events).issued by {
                if i < earlier.len() {
                    assert(all[i] == earlier[i]);
                }
            }
            assert forall|i: int, j: int| 0 <= i < j < all.len() implies all[i] < all[j] by {
                assert(all[i] == earlier[i]);
                if j < earlier.len() {
                    assert(all[j] == earlier[j]);
                }
            }
        } else {
            assert(all == earlier);
        }
    }
}

/// A slot stays in place until its own response arrives: after a request
/// was started with `slot`, and whatever calls, responses for other sequence
/// numbers, malformed lines and abandoned requests follow in whatever order,
/// the response for this request is routed to `slot`, with the payload that
/// the response carries.
pub proof fn lemma_slot_awaits_its_response<H>(
    x: Exchange<H>,
    slot: H,
    between: Seq<Event<H>>,
    own: Seq<char>,
)
    requires
        x.wf(),
        x.can_begin(),
        forall|i: int|
            0 <= i < between.len() ==> leaves_alone(#[trigger] between[i], x.next_sequence()),
        decoded(own) is Some,
        decoded(own)->Some_0.0 == x.next_sequence(),
    ensures
        x.begin(slot).run(between).slots.contains_key(x.next_sequence()),
        x.begin(slot).run(between).slots[x.next_sequence()] == slot,
        x.begin(slot).run(between).routed(own) == Some((slot, decoded(own)->Some_0.1)),
    decreases between.len(),
{
    let started = x.begin(slot);
    assert(started.wf());
    if between.len() > 0 {
        let earlier = between.drop_last();
        assert forall|i: int| 0 <= i < earlier.len() implies leaves_alone(
            #[trigger] earlier[i],
            x.next_sequence(),
        ) by {
            assert(earlier[i] == between[i]);
        }
        lemma_slot_awaits_its_response(x, slot, earlier, own);
        lemma_run_keeps_order(started, earlier);
        assert(leaves_alone(between[between.len() - 1], x.next_sequence()));
    }
}

/// No slot receives another request's payload: whatever a line delivers, it
/// delivers to the slot registered for the sequence number that the line
/// carries, and what it delivers is the payload that the line carries.
pub proof fn lemma_routed_payload_is_its_own<H>(x: Exchange<H>, line: Seq<char>)
    requires
        x.routed(line) is Some,
    ensures
        decoded(line) is Some,
        x.slots.contains_key(decoded(line)->Some_0.0),
        x.routed(line) == Some((x.slots[decoded(line)->Some_0.0], decoded(line)->Some_0.1)),
        !x.accept(line).slots.contains_key(decoded(line)->Some_0.0),
        forall|other: u32|
            other != decoded(line)->Some_0.0 && x.slots.contains_key(other) ==> x.accept(
                line,
            ).slots.contains_key(other) && x.accept(line).slots[other] == x.slots[other],
{
}

/// A response reaches the slot of its own sequence number and no other: a
/// line that answers a request started with `slot` is routed to `slot` with
/// the payload it carries, and a line for one sequence number neither
/// removes nor redirects the slot of another, in whichever order the two
/// responses arrive.
pub proof fn lemma_responses_are_correlated<H>(
    x: Exchange<H>,
    slot: H,
    own: Seq<char>,
    other: Seq<char>,
)
    requires
        x.wf(),
        x.can_begin(),
        decoded(own) is Some,
        decoded(other) is Some,
        decoded(own)->Some_0.0 == x.next_sequence(),
        decoded(other)->Some_0.0 != x.next_sequence(),
    ensures
        x.begin(slot).routed(own) == Some((slot, decoded(own)->Some_0.1)),
        x.begin(slot).accept(other).routed(own) == Some((slot, decoded(own)->Some_0.1)),
        x.begin(slot).routed(other) == x.routed(other),
        x.begin(slot).accept(own).routed(other) == x.routed(other),
        x.begin(slot).accept(own).accept(other) == x.begin(slot).accept(other).accept(own),
        x.begin(slot).accept(own).routed(own) is None,
{
    let s = x.next_sequence();
    let started = x.begin(slot);
    assert(started.accept(own).slots =~= x.slots.remove(s));
    assert(started.accept(own).accept(other).slots =~= started.accept(other).accept(own).slots);
}

/// A line that does not decode is skipped: it is routed nowhere and leaves
/// the exchange as it was, so the responses before and after it are
/// delivered as if it had never arrived.
pub proof fn lemma_malformed_line_is_skipped<H>(
    x: Exchange<H>,
    before: Seq<char>,
    malformed: Seq<char>,
    after: Seq<char>,
)
    requires
        decoded(malformed) is None,
    ensures
        x.routed(malformed) is None,
        x.accept(malformed) == x,
        x.accept(before).accept(malformed).routed(after) == x.accept(before).routed(after),
        x.accept(before).accept(malformed).accept(after) == x.accept(before).accept(after),
{
}

/// The end of the worker's output removes no slot and issues no sequence
/// number: whether no line or some line was read before it, the registry is
/// what the lines left of it, and every other caller stays registered.
pub proof fn lemma_end_of_output_keeps_the_registry<H>(x: Exchange<H>, line: Seq<char>)
    ensures
        x.step(Event::EndOfStream).slots == x.slots,
        x.step(Event::EndOfStream).issued == x.issued,
        x.step(Event::EndOfStream).terminated,
        x.accept(line).step(Event::EndOfStream).slots == x.accept(line).slots,
        x.step(Event::EndOfStream).routed(line) == x.routed(line),
{
}

/// The end of the worker's output is final: whatever follows, it stays
/// recorded, so a wait that ends without a payload after it fails with
/// `WorkerChannelClosed`, with or without a limit on the wait.
pub proof fn lemma_terminated_worker_closes_calls<H>(
    x: Exchange<H>,
    events: Seq<Event<H>>,
    waited: Waited,
)
    requires
        x.terminated,
    ensures
        x.run(events).terminated,
        !(waited is Payload) ==> response_of_settled(waited, x.run(events).terminated) == Err::<
            Seq<char>,
            WorkerError,
        >(WorkerError::WorkerChannelClosed),
    decreases events.len(),
{
    if events.len() > 0 {
        lemma_terminated_worker_closes_calls(x, events.drop_last(), waited);
    }
}

/// Once every slot was dropped no line is routed to any slot, and no
/// request is outstanding.
pub proof fn lemma_closed_exchange_routes_nothing<H>(x: Exchange<H>, line: Seq<char>)
    ensures
        x.close().routed(line) is None,
        x.close().slots.dom() =~= Set::<u32>::empty(),
        x.wf() ==> x.close().wf(),
{
}

/// A request that was framed and registered, and is yet to be written.
pub struct PendingCall {
    /// The sequence number of the request.
    pub sequence: u32,
    /// The request line, without its terminating line feed.
    pub line: String,
    /// The read side of the delivery slot.
    pub receiver: Receiver<String>,
}

impl PendingCall {
    /// Blocks until the response arrives: without a limit for `None`, else
    /// for at most that many milliseconds. An error is `WorkerChannelClosed`
    /// or, only with a limit, `WorkerTimeout`.
    pub fn wait(&self, timeout_millis: Option<u64>) -> (r: Result<String, WorkerError>)
        ensures
            timeout_millis is None ==> r != Err::<String, WorkerError>(
                WorkerError::WorkerTimeout,
            ),
            r is Err ==> (r->Err_0 == WorkerError::WorkerChannelClosed || r->Err_0
                == WorkerError::WorkerTimeout),
    {
        await_response(&self.receiver, timeout_millis)
    }

    /// Blocks as `wait` does, and says how the wait ended. Without a limit
    /// the wait never times out.
    pub fn wait_outcome(&self, timeout_millis: Option<u64>) -> (waited: Waited)
        ensures
            timeout_millis is None ==> !(waited is TimedOut),
    {
        await_outcome(&self.receiver, timeout_millis)
    }
}

/// Where a line of the worker's output goes.
pub enum Routing {
    /// The line does not decode.
    Malformed,
    /// No slot is registered for the sequence number of the line.
    Unknown { sequence: u32 },
    /// The slot registered for the sequence number, removed from the
    /// registry, and the payload to place into it.
    Slot { sequence: u32, slot: SyncSender<String>, payload: String },
}

/// What became of a line of the worker's output.
#[derive(Clone, Copy, Debug, PartialEq, Eq, Structural)]
pub enum LineOutcome {
    /// The line does not decode; it was skipped.
    Malformed,
    /// The line was a response for `sequence`.
    Response { sequence: u32, delivery: Delivery },
}

/// What the reader of the worker's output found.
pub enum ReaderEvent {
    /// One line, without its line feed.
    Line(String),
    /// The output ended, or could no longer be read.
    EndOfStream,
}

/// What the reader of the worker's output does next.
#[derive(Clone, Copy, Debug, PartialEq, Eq, Structural)]
pub enum ReaderStep {
    /// The line was handled; the reader reads on.
    Continue { outcome: LineOutcome },
    /// The worker is gone; the reader stops.
    WorkerTerminated,
}

impl ReaderEvent {
    /// The event as the exchange sees it.
    pub open spec fn as_event(self) -> Event<SyncSender<String>> {
        match self {
            ReaderEvent::Line(line) => Event::Line(line@),
            ReaderEvent::EndOfStream => Event::EndOfStream,
        }
    }
}

/// The multiplexer's state for one worker process.
pub struct NodeWorker {
    seq: u32,
    listeners: Registry,
    terminated: bool,
}

impl View for NodeWorker {
    type V = Exchange<SyncSender<String>>;

    closed spec fn view(&self) -> Exchange<SyncSender<String>> {
        Exchange { issued: self.seq as nat, slots: self.listeners@, terminated: self.terminated }
    }
}

impl NodeWorker {
    /// The sequence numbers that await a response.
    pub open spec fn pending(&self) -> Set<u32> {
        self@.slots.dom()
    }

    /// A multiplexer that has issued no sequence number.
    pub fn new() -> (worker: Self)
        ensures
            worker@.wf(),
            worker@.issued == 0,
            worker@.slots == Map::<u32, SyncSender<String>>::empty(),
            !worker@.terminated,
    {
        NodeWorker { seq: 0, listeners: Registry::new(), terminated: false }
    }

    /// Whether the worker's output has ended.
    pub fn is_terminated(&self) -> (b: bool)
        ensures
            b == self@.terminated,
    {
        self.terminated
    }

    /// The last sequence number issued; 0 before the first.
    pub fn last_sequence(&self) -> (n: u32)
        ensures
            n == self@.issued,
    {
        self.seq
    }

    /// Whether a further request can be started.
    pub fn can_begin(&self) -> (b: bool)
        ensures
            b == self@.can_begin(),
    {
        self.seq < u32::MAX
    }

    /// Whether `sequence` awaits a response.
    pub fn is_pending(&self, sequence: u32) -> (b: bool)
        ensures
            b == self.pending().contains(sequence),
    {
        self.listeners.is_pending(sequence)
    }

    /// Starts a request: takes the next sequence number, registers a delivery
    /// slot for it, and frames the request line. The caller writes the line,
    /// followed by a line feed, and then waits on the slot. With sequence
    /// numbers issued in order no slot is ever registered twice, so the call
    /// succeeds.
    pub fn call(&mut self, operation: &str, payload: &str) -> (r: Result<PendingCall, WorkerError>)
        requires
            old(self)@.wf(),
            old(self)@.can_begin(),
        ensures
            final(self)@.wf(),
            r is Ok,
            r->Ok_0.sequence == old(self)@.next_sequence(),
            final(self)@.issued == old(self)@.issued + 1,
            final(self)@.slots.contains_key(r->Ok_0.sequence),
            final(self)@ == old(self)@.begin(final(self)@.slots[r->Ok_0.sequence]),
            r->Ok_0.line@ == request_line(
                r->Ok_0.sequence,
                json_string(operation@),
                json_string(payload@),
            ),
            single_line(r->Ok_0.line@),
    {
        let sequence: u32 = self.seq + 1;
        self.seq = sequence;
        assert(!old(self)@.slots.contains_key(sequence));
        assert(!self.listeners.pending().contains(sequence));
        match self.listeners.register(sequence) {
            Ok(receiver) => {
                let line = encode(sequence, operation, payload);
                proof {
                    let slot = self.listeners@[sequence];
                    assert(self.listeners@.dom().contains(sequence));
                    assert(self.listeners@ =~= old(self)@.slots.insert(sequence, slot));
                }
                Ok(PendingCall { sequence, line, receiver })
            },
            Err(e) => Err(e),
        }
    }

    /// Starts a request for the `minify` operation on an HTML fragment.
    pub fn minify(&mut self, html: &str) -> (r: Result<PendingCall, WorkerError>)
        requires
            old(self)@.wf(),
            old(self)@.can_begin(),
        ensures
            final(self)@.wf(),
            r is Ok,
            r->Ok_0.sequence == old(self)@.next_sequence(),
            final(self)@.issued == old(self)@.issued + 1,
            final(self)@.slots.contains_key(r->Ok_0.sequence),
            final(self)@ == old(self)@.begin(final(self)@.slots[r->Ok_0.sequence]),
            r->Ok_0.line@ == request_line(
                r->Ok_0.sequence,
                json_string("minify"@),
                json_string(html@),
            ),
            single_line(r->Ok_0.line@),
    {
        self.call("minify", html)
    }

    /// Starts a request for the `highlight` operation on an HTML fragment.
    pub fn highlight(&mut self, html: &str) -> (r: Result<PendingCall, WorkerError>)
        requires
            old(self)@.wf(),
            old(self)@.can_begin(),
        ensures
            final(self)@.wf(),
            r is Ok,
            r->Ok_0.sequence == old(self)@.next_sequence(),
            final(self)@.issued == old(self)@.issued + 1,
            final(self)@.slots.contains_key(r->Ok_0.sequence),
            final(self)@ == old(self)@.begin(final(self)@.slots[r->Ok_0.sequence]),
            r->Ok_0.line@ == request_line(
                r->Ok_0.sequence,
                json_string("highlight"@),
                json_string(html@),
            ),
            single_line(r->Ok_0.line@),
    {
        self.call("highlight", html)
    }

    /// Decodes a line of the worker's output and removes the slot of its
    /// sequence number from the registry: the slot and the payload are
    /// exactly those that the line is routed to.
    pub fn route(&mut self, line: &str) -> (r: Routing)
        requires
            old(self)@.wf(),
        ensures
            final(self)@.wf(),
            final(self)@ == old(self)@.accept(line@),
            match r {
                Routing::Malformed => decoded(line@) is None,
                Routing::Unknown { sequence } => decoded(line@) is Some && decoded(
                    line@,
                )->Some_0.0 == sequence && !old(self).pending().contains(sequence),
                Routing::Slot { sequence, slot, payload } => decoded(line@) == Some(
                    (sequence, payload@),
                ) && old(self)@.routed(line@) == Some((slot, payload@)),
            },
    {
        match decode(line) {
            Ok(frame) => {
                let sequence = frame.sequence;
                match self.listeners.take(sequence) {
                    Some(slot) => Routing::Slot { sequence, slot, payload: frame.payload },
                    None => Routing::Unknown { sequence },
                }
            },
            Err(_) => Routing::Malformed,
        }
    }

    /// Handles one line of the worker's output: a line that does not decode
    /// is skipped; a response is placed, without blocking, into the slot of
    /// its sequence number, which is removed; a response for an unknown
    /// sequence number is discarded.
    pub fn accept_line(&mut self, line: &str) -> (outcome: LineOutcome)
        requires
            old(self)@.wf(),
        ensures
            final(self)@.wf(),
            final(self)@ == old(self)@.accept(line@),
            match outcome {
                LineOutcome::Malformed => decoded(line@) is None,
                LineOutcome::Response { sequence, delivery } => decoded(line@) is Some && decoded(
                    line@,
                )->Some_0.0 == sequence && (delivery == Delivery::Unknown <==> !old(
                    self,
                ).pending().contains(sequence)),
            },
    {
        match self.route(line) {
            Routing::Malformed => LineOutcome::Malformed,
            Routing::Unknown { sequence } => LineOutcome::Response {
                sequence,
                delivery: Delivery::Unknown,
            },
            Routing::Slot { sequence, slot, payload } => {
                let accepted = offer(&slot, payload);
                LineOutcome::Response { sequence, delivery: outcome_of_offer(accepted) }
            },
        }
    }

    /// One turn of the reader of the worker's output. A line is handled as
    /// `accept_line` does, and the reader reads on, also after a line that
    /// does not decode. At the end of the output the reader stops and the end
    /// is recorded; every slot stays registered, so a caller that waits
    /// without a limit waits on.
    pub fn reader_step(&mut self, event: ReaderEvent) -> (step: ReaderStep)
        requires
            old(self)@.wf(),
        ensures
            final(self)@.wf(),
            final(self)@ == old(self)@.step(event.as_event()),
            match event {
                ReaderEvent::Line(line) => step is Continue && match step->outcome {
                    LineOutcome::Malformed => decoded(line@) is None,
                    LineOutcome::Response { sequence, delivery } => decoded(line@) is Some
                        && decoded(line@)->Some_0.0 == sequence && (delivery == Delivery::Unknown
                        <==> !old(self).pending().contains(sequence)),
                },
                ReaderEvent::EndOfStream => {
                    &&& step == ReaderStep::WorkerTerminated
                    &&& final(self)@.slots == old(self)@.slots
                    &&& final(self)@.issued == old(self)@.issued
                    &&& final(self)@.terminated
                },
            },
    {
        match event {
            ReaderEvent::Line(line) => {
                let outcome = self.accept_line(line.as_str());
                ReaderStep::Continue { outcome }
            },
            ReaderEvent::EndOfStream => {
                self.terminated = true;
                assert(self@.slots == old(self)@.slots);
                ReaderStep::WorkerTerminated
            },
        }
    }

    /// Removes the slot of a caller that gave up on `sequence`.
    pub fn abandon(&mut self, sequence: u32)
        requires
            old(self)@.wf(),
        ensures
            final(self)@.wf(),
            final(self)@ == old(self)@.abandon(sequence),
    {
        let taken = self.listeners.take(sequence);
        assert(final(self)@.slots == old(self)@.slots.remove(sequence));
    }

    /// Settles a request after the attempt to write its line: where the
    /// write failed the slot is removed and the caller does not wait.
    pub fn settle_write(&mut self, sequence: u32, written: bool) -> (keep_waiting: bool)
        requires
            old(self)@.wf(),
        ensures
            final(self)@.wf(),
            keep_waiting == written,
            final(self)@ == if written {
                old(self)@
            } else {
                old(self)@.abandon(sequence)
            },
    {
        if !written {
            self.abandon(sequence);
        }
        written
    }

    /// Settles a request after the wait on its slot: the payload is handed
    /// on unchanged; a wait that ended without one removes the slot and
    /// fails, with `WorkerChannelClosed` where the slot was closed or the
    /// worker's output has ended, else with `WorkerTimeout`.
    pub fn settle_wait(&mut self, sequence: u32, waited: Waited) -> (r: Result<
        String,
        WorkerError,
    >)
        requires
            old(self)@.wf(),
        ensures
            final(self)@.wf(),
            result_view(r) == response_of_settled(waited, old(self)@.terminated),
            final(self)@ == if waited is Payload {
                old(self)@
            } else {
                old(self)@.abandon(sequence)
            },
    {
        match waited {
            Waited::Payload(payload) => Ok(payload),
            Waited::Closed => {
                self.abandon(sequence);
                Err(WorkerError::WorkerChannelClosed)
            },
            Waited::TimedOut => {
                self.abandon(sequence);
                if self.terminated {
                    Err(WorkerError::WorkerChannelClosed)
                } else {
                    Err(WorkerError::WorkerTimeout)
                }
            },
        }
    }

    /// Drops every slot: each caller that still waits then finds its slot
    /// closed. For the owner of the worker, when it gives the worker up.
    pub fn close(&mut self)
        requires
            old(self)@.wf(),
        ensures
            final(self)@.wf(),
            final(self)@ == old(self)@.close(),
    {
        self.listeners.clear();
    }
}

} // verus!
