//! One command and its response, as a machine that a driver steps.
//!
//! The machine never touches the transport. It tells the driver what to do
//! next ([`Action`]) and the driver reports what came of it ([`Event`]),
//! with the time on its own clock, in milliseconds. The response is over when
//! a chunk holds the terminator, or when nothing has arrived for the whole
//! timeout. Every chunk that arrives starts the timeout anew.

use vstd::prelude::*;
use crate::bytes::{append_bytes, contains_byte};
use crate::error::{result_view, Fault, ScopeError};
use crate::frame::{frame, framed, TERMINATOR};
use crate::reply::{read_reply, reply_to, Expect, Reply, ReplyView};
use crate::response::ScopeResponse;

verus! {

/// Where an exchange stands.
#[derive(Debug, Clone, Copy, PartialEq, Eq, Structural)]
pub enum Phase {
    /// The frame is to be written.
    Sending,
    /// What is waiting on the transport is to be read.
    Polling,
    /// Nothing was waiting: the driver is to wait a moment.
    Pausing,
    /// The exchange is over.
    Finished,
    /// The transport failed and the exchange was given up.
    Failed,
}

/// What the driver reports.
#[derive(Debug, PartialEq, Eq)]
pub enum Event {
    /// The frame was written and flushed.
    Sent { now: u64 },
    /// All the bytes that were waiting were read; there may have been none.
    /// `now` is the time at which they were found.
    Polled { bytes: Vec<u8>, now: u64 },
    /// The wait is over.
    Woke { now: u64 },
    /// The transport reported an error.
    Failed,
}

/// What the driver is to do next.
#[derive(Debug, PartialEq, Eq)]
pub enum Action {
    /// Discard what is waiting unread, write these bytes and flush; then
    /// report `Sent`.
    Send(Vec<u8>),
    /// Read all the bytes that are waiting, without blocking; then report
    /// `Polled`.
    Poll,
    /// Wait this many milliseconds; then report `Woke`.
    Sleep(u64),
    /// Nothing more: this is how the exchange ended.
    Done(Result<Reply, ScopeError>),
}

/// An [`Event`] with its bytes as a sequence.
pub enum EventView {
    Sent { now: u64 },
    Polled { bytes: Seq<u8>, now: u64 },
    Woke { now: u64 },
    Failed,
}

/// An [`Action`] with its bytes and texts as sequences.
pub enum ActionView {
    Send(Seq<u8>),
    Poll,
    Sleep(u64),
    Done(Result<ReplyView, Fault>),
}

impl View for Event {
    type V = EventView;

    open spec fn view(&self) -> EventView {
        match self {
            Event::Sent { now } => EventView::Sent { now: *now },
            Event::Polled { bytes, now } => EventView::Polled { bytes: bytes@, now: *now },
            Event::Woke { now } => EventView::Woke { now: *now },
            Event::Failed => EventView::Failed,
        }
    }
}

impl View for Action {
    type V = ActionView;

    open spec fn view(&self) -> ActionView {
        match self {
            Action::Send(bytes) => ActionView::Send(bytes@),
            Action::Poll => ActionView::Poll,
            Action::Sleep(duration) => ActionView::Sleep(*duration),
            Action::Done(outcome) => ActionView::Done(result_view(*outcome)),
        }
    }
}

/// The state of an exchange.
pub struct ExchangeView {
    /// The command, without its terminator.
    pub query: Seq<u8>,
    /// What comes back for the command, and how it is read.
    pub expects: Expect,
    /// How long the transport may stay silent before the response is taken
    /// as it is.
    pub timeout: u64,
    /// How long the driver waits when nothing was there to read.
    pub pause: u64,
    pub phase: Phase,
    /// All the bytes read so far.
    pub response: Seq<u8>,
    /// When the frame was sent or, later, when bytes were last found.
    pub last_read: u64,
}

impl ExchangeView {
    /// An exchange of which nothing has happened yet.
    pub open spec fn fresh(query: Seq<u8>, expects: Expect, timeout: u64, pause: u64) -> ExchangeView {
        ExchangeView {
            query,
            expects,
            timeout,
            pause,
            phase: Phase::Sending,
            response: Seq::empty(),
            last_read: 0,
        }
    }

    /// The time since bytes were last found, as far as the clock has not run
    /// backwards.
    pub open spec fn silence(self, now: u64) -> int {
        if now >= self.last_read {
            now - self.last_read
        } else {
            0
        }
    }

    /// The state that `event` leads to. An event that does not answer the
    /// action that is pending changes nothing.
    pub open spec fn after(self, event: EventView) -> ExchangeView {
        match (self.phase, event) {
            (Phase::Sending, EventView::Sent { now }) => {
                if self.expects != Expect::Nothing {
                    ExchangeView { phase: Phase::Polling, last_read: now, ..self }
                } else {
                    ExchangeView { phase: Phase::Finished, ..self }
                }
            },
            (Phase::Polling, EventView::Polled { bytes, now }) => {
                if bytes.len() == 0 {
                    ExchangeView { phase: Phase::Pausing, ..self }
                } else {
                    ExchangeView {
                        phase: if bytes.contains(TERMINATOR) {
                            Phase::Finished
                        } else {
                            Phase::Polling
                        },
                        response: self.response + bytes,
                        last_read: now,
                        ..self
                    }
                }
            },
            (Phase::Pausing, EventView::Woke { now }) => {
                if self.silence(now) >= self.timeout {
                    ExchangeView { phase: Phase::Finished, ..self }
                } else {
                    ExchangeView { phase: Phase::Polling, ..self }
                }
            },
            (Phase::Sending | Phase::Polling | Phase::Pausing, EventView::Failed) => {
                ExchangeView { phase: Phase::Failed, ..self }
            },
            _ => self,
        }
    }

    /// The state that a run of events leads to.
    pub open spec fn after_all(self, events: Seq<EventView>) -> ExchangeView
        decreases events.len(),
    {
        if events.len() == 0 {
            self
        } else {
            self.after_all(events.drop_last()).after(events.last())
        }
    }

    /// How the exchange ends once no more bytes are taken in: with what the
    /// response says when it is read as expected.
    pub open spec fn outcome(self) -> Result<ReplyView, Fault> {
        reply_to(self.expects, self.query, self.response)
    }

    /// What the driver is to do in this state.
    pub open spec fn pending(self) -> ActionView {
        match self.phase {
            Phase::Sending => ActionView::Send(framed(self.query)),
            Phase::Polling => ActionView::Poll,
            Phase::Pausing => ActionView::Sleep(self.pause),
            Phase::Finished => ActionView::Done(self.outcome()),
            Phase::Failed => ActionView::Done(Err(Fault::CommunicationFailure)),
        }
    }

    /// Whether the exchange is over.
    pub open spec fn over(self) -> bool {
        self.phase == Phase::Finished || self.phase == Phase::Failed
    }

    /// What holds of every state that an exchange can come to: nothing is read
    /// before the frame is sent or for a command that is not answered, and
    /// the terminator is in the response only when the response is over.
    pub open spec fn consistent(self) -> bool {
        &&& self.phase == Phase::Sending ==> self.response.len() == 0
        &&& self.expects == Expect::Nothing ==> self.response.len() == 0
        &&& self.phase == Phase::Polling || self.phase == Phase::Pausing ==> self.expects
            != Expect::Nothing
        &&& self.response.contains(TERMINATOR) ==> self.phase == Phase::Finished
    }
}

/// One command and its response.
#[derive(Debug)]
pub struct Exchange {
    query: Vec<u8>,
    expects: Expect,
    timeout: u64,
    pause: u64,
    phase: Phase,
    response: ScopeResponse,
    last_read: u64,
}

impl View for Exchange {
    type V = ExchangeView;

    closed spec fn view(&self) -> ExchangeView {
        ExchangeView {
            query: self.query@,
            expects: self.expects,
            timeout: self.timeout,
            pause: self.pause,
            phase: self.phase,
            response: self.response@,
            last_read: self.last_read,
        }
    }
}

impl Exchange {
    /// An exchange for `query` of which nothing has happened yet. `timeout`
    /// and `pause` are in milliseconds.
    pub fn new(query: &[u8], expects: Expect, timeout: u64, pause: u64) -> (exchange: Exchange)
        ensures
            exchange@ == ExchangeView::fresh(query@, expects, timeout, pause),
    {
        let mut text: Vec<u8> = Vec::new();
        append_bytes(&mut text, query);
        Exchange {
            query: text,
            expects,
            timeout,
            pause,
            phase: Phase::Sending,
            response: ScopeResponse::new(),
            last_read: 0,
        }
    }

    /// Where the exchange stands.
    pub fn phase(&self) -> (phase: Phase)
        ensures
            phase == self@.phase,
    {
        self.phase
    }

    /// Whether the exchange is over.
    pub fn is_over(&self) -> (over: bool)
        ensures
            over == self@.over(),
    {
        match self.phase {
            Phase::Finished => true,
            Phase::Failed => true,
            _ => false,
        }
    }

    /// The command, without its terminator.
    pub fn query(&self) -> (query: &[u8])
        ensures
            query@ == self@.query,
    {
        self.query.as_slice()
    }

    /// What comes back for the command, and how it is read.
    pub fn expects(&self) -> (expects: Expect)
        ensures
            expects == self@.expects,
    {
        self.expects
    }

    /// Whether the command is answered at all.
    pub fn expects_response(&self) -> (expected: bool)
        ensures
            expected == (self@.expects != Expect::Nothing),
    {
        match self.expects {
            Expect::Nothing => false,
            _ => true,
        }
    }

    /// The bytes read so far.
    pub fn response(&self) -> (response: &ScopeResponse)
        ensures
            response@ == self@.response,
    {
        &self.response
    }

    /// How the exchange ends once no more bytes are taken in.
    pub fn outcome(&self) -> (outcome: Result<Reply, ScopeError>)
        ensures
            result_view(outcome) == self@.outcome(),
    {
        read_reply(self.expects, self.query.as_slice(), self.response.bytes())
    }

    /// What the driver is to do now.
    pub fn action(&self) -> (action: Action)
        ensures
            action@ == self@.pending(),
    {
        match self.phase {
            Phase::Sending => Action::Send(frame(self.query.as_slice())),
            Phase::Polling => Action::Poll,
            Phase::Pausing => Action::Sleep(self.pause),
            Phase::Finished => Action::Done(self.outcome()),
            Phase::Failed => Action::Done(Err(ScopeError::CommunicationFailure)),
        }
    }

    /// Takes in what the driver reports and says what it is to do next.
    pub fn step(&mut self, event: Event) -> (action: Action)
        ensures
            final(self)@ == old(self)@.after(event@),
            action@ == final(self)@.pending(),
    {
        match event {
            Event::Sent { now } => {
                match self.phase {
                    Phase::Sending => {
                        if self.expects_response() {
                            self.phase = Phase::Polling;
                            self.last_read = now;
                        } else {
                            self.phase = Phase::Finished;
                        }
                    },
                    _ => {},
                }
            },
            Event::Polled { bytes, now } => {
                match self.phase {
                    Phase::Polling => {
                        if bytes.len() == 0 {
                            self.phase = Phase::Pausing;
                        } else {
                            self.response.append(bytes.as_slice());
                            self.last_read = now;
                            if contains_byte(bytes.as_slice(), TERMINATOR) {
                                self.phase = Phase::Finished;
                            }
                        }
                    },
                    _ => {},
                }
            },
            Event::Woke { now } => {
                match self.phase {
                    Phase::Pausing => {
                        let silence = if now >= self.last_read {
                            now - self.last_read
                        } else {
                            0
                        };
                        if silence >= self.timeout {
                            self.phase = Phase::Finished;
                        } else {
                            self.phase = Phase::Polling;
                        }
                    },
                    _ => {},
                }
            },
            Event::Failed => {
                match self.phase {
                    Phase::Sending | Phase::Polling | Phase::Pausing => {
                        self.phase = Phase::Failed;
                    },
                    _ => {},
                }
            },
        }
        self.action()
    }
}

/// A command that is not answered is over as soon as it is sent: its frame is
/// the command and the terminator, and nothing is read for it.
pub proof fn lemma_unanswered_command_only_sends(
    query: Seq<u8>,
    timeout: u64,
    pause: u64,
    now: u64,
)
    ensures
        ExchangeView::fresh(query, Expect::Nothing, timeout, pause).pending() == ActionView::Send(
            framed(query),
        ),
        ExchangeView::fresh(query, Expect::Nothing, timeout, pause).after(
            EventView::Sent { now },
        ).pending() == ActionView::Done(Ok(ReplyView::Nothing)),
{
}

/// Two chunks, of which only the second holds the terminator, end the
/// response: it is what was read before, then the first chunk, then the
/// whole of the second, terminator included.
pub proof fn lemma_chunks_assemble(
    start: ExchangeView,
    first: Seq<u8>,
    second: Seq<u8>,
    first_at: u64,
    second_at: u64,
)
    requires
        start.phase == Phase::Polling,
        first.len() > 0,
        !first.contains(TERMINATOR),
        second.contains(TERMINATOR),
    ensures
        ({
            let end = start.after(EventView::Polled { bytes: first, now: first_at }).after(
                EventView::Polled { bytes: second, now: second_at },
            );
            &&& end.phase == Phase::Finished
            &&& end.response == start.response + first + second
        }),
{
}

/// When nothing is there to read and the silence has lasted for the timeout,
/// the response ends with what has been read, be it nothing.
pub proof fn lemma_silence_ends(start: ExchangeView, polled_at: u64, now: u64)
    requires
        start.phase == Phase::Polling,
        start.silence(now) >= start.timeout,
    ensures
        ({
            let end = start.after(EventView::Polled { bytes: Seq::empty(), now: polled_at }).after(
                EventView::Woke { now },
            );
            &&& end.phase == Phase::Finished
            &&& end.response == start.response
            &&& end.pending() == ActionView::Done(start.outcome())
        }),
{
}

/// Every chunk starts the timeout anew: after a chunk, the exchange goes on
/// reading until the silence since that chunk has lasted for the timeout,
/// however long ago the command was sent.
pub proof fn lemma_chunk_restarts_timeout(
    start: ExchangeView,
    chunk: Seq<u8>,
    chunk_at: u64,
    polled_at: u64,
    now: u64,
)
    requires
        start.phase == Phase::Polling,
        chunk.len() > 0,
        !chunk.contains(TERMINATOR),
        chunk_at <= now,
    ensures
        ({
            let end = start.after(EventView::Polled { bytes: chunk, now: chunk_at }).after(
                EventView::Polled { bytes: Seq::empty(), now: polled_at },
            ).after(EventView::Woke { now });
            end.phase == if now - chunk_at >= start.timeout {
                Phase::Finished
            } else {
                Phase::Polling
            }
        }),
{
}

/// No event changes an exchange that is over.
pub proof fn lemma_over_stays_over(state: ExchangeView, event: EventView)
    requires
        state.over(),
    ensures
        state.after(event) == state,
{
}

/// Whatever is reported, the command and its settings stay as they are, and
/// the bytes read so far stay at the front of the response.
pub proof fn lemma_response_grows(state: ExchangeView, events: Seq<EventView>)
    ensures
        state.after_all(events).query == state.query,
        state.after_all(events).expects == state.expects,
        state.after_all(events).timeout == state.timeout,
        state.after_all(events).pause == state.pause,
        state.response.is_prefix_of(state.after_all(events).response),
    decreases events.len(),
{
    if events.len() > 0 {
        lemma_response_grows(state, events.drop_last());
        let before = state.after_all(events.drop_last());
        assert(before.response.is_prefix_of(before.after(events.last()).response));
    }
}

/// The frame goes out once: an exchange that has left the sending phase never
/// asks for it to be written again.
pub proof fn lemma_never_sends_again(state: ExchangeView, events: Seq<EventView>)
    requires
        state.phase != Phase::Sending,
    ensures
        state.after_all(events).phase != Phase::Sending,
    decreases events.len(),
{
    if events.len() > 0 {
        lemma_never_sends_again(state, events.drop_last());
    }
}

/// Nothing is ever read for a command that is not answered: whatever is
/// reported, such an exchange asks for its frame to be written or is over.
pub proof fn lemma_unanswered_never_reads(
    query: Seq<u8>,
    timeout: u64,
    pause: u64,
    events: Seq<EventView>,
)
    ensures
        ({
            let end = ExchangeView::fresh(query, Expect::Nothing, timeout, pause).after_all(events);
            end.pending() == ActionView::Send(framed(query)) || end.pending() == ActionView::Done(
                Ok(ReplyView::Nothing),
            ) || end.pending() == ActionView::Done(Err(Fault::CommunicationFailure))
        }),
    decreases events.len(),
{
    let start = ExchangeView::fresh(query, Expect::Nothing, timeout, pause);
    lemma_response_grows(start, events);
    if events.len() > 0 {
        lemma_unanswered_never_reads(query, timeout, pause, events.drop_last());
        lemma_response_grows(start, events.drop_last());
    }
}

/// An event leaves a consistent state consistent.
pub proof fn lemma_after_keeps_consistent(state: ExchangeView, event: EventView)
    requires
        state.consistent(),
    ensures
        state.after(event).consistent(),
{
    let end = state.after(event);
    if end.response.contains(TERMINATOR) && !state.response.contains(TERMINATOR) {
        let at = choose|at: int| 0 <= at < end.response.len() && end.response[at] == TERMINATOR;
        assert(event->Polled_bytes[at - state.response.len()] == TERMINATOR);
    }
}

/// Every state that an exchange comes to from its beginning is consistent.
pub proof fn lemma_reachable_is_consistent(
    query: Seq<u8>,
    expects: Expect,
    timeout: u64,
    pause: u64,
    events: Seq<EventView>,
)
    ensures
        ExchangeView::fresh(query, expects, timeout, pause).after_all(events).consistent(),
    decreases events.len(),
{
    if events.len() > 0 {
        lemma_reachable_is_consistent(query, expects, timeout, pause, events.drop_last());
        lemma_after_keeps_consistent(
            ExchangeView::fresh(query, expects, timeout, pause).after_all(events.drop_last()),
            events.last(),
        );
    }
}

/// The events that report `chunks` one after the other, each at its time.
pub open spec fn polled(chunks: Seq<Seq<u8>>, times: Seq<u64>) -> Seq<EventView> {
    Seq::new(chunks.len(), |i: int| EventView::Polled { bytes: chunks[i], now: times[i] })
}

/// The bytes of `chunks`, one chunk after the other.
pub open spec fn joined(chunks: Seq<Seq<u8>>) -> Seq<u8>
    decreases chunks.len(),
{
    if chunks.len() == 0 {
        Seq::empty()
    } else {
        joined(chunks.drop_last()) + chunks.last()
    }
}

/// While no chunk holds the terminator the exchange goes on reading, and the
/// response is what was read before and then the chunks in their order.
pub proof fn lemma_chunks_accumulate(start: ExchangeView, chunks: Seq<Seq<u8>>, times: Seq<u64>)
    requires
        start.phase == Phase::Polling,
        times.len() == chunks.len(),
        forall|i: int|
            0 <= i < chunks.len() ==> (#[trigger] chunks[i]).len() > 0 && !chunks[i].contains(
                TERMINATOR,
            ),
    ensures
        start.after_all(polled(chunks, times)).phase == Phase::Polling,
        start.after_all(polled(chunks, times)).response == start.response + joined(chunks),
    decreases chunks.len(),
{
    if chunks.len() > 0 {
        assert(polled(chunks, times).drop_last() =~= polled(
            chunks.drop_last(),
            times.drop_last(),
        ));
        lemma_chunks_accumulate(start, chunks.drop_last(), times.drop_last());
    }
}

/// However many chunks a response comes in, it is over with the first chunk
/// that holds the terminator, and it is then all the chunks in their order,
/// the last one whole.
pub proof fn lemma_response_is_the_chunks_joined(
    start: ExchangeView,
    chunks: Seq<Seq<u8>>,
    times: Seq<u64>,
)
    requires
        start.phase == Phase::Polling,
        times.len() == chunks.len(),
        chunks.len() > 0,
        forall|i: int|
            0 <= i < chunks.len() - 1 ==> (#[trigger] chunks[i]).len() > 0 && !chunks[i].contains(
                TERMINATOR,
            ),
        chunks.last().contains(TERMINATOR),
    ensures
        start.after_all(polled(chunks, times)).phase == Phase::Finished,
        start.after_all(polled(chunks, times)).response == start.response + joined(chunks),
{
    assert(polled(chunks, times).drop_last() =~= polled(chunks.drop_last(), times.drop_last()));
    lemma_chunks_accumulate(start, chunks.drop_last(), times.drop_last());
}

/// What a driver reports in `rounds` rounds in which nothing is there to
/// read: its clock stands at `from` at the first look and moves on by `pause`
/// with every wait.
pub open spec fn silent_rounds(from: u64, pause: u64, rounds: nat) -> Seq<EventView>
    decreases rounds,
{
    if rounds == 0 {
        Seq::empty()
    } else {
        silent_rounds(from, pause, (rounds - 1) as nat).push(
            EventView::Polled { bytes: Seq::empty(), now: (from + (rounds - 1) * pause) as u64 },
        ).push(EventView::Woke { now: (from + rounds * pause) as u64 })
    }
}

/// A transport that stays silent does not hold the exchange for ever. The
/// driver that waits as long as it is asked to finds the exchange still
/// reading while its waits add up to less than the timeout, and over, with
/// the response as it was, from the first wait with which they reach it.
pub proof fn lemma_silence_ends_in_time(start: ExchangeView, rounds: nat)
    requires
        start.phase == Phase::Polling,
        start.pause > 0,
        start.last_read + rounds * start.pause <= u64::MAX,
    ensures
        ({
            let end = start.after_all(silent_rounds(start.last_read, start.pause, rounds));
            &&& end.response == start.response
            &&& end.last_read == start.last_read
            &&& end.phase == if rounds == 0 || rounds * start.pause < start.timeout {
                Phase::Polling
            } else {
                Phase::Finished
            }
        }),
    decreases rounds,
{
    if rounds > 0 {
        let from = start.last_read;
        let pause = start.pause;
        let fewer = (rounds - 1) as nat;
        assert(rounds * pause == fewer * pause + pause) by (nonlinear_arith)
            requires
                rounds == fewer + 1,
        ;
        lemma_silence_ends_in_time(start, fewer);
        lemma_response_grows(start, silent_rounds(from, pause, fewer));
        let events = silent_rounds(from, pause, rounds);
        let polled = EventView::Polled { bytes: Seq::empty(), now: (from + fewer * pause) as u64 };
        assert(events.drop_last().drop_last() =~= silent_rounds(from, pause, fewer));
        assert(start.after_all(events.drop_last()) == start.after_all(
            silent_rounds(from, pause, fewer),
        ).after(polled));
    }
}

} // verus!
