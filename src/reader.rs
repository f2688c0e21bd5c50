use vstd::prelude::*;
use crate::error::{StreamError, ProbeOutcome, size_from_probe, probe_size};
use crate::range::{next_range_end, range_end, is_no_further_range, no_further_range_code};

verus! {

/// Where the reader stands between two events.
#[derive(Debug, PartialEq, Eq)]
pub enum Phase {
    /// No request in flight.
    Idle,
    /// A request for the range that ends at `end` (inclusive) was sent.
    Requesting { end: u64 },
    /// The body of the range that ends at `end` is being drained.
    Streaming { end: u64 },
    /// The whole object was delivered, or the service said no range is left.
    Exhausted,
    /// The reader stopped for good with this error.
    Failed(StreamError),
}

/// What the driver reports to the reader.
#[derive(Debug)]
pub enum Event {
    /// The caller asks for bytes (a new pull, or one resumed after waiting).
    Pull,
    /// The last range request resolved with a response.
    RangeReady,
    /// The last range request failed; the service's error code, if any.
    RangeFailed { code: Option<String>, detail: String },
    /// The body produced these bytes.
    BodyChunk(Vec<u8>),
    /// The body of the current range ended.
    BodyDone,
    /// Reading the body failed.
    BodyFailed(String),
}

/// What the reader asks the driver to do next.
#[derive(Debug, PartialEq, Eq)]
pub enum Action {
    /// Send a request for the bytes `start..=end` and report how it resolves.
    SendRange { start: u64, end: u64 },
    /// Wait on the request already sent and report how it resolves.
    AwaitRange,
    /// Read the current response body and report what it gives.
    ReadBody,
    /// Hand these bytes to the caller: the pull is done.
    Deliver(Vec<u8>),
    /// The object is complete: the pull is done with zero bytes.
    EndOfStream,
    /// The pull fails with this error.
    Fail(StreamError),
}

/// `Event` with its bytes as a sequence.
pub enum EventView {
    Pull,
    RangeReady,
    RangeFailed { code: Option<String>, detail: String },
    BodyChunk(Seq<u8>),
    BodyDone,
    BodyFailed(String),
}

/// `Action` with its bytes as a sequence.
pub enum ActionView {
    SendRange { start: u64, end: u64 },
    AwaitRange,
    ReadBody,
    Deliver(Seq<u8>),
    EndOfStream,
    Fail(StreamError),
}

impl View for Event {
    type V = EventView;

    open spec fn view(&self) -> EventView {
        match self {
            Event::Pull => EventView::Pull,
            Event::RangeReady => EventView::RangeReady,
            Event::RangeFailed { code, detail } => EventView::RangeFailed { code: *code, detail: *detail },
            Event::BodyChunk(v) => EventView::BodyChunk(v@),
            Event::BodyDone => EventView::BodyDone,
            Event::BodyFailed(m) => EventView::BodyFailed(*m),
        }
    }
}

impl View for Action {
    type V = ActionView;

    open spec fn view(&self) -> ActionView {
        match self {
            Action::SendRange { start, end } => ActionView::SendRange { start: *start, end: *end },
            Action::AwaitRange => ActionView::AwaitRange,
            Action::ReadBody => ActionView::ReadBody,
            Action::Deliver(v) => ActionView::Deliver(v@),
            Action::EndOfStream => ActionView::EndOfStream,
            Action::Fail(e) => ActionView::Fail(*e),
        }
    }
}

/// The reader as a mathematical value.
pub struct ReaderState {
    /// Size of the object in bytes.
    pub total: nat,
    /// Bytes handed to the caller so far.
    pub downloaded: nat,
    /// Configured largest range size.
    pub chunk_size: nat,
    /// Body failures that may be retried.
    pub retries_allowed: nat,
    /// Body failures retried so far.
    pub retries_used: nat,
    pub phase: Phase,
    /// Bytes received from the body and not yet handed to the caller.
    pub pending: Seq<u8>,
}

impl ReaderState {
    /// Offsets stay within the object and the machine's integers, the retry
    /// count within its budget, and each phase's range within the object.
    pub open spec fn wf(self) -> bool {
        &&& self.downloaded <= self.total <= u64::MAX
        &&& 0 < self.chunk_size <= u64::MAX
        &&& self.retries_used <= self.retries_allowed <= usize::MAX
        &&& match self.phase {
            Phase::Requesting { end } => self.downloaded <= end < self.total && self.pending.len() == 0,
            Phase::Streaming { end } => self.downloaded + self.pending.len() <= end + 1 && end < self.total,
            _ => self.pending.len() == 0,
        }
    }

    /// The same state in another phase.
    pub open spec fn with_phase(self, phase: Phase) -> ReaderState {
        ReaderState { phase, ..self }
    }
}

/// Hands the caller as many pending bytes as its buffer takes.
pub open spec fn hand_out(s: ReaderState, capacity: nat) -> (ReaderState, ActionView) {
    let n = if capacity <= s.pending.len() { capacity } else { s.pending.len() };
    (
        ReaderState {
            downloaded: s.downloaded + n,
            pending: s.pending.subrange(n as int, s.pending.len() as int),
            ..s
        },
        ActionView::Deliver(s.pending.subrange(0, n as int)),
    )
}

/// With nothing in flight: end the stream, or ask for the next range.
pub open spec fn from_idle(s: ReaderState, capacity: nat) -> (ReaderState, ActionView) {
    if s.downloaded >= s.total {
        (s.with_phase(Phase::Exhausted), ActionView::EndOfStream)
    } else {
        let end = range_end(s.downloaded, s.total, s.chunk_size, capacity);
        (
            s.with_phase(Phase::Requesting { end: end as u64 }),
            ActionView::SendRange { start: s.downloaded as u64, end: end as u64 },
        )
    }
}

/// The caller asks for bytes.
pub open spec fn on_pull(s: ReaderState, capacity: nat) -> (ReaderState, ActionView) {
    match s.phase {
        Phase::Failed(e) => (s, ActionView::Fail(e)),
        Phase::Exhausted => (s, ActionView::EndOfStream),
        _ => if capacity == 0 {
            (s, ActionView::Deliver(Seq::empty()))
        } else {
            match s.phase {
                Phase::Requesting { .. } => (s, ActionView::AwaitRange),
                Phase::Streaming { .. } => if s.pending.len() > 0 {
                    hand_out(s, capacity)
                } else {
                    (s, ActionView::ReadBody)
                },
                _ => from_idle(s, capacity),
            }
        },
    }
}

/// A body could not be read: retry from the first byte not delivered while
/// the budget lasts, else stop with `err`.
pub open spec fn on_body_failure(s: ReaderState, capacity: nat, err: StreamError) -> (ReaderState, ActionView) {
    if s.retries_used < s.retries_allowed {
        on_pull(
            ReaderState { retries_used: s.retries_used + 1, phase: Phase::Idle, ..s },
            capacity,
        )
    } else {
        (s.with_phase(Phase::Failed(err)), ActionView::Fail(err))
    }
}

/// The reader's step: the state and action that follow `event`, while the
/// caller's buffer has room for `capacity` bytes. An event that the phase
/// does not wait for is taken as a pull.
pub open spec fn next(s: ReaderState, capacity: nat, event: EventView) -> (ReaderState, ActionView) {
    match (s.phase, event) {
        (Phase::Requesting { end }, EventView::RangeReady) =>
            (s.with_phase(Phase::Streaming { end }), ActionView::ReadBody),
        (Phase::Requesting { .. }, EventView::RangeFailed { code, detail }) =>
            if code is Some && no_further_range_code(code->0@) {
                (s.with_phase(Phase::Exhausted), ActionView::EndOfStream)
            } else {
                let e = StreamError::Transport(detail);
                (s.with_phase(Phase::Failed(e)), ActionView::Fail(e))
            },
        (Phase::Streaming { end }, EventView::BodyChunk(bytes)) if s.pending.len() == 0 =>
            if bytes.len() == 0 {
                (s, ActionView::ReadBody)
            } else if s.downloaded + bytes.len() > end + 1 {
                on_body_failure(s, capacity, StreamError::BodyOverrun)
            } else {
                hand_out(ReaderState { pending: bytes, ..s }, capacity)
            },
        (Phase::Streaming { .. }, EventView::BodyDone) if s.pending.len() == 0 =>
            on_pull(s.with_phase(Phase::Idle), capacity),
        (Phase::Streaming { .. }, EventView::BodyFailed(m)) if s.pending.len() == 0 =>
            on_body_failure(s, capacity, StreamError::BodyRead(m)),
        _ => on_pull(s, capacity),
    }
}

/// The range reader: turns ranged requests against an object of known size
/// into one stream of bytes that a caller pulls into its own buffer.
#[derive(Debug)]
pub struct RangeReader {
    total: u64,
    downloaded: u64,
    chunk_size: u64,
    retries_allowed: usize,
    retries_used: usize,
    phase: Phase,
    pending: Vec<u8>,
}

impl View for RangeReader {
    type V = ReaderState;

    closed spec fn view(&self) -> ReaderState {
        ReaderState {
            total: self.total as nat,
            downloaded: self.downloaded as nat,
            chunk_size: self.chunk_size as nat,
            retries_allowed: self.retries_allowed as nat,
            retries_used: self.retries_used as nat,
            phase: self.phase,
            pending: self.pending@,
        }
    }
}

impl RangeReader {
    /// Builds a reader for an object once its size probe has answered. The
    /// probe's own failures come first; then a range size under one byte is
    /// refused.
    pub fn new(probe: ProbeOutcome, chunk_size: i64, retries: usize) -> (r: Result<RangeReader, StreamError>)
        ensures
            match probe_size(probe) {
                Err(e) => r == Err::<RangeReader, StreamError>(e),
                Ok(n) => if chunk_size <= 0 {
                    r == Err::<RangeReader, StreamError>(StreamError::InvalidChunkSize)
                } else {
                    &&& r is Ok
                    &&& r->Ok_0@ == (ReaderState {
                        total: n,
                        downloaded: 0,
                        chunk_size: chunk_size as nat,
                        retries_allowed: retries as nat,
                        retries_used: 0,
                        phase: Phase::Idle,
                        pending: Seq::empty(),
                    })
                    &&& r->Ok_0@.wf()
                },
            },
    {
        let total = match size_from_probe(probe) {
            Ok(n) => n,
            Err(e) => return Err(e),
        };
        if chunk_size <= 0 {
            return Err(StreamError::InvalidChunkSize);
        }
        let r = RangeReader {
            total,
            downloaded: 0,
            chunk_size: chunk_size as u64,
            retries_allowed: retries,
            retries_used: 0,
            phase: Phase::Idle,
            pending: Vec::new(),
        };
        assert(r@.pending =~= Seq::<u8>::empty());
        Ok(r)
    }

    /// Size of the object in bytes.
    pub fn total_size(&self) -> (r: u64)
        ensures
            r as nat == self@.total,
    {
        self.total
    }

    /// Bytes handed to the caller so far.
    pub fn downloaded(&self) -> (r: u64)
        ensures
            r as nat == self@.downloaded,
    {
        self.downloaded
    }

    /// Body failures retried so far.
    pub fn retries_used(&self) -> (r: usize)
        ensures
            r as nat == self@.retries_used,
    {
        self.retries_used
    }

    /// Where the reader stands.
    pub fn phase(&self) -> (r: &Phase)
        ensures
            *r == self@.phase,
    {
        &self.phase
    }

    fn hand_out_exec(&mut self, capacity: usize) -> (a: Action)
        requires
            old(self)@.downloaded + old(self)@.pending.len() <= u64::MAX,
        ensures
            (final(self)@, a@) == hand_out(old(self)@, capacity as nat),
    {
        let len = self.pending.len();
        let n: usize = if capacity <= len { capacity } else { len };
        let mut out: Vec<u8> = Vec::new();
        std::mem::swap(&mut out, &mut self.pending);
        let rest = out.split_off(n);
        self.pending = rest;
        self.downloaded = self.downloaded + n as u64;
        let a = Action::Deliver(out);
        proof {
            let h = hand_out(old(self)@, capacity as nat);
            assert(self@.pending =~= h.0.pending);
            assert(self@ == h.0);
        }
        a
    }

    fn from_idle_exec(&mut self, capacity: usize) -> (a: Action)
        requires
            old(self)@.wf(),
            capacity > 0,
        ensures
            (final(self)@, a@) == from_idle(old(self)@, capacity as nat),
    {
        if self.downloaded >= self.total {
            self.phase = Phase::Exhausted;
            Action::EndOfStream
        } else {
            let end = next_range_end(self.downloaded, self.total, self.chunk_size, capacity);
            self.phase = Phase::Requesting { end };
            Action::SendRange { start: self.downloaded, end }
        }
    }

    fn on_pull_exec(&mut self, capacity: usize) -> (a: Action)
        requires
            old(self)@.wf(),
        ensures
            (final(self)@, a@) == on_pull(old(self)@, capacity as nat),
    {
        match &self.phase {
            Phase::Failed(e) => {
                return Action::Fail(e.duplicate());
            },
            Phase::Exhausted => {
                return Action::EndOfStream;
            },
            _ => {},
        }
        if capacity == 0 {
            let none: Vec<u8> = Vec::new();
            assert(none@ =~= Seq::<u8>::empty());
            return Action::Deliver(none);
        }
        match self.phase {
            Phase::Requesting { .. } => Action::AwaitRange,
            Phase::Streaming { .. } => {
                if self.pending.len() > 0 {
                    self.hand_out_exec(capacity)
                } else {
                    Action::ReadBody
                }
            },
            _ => self.from_idle_exec(capacity),
        }
    }

    fn on_body_failure_exec(&mut self, capacity: usize, err: StreamError) -> (a: Action)
        requires
            old(self)@.wf(),
            old(self)@.pending.len() == 0,
            old(self)@.phase is Streaming,
        ensures
            (final(self)@, a@) == on_body_failure(old(self)@, capacity as nat, err),
    {
        if self.retries_used < self.retries_allowed {
            self.retries_used = self.retries_used + 1;
            self.phase = Phase::Idle;
            self.on_pull_exec(capacity)
        } else {
            let a = Action::Fail(err.duplicate());
            self.phase = Phase::Failed(err);
            a
        }
    }

    /// Takes one event from the driver and says what to do next; see `next`.
    pub fn step(&mut self, capacity: usize, event: Event) -> (action: Action)
        requires
            old(self)@.wf(),
        ensures
            final(self)@.wf(),
            (final(self)@, action@) == next(old(self)@, capacity as nat, event@),
    {
        let ghost e = event@;
        let action = match event {
            Event::RangeReady => match self.phase {
                Phase::Requesting { end } => {
                    self.phase = Phase::Streaming { end };
                    Action::ReadBody
                },
                _ => self.on_pull_exec(capacity),
            },
            Event::RangeFailed { code, detail } => match self.phase {
                Phase::Requesting { .. } => {
                    let no_more = match &code {
                        Some(c) => is_no_further_range(c.as_str()),
                        None => false,
                    };
                    if no_more {
                        self.phase = Phase::Exhausted;
                        Action::EndOfStream
                    } else {
                        let a = Action::Fail(StreamError::Transport(detail.clone()));
                        self.phase = Phase::Failed(StreamError::Transport(detail));
                        a
                    }
                },
                _ => self.on_pull_exec(capacity),
            },
            Event::BodyChunk(bytes) => match self.phase {
                Phase::Streaming { end } if self.pending.len() == 0 => {
                    let room: u64 = end + 1 - self.downloaded;
                    if bytes.len() == 0 {
                        Action::ReadBody
                    } else if bytes.len() as u64 > room {
                        self.on_body_failure_exec(capacity, StreamError::BodyOverrun)
                    } else {
                        self.pending = bytes;
                        self.hand_out_exec(capacity)
                    }
                },
                _ => self.on_pull_exec(capacity),
            },
            Event::BodyDone => match self.phase {
                Phase::Streaming { .. } if self.pending.len() == 0 => {
                    self.phase = Phase::Idle;
                    self.on_pull_exec(capacity)
                },
                _ => self.on_pull_exec(capacity),
            },
            Event::BodyFailed(m) => match self.phase {
                Phase::Streaming { .. } if self.pending.len() == 0 => {
                    self.on_body_failure_exec(capacity, StreamError::BodyRead(m))
                },
                _ => self.on_pull_exec(capacity),
            },
            Event::Pull => self.on_pull_exec(capacity),
        };
        proof {
            lemma_next_wf(old(self)@, capacity as nat, e);
        }
        action
    }
}

/// Every step keeps the reader well formed.
pub proof fn lemma_next_wf(s: ReaderState, capacity: nat, event: EventView)
    requires
        s.wf(),
    ensures
        next(s, capacity, event).0.wf(),
{
}

} // verus!
