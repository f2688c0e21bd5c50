//! What holds of the reader over a whole run of events.
use vstd::prelude::*;
use crate::error::StreamError;
use crate::range::{no_further_range_code, range_end};
use crate::reader::{Phase, EventView, ActionView, ReaderState, next, lemma_next_wf};

verus! {

/// The states and actions of a run: each turn is the caller's buffer room and
/// the event that the driver reports.
pub open spec fn run(s: ReaderState, turns: Seq<(nat, EventView)>) -> (ReaderState, Seq<ActionView>)
    decreases turns.len(),
{
    if turns.len() == 0 {
        (s, Seq::empty())
    } else {
        let first = next(s, turns[0].0, turns[0].1);
        let rest = run(first.0, turns.drop_first());
        (rest.0, seq![first.1] + rest.1)
    }
}

/// The bytes that one action hands the caller.
pub open spec fn bytes_of(a: ActionView) -> Seq<u8> {
    match a {
        ActionView::Deliver(b) => b,
        _ => Seq::empty(),
    }
}

/// All the bytes that a sequence of actions hands the caller, in order.
pub open spec fn delivered(actions: Seq<ActionView>) -> Seq<u8>
    decreases actions.len(),
{
    if actions.len() == 0 {
        Seq::empty()
    } else {
        bytes_of(actions[0]) + delivered(actions.drop_first())
    }
}

/// The reader agrees with the object's bytes `content`: what it holds back is
/// the next part of the object, and it ends only at the object's end.
pub open spec fn faithful_to(s: ReaderState, content: Seq<u8>) -> bool {
    &&& content.len() == s.total
    &&& s.pending == content.subrange(s.downloaded as int, (s.downloaded + s.pending.len()) as int)
    &&& (s.phase is Exhausted ==> s.downloaded == s.total)
}

/// A service that keeps to its side: a body gives the requested bytes of
/// `content` in order and no more, and a range that starts inside the object
/// is never refused as lying past its end.
pub open spec fn honest(s: ReaderState, event: EventView, content: Seq<u8>) -> bool {
    match (s.phase, event) {
        (Phase::Streaming { end }, EventView::BodyChunk(b)) => s.pending.len() == 0 ==> {
            &&& s.downloaded + b.len() <= end + 1
            &&& b == content.subrange(s.downloaded as int, (s.downloaded + b.len()) as int)
        },
        (Phase::Requesting { .. }, EventView::RangeFailed { code, .. }) =>
            !(code is Some && no_further_range_code(code->0@)),
        _ => true,
    }
}

/// Every event of the run is `honest` in the state where it arrives.
pub open spec fn honest_run(s: ReaderState, turns: Seq<(nat, EventView)>, content: Seq<u8>) -> bool
    decreases turns.len(),
{
    if turns.len() == 0 {
        true
    } else {
        honest(s, turns[0].1, content) && honest_run(
            next(s, turns[0].0, turns[0].1).0,
            turns.drop_first(),
            content,
        )
    }
}

/// How many body reads of the run fail.
pub open spec fn body_failures(turns: Seq<(nat, EventView)>) -> nat
    decreases turns.len(),
{
    if turns.len() == 0 {
        0
    } else {
        (if turns[0].1 is BodyFailed { 1nat } else { 0nat }) + body_failures(turns.drop_first())
    }
}

proof fn lemma_delivered_cons(a: ActionView, rest: Seq<ActionView>)
    ensures
        delivered(seq![a] + rest) == bytes_of(a) + delivered(rest),
{
    assert((seq![a] + rest).drop_first() =~= rest);
}

/// One step against an honest service: the bytes handed out are the next
/// bytes of the object, a pull with room in the buffer is never answered with
/// zero bytes but at the end, no more is handed out than the buffer takes,
/// and the end of the stream is reported only once the reader is exhausted.
pub proof fn lemma_step_in_order(s: ReaderState, capacity: nat, event: EventView, content: Seq<u8>)
    requires
        s.wf(),
        faithful_to(s, content),
        honest(s, event, content),
    ensures
        ({
            let (t, a) = next(s, capacity, event);
            &&& faithful_to(t, content)
            &&& s.downloaded <= t.downloaded
            &&& bytes_of(a) == content.subrange(s.downloaded as int, t.downloaded as int)
            &&& bytes_of(a).len() <= capacity
            &&& (capacity > 0 && a is Deliver ==> bytes_of(a).len() > 0)
            &&& (a is EndOfStream ==> t.phase is Exhausted)
        }),
{
    let (t, a) = next(s, capacity, event);
    assert(t.pending =~= content.subrange(t.downloaded as int, (t.downloaded + t.pending.len()) as int));
    assert(bytes_of(a) =~= content.subrange(s.downloaded as int, t.downloaded as int));
}

/// Pulls against an honest service hand out the object's bytes in order,
/// each once, from where the reader stood; once the reader is exhausted they
/// have handed out all the rest of the object.
pub proof fn lemma_pulls_deliver_object(s: ReaderState, turns: Seq<(nat, EventView)>, content: Seq<u8>)
    requires
        s.wf(),
        faithful_to(s, content),
        honest_run(s, turns, content),
    ensures
        ({
            let (f, acts) = run(s, turns);
            &&& f.wf()
            &&& faithful_to(f, content)
            &&& s.downloaded <= f.downloaded
            &&& delivered(acts) == content.subrange(s.downloaded as int, f.downloaded as int)
            &&& (f.phase is Exhausted ==> delivered(acts) == content.subrange(
                s.downloaded as int,
                content.len() as int,
            ))
        }),
    decreases turns.len(),
{
    if turns.len() == 0 {
        assert(content.subrange(s.downloaded as int, s.downloaded as int) =~= Seq::<u8>::empty());
    } else {
        let (t, a) = next(s, turns[0].0, turns[0].1);
        lemma_next_wf(s, turns[0].0, turns[0].1);
        lemma_step_in_order(s, turns[0].0, turns[0].1, content);
        lemma_pulls_deliver_object(t, turns.drop_first(), content);
        let (f, rest) = run(t, turns.drop_first());
        lemma_delivered_cons(a, rest);
        assert(content.subrange(s.downloaded as int, t.downloaded as int) + content.subrange(
            t.downloaded as int,
            f.downloaded as int,
        ) =~= content.subrange(s.downloaded as int, f.downloaded as int));
    }
}

/// A fresh reader's pulls against an honest service hand out a prefix of the
/// object, and the whole object once it is exhausted.
pub proof fn lemma_fresh_reader_delivers_whole_object(
    s: ReaderState,
    turns: Seq<(nat, EventView)>,
    content: Seq<u8>,
)
    requires
        s.wf(),
        s.downloaded == 0,
        s.phase is Idle,
        content.len() == s.total,
        honest_run(s, turns, content),
    ensures
        ({
            let (f, acts) = run(s, turns);
            &&& delivered(acts) == content.subrange(0, f.downloaded as int)
            &&& (f.phase is Exhausted ==> delivered(acts) == content)
        }),
{
    assert(s.pending =~= content.subrange(0, 0));
    lemma_pulls_deliver_object(s, turns, content);
    assert(content.subrange(0, content.len() as int) =~= content);
}

/// The service's answer that no range is left ends the stream cleanly, with
/// no error.
pub proof fn lemma_no_further_range_ends_stream(s: ReaderState, capacity: nat, code: String, detail: String)
    requires
        s.wf(),
        s.phase is Requesting,
        no_further_range_code(code@),
    ensures
        next(s, capacity, EventView::RangeFailed { code: Some(code), detail }) == (
        s.with_phase(Phase::Exhausted),
        ActionView::EndOfStream,
    ),
{
}

/// Once exhausted, the reader stays so, and every step reports the end of the
/// stream.
pub proof fn lemma_exhausted_is_final(s: ReaderState, turns: Seq<(nat, EventView)>)
    requires
        s.phase is Exhausted,
    ensures
        run(s, turns).0 == s,
        forall|i: int| 0 <= i < turns.len() ==> run(s, turns).1[i] == ActionView::EndOfStream,
        run(s, turns).1.len() == turns.len(),
    decreases turns.len(),
{
    if turns.len() > 0 {
        lemma_exhausted_is_final(s, turns.drop_first());
        let rest = run(s, turns.drop_first()).1;
        assert forall|i: int| 0 <= i < turns.len() implies run(s, turns).1[i] == ActionView::EndOfStream by {
            if i > 0 {
                assert(run(s, turns).1[i] == rest[i - 1]);
            }
        }
    }
}

/// Body failures within the retry budget are invisible: against an honest
/// service that serves every range request, the reader never fails, and it
/// hands out exactly what it would with no failure at all.
pub proof fn lemma_retries_invisible(s: ReaderState, turns: Seq<(nat, EventView)>, content: Seq<u8>)
    requires
        s.wf(),
        faithful_to(s, content),
        !(s.phase is Failed),
        honest_run(s, turns, content),
        forall|i: int| 0 <= i < turns.len() ==> !(#[trigger] turns[i].1 is RangeFailed),
        s.retries_used + body_failures(turns) <= s.retries_allowed,
    ensures
        ({
            let (f, acts) = run(s, turns);
            &&& !(f.phase is Failed)
            &&& delivered(acts) == content.subrange(s.downloaded as int, f.downloaded as int)
            &&& (f.phase is Exhausted ==> delivered(acts) == content.subrange(
                s.downloaded as int,
                content.len() as int,
            ))
        }),
    decreases turns.len(),
{
    lemma_pulls_deliver_object(s, turns, content);
    if turns.len() > 0 {
        let t = next(s, turns[0].0, turns[0].1).0;
        lemma_next_wf(s, turns[0].0, turns[0].1);
        lemma_step_in_order(s, turns[0].0, turns[0].1, content);
        assert(!(turns[0].1 is RangeFailed));
        assert(!(t.phase is Failed));
        assert(t.retries_used + body_failures(turns.drop_first()) <= t.retries_allowed);
        assert forall|i: int| 0 <= i < turns.drop_first().len() implies !(#[trigger] turns.drop_first()[i].1 is RangeFailed) by {
            assert(turns.drop_first()[i] == turns[i + 1]);
        }
        lemma_retries_invisible(t, turns.drop_first(), content);
    }
}

/// A body failure with the retry budget spent fails the pull with that error.
pub proof fn lemma_budget_spent_fails(s: ReaderState, capacity: nat, message: String)
    requires
        s.wf(),
        s.phase is Streaming,
        s.pending.len() == 0,
        s.retries_used == s.retries_allowed,
    ensures
        next(s, capacity, EventView::BodyFailed(message)) == (
        s.with_phase(Phase::Failed(StreamError::BodyRead(message))),
        ActionView::Fail(StreamError::BodyRead(message)),
    ),
{
}

/// Once failed, the reader stays so, and every step reports the same error.
pub proof fn lemma_failure_is_final(s: ReaderState, err: StreamError, turns: Seq<(nat, EventView)>)
    requires
        s.phase == Phase::Failed(err),
    ensures
        run(s, turns).0 == s,
        forall|i: int| 0 <= i < turns.len() ==> run(s, turns).1[i] == ActionView::Fail(err),
        run(s, turns).1.len() == turns.len(),
    decreases turns.len(),
{
    if turns.len() > 0 {
        lemma_failure_is_final(s, err, turns.drop_first());
        let rest = run(s, turns.drop_first()).1;
        assert forall|i: int| 0 <= i < turns.len() implies run(s, turns).1[i] == ActionView::Fail(err) by {
            if i > 0 {
                assert(run(s, turns).1[i] == rest[i - 1]);
            }
        }
    }
}

/// A pull with nothing in flight and bytes left asks for the next range: it
/// starts at the first byte not delivered, and its length is the smallest of
/// the configured range size, the room in the caller's buffer, and what is
/// left of the object.
pub proof fn lemma_range_is_clamped(s: ReaderState, capacity: nat)
    requires
        s.wf(),
        s.phase is Idle,
        capacity > 0,
        s.downloaded < s.total,
    ensures
        ({
            let (t, a) = next(s, capacity, EventView::Pull);
            exists|end: u64|
                {
                    &&& t == s.with_phase(Phase::Requesting { end })
                    &&& a == ActionView::SendRange { start: s.downloaded as u64, end }
                    &&& end - s.downloaded + 1 <= s.chunk_size
                    &&& end - s.downloaded + 1 <= capacity
                    &&& end - s.downloaded + 1 <= s.total - s.downloaded
                    &&& (end - s.downloaded + 1 == s.chunk_size
                        || end - s.downloaded + 1 == capacity
                        || end - s.downloaded + 1 == s.total - s.downloaded)
                }
        }),
{
    let (t, a) = next(s, capacity, EventView::Pull);
    let end = range_end(s.downloaded, s.total, s.chunk_size, capacity) as u64;
    assert(t == s.with_phase(Phase::Requesting { end }));
}

/// How a service that serves every range in full answers what the reader
/// asks: a request resolves, and a body gives the rest of its range in one
/// piece, then ends.
pub open spec fn full_answer(s: ReaderState, a: ActionView, content: Seq<u8>) -> EventView {
    match (a, s.phase) {
        (ActionView::SendRange { .. }, _) => EventView::RangeReady,
        (ActionView::AwaitRange, _) => EventView::RangeReady,
        (ActionView::ReadBody, Phase::Streaming { end }) => if s.pending.len() == 0 && s.downloaded <= end {
            EventView::BodyChunk(content.subrange(s.downloaded as int, end + 1))
        } else {
            EventView::BodyDone
        },
        _ => EventView::Pull,
    }
}

/// Whether an action ends the caller's pull.
pub open spec fn ends_pull(a: ActionView) -> bool {
    a is Deliver || a is EndOfStream || a is Fail
}

/// Feeds the reader `full_answer`s to `a` and what follows, for at most `fuel`
/// steps or until the pull ends.
pub open spec fn serve(s: ReaderState, capacity: nat, a: ActionView, content: Seq<u8>, fuel: nat) -> (ReaderState, ActionView)
    decreases fuel,
{
    if fuel == 0 || ends_pull(a) {
        (s, a)
    } else {
        let (t, b) = next(s, capacity, full_answer(s, a, content));
        serve(t, capacity, b, content, (fuel - 1) as nat)
    }
}

/// One pull of `capacity` bytes against a service that serves every range
/// in full.
pub open spec fn full_pull(s: ReaderState, capacity: nat, content: Seq<u8>) -> (ReaderState, ActionView) {
    let (t, a) = next(s, capacity, EventView::Pull);
    serve(t, capacity, a, content, 4)
}

/// Pulls with the buffer sizes `caps`, one after another, against a service
/// that serves every range in full.
pub open spec fn full_pulls(s: ReaderState, caps: Seq<nat>, content: Seq<u8>) -> (ReaderState, Seq<ActionView>)
    decreases caps.len(),
{
    if caps.len() == 0 {
        (s, Seq::empty())
    } else {
        let (t, a) = full_pull(s, caps[0], content);
        let rest = full_pulls(t, caps.drop_first(), content);
        (rest.0, seq![a] + rest.1)
    }
}

proof fn lemma_serve_in_order(s: ReaderState, capacity: nat, a: ActionView, content: Seq<u8>, fuel: nat)
    requires
        s.wf(),
        faithful_to(s, content),
        !ends_pull(a),
    ensures
        ({
            let (t, b) = serve(s, capacity, a, content, fuel);
            &&& t.wf()
            &&& faithful_to(t, content)
            &&& s.downloaded <= t.downloaded
            &&& bytes_of(b) == content.subrange(s.downloaded as int, t.downloaded as int)
            &&& bytes_of(b).len() <= capacity
            &&& (capacity > 0 && b is Deliver ==> bytes_of(b).len() > 0)
            &&& (b is EndOfStream ==> t.phase is Exhausted)
        }),
    decreases fuel,
{
    if fuel == 0 {
        assert(content.subrange(s.downloaded as int, s.downloaded as int) =~= Seq::<u8>::empty());
    } else {
        let e = full_answer(s, a, content);
        assert(honest(s, e, content));
        let (t, b) = next(s, capacity, e);
        lemma_next_wf(s, capacity, e);
        lemma_step_in_order(s, capacity, e, content);
        if !ends_pull(b) {
            lemma_serve_in_order(t, capacity, b, content, (fuel - 1) as nat);
        }
    }
}

/// A pull with room in the buffer, against a service that serves every
/// range in full, ends with bytes or with the end of the stream, never with
/// an error; the bytes are the next ones of the object.
pub proof fn lemma_full_pull_progresses(s: ReaderState, capacity: nat, content: Seq<u8>)
    requires
        s.wf(),
        faithful_to(s, content),
        !(s.phase is Failed),
        capacity > 0,
    ensures
        ({
            let (t, a) = full_pull(s, capacity, content);
            &&& t.wf()
            &&& faithful_to(t, content)
            &&& !(t.phase is Failed)
            &&& bytes_of(a) == content.subrange(s.downloaded as int, t.downloaded as int)
            &&& a is Deliver ==> s.downloaded < t.downloaded
            &&& a is EndOfStream ==> t.phase is Exhausted && s.downloaded == s.total
            &&& (a is Deliver || a is EndOfStream)
        }),
{
    reveal_with_fuel(serve, 5);
    let (t0, a0) = next(s, capacity, EventView::Pull);
    lemma_next_wf(s, capacity, EventView::Pull);
    lemma_step_in_order(s, capacity, EventView::Pull, content);
    if !ends_pull(a0) {
        lemma_serve_in_order(t0, capacity, a0, content, 4);
    }
}

/// Pulls with room in the buffer, of any sizes, against a service that serves
/// every range in full: once there are more pulls than bytes left, they have
/// handed out every remaining byte of the object in order, each pull that is
/// not the end of the stream hands out at least one byte, and the last pull
/// reports the end of the stream.
pub proof fn lemma_full_pulls_deliver_object(s: ReaderState, caps: Seq<nat>, content: Seq<u8>)
    requires
        s.wf(),
        faithful_to(s, content),
        !(s.phase is Failed),
        forall|i: int| 0 <= i < caps.len() ==> #[trigger] caps[i] > 0,
        caps.len() > s.total - s.downloaded,
    ensures
        ({
            let (f, acts) = full_pulls(s, caps, content);
            &&& f.phase is Exhausted
            &&& delivered(acts) == content.subrange(s.downloaded as int, content.len() as int)
            &&& acts.len() == caps.len()
            &&& acts[acts.len() - 1] is EndOfStream
            &&& forall|i: int| 0 <= i < acts.len() ==> (#[trigger] acts[i] is Deliver && bytes_of(acts[i]).len() > 0) || acts[i] is EndOfStream
            &&& forall|i: int, j: int| 0 <= i < j < acts.len() && #[trigger] acts[i] is EndOfStream ==> #[trigger] acts[j] is EndOfStream
        }),
    decreases caps.len(),
{
    let (t, a) = full_pull(s, caps[0], content);
    lemma_full_pull_progresses(s, caps[0], content);
    let tail = caps.drop_first();
    let (f, rest) = full_pulls(t, tail, content);
    let acts = seq![a] + rest;
    lemma_delivered_cons(a, rest);
    if caps.len() == 1 {
        assert(a is EndOfStream);
        assert(content.subrange(s.downloaded as int, content.len() as int) =~= Seq::<u8>::empty());
    } else {
        assert forall|i: int| 0 <= i < tail.len() implies #[trigger] tail[i] > 0 by {
            assert(tail[i] == caps[i + 1]);
        }
        lemma_full_pulls_deliver_object(t, tail, content);
        assert(content.subrange(s.downloaded as int, t.downloaded as int) + content.subrange(
            t.downloaded as int,
            content.len() as int,
        ) =~= content.subrange(s.downloaded as int, content.len() as int));
        if a is EndOfStream {
            lemma_end_pulls_stay_ended(t, tail, content);
        }
        assert forall|i: int| 0 <= i < acts.len() implies (#[trigger] acts[i] is Deliver && bytes_of(acts[i]).len() > 0) || acts[i] is EndOfStream by {
            if i > 0 {
                assert(acts[i] == rest[i - 1]);
            }
        }
        assert forall|i: int, j: int| 0 <= i < j < acts.len() && #[trigger] acts[i] is EndOfStream implies #[trigger] acts[j] is EndOfStream by {
            assert(acts[j] == rest[j - 1]);
            if i > 0 {
                assert(acts[i] == rest[i - 1]);
            }
        }
    }
}

proof fn lemma_end_pulls_stay_ended(s: ReaderState, caps: Seq<nat>, content: Seq<u8>)
    requires
        s.phase is Exhausted,
    ensures
        full_pulls(s, caps, content).0 == s,
        full_pulls(s, caps, content).1.len() == caps.len(),
        forall|i: int| 0 <= i < caps.len() ==> #[trigger] full_pulls(s, caps, content).1[i] is EndOfStream,
    decreases caps.len(),
{
    reveal_with_fuel(serve, 2);
    if caps.len() > 0 {
        lemma_end_pulls_stay_ended(s, caps.drop_first(), content);
        let rest = full_pulls(s, caps.drop_first(), content).1;
        assert(full_pull(s, caps[0], content) == (s, ActionView::EndOfStream));
        assert forall|i: int| 0 <= i < caps.len() implies #[trigger] full_pulls(s, caps, content).1[i] is EndOfStream by {
            if i > 0 {
                assert(full_pulls(s, caps, content).1[i] == rest[i - 1]);
            }
        }
    }
}

} // verus!
