//! Streaming relay: adapts a sequence of stream fragments into discrete
//! outbound events under the shared cancellation flag.
//!
//! A streaming operation moves `Established -> Streaming -> terminal`.
//! Exactly one terminal event (done or error) is emitted per operation, and
//! the registry entry is removed exactly once: the finishing step consumes
//! the stream token. Cancellation is not a rollback: content already
//! forwarded stays with the caller, and an observed abort collapses to the
//! same terminal done event as natural exhaustion.

use vstd::prelude::*;
use crate::ai_types::StreamChunk;
use crate::registry::OperationRegistry;

verus! {

/// Outbound event of one streaming operation.
pub enum RelayEmit {
    /// One forwarded content fragment.
    Chunk(StreamChunk),
    /// The single terminal event of a stream that ended without failure.
    Done,
    /// The single terminal event of a stream that failed, with its message.
    Error(String),
}

/// One observation of the consumption loop.
pub enum RelayInput {
    /// The next fragment decoded cleanly.
    Fragment(StreamChunk),
    /// The next fragment failed to decode; terminal.
    DecodeFailure(String),
    /// The cancellation flag was seen signaled before forwarding; terminal.
    AbortObserved,
    /// The sequence ended normally; terminal.
    Exhausted,
}

/// How establishing the stream ended.
pub enum ConnectOutcome {
    /// The sequence is available; consumption may begin.
    Established,
    /// Establishment failed or timed out, with the message to surface.
    ConnectFailed(String),
    /// The cancellation flag was signaled before establishment finished.
    AbortedBeforeConnect,
}

/// A streaming operation whose connection is still being established.
pub struct PendingStream {
    op_id: String,
}

/// A streaming operation that is consuming fragments.
pub struct ActiveStream {
    op_id: String,
}

/// Result of the establishment phase.
pub enum ConnectStep {
    /// Consumption may begin; the operation stays registered.
    Streaming(ActiveStream),
    /// The operation ended before any fragment; its one terminal event.
    Finished(RelayEmit),
}

/// Result of feeding one observation to an active stream.
pub enum RelayStep {
    /// The stream goes on; the event to forward.
    Streaming(ActiveStream, RelayEmit),
    /// The stream ended; its one terminal event.
    Finished(RelayEmit),
}

impl PendingStream {
    pub closed spec fn id_view(&self) -> Seq<char> {
        self.op_id@
    }

    pub fn id(&self) -> (r: &str)
        ensures
            r@ == self.id_view(),
    {
        self.op_id.as_str()
    }
}

impl ActiveStream {
    pub closed spec fn id_view(&self) -> Seq<char> {
        self.op_id@
    }

    pub fn id(&self) -> (r: &str)
        ensures
            r@ == self.id_view(),
    {
        self.op_id.as_str()
    }
}

/// Register `op_id` for abort and hand back the not-yet-established stream.
pub fn open_stream(reg: &mut OperationRegistry, op_id: &str) -> (p: PendingStream)
    requires
        old(reg).wf(),
    ensures
        final(reg).wf(),
        final(reg).spec_contains(op_id@),
        !final(reg).spec_signaled(op_id@),
        forall|o: Seq<char>| o != op_id@ ==> #[trigger] final(reg).spec_contains(o) == old(reg).spec_contains(o),
        forall|o: Seq<char>| o != op_id@ ==> #[trigger] final(reg).spec_signaled(o) == old(reg).spec_signaled(o),
        p.id_view() == op_id@,
{
    reg.register(op_id);
    PendingStream { op_id: op_id.to_owned() }
}

/// Leave the establishment phase.
///
/// Success enters the consumption phase with the operation still registered.
/// A failure to establish emits the terminal error event; an abort observed
/// before establishment emits the terminal done event. Either terminal
/// removes the registry entry without ever entering the consumption loop.
pub fn establish(p: PendingStream, reg: &mut OperationRegistry, outcome: ConnectOutcome) -> (r: ConnectStep)
    requires
        old(reg).wf(),
        outcome is AbortedBeforeConnect ==> old(reg).spec_signaled(p.id_view()),
    ensures
        final(reg).wf(),
        (match outcome {
            ConnectOutcome::Established => r matches ConnectStep::Streaming(a)
                && a.id_view() == p.id_view() && *final(reg) == *old(reg),
            ConnectOutcome::ConnectFailed(m) => r == ConnectStep::Finished(RelayEmit::Error(m)),
            ConnectOutcome::AbortedBeforeConnect => r == ConnectStep::Finished(RelayEmit::Done),
        }),
        r is Finished ==> !final(reg).spec_contains(p.id_view()),
        forall|o: Seq<char>| o != p.id_view() ==> #[trigger] final(reg).spec_contains(o) == old(reg).spec_contains(o),
        forall|o: Seq<char>| o != p.id_view() ==> #[trigger] final(reg).spec_signaled(o) == old(reg).spec_signaled(o),
{
    match outcome {
        ConnectOutcome::Established => ConnectStep::Streaming(ActiveStream { op_id: p.op_id }),
        ConnectOutcome::ConnectFailed(m) => {
            reg.unregister(p.op_id.as_str());
            ConnectStep::Finished(RelayEmit::Error(m))
        }
        ConnectOutcome::AbortedBeforeConnect => {
            reg.unregister(p.op_id.as_str());
            ConnectStep::Finished(RelayEmit::Done)
        }
    }
}

/// Feed one observation to an active stream.
///
/// A fragment is forwarded as a content event and the stream goes on. A
/// decode failure emits the terminal error event; an observed abort and
/// natural exhaustion both emit the terminal done event. Every terminal
/// removes the registry entry.
pub fn on_input(a: ActiveStream, reg: &mut OperationRegistry, input: RelayInput) -> (r: RelayStep)
    requires
        old(reg).wf(),
        input is AbortObserved ==> old(reg).spec_signaled(a.id_view()),
    ensures
        final(reg).wf(),
        (match input {
            RelayInput::Fragment(c) => r matches RelayStep::Streaming(a2, e)
                && a2.id_view() == a.id_view() && e == RelayEmit::Chunk(c) && *final(reg) == *old(reg),
            RelayInput::DecodeFailure(m) => r == RelayStep::Finished(RelayEmit::Error(m)),
            RelayInput::AbortObserved => r == RelayStep::Finished(RelayEmit::Done),
            RelayInput::Exhausted => r == RelayStep::Finished(RelayEmit::Done),
        }),
        r is Finished ==> !final(reg).spec_contains(a.id_view()),
        forall|o: Seq<char>| o != a.id_view() ==> #[trigger] final(reg).spec_contains(o) == old(reg).spec_contains(o),
        forall|o: Seq<char>| o != a.id_view() ==> #[trigger] final(reg).spec_signaled(o) == old(reg).spec_signaled(o),
{
    match input {
        RelayInput::Fragment(c) => RelayStep::Streaming(a, RelayEmit::Chunk(c)),
        RelayInput::DecodeFailure(m) => {
            reg.unregister(a.op_id.as_str());
            RelayStep::Finished(RelayEmit::Error(m))
        }
        RelayInput::AbortObserved => {
            reg.unregister(a.op_id.as_str());
            RelayStep::Finished(RelayEmit::Done)
        }
        RelayInput::Exhausted => {
            reg.unregister(a.op_id.as_str());
            RelayStep::Finished(RelayEmit::Done)
        }
    }
}

/// The events an active stream emits on a sequence of observations,
/// stopping at the first terminal observation.
pub open spec fn spec_relay_emits(inputs: Seq<RelayInput>) -> Seq<RelayEmit>
    decreases inputs.len(),
{
    if inputs.len() == 0 {
        Seq::empty()
    } else {
        match inputs[0] {
            RelayInput::Fragment(c) => seq![RelayEmit::Chunk(c)] + spec_relay_emits(inputs.skip(1)),
            RelayInput::DecodeFailure(m) => seq![RelayEmit::Error(m)],
            RelayInput::AbortObserved => seq![RelayEmit::Done],
            RelayInput::Exhausted => seq![RelayEmit::Done],
        }
    }
}

pub open spec fn is_terminal_input(i: RelayInput) -> bool {
    !(i is Fragment)
}

pub open spec fn is_terminal_emit(e: RelayEmit) -> bool {
    !(e is Chunk)
}

/// How many terminal (done or error) events a sequence holds.
pub open spec fn terminal_emit_count(es: Seq<RelayEmit>) -> int
    decreases es.len(),
{
    if es.len() == 0 {
        0
    } else {
        terminal_emit_count(es.skip(1)) + if is_terminal_emit(es[0]) { 1int } else { 0int }
    }
}

/// Whether some observation in the sequence ends the stream.
pub open spec fn has_terminal_input(inputs: Seq<RelayInput>) -> bool {
    exists|i: int| 0 <= i < inputs.len() && is_terminal_input(#[trigger] inputs[i])
}


/// A one-element sequence of a terminal event holds one terminal event.
proof fn lemma_terminal_count_single(es: Seq<RelayEmit>)
    requires
        es.len() == 1,
        is_terminal_emit(es[0]),
    ensures
        terminal_emit_count(es) == 1,
{
    assert(es.skip(1) =~= Seq::<RelayEmit>::empty());
    assert(terminal_emit_count(es.skip(1)) == 0);
}

/// Exactly one terminal event per streaming operation: a run over any
/// sequence of observations emits exactly one done or error event when some
/// observation ends the stream, and none while the stream is still open;
/// when it occurs, the terminal event is the last event emitted.
pub proof fn lemma_one_terminal_emit(inputs: Seq<RelayInput>)
    ensures
        has_terminal_input(inputs) ==> {
            &&& terminal_emit_count(spec_relay_emits(inputs)) == 1
            &&& spec_relay_emits(inputs).len() > 0
            &&& is_terminal_emit(spec_relay_emits(inputs).last())
        },
        !has_terminal_input(inputs) ==> terminal_emit_count(spec_relay_emits(inputs)) == 0,
    decreases inputs.len(),
{
    if inputs.len() == 0 {
    } else {
        let rest = inputs.skip(1);
        lemma_one_terminal_emit(rest);
        match inputs[0] {
            RelayInput::Fragment(c) => {
                let es = spec_relay_emits(inputs);
                let tail = spec_relay_emits(rest);
                assert(es == seq![RelayEmit::Chunk(c)] + tail);
                assert(es.skip(1) =~= tail);
                assert(terminal_emit_count(es) == terminal_emit_count(tail));
                assert(has_terminal_input(inputs) == has_terminal_input(rest)) by {
                    if has_terminal_input(rest) {
                        let i = choose|i: int| 0 <= i < rest.len() && is_terminal_input(#[trigger] rest[i]);
                        assert(inputs[i + 1] == rest[i]);
                        assert(is_terminal_input(inputs[i + 1]));
                    }
                    if has_terminal_input(inputs) {
                        let i = choose|i: int| 0 <= i < inputs.len() && is_terminal_input(#[trigger] inputs[i]);
                        assert(i != 0);
                        assert(rest[i - 1] == inputs[i]);
                        assert(is_terminal_input(rest[i - 1]));
                    }
                }
                if has_terminal_input(rest) {
                    assert(tail.len() > 0);
                    assert(es.last() == tail.last());
                }
            }
            RelayInput::DecodeFailure(m) => {
                lemma_terminal_count_single(spec_relay_emits(inputs));
                assert(is_terminal_input(inputs[0]));
            }
            RelayInput::AbortObserved => {
                lemma_terminal_count_single(spec_relay_emits(inputs));
                assert(is_terminal_input(inputs[0]));
            }
            RelayInput::Exhausted => {
                lemma_terminal_count_single(spec_relay_emits(inputs));
                assert(is_terminal_input(inputs[0]));
            }
        }
    }
}

/// Feed a whole sequence of observations to an active stream, collecting the
/// emitted events; stops at the first terminal observation. The stream token
/// comes back exactly when no observation was terminal.
#[verifier::loop_isolation(false)]
pub fn relay_feed(a: ActiveStream, reg: &mut OperationRegistry, inputs: Vec<RelayInput>) -> (r: (
    Option<ActiveStream>,
    Vec<RelayEmit>,
))
    requires
        old(reg).wf(),
        forall|i: int|
            0 <= i < inputs@.len() && (#[trigger] inputs@[i]) is AbortObserved
                ==> old(reg).spec_signaled(a.id_view()),
    ensures
        final(reg).wf(),
        r.1@ == spec_relay_emits(inputs@),
        (match r.0 {
            Some(a2) => a2.id_view() == a.id_view() && !has_terminal_input(inputs@)
                && *final(reg) == *old(reg),
            None => has_terminal_input(inputs@) && !final(reg).spec_contains(a.id_view()),
        }),
        forall|o: Seq<char>| o != a.id_view() ==> #[trigger] final(reg).spec_contains(o) == old(reg).spec_contains(o),
        forall|o: Seq<char>| o != a.id_view() ==> #[trigger] final(reg).spec_signaled(o) == old(reg).spec_signaled(o),
{
    let mut emits: Vec<RelayEmit> = Vec::new();
    let mut cur = a;
    let ghost all = inputs@;
    let mut remaining = inputs;
    let ghost mut k: int = 0;
    proof {
        assert(all.skip(0) =~= all);
    }
    while remaining.len() > 0
        invariant
            reg.wf(),
            0 <= k,
            k + remaining@.len() == all.len(),
            remaining@ == all.skip(k),
            cur.id_view() == a.id_view(),
            *reg == *old(reg),
            forall|i: int|
                0 <= i < all.len() && (#[trigger] all[i]) is AbortObserved
                    ==> old(reg).spec_signaled(a.id_view()),
            forall|i: int| 0 <= i < k ==> !is_terminal_input(#[trigger] all[i]),
            spec_relay_emits(all) == emits@ + spec_relay_emits(all.skip(k)),
        decreases remaining@.len(),
    {
        let input = remaining.remove(0);
        let ghost head = all[k];
        proof {
            assert(input == head);
            assert(remaining@ =~= all.skip(k + 1));
        }
        let step = on_input(cur, reg, input);
        match step {
            RelayStep::Streaming(a2, e) => {
                proof {
                    assert(head matches RelayInput::Fragment(c) && e == RelayEmit::Chunk(c));
                    assert(all.skip(k).skip(1) =~= all.skip(k + 1));
                    assert(spec_relay_emits(all.skip(k))
                        == seq![e] + spec_relay_emits(all.skip(k + 1)));
                    assert(emits@.push(e) + spec_relay_emits(all.skip(k + 1))
                        =~= emits@ + spec_relay_emits(all.skip(k)));
                    k = k + 1;
                }
                emits.push(e);
                cur = a2;
            }
            RelayStep::Finished(e) => {
                proof {
                    assert(is_terminal_input(head));
                    assert(has_terminal_input(all));
                    assert(spec_relay_emits(all.skip(k)) =~= seq![e]);
                    assert(emits@.push(e) =~= emits@ + spec_relay_emits(all.skip(k)));
                }
                emits.push(e);
                return (None, emits);
            }
        }
    }
    proof {
        assert(all.skip(k) =~= Seq::<RelayInput>::empty());
        assert(emits@ + Seq::<RelayEmit>::empty() =~= emits@);
        assert(!has_terminal_input(all)) by {
            if has_terminal_input(all) {
                let i = choose|i: int| 0 <= i < all.len() && is_terminal_input(#[trigger] all[i]);
                assert(!is_terminal_input(all[i]));
            }
        }
    }
    (Some(cur), emits)
}

} // verus!
