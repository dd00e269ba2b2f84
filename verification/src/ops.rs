//! Cancellable, deadline-bounded operations.
//!
//! One unit of work runs under three competing terminators: its own
//! completion, a wall-clock deadline, and an external abort flag observed by
//! a short polling loop. Whichever fires first decides the outcome, and the
//! registry entry for the operation is removed on every finishing path,
//! exactly once: finishing consumes the operation token.

use vstd::prelude::*;
use crate::registry::OperationRegistry;

verus! {

/// The message carried by the error returned when the abort terminator wins.
pub open spec fn abort_message() -> Seq<char> {
    "Operation aborted by user"@
}

/// What the race delivered first.
pub enum RaceEvent<T> {
    /// The work itself resolved, successfully or not.
    WorkFinished(Result<T, String>),
    /// The deadline timer elapsed before the work resolved.
    DeadlineElapsed,
    /// One wake-up of the polling loop that watches the abort flag.
    PollTick,
}

/// A live operation: registered under its identifier until it finishes.
pub struct CancellableOperation {
    id: String,
    timeout_message: String,
}

impl CancellableOperation {
    pub closed spec fn id_view(&self) -> Seq<char> {
        self.id@
    }

    pub closed spec fn timeout_view(&self) -> Seq<char> {
        self.timeout_message@
    }

    /// The operation identifier, for the driver that polls and unblocks.
    pub fn id(&self) -> (r: &str)
        ensures
            r@ == self.id_view(),
    {
        self.id.as_str()
    }
}

/// Result of feeding one race event to a live operation.
pub enum OperationStep<T> {
    /// Nothing decided yet; the operation stays registered.
    Pending(CancellableOperation),
    /// The race is decided; the operation is unregistered.
    Finished(Result<T, String>),
}

/// Register `id` with a fresh, unsignaled flag and hand back the live
/// operation token.
pub fn begin(reg: &mut OperationRegistry, id: &str, timeout_message: &str) -> (op: CancellableOperation)
    requires
        old(reg).wf(),
    ensures
        final(reg).wf(),
        final(reg).spec_contains(id@),
        !final(reg).spec_signaled(id@),
        forall|o: Seq<char>| o != id@ ==> #[trigger] final(reg).spec_contains(o) == old(reg).spec_contains(o),
        forall|o: Seq<char>| o != id@ ==> #[trigger] final(reg).spec_signaled(o) == old(reg).spec_signaled(o),
        op.id_view() == id@,
        op.timeout_view() == timeout_message@,
{
    reg.register(id);
    CancellableOperation { id: id.to_owned(), timeout_message: timeout_message.to_owned() }
}

/// Decide the race on one event.
///
/// Work completion passes its own result through untouched; the deadline
/// yields the timeout error; a poll tick yields the abort error exactly when
/// the flag is signaled, and otherwise leaves everything as it was. Every
/// finishing path removes the registry entry.
pub fn step<T>(op: CancellableOperation, reg: &mut OperationRegistry, event: RaceEvent<T>) -> (r: OperationStep<T>)
    requires
        old(reg).wf(),
    ensures
        final(reg).wf(),
        (match event {
            RaceEvent::WorkFinished(res) => r matches OperationStep::Finished(out) && out == res,
            RaceEvent::DeadlineElapsed => r matches OperationStep::Finished(out)
                && out matches Err(m) && m@ == op.timeout_view(),
            RaceEvent::PollTick => {
                if old(reg).spec_signaled(op.id_view()) {
                    r matches OperationStep::Finished(out)
                        && out matches Err(m) && m@ == abort_message()
                } else {
                    r matches OperationStep::Pending(p) && p == op && *final(reg) == *old(reg)
                }
            },
        }),
        r is Finished ==> !final(reg).spec_contains(op.id_view()),
        forall|o: Seq<char>| o != op.id_view() ==> #[trigger] final(reg).spec_contains(o) == old(reg).spec_contains(o),
        forall|o: Seq<char>| o != op.id_view() ==> #[trigger] final(reg).spec_signaled(o) == old(reg).spec_signaled(o),
{
    match event {
        RaceEvent::WorkFinished(res) => {
            reg.unregister(op.id.as_str());
            OperationStep::Finished(res)
        }
        RaceEvent::DeadlineElapsed => {
            reg.unregister(op.id.as_str());
            OperationStep::Finished(Err(op.timeout_message))
        }
        RaceEvent::PollTick => {
            if reg.is_signaled(op.id.as_str()) {
                reg.unregister(op.id.as_str());
                OperationStep::Finished(Err(String::from_str("Operation aborted by user")))
            } else {
                OperationStep::Pending(op)
            }
        }
    }
}

} // verus!
