//! The event buffer and the buffer-manager arbitration.
//!
//! The buffer holds pending events and decides flush eligibility; the
//! manager step functions decide, for each command or timer tick, whether a
//! batch is handed to the writer. The manager loop itself lives in the
//! binary: it owns the buffer, feeds these functions, and performs the one
//! write they request — so a step with no requested batch is a step with
//! zero writer invocations.

use vstd::prelude::*;
use crate::event::{Event, EventView, Level, spec_is_urgent};

verus! {

/// The mutation vocabulary of the buffer manager.
pub enum BufferCommand {
    /// Admit an event into the buffer.
    Push(Event),
    /// Flush all buffered events now.
    Flush,
    /// Flush once more, and stop the manager.
    Shutdown,
}

/// The image of a batch of events.
pub open spec fn view_events(s: Seq<Event>) -> Seq<EventView> {
    s.map_values(|e: Event| e@)
}

/// Pending events, oldest first, plus the eligibility threshold.
pub struct EventBuffer {
    events: Vec<Event>,
    max_events: usize,
}

/// Whether admitting one more event makes the buffer eligible for an
/// immediate flush: the event is urgent, or the buffer has reached the
/// threshold.
pub open spec fn spec_push_eligible(len_before: nat, max: nat, level: Level) -> bool {
    spec_is_urgent(level) || len_before + 1 >= max
}

impl View for EventBuffer {
    type V = Seq<EventView>;

    closed spec fn view(&self) -> Seq<EventView> {
        view_events(self.events@)
    }
}

impl EventBuffer {
    /// The eligibility threshold this buffer was built with.
    pub closed spec fn spec_max(&self) -> nat {
        self.max_events as nat
    }

    /// A new, empty buffer with the standard threshold.
    pub fn new() -> (r: EventBuffer)
        ensures
            r@ == Seq::<EventView>::empty(),
            r.spec_max() == crate::BUFFER_MAX_EVENTS as nat,
    {
        let r = EventBuffer { events: Vec::new(), max_events: crate::BUFFER_MAX_EVENTS };
        proof {
            assert(r@ =~= Seq::<EventView>::empty());
        }
        r
    }

    /// Append an event; report whether this push makes the buffer eligible
    /// for an immediate flush. An urgent event is eligible on any buffer,
    /// an empty one included; a non-urgent event is eligible only at the
    /// threshold. Nothing is ever dropped by a push.
    pub fn push(&mut self, event: Event) -> (eligible: bool)
        ensures
            final(self)@ == old(self)@.push(event@),
            final(self).spec_max() == old(self).spec_max(),
            eligible == spec_push_eligible(old(self)@.len(), old(self).spec_max(), event@.level),
    {
        let urgent = event.is_urgent();
        let ghost before = self.events@;
        self.events.push(event);
        proof {
            assert(self@ =~= view_events(before).push(self.events@.last()@));
        }
        urgent || self.events.len() >= self.max_events
    }

    /// The number of pending events.
    pub fn len(&self) -> (r: usize)
        ensures
            r == self@.len(),
    {
        self.events.len()
    }

    /// Whether no events are pending.
    pub fn is_empty(&self) -> (r: bool)
        ensures
            r == (self@.len() == 0),
    {
        self.events.is_empty()
    }

    /// Take every pending event, oldest first; the buffer becomes empty.
    pub fn take_batch(&mut self) -> (batch: Vec<Event>)
        ensures
            view_events(batch@) == old(self)@,
            final(self)@ == Seq::<EventView>::empty(),
            final(self).spec_max() == old(self).spec_max(),
    {
        let mut batch: Vec<Event> = Vec::new();
        batch.append(&mut self.events);
        proof {
            assert(self@ =~= Seq::<EventView>::empty());
            assert(view_events(batch@) =~= old(self)@);
        }
        batch
    }

    /// Put a failed batch back: its events stand before anything admitted
    /// meanwhile, so arrival order is preserved.
    pub fn restore_batch(&mut self, batch: Vec<Event>)
        ensures
            final(self)@ == view_events(batch@) + old(self)@,
            final(self).spec_max() == old(self).spec_max(),
    {
        let mut combined = batch;
        combined.append(&mut self.events);
        self.events = combined;
        proof {
            assert(self@ =~= view_events(self.events@));
        }
    }
}

/// What one manager step asks of the loop that drives it.
pub struct ManagerStep {
    /// The batch to hand to the writer, if this step flushes. `None` means
    /// the writer is not invoked at all.
    pub flush: Option<Vec<Event>>,
    /// Whether the periodic timer is restarted, so a burst flush is not
    /// followed by a redundant periodic one.
    pub reset_timer: bool,
    /// Whether the manager loop stops after this step.
    pub stop: bool,
}

/// Arbitrate one command. A push flushes immediately exactly when it is
/// eligible; an explicit flush always flushes what is pending; shutdown
/// performs one final flush and stops. An empty buffer is never handed to
/// the writer.
pub fn handle_command(buffer: &mut EventBuffer, cmd: BufferCommand) -> (step: ManagerStep)
    ensures
        final(buffer).spec_max() == old(buffer).spec_max(),
        step.stop == (cmd is Shutdown),
        (match cmd {
            BufferCommand::Push(e) => {
                let eligible = spec_push_eligible(
                    old(buffer)@.len(),
                    old(buffer).spec_max(),
                    e@.level,
                );
                &&& step.reset_timer == eligible
                &&& eligible ==> (step.flush matches Some(b) && view_events(b@) == old(
                    buffer,
                )@.push(e@) && final(buffer)@ == Seq::<EventView>::empty())
                &&& !eligible ==> step.flush is None && final(buffer)@ == old(buffer)@.push(e@)
            },
            BufferCommand::Flush => {
                &&& step.reset_timer
                &&& old(buffer)@.len() == 0 ==> step.flush is None && final(buffer)@ == old(
                    buffer,
                )@
                &&& old(buffer)@.len() > 0 ==> (step.flush matches Some(b) && view_events(b@)
                    == old(buffer)@ && final(buffer)@ == Seq::<EventView>::empty())
            },
            BufferCommand::Shutdown => {
                &&& !step.reset_timer
                &&& old(buffer)@.len() == 0 ==> step.flush is None && final(buffer)@ == old(
                    buffer,
                )@
                &&& old(buffer)@.len() > 0 ==> (step.flush matches Some(b) && view_events(b@)
                    == old(buffer)@ && final(buffer)@ == Seq::<EventView>::empty())
            },
        }),
{
    match cmd {
        BufferCommand::Push(e) => {
            let eligible = buffer.push(e);
            if eligible {
                let batch = buffer.take_batch();
                ManagerStep { flush: Some(batch), reset_timer: true, stop: false }
            } else {
                ManagerStep { flush: None, reset_timer: false, stop: false }
            }
        },
        BufferCommand::Flush => {
            if buffer.is_empty() {
                ManagerStep { flush: None, reset_timer: true, stop: false }
            } else {
                let batch = buffer.take_batch();
                ManagerStep { flush: Some(batch), reset_timer: true, stop: false }
            }
        },
        BufferCommand::Shutdown => {
            if buffer.is_empty() {
                ManagerStep { flush: None, reset_timer: false, stop: true }
            } else {
                let batch = buffer.take_batch();
                ManagerStep { flush: Some(batch), reset_timer: false, stop: true }
            }
        },
    }
}

/// Arbitrate one periodic timer tick: flush exactly when something is
/// pending. Flushing an empty buffer would invoke the writer for nothing,
/// so it does not happen.
pub fn handle_timer(buffer: &mut EventBuffer) -> (step: ManagerStep)
    ensures
        final(buffer).spec_max() == old(buffer).spec_max(),
        !step.reset_timer,
        !step.stop,
        old(buffer)@.len() == 0 ==> step.flush is None && final(buffer)@ == old(buffer)@,
        old(buffer)@.len() > 0 ==> (step.flush matches Some(b) && view_events(b@) == old(buffer)@
            && final(buffer)@ == Seq::<EventView>::empty()),
{
    if buffer.is_empty() {
        ManagerStep { flush: None, reset_timer: false, stop: false }
    } else {
        let batch = buffer.take_batch();
        ManagerStep { flush: Some(batch), reset_timer: false, stop: false }
    }
}

/// Record the writer's verdict on a flushed batch: on success the batch is
/// done with; on failure it is restored ahead of anything admitted since,
/// to be retried on the next trigger.
pub fn handle_write_result(buffer: &mut EventBuffer, batch: Vec<Event>, ok: bool)
    ensures
        final(buffer).spec_max() == old(buffer).spec_max(),
        ok ==> final(buffer)@ == old(buffer)@,
        !ok ==> final(buffer)@ == view_events(batch@) + old(buffer)@,
{
    if !ok {
        buffer.restore_batch(batch);
    }
}

// ------------------------------------------------------------------
// Laws of the flush arbitration
// ------------------------------------------------------------------

/// The number of buffered events after the first `i` of a run of pushes
/// into a manager that starts empty, flushing (and so emptying the buffer)
/// exactly on the eligible pushes.
pub open spec fn spec_run_len(levels: Seq<Level>, max: nat, i: int) -> nat
    decreases i,
{
    if i <= 0 {
        0
    } else {
        let prev = spec_run_len(levels, max, i - 1);
        if spec_push_eligible(prev, max, levels[i - 1]) {
            0
        } else {
            prev + 1
        }
    }
}

/// Whether the `i`-th push of the run (counting from zero) flushes.
pub open spec fn spec_run_flushes(levels: Seq<Level>, max: nat, i: int) -> bool {
    spec_push_eligible(spec_run_len(levels, max, i), max, levels[i])
}

/// For a run of non-urgent pushes into a manager that starts empty, no
/// push flushes until the count reaches the threshold: the buffer grows by
/// one per push, and exactly every `max`-th push flushes — the first flush
/// happens on push number `max` and on none before it.
pub proof fn lemma_non_urgent_flush_cadence(levels: Seq<Level>, max: nat, i: int)
    requires
        max >= 1,
        0 <= i < levels.len(),
        forall|j: int| 0 <= j < levels.len() ==> !spec_is_urgent(#[trigger] levels[j]),
    ensures
        spec_run_len(levels, max, i) == i % (max as int),
        spec_run_flushes(levels, max, i) <==> ((i + 1) % (max as int) == 0),
    decreases i,
{
    if i == 0 {
        assert(spec_run_len(levels, max, 0) == 0);
    } else {
        lemma_non_urgent_flush_cadence(levels, max, i - 1);
        assert(spec_run_len(levels, max, i - 1) == (i - 1) % (max as int));
        if spec_push_eligible((((i - 1) % (max as int)) as nat), max, levels[i - 1]) {
            assert((i - 1) % (max as int) + 1 >= max);
            assert(i % (max as int) == 0) by (nonlinear_arith)
                requires
                    max >= 1,
                    i >= 1,
                    (i - 1) % (max as int) == max - 1,
            ;
        } else {
            assert(i % (max as int) == (i - 1) % (max as int) + 1) by (nonlinear_arith)
                requires
                    max >= 1,
                    i >= 1,
                    0 <= (i - 1) % (max as int) < max - 1,
            ;
        }
    }
    assert(((i + 1) % (max as int) == 0) <==> (i % (max as int) == max - 1)) by (nonlinear_arith)
        requires
            max >= 1,
            i >= 0,
    ;
    assert(0 <= i % (max as int) < max) by (nonlinear_arith)
        requires
            max >= 1,
            i >= 0,
    ;
}

/// An urgent event is flush-eligible on any buffer, an empty one included:
/// urgency alone decides, never the count.
pub proof fn lemma_urgent_always_eligible(len_before: nat, max: nat, level: Level)
    requires
        spec_is_urgent(level),
    ensures
        spec_push_eligible(len_before, max, level),
{
}

/// One step of the manager's persistence history: what is durably written
/// and what is still buffered, as the loop admits events and the writer
/// succeeds or fails.
pub enum ManagerEvent {
    /// An event was admitted into the buffer.
    Admit(EventView),
    /// A flush was attempted and the writer succeeded: the whole pending
    /// batch became durable.
    FlushSuccess,
    /// A flush was attempted and the writer failed: the batch went back
    /// into the buffer, ahead of anything admitted meanwhile.
    FlushFailure,
}

/// Apply one history step to (persisted, buffered).
pub open spec fn spec_apply(st: (Seq<EventView>, Seq<EventView>), op: ManagerEvent) -> (
    Seq<EventView>,
    Seq<EventView>,
) {
    match op {
        ManagerEvent::Admit(e) => (st.0, st.1.push(e)),
        ManagerEvent::FlushSuccess => (st.0 + st.1, Seq::empty()),
        ManagerEvent::FlushFailure => st,
    }
}

/// Run a history from the start of the daemon: nothing persisted, nothing
/// buffered.
pub open spec fn spec_run_history(ops: Seq<ManagerEvent>) -> (Seq<EventView>, Seq<EventView>)
    decreases ops.len(),
{
    if ops.len() == 0 {
        (Seq::empty(), Seq::empty())
    } else {
        spec_apply(spec_run_history(ops.drop_last()), ops.last())
    }
}

/// The events a history admits, in order.
pub open spec fn spec_admitted_of(ops: Seq<ManagerEvent>) -> Seq<EventView>
    decreases ops.len(),
{
    if ops.len() == 0 {
        Seq::empty()
    } else {
        match ops.last() {
            ManagerEvent::Admit(e) => spec_admitted_of(ops.drop_last()).push(e),
            _ => spec_admitted_of(ops.drop_last()),
        }
    }
}

/// No admitted event is ever silently lost: after any history of admits,
/// successful flushes and failed flushes, what is persisted followed by
/// what is still buffered is exactly the admitted sequence, in order. In
/// particular a failed flush leaves the buffer holding at least the failed
/// batch, and the next successful flush carries every event not yet
/// persisted.
pub proof fn lemma_no_silent_loss(ops: Seq<ManagerEvent>)
    ensures
        spec_run_history(ops).0 + spec_run_history(ops).1 == spec_admitted_of(ops),
    decreases ops.len(),
{
    if ops.len() == 0 {
        assert(spec_run_history(ops).0 + spec_run_history(ops).1 =~= spec_admitted_of(ops));
    } else {
        lemma_no_silent_loss(ops.drop_last());
        let prev = spec_run_history(ops.drop_last());
        match ops.last() {
            ManagerEvent::Admit(e) => {
                assert(prev.0 + prev.1.push(e) =~= (prev.0 + prev.1).push(e));
            },
            ManagerEvent::FlushSuccess => {
                assert((prev.0 + prev.1) + Seq::<EventView>::empty() =~= prev.0 + prev.1);
            },
            ManagerEvent::FlushFailure => {},
        }
    }
}

} // verus!
