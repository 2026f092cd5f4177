use vstd::prelude::*;

use crate::batch::{BatchState, BatchView, Reply};
use crate::message::{InboundMessage, ReplyTarget};

verus! {

/// Period in seconds of the flush timer.
pub const QUIET_PERIOD_SECS: u64 = 2;

/// What the consumer loop observed: a dequeued message, or the timer firing.
#[derive(Debug, Clone)]
pub enum Event {
    Dequeued(InboundMessage),
    TimerElapsed,
}

/// What the consumer loop must do next.
#[derive(Debug, Clone)]
pub enum Action {
    /// Start an independent fetch for this message.
    SpawnFetch(InboundMessage),
    /// Send this reply; the batch has already been reset.
    SendReply(Reply),
    /// Nothing to do; wait for the next event.
    Idle,
}

/// One decision of the consumer loop. A dequeued message starts a fetch and leaves the
/// batch alone; a timer tick flushes the batch when it holds a target, and is a no-op
/// otherwise.
pub fn step(batch: &mut BatchState, event: Event) -> (r: Action)
    requires
        old(batch)@.wf(),
    ensures
        final(batch)@.wf(),
        match event {
            Event::Dequeued(m) => final(batch)@ == old(batch)@ && r == Action::SpawnFetch(m),
            Event::TimerElapsed => final(batch)@ == BatchView::empty() && match old(
                batch,
            )@.flushed() {
                Some((t, lines)) => match r {
                    Action::SendReply(rep) => rep.target == t && rep.lines@ == lines,
                    _ => false,
                },
                None => r == Action::Idle,
            },
        },
{
    match event {
        Event::Dequeued(m) => Action::SpawnFetch(m),
        Event::TimerElapsed => match batch.flush() {
            Some(rep) => Action::SendReply(rep),
            None => Action::Idle,
        },
    }
}

/// The end of one fetch task for the message addressed by `target`: a status line is
/// appended to the batch; a failure contributes nothing.
pub fn complete_fetch(batch: &mut BatchState, target: ReplyTarget, outcome: Option<String>)
    requires
        old(batch)@.wf(),
    ensures
        final(batch)@.wf(),
        match outcome {
            Some(line) => final(batch)@ == old(batch)@.append(target, line),
            None => final(batch)@ == old(batch)@,
        },
{
    match outcome {
        Some(line) => batch.append(target, line),
        None => {},
    }
}

} // verus!
