//! One transmission attempt over the nRF24 link, as a state machine: the
//! caller performs the action of the current phase and reports what came of
//! it as an event.

use vstd::prelude::*;

verus! {

/// Where a transmission attempt stands.
#[derive(Debug, Clone, Copy, PartialEq, Eq, Structural)]
pub enum SendPhase {
    /// Asking whether the transmit FIFO has room.
    CheckingReady,
    /// Handing the encoded packet to the radio.
    Transmitting,
    /// Asking the radio whether the packet went out.
    AwaitingAck,
    /// Pausing before asking again.
    RetryWaiting,
    /// Flushing the transmit FIFO and clearing interrupts after a timeout.
    CleaningUp,
    /// The attempt is over; `true` when the receiver acknowledged the packet.
    Done(bool),
}

/// What the caller observed after performing an action.
#[derive(Debug, Clone, Copy, PartialEq, Eq, Structural)]
pub enum SendEvent {
    /// Whether the transmit FIFO has room.
    Ready(bool),
    /// Whether the radio accepted the packet.
    Transmitted(bool),
    /// `Some(ack)` when the radio finished sending (`ack` tells whether the
    /// receiver acknowledged), `None` when it was still busy or the query failed.
    AckPolled(Option<bool>),
    /// The pause before the next query is over.
    RetryElapsed,
    /// The time allowed for the acknowledgement ran out.
    AckTimeout,
    /// Flushing and clearing are done.
    CleanupDone,
}

/// What the caller has to do next.
#[derive(Debug, Clone, Copy, PartialEq, Eq, Structural)]
pub enum SendAction {
    QueryReady,
    Transmit,
    PollAck,
    /// Sleep this many microseconds.
    Wait(u64),
    FlushAndClear,
    /// Report this outcome; nothing is left to do.
    Finish(bool),
}

/// The phase that follows `phase` on `event`.
pub open spec fn send_next(phase: SendPhase, event: SendEvent, flush_on_timeout: bool) -> SendPhase {
    match (phase, event) {
        (SendPhase::CheckingReady, SendEvent::Ready(ready)) => if ready {
            SendPhase::Transmitting
        } else {
            SendPhase::Done(false)
        },
        (SendPhase::Transmitting, SendEvent::Transmitted(ok)) => if ok {
            SendPhase::AwaitingAck
        } else {
            SendPhase::Done(false)
        },
        (SendPhase::AwaitingAck, SendEvent::AckPolled(res)) => match res {
            Some(ack) => SendPhase::Done(ack),
            None => SendPhase::RetryWaiting,
        },
        (SendPhase::RetryWaiting, SendEvent::RetryElapsed) => SendPhase::AwaitingAck,
        (SendPhase::AwaitingAck, SendEvent::AckTimeout) => timeout_phase(flush_on_timeout),
        (SendPhase::RetryWaiting, SendEvent::AckTimeout) => timeout_phase(flush_on_timeout),
        (SendPhase::CleaningUp, SendEvent::CleanupDone) => SendPhase::Done(false),
        _ => phase,
    }
}

/// The phase entered when the acknowledgement does not come in time.
pub open spec fn timeout_phase(flush_on_timeout: bool) -> SendPhase {
    if flush_on_timeout {
        SendPhase::CleaningUp
    } else {
        SendPhase::Done(false)
    }
}

/// The action that the phase `phase` asks for.
pub open spec fn send_action(phase: SendPhase, retry_delay_us: u64) -> SendAction {
    match phase {
        SendPhase::CheckingReady => SendAction::QueryReady,
        SendPhase::Transmitting => SendAction::Transmit,
        SendPhase::AwaitingAck => SendAction::PollAck,
        SendPhase::RetryWaiting => SendAction::Wait(retry_delay_us),
        SendPhase::CleaningUp => SendAction::FlushAndClear,
        SendPhase::Done(ok) => SendAction::Finish(ok),
    }
}

/// The phase reached from `phase` after the events `events`, in order.
pub open spec fn send_run(phase: SendPhase, events: Seq<SendEvent>, flush_on_timeout: bool) -> SendPhase
    decreases events.len(),
{
    if events.len() == 0 {
        phase
    } else {
        send_next(send_run(phase, events.drop_last(), flush_on_timeout), events.last(), flush_on_timeout)
    }
}

/// One attempt to send a packet and learn whether it was acknowledged.
pub struct SendAttempt {
    phase: SendPhase,
    flush_on_timeout: bool,
    retry_delay_us: u64,
}

impl SendAttempt {
    pub closed spec fn phase(&self) -> SendPhase {
        self.phase
    }

    /// Whether a timeout makes the attempt flush the FIFO before it ends.
    pub closed spec fn flushes_on_timeout(&self) -> bool {
        self.flush_on_timeout
    }

    /// The pause between two acknowledgement queries, in microseconds.
    pub closed spec fn retry_delay(&self) -> u64 {
        self.retry_delay_us
    }

    /// A fresh attempt; it starts by asking whether the radio can take a packet.
    pub fn new(flush_on_timeout: bool, retry_delay_us: u64) -> (a: SendAttempt)
        ensures
            a.phase() == SendPhase::CheckingReady,
            a.flushes_on_timeout() == flush_on_timeout,
            a.retry_delay() == retry_delay_us,
    {
        SendAttempt { phase: SendPhase::CheckingReady, flush_on_timeout, retry_delay_us }
    }

    /// Where the attempt stands.
    pub fn current_phase(&self) -> (p: SendPhase)
        ensures
            p == self.phase(),
    {
        self.phase
    }

    /// What the caller has to do now.
    pub fn action(&self) -> (a: SendAction)
        ensures
            a == send_action(self.phase(), self.retry_delay()),
    {
        match self.phase {
            SendPhase::CheckingReady => SendAction::QueryReady,
            SendPhase::Transmitting => SendAction::Transmit,
            SendPhase::AwaitingAck => SendAction::PollAck,
            SendPhase::RetryWaiting => SendAction::Wait(self.retry_delay_us),
            SendPhase::CleaningUp => SendAction::FlushAndClear,
            SendPhase::Done(ok) => SendAction::Finish(ok),
        }
    }

    /// Advances the attempt by what the caller observed; an event that does
    /// not belong to the current phase leaves the attempt as it is.
    pub fn step(&mut self, event: SendEvent) -> (a: SendAction)
        ensures
            final(self).phase() == send_next(old(self).phase(), event, old(self).flushes_on_timeout()),
            event matches SendEvent::AckPolled(Some(ack)) ==> (old(self).phase() == SendPhase::AwaitingAck
                ==> final(self).phase() == SendPhase::Done(ack)),
            final(self).flushes_on_timeout() == old(self).flushes_on_timeout(),
            final(self).retry_delay() == old(self).retry_delay(),
            a == send_action(final(self).phase(), final(self).retry_delay()),
    {
        let next = match (self.phase, event) {
            (SendPhase::CheckingReady, SendEvent::Ready(ready)) => if ready {
                SendPhase::Transmitting
            } else {
                SendPhase::Done(false)
            },
            (SendPhase::Transmitting, SendEvent::Transmitted(ok)) => if ok {
                SendPhase::AwaitingAck
            } else {
                SendPhase::Done(false)
            },
            (SendPhase::AwaitingAck, SendEvent::AckPolled(res)) => match res {
                Some(ack) => SendPhase::Done(ack),
                None => SendPhase::RetryWaiting,
            },
            (SendPhase::RetryWaiting, SendEvent::RetryElapsed) => SendPhase::AwaitingAck,
            (SendPhase::AwaitingAck, SendEvent::AckTimeout) | (
                SendPhase::RetryWaiting,
                SendEvent::AckTimeout,
            ) => if self.flush_on_timeout {
                SendPhase::CleaningUp
            } else {
                SendPhase::Done(false)
            },
            (SendPhase::CleaningUp, SendEvent::CleanupDone) => SendPhase::Done(false),
            _ => self.phase,
        };
        self.phase = next;
        self.action()
    }
}

/// Once an attempt is over, no event changes its outcome.
pub proof fn lemma_done_is_final(ok: bool, events: Seq<SendEvent>, flush_on_timeout: bool)
    ensures
        send_run(SendPhase::Done(ok), events, flush_on_timeout) == SendPhase::Done(ok),
    decreases events.len(),
{
    if events.len() > 0 {
        lemma_done_is_final(ok, events.drop_last(), flush_on_timeout);
    }
}

/// What the events `events` must hold for an attempt that started by asking
/// whether the radio is ready to stand in `phase`.
pub open spec fn send_history_supports(phase: SendPhase, events: Seq<SendEvent>) -> bool {
    &&& phase == SendPhase::Transmitting ==> exists|i: int|
        0 <= i < events.len() && #[trigger] events[i] == SendEvent::Ready(true)
    &&& (phase == SendPhase::AwaitingAck || phase == SendPhase::RetryWaiting || phase
        == SendPhase::CleaningUp) ==> transmitted_after_ready(events)
    &&& phase == SendPhase::Done(true) ==> exists|i: int, j: int, k: int|
        0 <= i < j < k < events.len() && #[trigger] events[i] == SendEvent::Ready(true)
            && #[trigger] events[j] == SendEvent::Transmitted(true) && #[trigger] events[k]
            == SendEvent::AckPolled(Some(true))
}

/// The radio reported room for a packet and then accepted it.
pub open spec fn transmitted_after_ready(events: Seq<SendEvent>) -> bool {
    exists|i: int, j: int|
        0 <= i < j < events.len() && #[trigger] events[i] == SendEvent::Ready(true)
            && #[trigger] events[j] == SendEvent::Transmitted(true)
}

/// An attempt hands the packet to the radio only after the radio reported
/// room for it, and it ends in success only when, after that, the radio
/// accepted the packet and then reported the receiver's acknowledgement.
pub proof fn lemma_success_needs_ack(events: Seq<SendEvent>, flush_on_timeout: bool)
    ensures
        send_history_supports(send_run(SendPhase::CheckingReady, events, flush_on_timeout), events),
    decreases events.len(),
{
    if events.len() > 0 {
        let prev = events.drop_last();
        lemma_success_needs_ack(prev, flush_on_timeout);
        let p = send_run(SendPhase::CheckingReady, prev, flush_on_timeout);
        let e = events.last();
        let n = prev.len() as int;
        assert(events[n] == e);
        assert forall|i: int| 0 <= i < prev.len() implies events[i] == prev[i] by {}
        let q = send_next(p, e, flush_on_timeout);
        if q == SendPhase::Transmitting {
            if p == SendPhase::Transmitting {
                let i = choose|i: int| 0 <= i < prev.len() && #[trigger] prev[i] == SendEvent::Ready(true);
                assert(events[i] == SendEvent::Ready(true));
            } else {
                assert(events[n] == SendEvent::Ready(true));
            }
        }
        if q == SendPhase::AwaitingAck || q == SendPhase::RetryWaiting || q == SendPhase::CleaningUp {
            if p == SendPhase::Transmitting {
                let i = choose|i: int| 0 <= i < prev.len() && #[trigger] prev[i] == SendEvent::Ready(true);
                assert(events[i] == SendEvent::Ready(true));
                assert(events[n] == SendEvent::Transmitted(true));
            } else {
                let (i, j) = choose|i: int, j: int|
                    0 <= i < j < prev.len() && #[trigger] prev[i] == SendEvent::Ready(true)
                        && #[trigger] prev[j] == SendEvent::Transmitted(true);
                assert(events[i] == SendEvent::Ready(true));
                assert(events[j] == SendEvent::Transmitted(true));
            }
        }
        if q == SendPhase::Done(true) {
            if p == SendPhase::Done(true) {
                let (i, j, k) = choose|i: int, j: int, k: int|
                    0 <= i < j < k < prev.len() && #[trigger] prev[i] == SendEvent::Ready(true)
                        && #[trigger] prev[j] == SendEvent::Transmitted(true) && #[trigger] prev[k]
                        == SendEvent::AckPolled(Some(true));
                assert(events[i] == SendEvent::Ready(true));
                assert(events[j] == SendEvent::Transmitted(true));
                assert(events[k] == SendEvent::AckPolled(Some(true)));
            } else {
                assert(p == SendPhase::AwaitingAck);
                let (i, j) = choose|i: int, j: int|
                    0 <= i < j < prev.len() && #[trigger] prev[i] == SendEvent::Ready(true)
                        && #[trigger] prev[j] == SendEvent::Transmitted(true);
                assert(events[i] == SendEvent::Ready(true));
                assert(events[j] == SendEvent::Transmitted(true));
                assert(events[n] == SendEvent::AckPolled(Some(true)));
            }
        }
    }
}

/// When the acknowledgement does not come in time the attempt fails: at once,
/// or, when it flushes on timeout, as soon as the flush is done.
pub proof fn lemma_timeout_fails(flush_on_timeout: bool)
    ensures
        send_next(SendPhase::AwaitingAck, SendEvent::AckTimeout, flush_on_timeout) == timeout_phase(flush_on_timeout),
        send_next(SendPhase::RetryWaiting, SendEvent::AckTimeout, flush_on_timeout) == timeout_phase(flush_on_timeout),
        send_next(timeout_phase(flush_on_timeout), SendEvent::CleanupDone, flush_on_timeout) == SendPhase::Done(false),
        flush_on_timeout ==> send_action(timeout_phase(flush_on_timeout), 0) == SendAction::FlushAndClear,
{
}

/// The phases of an attempt after the radio accepted the packet.
pub open spec fn after_transmission(phase: SendPhase) -> bool {
    match phase {
        SendPhase::AwaitingAck | SendPhase::RetryWaiting | SendPhase::CleaningUp | SendPhase::Done(_) => true,
        _ => false,
    }
}

/// An attempt hands its packet to the radio at most once: once the radio
/// accepted it, no event leads back to checking readiness or transmitting.
pub proof fn lemma_single_transmission(phase: SendPhase, events: Seq<SendEvent>, flush_on_timeout: bool)
    requires
        after_transmission(phase),
    ensures
        after_transmission(send_run(phase, events, flush_on_timeout)),
    decreases events.len(),
{
    if events.len() > 0 {
        lemma_single_transmission(phase, events.drop_last(), flush_on_timeout);
    }
}

/// The acknowledgement that the radio reports is the outcome of the attempt,
/// whatever the timeout policy: after the radio reported room and accepted
/// the packet, a poll that reports `ack` (at once, or after a busy poll and a
/// pause) ends the attempt with `ack`.
pub proof fn lemma_polled_ack_is_outcome(flush_on_timeout: bool, ack: bool)
    ensures
        send_run(
            SendPhase::CheckingReady,
            seq![SendEvent::Ready(true), SendEvent::Transmitted(true), SendEvent::AckPolled(Some(ack))],
            flush_on_timeout,
        ) == SendPhase::Done(ack),
        send_run(
            SendPhase::CheckingReady,
            seq![
                SendEvent::Ready(true),
                SendEvent::Transmitted(true),
                SendEvent::AckPolled(None),
                SendEvent::RetryElapsed,
                SendEvent::AckPolled(Some(ack)),
            ],
            flush_on_timeout,
        ) == SendPhase::Done(ack),
{
    let e1 = seq![SendEvent::Ready(true)];
    let e2 = seq![SendEvent::Ready(true), SendEvent::Transmitted(true)];
    let e3 = seq![SendEvent::Ready(true), SendEvent::Transmitted(true), SendEvent::AckPolled(Some(ack))];
    let f3 = seq![SendEvent::Ready(true), SendEvent::Transmitted(true), SendEvent::AckPolled(None)];
    let f4 = seq![
        SendEvent::Ready(true),
        SendEvent::Transmitted(true),
        SendEvent::AckPolled(None),
        SendEvent::RetryElapsed,
    ];
    let f5 = seq![
        SendEvent::Ready(true),
        SendEvent::Transmitted(true),
        SendEvent::AckPolled(None),
        SendEvent::RetryElapsed,
        SendEvent::AckPolled(Some(ack)),
    ];
    assert(e1.drop_last() =~= Seq::<SendEvent>::empty());
    assert(e2.drop_last() =~= e1);
    assert(e3.drop_last() =~= e2);
    assert(f3.drop_last() =~= e2);
    assert(f4.drop_last() =~= f3);
    assert(f5.drop_last() =~= f4);
    assert(send_run(SendPhase::CheckingReady, Seq::<SendEvent>::empty(), flush_on_timeout) == SendPhase::CheckingReady);
    assert(send_run(SendPhase::CheckingReady, e1, flush_on_timeout) == SendPhase::Transmitting);
    assert(send_run(SendPhase::CheckingReady, e2, flush_on_timeout) == SendPhase::AwaitingAck);
    assert(send_run(SendPhase::CheckingReady, e3, flush_on_timeout) == SendPhase::Done(ack));
    assert(send_run(SendPhase::CheckingReady, f3, flush_on_timeout) == SendPhase::RetryWaiting);
    assert(send_run(SendPhase::CheckingReady, f4, flush_on_timeout) == SendPhase::AwaitingAck);
}

} // verus!
