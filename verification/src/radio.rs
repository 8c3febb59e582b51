//! The command protocol of the rover's radio link and the receiving loop
//! that hands stick positions on to the drive.

use vstd::prelude::*;

verus! {

/// Radio frequency channel used by both ends of the link.
pub const RADIO_CHANNEL: u8 = 110;
/// Poll interval of the command protocol's radio loops, in milliseconds.
pub const RADIO_POLL_INTERVAL_MS: u64 = 20;
/// Pipe address used by both ends of the link.
pub const RADIO_ADDRESS: [u8; 5] = [0x7a, 0x6c, 0x6f, 0x34, 0x37];
/// Time allowed for the acknowledgement of a command, in milliseconds.
pub const COMMAND_ACK_TIMEOUT_MS: u64 = 75;
/// Pause between two acknowledgement queries for a command, in microseconds.
pub const COMMAND_RETRY_DELAY_US: u64 = 500;
/// Whether a command whose acknowledgement timed out is flushed from the FIFO.
pub const COMMAND_FLUSH_ON_TIMEOUT: bool = false;
/// Pause of the receiving loop between two polls, in milliseconds.
pub const READER_IDLE_MS: u64 = 10;

/// Stick position, each axis in `-100..=100`.
#[derive(Debug, Clone, Copy, PartialEq, Eq, Structural)]
pub struct JoystickCoords {
    pub x: i8,
    pub y: i8,
}

/// A command sent from the remote to the rover.
#[derive(Debug, Clone, Copy, PartialEq, Eq, Structural)]
pub enum RadioCommand {
    Coords(JoystickCoords),
    SetHeadlights(bool),
    SetCameraAngle(u8),
}

/// What polling the receiver's status told.
#[derive(Debug, Clone, Copy, PartialEq, Eq, Structural)]
pub enum RxStatus {
    /// A packet waits in the receive FIFO.
    Pending,
    /// Nothing was received.
    Empty,
    /// The status register could not be read.
    Failed,
}

/// What reading a packet from the receive FIFO gave.
#[derive(Debug, Clone, Copy, PartialEq, Eq, Structural)]
pub enum Payload {
    /// The FIFO could not be read.
    Unreadable,
    /// The bytes did not decode as a command.
    Malformed,
    /// A well-formed command.
    Command(RadioCommand),
}

/// The stick position that a received payload carries on to the drive.
pub open spec fn routed_coords(payload: Payload) -> Option<JoystickCoords> {
    match payload {
        Payload::Command(RadioCommand::Coords(c)) => Some(c),
        _ => None,
    }
}

/// Routes a received payload: a stick position goes on to the drive; the
/// other commands, and packets that failed to decode, are dropped.
pub fn route_packet(payload: Payload) -> (r: Option<JoystickCoords>)
    ensures
        r == routed_coords(payload),
{
    match payload {
        Payload::Command(RadioCommand::Coords(c)) => Some(c),
        _ => None,
    }
}

/// Where the receiving loop stands.
#[derive(Debug, Clone, Copy, PartialEq, Eq, Structural)]
pub enum ReaderPhase {
    Polling,
    Reading,
    Publishing(JoystickCoords),
    Clearing,
    Resting,
}

/// What the caller observed after performing the loop's action.
#[derive(Debug, Clone, Copy, PartialEq, Eq, Structural)]
pub enum ReaderEvent {
    Status(RxStatus),
    Read(Payload),
    /// An action without a result was carried out.
    Done,
}

/// What the receiving loop asks the caller to do.
#[derive(Debug, Clone, Copy, PartialEq, Eq, Structural)]
pub enum ReaderAction {
    PollStatus,
    ReadPayload,
    Publish(JoystickCoords),
    ClearInterrupts,
    /// Sleep this many milliseconds.
    Sleep(u64),
}

/// The phase that follows `phase` on `event`.
pub open spec fn reader_next(phase: ReaderPhase, event: ReaderEvent) -> ReaderPhase {
    match (phase, event) {
        (ReaderPhase::Polling, ReaderEvent::Status(status)) => if status == RxStatus::Pending {
            ReaderPhase::Reading
        } else {
            ReaderPhase::Resting
        },
        (ReaderPhase::Reading, ReaderEvent::Read(payload)) => match routed_coords(payload) {
            Some(c) => ReaderPhase::Publishing(c),
            None => ReaderPhase::Clearing,
        },
        (ReaderPhase::Publishing(_), ReaderEvent::Done) => ReaderPhase::Clearing,
        (ReaderPhase::Clearing, ReaderEvent::Done) => ReaderPhase::Resting,
        (ReaderPhase::Resting, ReaderEvent::Done) => ReaderPhase::Polling,
        _ => phase,
    }
}

/// The action that `phase` asks for.
pub open spec fn reader_action(phase: ReaderPhase) -> ReaderAction {
    match phase {
        ReaderPhase::Polling => ReaderAction::PollStatus,
        ReaderPhase::Reading => ReaderAction::ReadPayload,
        ReaderPhase::Publishing(c) => ReaderAction::Publish(c),
        ReaderPhase::Clearing => ReaderAction::ClearInterrupts,
        ReaderPhase::Resting => ReaderAction::Sleep(READER_IDLE_MS),
    }
}

/// The phase reached from `phase` after the events `events`, in order.
pub open spec fn reader_run(phase: ReaderPhase, events: Seq<ReaderEvent>) -> ReaderPhase
    decreases events.len(),
{
    if events.len() == 0 {
        phase
    } else {
        reader_next(reader_run(phase, events.drop_last()), events.last())
    }
}

/// The endless receiving loop of the rover: poll, read a pending packet,
/// publish a stick position, clear the interrupts, rest.
pub struct RadioReader {
    phase: ReaderPhase,
}

impl RadioReader {
    pub closed spec fn phase(&self) -> ReaderPhase {
        self.phase
    }

    /// A loop that starts by polling the receiver.
    pub fn new() -> (r: RadioReader)
        ensures
            r.phase() == ReaderPhase::Polling,
    {
        RadioReader { phase: ReaderPhase::Polling }
    }

    /// What the caller has to do now.
    pub fn action(&self) -> (a: ReaderAction)
        ensures
            a == reader_action(self.phase()),
    {
        match self.phase {
            ReaderPhase::Polling => ReaderAction::PollStatus,
            ReaderPhase::Reading => ReaderAction::ReadPayload,
            ReaderPhase::Publishing(c) => ReaderAction::Publish(c),
            ReaderPhase::Clearing => ReaderAction::ClearInterrupts,
            ReaderPhase::Resting => ReaderAction::Sleep(READER_IDLE_MS),
        }
    }

    /// Advances the loop by what the caller observed; an event that does not
    /// belong to the current phase leaves the loop as it is.
    pub fn step(&mut self, event: ReaderEvent) -> (a: ReaderAction)
        ensures
            final(self).phase() == reader_next(old(self).phase(), event),
            a == reader_action(final(self).phase()),
    {
        let next = match (self.phase, event) {
            (ReaderPhase::Polling, ReaderEvent::Status(status)) => match status {
                RxStatus::Pending => ReaderPhase::Reading,
                _ => ReaderPhase::Resting,
            },
            (ReaderPhase::Reading, ReaderEvent::Read(payload)) => match route_packet(payload) {
                Some(c) => ReaderPhase::Publishing(c),
                None => ReaderPhase::Clearing,
            },
            (ReaderPhase::Publishing(_), ReaderEvent::Done) => ReaderPhase::Clearing,
            (ReaderPhase::Clearing, ReaderEvent::Done) => ReaderPhase::Resting,
            (ReaderPhase::Resting, ReaderEvent::Done) => ReaderPhase::Polling,
            _ => self.phase,
        };
        self.phase = next;
        self.action()
    }
}

/// After a packet has been read from the FIFO, the interrupts are cleared
/// before the receiver is polled again: every run from the reading phase
/// that arrives at resting or polling passes through clearing.
pub proof fn lemma_clear_after_read(events: Seq<ReaderEvent>)
    ensures
        (reader_run(ReaderPhase::Reading, events) == ReaderPhase::Resting || reader_run(
            ReaderPhase::Reading,
            events,
        ) == ReaderPhase::Polling) ==> exists|m: int|
            0 <= m <= events.len() && #[trigger] reader_run(ReaderPhase::Reading, events.take(m))
                == ReaderPhase::Clearing,
    decreases events.len(),
{
    if events.len() > 0 {
        let prev = events.drop_last();
        assert(events.take(events.len() - 1) =~= prev);
        lemma_clear_after_read(prev);
        let p = reader_run(ReaderPhase::Reading, prev);
        if p == ReaderPhase::Resting || p == ReaderPhase::Polling {
            if reader_run(ReaderPhase::Reading, events) == ReaderPhase::Resting || reader_run(
                ReaderPhase::Reading,
                events,
            ) == ReaderPhase::Polling {
                let m = choose|m: int|
                    0 <= m <= prev.len() && #[trigger] reader_run(ReaderPhase::Reading, prev.take(m))
                        == ReaderPhase::Clearing;
                assert(events.take(m) =~= prev.take(m));
                assert(reader_run(ReaderPhase::Reading, events.take(m)) == ReaderPhase::Clearing);
            }
        } else if p == ReaderPhase::Clearing {
            assert(reader_run(ReaderPhase::Reading, events.take(events.len() - 1))
                == ReaderPhase::Clearing);
        }
    }
}

/// A stick position is published exactly when the payload read decodes as
/// one, and the loop then clears the interrupts.
pub proof fn lemma_publish_then_clear(payload: Payload)
    ensures
        reader_next(ReaderPhase::Reading, ReaderEvent::Read(payload)) == (match routed_coords(payload) {
            Some(c) => ReaderPhase::Publishing(c),
            None => ReaderPhase::Clearing,
        }),
        forall|c: JoystickCoords|
            #[trigger] reader_next(ReaderPhase::Publishing(c), ReaderEvent::Done) == ReaderPhase::Clearing,
{
}

/// Only a stick position is carried on, and it is carried on unchanged; the
/// receiver's FIFO is read exactly when polling found a packet pending.
pub proof fn lemma_routing_and_polling(payload: Payload, status: RxStatus)
    ensures
        (routed_coords(payload) is Some) <==> (payload matches Payload::Command(RadioCommand::Coords(_))),
        payload matches Payload::Command(RadioCommand::Coords(c)) ==> routed_coords(payload) == Some(c),
        (reader_next(ReaderPhase::Polling, ReaderEvent::Status(status)) == ReaderPhase::Reading) <==> status
            == RxStatus::Pending,
{
}

} // verus!
