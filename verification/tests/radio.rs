use rover_control::radio::{
    route_packet, JoystickCoords, Payload, RadioCommand, RadioReader, ReaderAction, ReaderEvent, RxStatus,
    READER_IDLE_MS, RADIO_ADDRESS, RADIO_CHANNEL,
};

#[test]
fn link_settings() {
    assert_eq!(RADIO_CHANNEL, 110);
    assert_eq!(&RADIO_ADDRESS, b"zlo47");
    assert_eq!(READER_IDLE_MS, 10);
}

#[test]
fn coords_are_routed() {
    let c = JoystickCoords { x: 12, y: -40 };
    assert_eq!(route_packet(Payload::Command(RadioCommand::Coords(c))), Some(c));
}

#[test]
fn other_payloads_are_dropped() {
    assert_eq!(route_packet(Payload::Command(RadioCommand::SetHeadlights(true))), None);
    assert_eq!(route_packet(Payload::Command(RadioCommand::SetCameraAngle(90))), None);
    assert_eq!(route_packet(Payload::Malformed), None);
    assert_eq!(route_packet(Payload::Unreadable), None);
}

#[test]
fn reader_publishes_then_clears() {
    let c = JoystickCoords { x: 1, y: 2 };
    let mut r = RadioReader::new();
    assert_eq!(r.action(), ReaderAction::PollStatus);
    assert_eq!(r.step(ReaderEvent::Status(RxStatus::Pending)), ReaderAction::ReadPayload);
    assert_eq!(r.step(ReaderEvent::Read(Payload::Command(RadioCommand::Coords(c)))), ReaderAction::Publish(c));
    assert_eq!(r.step(ReaderEvent::Done), ReaderAction::ClearInterrupts);
    assert_eq!(r.step(ReaderEvent::Done), ReaderAction::Sleep(10));
    assert_eq!(r.step(ReaderEvent::Done), ReaderAction::PollStatus);
}

#[test]
fn reader_clears_after_failed_read() {
    let mut r = RadioReader::new();
    r.step(ReaderEvent::Status(RxStatus::Pending));
    assert_eq!(r.step(ReaderEvent::Read(Payload::Unreadable)), ReaderAction::ClearInterrupts);
    let mut r = RadioReader::new();
    r.step(ReaderEvent::Status(RxStatus::Pending));
    assert_eq!(r.step(ReaderEvent::Read(Payload::Command(RadioCommand::SetHeadlights(false)))), ReaderAction::ClearInterrupts);
}

#[test]
fn reader_rests_when_idle_or_failed() {
    let mut r = RadioReader::new();
    assert_eq!(r.step(ReaderEvent::Status(RxStatus::Empty)), ReaderAction::Sleep(10));
    let mut r = RadioReader::new();
    assert_eq!(r.step(ReaderEvent::Status(RxStatus::Failed)), ReaderAction::Sleep(10));
    assert_eq!(r.step(ReaderEvent::Done), ReaderAction::PollStatus);
}

#[test]
fn reader_ignores_unexpected_events() {
    let mut r = RadioReader::new();
    assert_eq!(r.step(ReaderEvent::Done), ReaderAction::PollStatus);
    assert_eq!(r.step(ReaderEvent::Read(Payload::Malformed)), ReaderAction::PollStatus);
}
