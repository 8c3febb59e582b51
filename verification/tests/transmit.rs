use rover_control::transmit::{SendAction, SendAttempt, SendEvent, SendPhase};

#[test]
fn acknowledged_send() {
    let mut a = SendAttempt::new(false, 500);
    assert_eq!(a.action(), SendAction::QueryReady);
    assert_eq!(a.step(SendEvent::Ready(true)), SendAction::Transmit);
    assert_eq!(a.step(SendEvent::Transmitted(true)), SendAction::PollAck);
    assert_eq!(a.step(SendEvent::AckPolled(None)), SendAction::Wait(500));
    assert_eq!(a.step(SendEvent::RetryElapsed), SendAction::PollAck);
    assert_eq!(a.step(SendEvent::AckPolled(Some(true))), SendAction::Finish(true));
    assert_eq!(a.current_phase(), SendPhase::Done(true));
}

#[test]
fn radio_not_ready_fails_without_transmitting() {
    let mut a = SendAttempt::new(false, 500);
    assert_eq!(a.step(SendEvent::Ready(false)), SendAction::Finish(false));
}

#[test]
fn refused_packet_fails() {
    let mut a = SendAttempt::new(true, 0);
    a.step(SendEvent::Ready(true));
    assert_eq!(a.step(SendEvent::Transmitted(false)), SendAction::Finish(false));
}

#[test]
fn lost_packet_reports_false() {
    let mut a = SendAttempt::new(false, 500);
    a.step(SendEvent::Ready(true));
    a.step(SendEvent::Transmitted(true));
    assert_eq!(a.step(SendEvent::AckPolled(Some(false))), SendAction::Finish(false));
}

#[test]
fn timeout_without_flush() {
    let mut a = SendAttempt::new(false, 500);
    a.step(SendEvent::Ready(true));
    a.step(SendEvent::Transmitted(true));
    a.step(SendEvent::AckPolled(None));
    assert_eq!(a.step(SendEvent::AckTimeout), SendAction::Finish(false));
}

#[test]
fn timeout_with_flush() {
    let mut a = SendAttempt::new(true, 0);
    a.step(SendEvent::Ready(true));
    a.step(SendEvent::Transmitted(true));
    assert_eq!(a.step(SendEvent::AckTimeout), SendAction::FlushAndClear);
    assert_eq!(a.current_phase(), SendPhase::CleaningUp);
    assert_eq!(a.step(SendEvent::CleanupDone), SendAction::Finish(false));
}

#[test]
fn finished_attempt_ignores_events() {
    let mut a = SendAttempt::new(false, 500);
    a.step(SendEvent::Ready(false));
    assert_eq!(a.step(SendEvent::AckPolled(Some(true))), SendAction::Finish(false));
    assert_eq!(a.step(SendEvent::Ready(true)), SendAction::Finish(false));
}

#[test]
fn out_of_order_events_are_ignored() {
    let mut a = SendAttempt::new(false, 500);
    assert_eq!(a.step(SendEvent::AckPolled(Some(true))), SendAction::QueryReady);
    assert_eq!(a.step(SendEvent::Transmitted(true)), SendAction::QueryReady);
    assert_eq!(a.current_phase(), SendPhase::CheckingReady);
}
