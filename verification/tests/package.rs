use rover_control::package::{finish_read, needs_fifo_read, JoystickCoords, PackageFrame, RadioPackage, ReadError};
use rover_control::radio::RxStatus;

#[test]
fn pending_packet_is_returned() {
    let p = RadioPackage::Coords(JoystickCoords { x: -3, y: 99 });
    assert_eq!(finish_read(RxStatus::Pending, Some(PackageFrame::Package(p))), Ok(Some(p)));
}

#[test]
fn malformed_packet_reads_as_nothing() {
    assert_eq!(finish_read(RxStatus::Pending, Some(PackageFrame::Malformed)), Ok(None));
}

#[test]
fn empty_receiver_reads_as_nothing() {
    assert_eq!(finish_read(RxStatus::Empty, None), Ok(None));
}

#[test]
fn fifo_failure_is_an_error() {
    assert_eq!(finish_read(RxStatus::Pending, Some(PackageFrame::Unreadable)), Err(ReadError::Fifo));
}

#[test]
fn status_failure_is_an_error() {
    assert_eq!(finish_read(RxStatus::Failed, None), Err(ReadError::Status));
}

#[test]
fn fifo_is_read_only_when_pending() {
    assert!(needs_fifo_read(RxStatus::Pending));
    assert!(!needs_fifo_read(RxStatus::Empty));
    assert!(!needs_fifo_read(RxStatus::Failed));
}
