//! The packet protocol used between the remote and the rover: stick
//! positions and commands, and how reading one from the receiver turns out.

use vstd::prelude::*;
use core::convert::Infallible;
use crate::radio::RxStatus;

verus! {

/// Pause between two rounds of the loops that send or receive packets, in
/// milliseconds: the remote's control loop and the rover's receiving task.
pub const PACKET_POLL_INTERVAL_MS: u64 = 10;
/// Time allowed for the acknowledgement of a packet, in milliseconds.
pub const PACKET_ACK_TIMEOUT_MS: u64 = 5;
/// Pause between two acknowledgement queries for a packet, in microseconds.
pub const PACKET_RETRY_DELAY_US: u64 = 0;
/// Whether a packet whose acknowledgement timed out is flushed from the FIFO.
pub const PACKET_FLUSH_ON_TIMEOUT: bool = true;
/// Size of the buffer a packet is encoded into.
pub const PACKET_BUFFER_LEN: usize = 16;

/// Stick position, each axis in `-100..=100`.
#[derive(Debug, Clone, Copy, PartialEq, Eq, Structural)]
pub struct JoystickCoords {
    pub x: i8,
    pub y: i8,
}

/// Commands for the rover's auxiliary hardware. None is defined yet, so no
/// value of this type can be made: it holds a value of the empty type.
#[derive(Debug, Clone, Copy, PartialEq, Eq)]
pub struct JoystickCommand {
    pub never: Infallible,
}

/// A packet sent from the remote to the rover.
#[derive(Debug, Clone, Copy, PartialEq, Eq)]
pub enum RadioPackage {
    Coords(JoystickCoords),
    Command(JoystickCommand),
}

/// What reading the receive FIFO gave.
#[derive(Debug, Clone, Copy, PartialEq, Eq)]
pub enum PackageFrame {
    /// The FIFO could not be read.
    Unreadable,
    /// The bytes did not decode as a packet.
    Malformed,
    /// A well-formed packet.
    Package(RadioPackage),
}

/// Why reading a packet failed.
#[derive(Debug, Clone, Copy, PartialEq, Eq, Structural)]
pub enum ReadError {
    /// Reading the packet from the receive FIFO failed.
    Fifo,
    /// Polling the receiver's status register failed.
    Status,
}

/// The outcome of reading the receiver: a packet, nothing (no packet waited,
/// or it did not decode), or the step that failed.
pub open spec fn read_outcome(status: RxStatus, frame: Option<PackageFrame>) -> Result<Option<RadioPackage>, ReadError> {
    match status {
        RxStatus::Pending => match frame {
            Some(PackageFrame::Package(p)) => Ok(Some(p)),
            Some(PackageFrame::Malformed) => Ok(None),
            _ => Err(ReadError::Fifo),
        },
        RxStatus::Empty => Ok(None),
        RxStatus::Failed => Err(ReadError::Status),
    }
}

/// Whether the receive FIFO has to be read after polling gave `status`.
pub fn needs_fifo_read(status: RxStatus) -> (r: bool)
    ensures
        r == (status == RxStatus::Pending),
{
    match status {
        RxStatus::Pending => true,
        _ => false,
    }
}

/// Concludes a read of the receiver from the status poll and, when a packet
/// was pending, what reading the FIFO gave.
pub fn finish_read(status: RxStatus, frame: Option<PackageFrame>) -> (r: Result<Option<RadioPackage>, ReadError>)
    requires
        frame is Some <==> status == RxStatus::Pending,
    ensures
        r == read_outcome(status, frame),
{
    match status {
        RxStatus::Pending => match frame {
            Some(PackageFrame::Package(p)) => Ok(Some(p)),
            Some(PackageFrame::Malformed) => Ok(None),
            _ => Err(ReadError::Fifo),
        },
        RxStatus::Empty => Ok(None),
        RxStatus::Failed => Err(ReadError::Status),
    }
}

/// A read gives a packet only when one was pending and decoded, and it fails
/// exactly when the status poll or the FIFO read failed.
pub proof fn lemma_read_outcome(status: RxStatus, frame: Option<PackageFrame>)
    requires
        frame is Some <==> status == RxStatus::Pending,
    ensures
        (read_outcome(status, frame) matches Ok(Some(p)) ==> status == RxStatus::Pending && frame
            == Some(PackageFrame::Package(p))),
        (read_outcome(status, frame) is Err) <==> (status == RxStatus::Failed || frame == Some(
            PackageFrame::Unreadable,
        )),
{
}

} // verus!
