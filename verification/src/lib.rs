//! Control logic of a radio-driven tracked rover and its hand-held remote:
//! stick normalisation, differential drive mixing, the radio session state
//! machines and the remote's status screen text.

pub mod drive;
pub mod joystick;
pub mod package;
pub mod radio;
pub mod remote;
pub mod rover;
pub mod transmit;
