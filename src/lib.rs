//! Verified core of a gateway that drives USB webcams as VISCA-over-IP PTZ
//! cameras: the nibble codecs of the wire format, the per-camera control
//! state machine, the VISCA framer and dispatcher, the MJPEG repair filter,
//! the streaming fan-out bookkeeping and the supervisor's camera registry.
use vstd::prelude::*;

pub mod error;
pub mod nibbles;
pub mod control;
pub mod camera;
pub mod actor;
pub mod visca;
pub mod bitstream;
pub mod huffman;
pub mod std_tables;
pub mod jpeg;
pub mod fanout;
pub mod supervisor;
pub mod uvc_mock;
