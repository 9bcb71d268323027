//! Brother P-Touch printer protocol library.
//!
//! Everything that talking to a label printer takes except moving the bytes:
//! the commands and status reports, the lifecycle of a printer session over USB
//! and Bluetooth, and what a user interface asks of a printer in the background.
//!
//! The library never blocks. A session asks for one action at a time, a
//! transfer or a pause, and goes on when it is handed the reply. What an
//! operation does is therefore a function of the replies, stated in the
//! contracts of [`session`]; [`lifecycle`], [`hearing`] and [`pacing`] state what
//! follows for whole operations, whatever the replies are. [`wire`] reads back the
//! commands that a printer receives, and [`judging`] the bytes of its reports.

pub mod bluetooth;
pub mod device;
pub mod error;
pub mod frames;
pub mod hearing;
pub mod helper;
pub mod judging;
pub mod lifecycle;
pub mod link;
pub mod model;
pub mod opening;
pub mod p300bt;
pub mod pacing;
pub mod pairing;
pub mod protocol;
pub mod rfcomm;
pub mod sample;
pub mod session;
pub mod status;
pub mod tape;
pub mod text;
pub mod transport;
pub mod waiting;
pub mod wire;
pub mod worker;

pub use bluetooth::BluetoothDevice;
pub use device::{DeviceFlags, DeviceInfo};
pub use error::PtouchError;
pub use protocol::PrintQuality;
pub use status::PrinterStatus;
pub use transport::PtouchDevice;
