//! Congestion control: the controller interface, the BBR algorithm, and the window
//! of the Cubic algorithm.
pub mod bbr;
pub mod bbr_call_laws;
pub mod bbr_laws;
pub mod controller;
pub mod cubic;
pub mod node;
pub mod types;

pub use bbr::{BbrController, BbrMode};
pub use controller::CongestionController;
pub use cubic::{CubicStep, CubicWindow};
pub use node::{CongestionControlNext, CongestionControlNode};
pub use types::{AckedPacket, CongestionMetrics, LostPacket, PacketNumber, RttSample};
