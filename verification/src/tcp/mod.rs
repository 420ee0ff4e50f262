//! TCP: sequence arithmetic, connection state, recovery, lookup and admission.
use vstd::prelude::*;

pub mod accept;
pub mod ack_laws;
pub mod clock_laws;
pub mod close_laws;
pub mod close_wait;
pub mod congestion;
pub mod congestion_call_laws;
pub mod congestion_control;
pub mod congestion_laws;
pub mod connection;
pub mod connection_laws;
pub mod connection_model;
pub mod connection_options;
pub mod control_plane;
pub mod cookies;
pub mod cursor;
pub mod ecn;
pub mod errors;
pub mod established;
pub mod fin_wait2;
pub mod header;
pub mod input;
pub mod key_collector;
pub mod listen;
pub mod listener_pending;
pub mod listeners;
pub mod lookup;
pub mod options;
pub mod output;
pub mod policy;
pub mod rcv_process;
pub mod receive_laws;
pub mod recovery;
pub mod recovery_call_laws;
pub mod recovery_laws;
pub mod recovery_model;
pub mod reply;
pub mod reset;
pub mod retransmit_timeout;
pub mod route_opaque;
pub mod routes;
pub mod sack;
pub mod send_laws;
pub mod sequence;
pub mod service_laws;
pub mod session_queue;
pub mod timer_laws;
pub mod timers;
pub mod timestamps;
pub mod tuple;
pub mod types;
pub mod wire_laws;

pub use connection_model::TcpConnection;
pub use control_plane::{TcpInputControlPlane, TcpMain};
pub use errors::{TcpError, TcpNodeError, TcpOutputError, TcpResetError};
pub use established::TcpEstablishedNext;
pub use input::{TcpInputFlags, TcpInputTrace};
pub use listen::TcpListenNext;
pub use output::{
    TcpOutputNext, DEFAULT_TCP_OUTPUT_PAYLOAD_LEN, TCP_FLAG_ACK, TCP_FLAG_FIN, TCP_FLAG_PSH,
    TCP_FLAG_SYN,
};
pub use rcv_process::TcpRcvProcessNext;
pub use recovery::TcpRecoveryState;
pub use recovery_model::TcpRecoveryAck;
pub use reset::TcpResetNext;
pub use retransmit_timeout::TcpRetransmitTimeoutState;
pub use sequence::TcpSeq;
pub use session_queue::connect_tcp_session;
pub use timers::{
    TCP_TIMER_COUNT, TCP_TIMER_DELAYED_ACK, TCP_TIMER_KEEP_ALIVE, TCP_TIMER_PACING,
    TCP_TIMER_PERSIST, TCP_TIMER_RACK, TCP_TIMER_RETRANSMIT, TCP_TIMER_TIME_WAIT, TCP_TIMER_TLP,
};
pub use types::TcpState;

verus! {

/// Where the input stage sends a segment.
#[derive(Clone, Copy, Debug, PartialEq, Eq, Structural)]
pub enum TcpInputNext {
    Drop,
    Punt,
    Listen,
    RcvProcess,
    SynSent,
    Established,
    Reset,
}

} // verus!
