//! Why segments and sessions are turned away.
use vstd::prelude::*;

verus! {

/// What went wrong with a segment or its connection.
#[derive(Clone, Copy, Debug, PartialEq, Eq, Structural)]
pub enum TcpError {
    Length,
    Dispatch,
    AckInvalid,
    ConnectionClosed,
    InvalidConnection,
    SegmentInvalid,
    NoListener,
    RcvWnd,
}

/// What a stage counts an error under.
#[derive(Clone, Copy, Debug, PartialEq, Eq, Structural)]
pub enum TcpNodeError {
    SessionMissing,
    EstablishedSessionMissing,
    EstablishedSessionRouteMissing,
    RcvProcessSessionMissing,
    RcvProcessSessionRouteMissing,
    SynSentSessionMissing,
    SynSentSessionRouteMissing,
    TimerUpdateFailed,
    TxOffsetOverflow,
    BadChecksum,
    ResetReceived,
    BadSegment,
    NoListener,
    ConnectionCreate,
    RackTimeout,
    TlpProbe,
    Retransmit,
    PacingLimited,
    PersistTimer,
    BbrCongestion,
    BadWindow,
}

impl TcpNodeError {
    /// The place of the error among its kind.
    pub open spec fn spec_code(self) -> u16 {
        match self {
            TcpNodeError::SessionMissing => 0,
            TcpNodeError::EstablishedSessionMissing => 1,
            TcpNodeError::EstablishedSessionRouteMissing => 2,
            TcpNodeError::RcvProcessSessionMissing => 3,
            TcpNodeError::RcvProcessSessionRouteMissing => 4,
            TcpNodeError::SynSentSessionMissing => 5,
            TcpNodeError::SynSentSessionRouteMissing => 6,
            TcpNodeError::TimerUpdateFailed => 7,
            TcpNodeError::TxOffsetOverflow => 8,
            TcpNodeError::BadChecksum => 9,
            TcpNodeError::ResetReceived => 10,
            TcpNodeError::BadSegment => 11,
            TcpNodeError::NoListener => 12,
            TcpNodeError::ConnectionCreate => 13,
            TcpNodeError::RackTimeout => 14,
            TcpNodeError::TlpProbe => 15,
            TcpNodeError::Retransmit => 16,
            TcpNodeError::PacingLimited => 17,
            TcpNodeError::PersistTimer => 18,
            TcpNodeError::BbrCongestion => 19,
            TcpNodeError::BadWindow => 20,
        }
    }

    pub fn code(self) -> (r: u16)
        ensures
            r == self.spec_code(),
    {
        match self {
            TcpNodeError::SessionMissing => 0,
            TcpNodeError::EstablishedSessionMissing => 1,
            TcpNodeError::EstablishedSessionRouteMissing => 2,
            TcpNodeError::RcvProcessSessionMissing => 3,
            TcpNodeError::RcvProcessSessionRouteMissing => 4,
            TcpNodeError::SynSentSessionMissing => 5,
            TcpNodeError::SynSentSessionRouteMissing => 6,
            TcpNodeError::TimerUpdateFailed => 7,
            TcpNodeError::TxOffsetOverflow => 8,
            TcpNodeError::BadChecksum => 9,
            TcpNodeError::ResetReceived => 10,
            TcpNodeError::BadSegment => 11,
            TcpNodeError::NoListener => 12,
            TcpNodeError::ConnectionCreate => 13,
            TcpNodeError::RackTimeout => 14,
            TcpNodeError::TlpProbe => 15,
            TcpNodeError::Retransmit => 16,
            TcpNodeError::PacingLimited => 17,
            TcpNodeError::PersistTimer => 18,
            TcpNodeError::BbrCongestion => 19,
            TcpNodeError::BadWindow => 20,
        }
    }

    /// The words that a person is shown.
    pub open spec fn spec_message(self) -> Seq<char> {
        match self {
            TcpNodeError::SessionMissing
            | TcpNodeError::EstablishedSessionMissing
            | TcpNodeError::EstablishedSessionRouteMissing
            | TcpNodeError::RcvProcessSessionMissing
            | TcpNodeError::RcvProcessSessionRouteMissing
            | TcpNodeError::SynSentSessionMissing
            | TcpNodeError::SynSentSessionRouteMissing => "invalid connection"@,
            TcpNodeError::TimerUpdateFailed | TcpNodeError::TxOffsetOverflow => "dispatch error"@,
            TcpNodeError::BadChecksum => "bad TCP checksum"@,
            TcpNodeError::ResetReceived => "RST received"@,
            TcpNodeError::BadSegment => "bad segment"@,
            TcpNodeError::NoListener => "no listener"@,
            TcpNodeError::ConnectionCreate => "connection create failed"@,
            TcpNodeError::RackTimeout => "RACK timeout"@,
            TcpNodeError::TlpProbe => "TLP probe"@,
            TcpNodeError::Retransmit => "retransmit"@,
            TcpNodeError::PacingLimited => "pacing limited"@,
            TcpNodeError::PersistTimer => "persist timer"@,
            TcpNodeError::BbrCongestion => "BBR congestion"@,
            TcpNodeError::BadWindow => "bad window"@,
        }
    }

    pub fn message(self) -> (r: &'static str)
        ensures
            r@ == self.spec_message(),
    {
        match self {
            TcpNodeError::SessionMissing
            | TcpNodeError::EstablishedSessionMissing
            | TcpNodeError::EstablishedSessionRouteMissing
            | TcpNodeError::RcvProcessSessionMissing
            | TcpNodeError::RcvProcessSessionRouteMissing
            | TcpNodeError::SynSentSessionMissing
            | TcpNodeError::SynSentSessionRouteMissing => "invalid connection",
            TcpNodeError::TimerUpdateFailed | TcpNodeError::TxOffsetOverflow => "dispatch error",
            TcpNodeError::BadChecksum => "bad TCP checksum",
            TcpNodeError::ResetReceived => "RST received",
            TcpNodeError::BadSegment => "bad segment",
            TcpNodeError::NoListener => "no listener",
            TcpNodeError::ConnectionCreate => "connection create failed",
            TcpNodeError::RackTimeout => "RACK timeout",
            TcpNodeError::TlpProbe => "TLP probe",
            TcpNodeError::Retransmit => "retransmit",
            TcpNodeError::PacingLimited => "pacing limited",
            TcpNodeError::PersistTimer => "persist timer",
            TcpNodeError::BbrCongestion => "BBR congestion",
            TcpNodeError::BadWindow => "bad window",
        }
    }
}

/// The general error that a stage's error amounts to.
pub open spec fn general_error(error: TcpNodeError) -> TcpError {
    match error {
        TcpNodeError::SessionMissing
        | TcpNodeError::EstablishedSessionMissing
        | TcpNodeError::EstablishedSessionRouteMissing
        | TcpNodeError::RcvProcessSessionMissing
        | TcpNodeError::RcvProcessSessionRouteMissing
        | TcpNodeError::SynSentSessionMissing
        | TcpNodeError::SynSentSessionRouteMissing
        | TcpNodeError::ConnectionCreate => TcpError::InvalidConnection,
        TcpNodeError::BadChecksum | TcpNodeError::BadSegment => TcpError::SegmentInvalid,
        TcpNodeError::ResetReceived => TcpError::ConnectionClosed,
        TcpNodeError::NoListener => TcpError::NoListener,
        TcpNodeError::BadWindow => TcpError::RcvWnd,
        TcpNodeError::TimerUpdateFailed
        | TcpNodeError::TxOffsetOverflow
        | TcpNodeError::RackTimeout
        | TcpNodeError::TlpProbe
        | TcpNodeError::Retransmit
        | TcpNodeError::PacingLimited
        | TcpNodeError::PersistTimer
        | TcpNodeError::BbrCongestion => TcpError::Dispatch,
    }
}

impl vstd::std_specs::convert::FromSpecImpl<TcpNodeError> for TcpError {
    open spec fn obeys_from_spec() -> bool {
        true
    }

    open spec fn from_spec(error: TcpNodeError) -> Self {
        general_error(error)
    }
}

impl From<TcpNodeError> for TcpError {
    fn from(error: TcpNodeError) -> (r: Self) {
        match error {
            TcpNodeError::SessionMissing
            | TcpNodeError::EstablishedSessionMissing
            | TcpNodeError::EstablishedSessionRouteMissing
            | TcpNodeError::RcvProcessSessionMissing
            | TcpNodeError::RcvProcessSessionRouteMissing
            | TcpNodeError::SynSentSessionMissing
            | TcpNodeError::SynSentSessionRouteMissing
            | TcpNodeError::ConnectionCreate => TcpError::InvalidConnection,
            TcpNodeError::BadChecksum | TcpNodeError::BadSegment => TcpError::SegmentInvalid,
            TcpNodeError::ResetReceived => TcpError::ConnectionClosed,
            TcpNodeError::NoListener => TcpError::NoListener,
            TcpNodeError::BadWindow => TcpError::RcvWnd,
            TcpNodeError::TimerUpdateFailed
            | TcpNodeError::TxOffsetOverflow
            | TcpNodeError::RackTimeout
            | TcpNodeError::TlpProbe
            | TcpNodeError::Retransmit
            | TcpNodeError::PacingLimited
            | TcpNodeError::PersistTimer
            | TcpNodeError::BbrCongestion => TcpError::Dispatch,
        }
    }
}

/// What the output stage counts an error under.
#[derive(Clone, Copy, Debug, PartialEq, Eq, Structural)]
pub enum TcpOutputError {
    NoTcpHeader,
}

impl TcpOutputError {
    pub fn code(self) -> (r: u16)
        ensures
            r == 0,
    {
        match self {
            TcpOutputError::NoTcpHeader => 0,
        }
    }

    pub fn message(self) -> (r: &'static str)
        ensures
            r@ == "not a TCP header"@,
    {
        match self {
            TcpOutputError::NoTcpHeader => "not a TCP header",
        }
    }
}

/// What the reset stage counts an error under.
#[derive(Clone, Copy, Debug, PartialEq, Eq, Structural)]
pub enum TcpResetError {
    BadTcpHeader,
}

impl TcpResetError {
    pub fn code(self) -> (r: u16)
        ensures
            r == 0,
    {
        match self {
            TcpResetError::BadTcpHeader => 0,
        }
    }

    pub fn message(self) -> (r: &'static str)
        ensures
            r@ == "bad TCP header"@,
    {
        match self {
            TcpResetError::BadTcpHeader => "bad TCP header",
        }
    }
}

} // verus!
