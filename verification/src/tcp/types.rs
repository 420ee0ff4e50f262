//! The values that segments and connections are described with.
use vstd::prelude::*;

use crate::tcp::recovery_model::TcpSackBlock;
use crate::tcp::sequence::TcpSeq;

verus! {

/// An address of either IP version, as the number its bytes spell in network order.
#[derive(Clone, Copy, Debug, PartialEq, Eq, Structural, Hash)]
pub enum IpAddress {
    V4(u32),
    V6(u128),
}

/// An address and a port: all that a segment says of where it comes from or goes
/// to, and all that connections, handshakes and listeners are found by.
#[derive(Clone, Copy, Debug, PartialEq, Eq, Structural, Hash)]
pub struct TcpEndpoint {
    pub ip: IpAddress,
    pub port: u16,
}

/// Where a segment comes from or goes to. An IPv6 address comes with flow
/// information and a scope; both are zero for IPv4.
#[derive(Clone, Copy, Debug, PartialEq, Eq, Structural, Hash)]
pub struct SocketAddress {
    pub ip: IpAddress,
    pub port: u16,
    pub flow_info: u32,
    pub scope_id: u32,
}

impl SocketAddress {
    /// An address and a port, with no flow information and no scope.
    pub open spec fn plain(ip: IpAddress, port: u16) -> SocketAddress {
        SocketAddress { ip, port, flow_info: 0, scope_id: 0 }
    }

    pub open spec fn spec_endpoint(self) -> TcpEndpoint {
        TcpEndpoint { ip: self.ip, port: self.port }
    }

    pub fn new(ip: IpAddress, port: u16) -> (r: SocketAddress)
        ensures
            r == SocketAddress::plain(ip, port),
    {
        SocketAddress { ip, port, flow_info: 0, scope_id: 0 }
    }

    pub fn new_v6(ip: u128, port: u16, flow_info: u32, scope_id: u32) -> (r: SocketAddress)
        ensures
            r == (SocketAddress { ip: IpAddress::V6(ip), port, flow_info, scope_id }),
    {
        SocketAddress { ip: IpAddress::V6(ip), port, flow_info, scope_id }
    }

    pub fn endpoint(&self) -> (r: TcpEndpoint)
        ensures
            r == self.spec_endpoint(),
    {
        TcpEndpoint { ip: self.ip, port: self.port }
    }

    pub fn ip(&self) -> (r: IpAddress)
        ensures
            r == self.ip,
    {
        self.ip
    }

    pub fn port(&self) -> (r: u16)
        ensures
            r == self.port,
    {
        self.port
    }
}

/// A worker of the data plane.
#[derive(Clone, Copy, Debug, PartialEq, Eq, Structural, Hash)]
pub struct DataWorkerId {
    pub value: u32,
}

impl DataWorkerId {
    pub fn new(value: u32) -> (r: DataWorkerId)
        ensures
            r.value == value,
    {
        DataWorkerId { value }
    }

    pub fn get(self) -> (r: u32)
        ensures
            r == self.value,
    {
        self.value
    }
}

/// The worker with an index, if the index is one that workers can have.
pub fn data_worker(index: usize) -> (r: Option<DataWorkerId>)
    ensures
        r == (if index <= u32::MAX {
            Some(DataWorkerId { value: index as u32 })
        } else {
            None
        }),
{
    if index > u32::MAX as usize {
        return None;
    }
    Some(DataWorkerId::new(index as u32))
}

/// The name of a connection, unique while it lives.
#[derive(Clone, Copy, Debug, PartialEq, Eq, Structural, Hash)]
pub struct TcpConnectionId {
    pub value: u64,
}

impl TcpConnectionId {
    pub fn new(value: u64) -> (r: TcpConnectionId)
        ensures
            r.value == value,
    {
        TcpConnectionId { value }
    }

    pub fn get(self) -> (r: u64)
        ensures
            r == self.value,
    {
        self.value
    }
}

/// The two congestion notification bits of an IP header.
#[derive(Clone, Copy, Debug, PartialEq, Eq, Structural)]
pub enum IpEcnCodepoint {
    NotEct,
    Ect0,
    Ect1,
    Ce,
}

/// The states of a connection.
#[derive(Clone, Copy, Debug, PartialEq, Eq, Structural)]
pub enum TcpState {
    Closed,
    Listen,
    SynSent,
    SynRcvd,
    Established,
    FinWait1,
    FinWait2,
    CloseWait,
    Closing,
    LastAck,
    TimeWait,
}

/// Why a connection ended.
#[derive(Clone, Copy, Debug, PartialEq, Eq, Structural)]
pub enum TcpCloseReason {
    LocalRequest,
    RemoteReset,
}

/// The flags of a segment header.
#[derive(Clone, Copy, Debug, PartialEq, Eq, Structural)]
pub struct TcpSegmentFlags {
    pub fin: bool,
    pub syn: bool,
    pub rst: bool,
    pub psh: bool,
    pub ack: bool,
    pub urg: bool,
    pub ece: bool,
    pub cwr: bool,
    pub ns: bool,
}

/// No flag set.
pub open spec fn no_flags() -> TcpSegmentFlags {
    TcpSegmentFlags {
        fin: false,
        syn: false,
        rst: false,
        psh: false,
        ack: false,
        urg: false,
        ece: false,
        cwr: false,
        ns: false,
    }
}

/// Only ACK set.
pub open spec fn ack_only() -> TcpSegmentFlags {
    TcpSegmentFlags { ack: true, ..no_flags() }
}

/// Only RST set.
pub open spec fn rst_only() -> TcpSegmentFlags {
    TcpSegmentFlags { rst: true, ..no_flags() }
}

/// The number that a flag stands for in the header's flag byte.
pub open spec fn flag_weight(flag: bool, weight: u8) -> int {
    if flag {
        weight as int
    } else {
        0
    }
}

impl TcpSegmentFlags {
    pub fn empty() -> (r: TcpSegmentFlags)
        ensures
            r == no_flags(),
    {
        TcpSegmentFlags {
            fin: false,
            syn: false,
            rst: false,
            psh: false,
            ack: false,
            urg: false,
            ece: false,
            cwr: false,
            ns: false,
        }
    }

    pub fn ack() -> (r: TcpSegmentFlags)
        ensures
            r == ack_only(),
    {
        TcpSegmentFlags { ack: true, ..TcpSegmentFlags::empty() }
    }

    pub fn syn() -> (r: TcpSegmentFlags)
        ensures
            r == (TcpSegmentFlags { syn: true, ..no_flags() }),
    {
        TcpSegmentFlags { syn: true, ..TcpSegmentFlags::empty() }
    }

    pub fn rst() -> (r: TcpSegmentFlags)
        ensures
            r == rst_only(),
    {
        TcpSegmentFlags { rst: true, ..TcpSegmentFlags::empty() }
    }

    /// The value of the header's flag byte; the NS bit lies outside it.
    pub open spec fn spec_byte(self) -> int {
        flag_weight(self.fin, 0x01) + flag_weight(self.syn, 0x02) + flag_weight(self.rst, 0x04)
            + flag_weight(self.psh, 0x08) + flag_weight(self.ack, 0x10) + flag_weight(
            self.urg,
            0x20,
        ) + flag_weight(self.ece, 0x40) + flag_weight(self.cwr, 0x80)
    }

    /// The header's flag byte.
    pub fn to_byte(self) -> (r: u8)
        ensures
            r == self.spec_byte(),
    {
        let fin: u8 = if self.fin {
            0x01
        } else {
            0
        };
        let syn: u8 = if self.syn {
            0x02
        } else {
            0
        };
        let rst: u8 = if self.rst {
            0x04
        } else {
            0
        };
        let psh: u8 = if self.psh {
            0x08
        } else {
            0
        };
        let ack: u8 = if self.ack {
            0x10
        } else {
            0
        };
        let urg: u8 = if self.urg {
            0x20
        } else {
            0
        };
        let ece: u8 = if self.ece {
            0x40
        } else {
            0
        };
        let cwr: u8 = if self.cwr {
            0x80
        } else {
            0
        };
        fin + syn + rst + psh + ack + urg + ece + cwr
    }

    /// The flags that a header's flag byte and its NS bit spell.
    pub open spec fn spec_from_byte(byte: u8, ns: bool) -> TcpSegmentFlags {
        TcpSegmentFlags {
            fin: byte & 0x01 != 0,
            syn: byte & 0x02 != 0,
            rst: byte & 0x04 != 0,
            psh: byte & 0x08 != 0,
            ack: byte & 0x10 != 0,
            urg: byte & 0x20 != 0,
            ece: byte & 0x40 != 0,
            cwr: byte & 0x80 != 0,
            ns,
        }
    }

    pub fn from_byte(byte: u8, ns: bool) -> (r: TcpSegmentFlags)
        ensures
            r == TcpSegmentFlags::spec_from_byte(byte, ns),
    {
        TcpSegmentFlags {
            fin: byte & 0x01 != 0,
            syn: byte & 0x02 != 0,
            rst: byte & 0x04 != 0,
            psh: byte & 0x08 != 0,
            ack: byte & 0x10 != 0,
            urg: byte & 0x20 != 0,
            ece: byte & 0x40 != 0,
            cwr: byte & 0x80 != 0,
            ns,
        }
    }
}

/// What one side of a handshake offers.
#[derive(Clone, Copy, Debug, PartialEq, Eq, Structural)]
pub struct TcpCapabilities {
    pub max_segment_size: Option<u16>,
    pub window_scale: Option<u8>,
    pub sack: bool,
    pub timestamps: bool,
    pub ecn: bool,
    pub accurate_ecn: bool,
    pub fast_open: bool,
}

/// Nothing offered.
pub open spec fn no_capabilities() -> TcpCapabilities {
    TcpCapabilities {
        max_segment_size: None,
        window_scale: None,
        sack: false,
        timestamps: false,
        ecn: false,
        accurate_ecn: false,
        fast_open: false,
    }
}

impl Default for TcpCapabilities {
    fn default() -> (r: Self)
        ensures
            r == no_capabilities(),
    {
        TcpCapabilities {
            max_segment_size: None,
            window_scale: None,
            sack: false,
            timestamps: false,
            ecn: false,
            accurate_ecn: false,
            fast_open: false,
        }
    }
}

/// What both sides of a handshake agreed on.
#[derive(Clone, Copy, Debug, PartialEq, Eq, Structural)]
pub struct TcpNegotiatedOptions {
    pub send_max_segment_size: Option<u16>,
    pub receive_max_segment_size: Option<u16>,
    pub send_window_scale: Option<u8>,
    pub receive_window_scale: Option<u8>,
    pub sack: bool,
    pub timestamps: bool,
    pub ecn: bool,
    pub accurate_ecn: bool,
    pub fast_open: bool,
}

/// Nothing agreed on.
pub open spec fn nothing_negotiated() -> TcpNegotiatedOptions {
    TcpNegotiatedOptions {
        send_max_segment_size: None,
        receive_max_segment_size: None,
        send_window_scale: None,
        receive_window_scale: None,
        sack: false,
        timestamps: false,
        ecn: false,
        accurate_ecn: false,
        fast_open: false,
    }
}

impl Default for TcpNegotiatedOptions {
    fn default() -> (r: Self)
        ensures
            r == nothing_negotiated(),
    {
        TcpNegotiatedOptions {
            send_max_segment_size: None,
            receive_max_segment_size: None,
            send_window_scale: None,
            receive_window_scale: None,
            sack: false,
            timestamps: false,
            ecn: false,
            accurate_ecn: false,
            fast_open: false,
        }
    }
}

/// The timestamp option of a segment.
#[derive(Clone, Copy, Debug, PartialEq, Eq, Structural)]
pub struct TcpTimestampOption {
    pub tsval: u32,
    pub tsecr: u32,
}

/// The longest fast open cookie.
pub const TCP_FAST_OPEN_COOKIE_MAX: usize = 16;

/// A fast open cookie: the first `len` of `bytes`, the rest of which is zero.
#[derive(Clone, Copy, Debug, PartialEq, Eq)]
pub struct TcpFastOpenCookie {
    pub bytes: [u8; 16],
    pub len: u8,
}

impl View for TcpFastOpenCookie {
    type V = Seq<u8>;

    open spec fn view(&self) -> Seq<u8> {
        self.bytes@.take(self.len as int)
    }
}

/// The array that `content` makes once it is padded with zeros or cut.
pub open spec fn padded_cookie(content: Seq<u8>) -> Seq<u8> {
    Seq::new(
        16,
        |i: int|
            if i < content.len() {
                content[i]
            } else {
                0
            },
    )
}

impl TcpFastOpenCookie {
    pub open spec fn well_formed(self) -> bool {
        self.len <= TCP_FAST_OPEN_COOKIE_MAX
    }

    /// The cookie that starts `content`, or nothing where it is empty.
    pub fn from_slice(content: &[u8]) -> (r: Option<TcpFastOpenCookie>)
        ensures
            match r {
                Some(cookie) => {
                    &&& content@.len() > 0
                    &&& cookie.len == vstd::math::min(
                        content@.len() as int,
                        TCP_FAST_OPEN_COOKIE_MAX as int,
                    )
                    &&& cookie.bytes@ == padded_cookie(content@)
                    &&& cookie.well_formed()
                },
                None => content@.len() == 0,
            },
    {
        if content.len() == 0 {
            return None;
        }
        let len: usize = if content.len() < TCP_FAST_OPEN_COOKIE_MAX {
            content.len()
        } else {
            TCP_FAST_OPEN_COOKIE_MAX
        };
        let mut bytes: [u8; 16] = [0u8;16];
        let mut i: usize = 0;
        while i < len
            invariant
                i <= len,
                len == vstd::math::min(content@.len() as int, 16),
                forall|k: int| 0 <= k < i ==> bytes@[k] == content@[k],
                forall|k: int| i <= k < 16 ==> bytes@[k] == 0,
            decreases len - i,
        {
            bytes[i] = content[i];
            i = i + 1;
        }
        proof {
            assert(bytes@ =~= padded_cookie(content@));
        }
        Some(TcpFastOpenCookie { bytes, len: len as u8 })
    }

    /// The bytes of the cookie.
    pub fn to_vec(&self) -> (r: Vec<u8>)
        requires
            self.well_formed(),
        ensures
            r@ == self@,
    {
        let mut out: Vec<u8> = Vec::new();
        let mut i: usize = 0;
        while i < self.len as usize
            invariant
                i <= self.len,
                self.len <= 16,
                out@ == self.bytes@.take(i as int),
            decreases self.len - i,
        {
            out.push(self.bytes[i]);
            i = i + 1;
            assert(out@ =~= self.bytes@.take(i as int));
        }
        out
    }
}

/// A segment that came in, with its header and options parsed.
#[derive(Clone, Debug)]
pub struct TcpPacket {
    pub local: SocketAddress,
    pub remote: SocketAddress,
    pub sequence: TcpSeq,
    pub acknowledgment: Option<TcpSeq>,
    pub advertised_window: u16,
    pub flags: TcpSegmentFlags,
    pub capabilities: TcpCapabilities,
    pub sack_blocks: Vec<TcpSackBlock>,
    pub timestamp: Option<TcpTimestampOption>,
    pub fast_open_cookie: Option<TcpFastOpenCookie>,
    pub ip_ecn: Option<IpEcnCodepoint>,
    pub payload_offset: u32,
    pub payload_len: u32,
}

impl TcpPacket {
    /// The acknowledged position, where the ACK flag vouches for it.
    pub open spec fn acknowledges(self) -> Option<TcpSeq> {
        if self.flags.ack {
            self.acknowledgment
        } else {
            None
        }
    }

    /// The position after everything that the segment takes in sequence space.
    pub open spec fn spec_end(self) -> TcpSeq {
        let after_payload = self.sequence.spec_advance(self.payload_len);
        let after_syn = if self.flags.syn {
            after_payload.spec_advance(1)
        } else {
            after_payload
        };
        if self.flags.fin {
            after_syn.spec_advance(1)
        } else {
            after_syn
        }
    }

    /// The position after everything that the segment takes in sequence space.
    pub fn end(&self) -> (r: TcpSeq)
        ensures
            r == self.spec_end(),
    {
        let mut end = self.sequence.advance(self.payload_len);
        if self.flags.syn {
            end = end.advance(1);
        }
        if self.flags.fin {
            end = end.advance(1);
        }
        end
    }
}

/// Up to four SACK blocks, the filled places first.
#[derive(Clone, Copy, Debug, PartialEq, Eq, Structural)]
pub struct TcpSackList {
    pub first: Option<TcpSackBlock>,
    pub second: Option<TcpSackBlock>,
    pub third: Option<TcpSackBlock>,
    pub fourth: Option<TcpSackBlock>,
}

/// A segment to send, without its payload bytes.
#[derive(Clone, Copy, Debug, PartialEq, Eq)]
pub struct TcpSegment {
    pub local: SocketAddress,
    pub remote: SocketAddress,
    pub sequence: u32,
    pub acknowledgment: u32,
    pub advertised_window: u16,
    pub flags: TcpSegmentFlags,
    pub capabilities: TcpCapabilities,
    pub sack_blocks: TcpSackList,
    pub timestamp: Option<TcpTimestampOption>,
    pub fast_open_cookie: Option<TcpFastOpenCookie>,
    pub ip_ecn: Option<IpEcnCodepoint>,
    pub payload_len: usize,
}

impl TcpSegment {
    pub fn payload_len(&self) -> (r: usize)
        ensures
            r == self.payload_len,
    {
        self.payload_len
    }
}

} // verus!
