//! The options that both sides of a connection settle on in the handshake.
use vstd::prelude::*;

use crate::arith;
use crate::arith::saturating_mul_u32;
use crate::tcp::types;
use crate::tcp::types::{TcpCapabilities, TcpNegotiatedOptions};

verus! {

pub const TCP_MAX_WINDOW_SCALE: u8 = 14;

/// What each side offered and what follows from both.
#[derive(Clone, Copy, Debug, PartialEq, Eq, Structural)]
pub struct TcpConnectionOptionState {
    pub local_capabilities: TcpCapabilities,
    pub remote_capabilities: Option<TcpCapabilities>,
    pub negotiated: TcpNegotiatedOptions,
}

/// The offer with a zero segment size dropped and the scale within its limit.
pub open spec fn normalized(capabilities: TcpCapabilities) -> TcpCapabilities {
    TcpCapabilities {
        max_segment_size: match capabilities.max_segment_size {
            Some(0) => None,
            other => other,
        },
        window_scale: match capabilities.window_scale {
            Some(scale) => Some(scale_limited(scale)),
            None => None,
        },
        ..capabilities
    }
}

pub open spec fn scale_limited(scale: u8) -> u8 {
    if scale <= TCP_MAX_WINDOW_SCALE {
        scale
    } else {
        TCP_MAX_WINDOW_SCALE
    }
}

/// What two offers settle on: each side sends under the other's limits, and a
/// feature is on where both offer it. Window scales count only in pairs.
pub open spec fn settled(local: TcpCapabilities, remote: TcpCapabilities) -> TcpNegotiatedOptions {
    let scaled = local.window_scale is Some && remote.window_scale is Some;
    TcpNegotiatedOptions {
        send_max_segment_size: remote.max_segment_size,
        receive_max_segment_size: local.max_segment_size,
        send_window_scale: if scaled {
            remote.window_scale
        } else {
            None
        },
        receive_window_scale: if scaled {
            local.window_scale
        } else {
            None
        },
        sack: local.sack && remote.sack,
        timestamps: local.timestamps && remote.timestamps,
        ecn: local.ecn && remote.ecn,
        accurate_ecn: local.accurate_ecn && remote.accurate_ecn,
        fast_open: local.fast_open && remote.fast_open,
    }
}

/// The scale that applies: none is zero.
pub open spec fn applied_scale(window_scale: Option<u8>) -> u8 {
    match window_scale {
        Some(scale) => scale_limited(scale),
        None => 0,
    }
}

/// The window that an advertisement stands for under a scale.
pub open spec fn window_meant(advertised_window: u32, window_scale: u8) -> u32 {
    arith::saturate_u32(
        advertised_window * vstd::arithmetic::power2::pow2(scale_limited(window_scale) as nat),
    )
}

/// The advertisement that stands for a window under a scale.
pub open spec fn window_field(receive_window: u32, window_scale: u8) -> u16 {
    vstd::math::min(
        receive_window as int / vstd::arithmetic::power2::pow2(
            scale_limited(window_scale) as nat,
        ) as int,
        u16::MAX as int,
    ) as u16
}

impl TcpConnectionOptionState {
    /// What follows from the two offers at hand.
    pub open spec fn outcome(self) -> TcpNegotiatedOptions {
        match self.remote_capabilities {
            Some(remote) => settled(self.local_capabilities, remote),
            None => types::nothing_negotiated(),
        }
    }

    /// The settled options are those that follow from the offers.
    pub open spec fn well_formed(self) -> bool {
        self.negotiated == self.outcome()
    }

    pub open spec fn initial(local_capabilities: TcpCapabilities) -> Self {
        TcpConnectionOptionState {
            local_capabilities: normalized(local_capabilities),
            remote_capabilities: None,
            negotiated: types::nothing_negotiated(),
        }
    }

    pub open spec fn with_local(self, capabilities: TcpCapabilities) -> Self {
        let offered = TcpConnectionOptionState {
            local_capabilities: normalized(capabilities),
            ..self
        };
        TcpConnectionOptionState { negotiated: offered.outcome(), ..offered }
    }

    pub open spec fn with_remote(self, capabilities: TcpCapabilities) -> Self {
        let offered = TcpConnectionOptionState {
            remote_capabilities: Some(normalized(capabilities)),
            ..self
        };
        TcpConnectionOptionState { negotiated: offered.outcome(), ..offered }
    }

    pub open spec fn send_window(self, advertised_window: u32) -> u32 {
        window_meant(advertised_window, applied_scale(self.negotiated.send_window_scale))
    }

    pub open spec fn window_to_advertise(self, receive_window: u32) -> u16 {
        window_field(receive_window, applied_scale(self.negotiated.receive_window_scale))
    }

    pub fn new(local_capabilities: TcpCapabilities) -> (r: Self)
        ensures
            r == TcpConnectionOptionState::initial(local_capabilities),
            r.well_formed(),
    {
        TcpConnectionOptionState {
            local_capabilities: normalize_tcp_capabilities(local_capabilities),
            remote_capabilities: None,
            negotiated: TcpNegotiatedOptions::default(),
        }
    }

    pub fn local_capabilities(&self) -> (r: TcpCapabilities)
        ensures
            r == self.local_capabilities,
    {
        self.local_capabilities
    }

    pub fn remote_capabilities(&self) -> (r: Option<TcpCapabilities>)
        ensures
            r == self.remote_capabilities,
    {
        self.remote_capabilities
    }

    pub fn negotiated_options(&self) -> (r: TcpNegotiatedOptions)
        ensures
            r == self.negotiated,
    {
        self.negotiated
    }

    pub fn set_local_capabilities(&mut self, capabilities: TcpCapabilities) -> (r:
        TcpNegotiatedOptions)
        ensures
            *final(self) == old(self).with_local(capabilities),
            r == final(self).negotiated,
    {
        self.local_capabilities = normalize_tcp_capabilities(capabilities);
        self.recalculate_negotiated_options();
        self.negotiated
    }

    pub fn apply_peer_handshake_capabilities(&mut self, capabilities: TcpCapabilities) -> (r:
        TcpNegotiatedOptions)
        ensures
            *final(self) == old(self).with_remote(capabilities),
            r == final(self).negotiated,
    {
        self.remote_capabilities = Some(normalize_tcp_capabilities(capabilities));
        self.recalculate_negotiated_options();
        self.negotiated
    }

    pub fn effective_send_window_scale(&self) -> (r: u8)
        ensures
            r == applied_scale(self.negotiated.send_window_scale),
    {
        tcp_window_scale(self.negotiated.send_window_scale)
    }

    pub fn effective_receive_window_scale(&self) -> (r: u8)
        ensures
            r == applied_scale(self.negotiated.receive_window_scale),
    {
        tcp_window_scale(self.negotiated.receive_window_scale)
    }

    /// The window that the peer's advertisement stands for.
    pub fn effective_send_window(&self, advertised_window: u32) -> (r: u32)
        ensures
            r == self.send_window(advertised_window),
    {
        scaled_window_from_advertised(advertised_window, self.effective_send_window_scale())
    }

    /// The advertisement that stands for our receive window.
    pub fn advertised_receive_window(&self, receive_window: u32) -> (r: u16)
        ensures
            r == self.window_to_advertise(receive_window),
    {
        advertised_window_from_receive(receive_window, self.effective_receive_window_scale())
    }

    fn recalculate_negotiated_options(&mut self)
        ensures
            *final(self) == (TcpConnectionOptionState {
                negotiated: old(self).outcome(),
                ..*old(self)
            }),
    {
        self.negotiated = match self.remote_capabilities {
            Some(remote) => tcp_negotiate_options(self.local_capabilities, remote),
            None => TcpNegotiatedOptions::default(),
        };
    }
}

impl Default for TcpConnectionOptionState {
    fn default() -> (r: Self)
        ensures
            r == TcpConnectionOptionState::initial(types::no_capabilities()),
    {
        TcpConnectionOptionState::new(TcpCapabilities::default())
    }
}

pub fn tcp_negotiate_options(local: TcpCapabilities, remote: TcpCapabilities) -> (r:
    TcpNegotiatedOptions)
    ensures
        r == settled(local, remote),
{
    let (send_window_scale, receive_window_scale) = match (
        local.window_scale,
        remote.window_scale,
    ) {
        (Some(local_scale), Some(remote_scale)) => (Some(remote_scale), Some(local_scale)),
        _ => (None, None),
    };
    TcpNegotiatedOptions {
        send_max_segment_size: remote.max_segment_size,
        receive_max_segment_size: local.max_segment_size,
        send_window_scale,
        receive_window_scale,
        sack: local.sack && remote.sack,
        timestamps: local.timestamps && remote.timestamps,
        ecn: local.ecn && remote.ecn,
        accurate_ecn: local.accurate_ecn && remote.accurate_ecn,
        fast_open: local.fast_open && remote.fast_open,
    }
}

pub fn normalize_tcp_capabilities(capabilities: TcpCapabilities) -> (r: TcpCapabilities)
    ensures
        r == normalized(capabilities),
{
    TcpCapabilities {
        max_segment_size: match capabilities.max_segment_size {
            Some(size) => if size != 0 {
                Some(size)
            } else {
                None
            },
            None => None,
        },
        window_scale: match capabilities.window_scale {
            Some(scale) => Some(tcp_window_scale(Some(scale))),
            None => None,
        },
        ..capabilities
    }
}

fn tcp_window_scale(window_scale: Option<u8>) -> (r: u8)
    ensures
        r == applied_scale(window_scale),
        r <= TCP_MAX_WINDOW_SCALE,
{
    match window_scale {
        Some(scale) => if scale <= TCP_MAX_WINDOW_SCALE {
            scale
        } else {
            TCP_MAX_WINDOW_SCALE
        },
        None => 0,
    }
}

/// The window that an advertisement stands for under a scale.
pub fn scaled_window_from_advertised(advertised_window: u32, window_scale: u8) -> (r: u32)
    ensures
        r == window_meant(advertised_window, window_scale),
{
    let scale: u32 = tcp_window_scale(Some(window_scale)) as u32;
    proof {
        vstd::arithmetic::power2::lemma_pow2_strictly_increases(scale as nat, 31);
        vstd::arithmetic::power2::lemma2_to64();
        vstd::bits::lemma_u32_shl_is_mul(1, scale);
    }
    saturating_mul_u32(advertised_window, 1u32 << scale)
}

/// The advertisement that stands for a window under a scale.
pub fn advertised_window_from_receive(receive_window: u32, window_scale: u8) -> (r: u16)
    ensures
        r == window_field(receive_window, window_scale),
{
    let scale: u32 = tcp_window_scale(Some(window_scale)) as u32;
    proof {
        vstd::bits::lemma_u32_shr_is_div(receive_window, scale);
    }
    let scaled: u32 = receive_window >> scale;
    if scaled > u16::MAX as u32 {
        u16::MAX
    } else {
        scaled as u16
    }
}

/// Both sides compute the same outcome with the directions exchanged.
pub proof fn negotiation_is_symmetric(local: TcpCapabilities, remote: TcpCapabilities)
    ensures
        ({
            let here = settled(local, remote);
            let there = settled(remote, local);
            &&& here.send_max_segment_size == there.receive_max_segment_size
            &&& here.receive_max_segment_size == there.send_max_segment_size
            &&& here.send_window_scale == there.receive_window_scale
            &&& here.receive_window_scale == there.send_window_scale
            &&& here.sack == there.sack
            &&& here.timestamps == there.timestamps
            &&& here.ecn == there.ecn
            &&& here.accurate_ecn == there.accurate_ecn
            &&& here.fast_open == there.fast_open
        }),
{
}

/// An advertisement never stands for more than the window, and no other comes
/// closer to it: it falls short by less than one unit of the scale, unless the
/// field is at its largest.
pub proof fn advertised_window_is_closest(receive_window: u32, window_scale: u8)
    ensures
        ({
            let advertised = window_field(receive_window, window_scale);
            let factor = vstd::arithmetic::power2::pow2(scale_limited(window_scale) as nat);
            &&& window_meant(advertised as u32, window_scale) <= receive_window
            &&& window_meant(advertised as u32, window_scale) == advertised * factor
            &&& advertised == u16::MAX || receive_window - advertised * factor < factor
        }),
{
    let scale = scale_limited(window_scale) as nat;
    let factor = vstd::arithmetic::power2::pow2(scale) as int;
    vstd::arithmetic::power2::lemma_pow2_pos(scale);
    let advertised = window_field(receive_window, window_scale) as int;
    let exact = receive_window as int / factor;
    assert(0 <= exact) by (nonlinear_arith)
        requires
            exact == receive_window as int / factor,
            factor > 0,
    ;
    assert(advertised <= exact);
    assert(0 <= advertised * factor <= receive_window) by (nonlinear_arith)
        requires
            0 <= advertised <= exact,
            exact == receive_window as int / factor,
            factor > 0,
    ;
    assert(receive_window - exact * factor < factor) by (nonlinear_arith)
        requires
            exact == receive_window as int / factor,
            factor > 0,
    ;
}

/// So it is between the two sides of a connection, where they settled on a scale.
pub proof fn advertised_window_is_honoured(
    receiver: TcpConnectionOptionState,
    sender: TcpConnectionOptionState,
    receive_window: u32,
)
    requires
        applied_scale(receiver.negotiated.receive_window_scale) == applied_scale(
            sender.negotiated.send_window_scale,
        ),
    ensures
        ({
            let advertised = receiver.window_to_advertise(receive_window);
            let promised = sender.send_window(advertised as u32);
            &&& promised <= receive_window
            &&& advertised == u16::MAX || receive_window - promised
                < vstd::arithmetic::power2::pow2(
                applied_scale(sender.negotiated.send_window_scale) as nat,
            )
        }),
{
    let scale = applied_scale(sender.negotiated.send_window_scale);
    assert(scale_limited(scale) == scale);
    advertised_window_is_closest(receive_window, scale);
}

} // verus!
