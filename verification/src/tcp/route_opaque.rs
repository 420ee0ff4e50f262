//! The route that the input stage leaves on a buffer for later stages.
use vstd::prelude::*;

use crate::tcp::lookup::TcpRoute;
use crate::tcp::routes::SessionId;
use crate::tcp::types::DataWorkerId;
use crate::tcp::TcpInputNext;

verus! {

/// A route as it lies in a buffer's spare words.
#[derive(Clone, Copy, Debug, PartialEq, Eq, Structural)]
pub struct TcpRouteOpaque {
    pub session_raw: u64,
    pub owner_worker: u32,
    pub next: u8,
    pub present: u8,
}

/// No route.
pub open spec fn no_route() -> TcpRouteOpaque {
    TcpRouteOpaque { session_raw: 0, owner_worker: 0, next: 0, present: 0 }
}

impl Default for TcpRouteOpaque {
    fn default() -> (r: Self)
        ensures
            r == no_route(),
    {
        TcpRouteOpaque { session_raw: 0, owner_worker: 0, next: 0, present: 0 }
    }
}

/// The number of a stage.
pub open spec fn stage_number(next: TcpInputNext) -> u8 {
    match next {
        TcpInputNext::Drop => 0,
        TcpInputNext::Punt => 1,
        TcpInputNext::Listen => 2,
        TcpInputNext::RcvProcess => 3,
        TcpInputNext::SynSent => 4,
        TcpInputNext::Established => 5,
        TcpInputNext::Reset => 6,
    }
}

/// The stage with a number. What is no stage that a route leads to is punted.
pub open spec fn stage_with(number: u8) -> TcpInputNext {
    if number == 2 {
        TcpInputNext::Listen
    } else if number == 3 {
        TcpInputNext::RcvProcess
    } else if number == 4 {
        TcpInputNext::SynSent
    } else if number == 5 {
        TcpInputNext::Established
    } else if number == 6 {
        TcpInputNext::Reset
    } else {
        TcpInputNext::Punt
    }
}

/// A route as it is written into a buffer.
pub open spec fn written_route(route: TcpRoute) -> TcpRouteOpaque {
    TcpRouteOpaque {
        session_raw: route.session_id.value,
        owner_worker: route.owner.value,
        next: stage_number(route.next),
        present: 1,
    }
}

/// The route that a buffer holds.
pub open spec fn read_route(opaque: TcpRouteOpaque) -> Option<TcpRoute> {
    if opaque.present == 0 {
        None
    } else {
        Some(
            TcpRoute {
                session_id: SessionId { value: opaque.session_raw },
                owner: DataWorkerId { value: opaque.owner_worker },
                next: stage_with(opaque.next),
            },
        )
    }
}

pub fn write_session_route_opaque(opaque: &mut TcpRouteOpaque, route: TcpRoute)
    ensures
        *final(opaque) == written_route(route),
{
    let next: u8 = match route.next {
        TcpInputNext::Drop => 0,
        TcpInputNext::Punt => 1,
        TcpInputNext::Listen => 2,
        TcpInputNext::RcvProcess => 3,
        TcpInputNext::SynSent => 4,
        TcpInputNext::Established => 5,
        TcpInputNext::Reset => 6,
    };
    *opaque =
    TcpRouteOpaque {
        session_raw: route.session_id.get(),
        owner_worker: route.owner.get(),
        next,
        present: 1,
    };
}

pub fn read_session_route_opaque(opaque: &TcpRouteOpaque) -> (r: Option<TcpRoute>)
    ensures
        r == read_route(*opaque),
{
    if opaque.present == 0 {
        return None;
    }
    let next = if opaque.next == 2 {
        TcpInputNext::Listen
    } else if opaque.next == 3 {
        TcpInputNext::RcvProcess
    } else if opaque.next == 4 {
        TcpInputNext::SynSent
    } else if opaque.next == 5 {
        TcpInputNext::Established
    } else if opaque.next == 6 {
        TcpInputNext::Reset
    } else {
        TcpInputNext::Punt
    };
    Some(
        TcpRoute {
            session_id: SessionId::from_raw(opaque.session_raw),
            owner: DataWorkerId::new(opaque.owner_worker),
            next,
        },
    )
}

/// The session whose route a buffer holds.
pub fn read_session_id(opaque: &TcpRouteOpaque) -> (r: Option<SessionId>)
    ensures
        r == (match read_route(*opaque) {
            Some(route) => Some(route.session_id),
            None => None,
        }),
{
    match read_session_route_opaque(opaque) {
        Some(route) => Some(route.session_id),
        None => None,
    }
}

/// A route is read back from a buffer as it was written. A route that leads
/// nowhere is read as one that is punted.
pub proof fn route_survives_the_buffer(route: TcpRoute)
    ensures
        read_route(written_route(route)) == Some(
            TcpRoute {
                next: if route.next == TcpInputNext::Drop {
                    TcpInputNext::Punt
                } else {
                    route.next
                },
                ..route
            },
        ),
        read_route(no_route()) is None,
{
}

} // verus!
