//! The verified core of a data-plane transport: congestion control, TCP
//! connection state, loss recovery, listener admission and route lookup.
//!
//! Everything here is a function of plain values. Clocks, packet buffers, the
//! node graph and the timer wheel live outside; they hand readings in and carry
//! the decisions out.
pub mod arith;
pub mod bytes;
pub mod checksum;
pub mod collections;
pub mod congestion;
pub mod tcp;
pub mod time;
pub mod transport;
