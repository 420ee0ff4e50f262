use hammer_transport::congestion::BbrController;
use hammer_transport::tcp::connection_model::TcpConnection;
use hammer_transport::tcp::control_plane::TcpInputControlPlane;
use hammer_transport::tcp::established::{
    tcp_established_finish, tcp_established_receive, RxDelivery,
};
use hammer_transport::tcp::input::{
    tcp_input_flags, tcp_input_next, IpVersion, TcpInputAction, TcpInputSegment,
};
use hammer_transport::tcp::listen::{
    tcp_accept_listener_fast_open, tcp_complete_listener_open, tcp_handle_listener_packet,
    tcp_listen_forward, tcp_listener_opened, TcpListenAction, TCP_LISTENER_BACKLOG,
};
use hammer_transport::tcp::listener_pending::TCP_LISTENER_PENDING_ROTATION_SECS;
use hammer_transport::tcp::listeners::{TcpIpv4ListenerAddress, TcpV4ListenerKey};
use hammer_transport::tcp::lookup::TcpLookupState;
use hammer_transport::tcp::output::{TCP_FLAG_ACK, TCP_FLAG_SYN};
use hammer_transport::tcp::routes::SessionId;
use hammer_transport::tcp::sequence::TcpSeq;
use hammer_transport::tcp::types::{
    DataWorkerId, IpAddress, SocketAddress, TcpCapabilities, TcpFastOpenCookie, TcpPacket,
    TcpSegment, TcpSegmentFlags, TcpState,
};
use hammer_transport::tcp::TcpInputNext;
use hammer_transport::time::Instant;

const LOCAL_IP: u32 = 0xc000_020a;
const REMOTE_IP: u32 = 0xc633_6414;
const LOCAL_PORT: u16 = 443;
const REMOTE_PORT: u16 = 50_001;
const LISTENER_ID: u32 = 7;
const CLIENT_ISN: u32 = 10_000;
const NOW_SECS: u64 = 1_700_000_000;

fn now() -> Instant {
    Instant::from_nanos(10_000_000_000_000_000)
}

fn local_addr() -> SocketAddress {
    SocketAddress::new(IpAddress::V4(LOCAL_IP), LOCAL_PORT)
}

fn remote_addr(port: Option<u16>) -> SocketAddress {
    SocketAddress::new(IpAddress::V4(REMOTE_IP), port.unwrap_or(REMOTE_PORT))
}

fn syn_packet_from(remote: SocketAddress, sequence: u32) -> TcpPacket {
    TcpPacket {
        local: local_addr(),
        remote,
        sequence: TcpSeq::new(sequence),
        acknowledgment: None,
        advertised_window: u16::MAX,
        flags: TcpSegmentFlags::syn(),
        capabilities: TcpCapabilities::default(),
        sack_blocks: Vec::new(),
        timestamp: None,
        fast_open_cookie: None,
        ip_ecn: None,
        payload_offset: 0,
        payload_len: 0,
    }
}

fn syn_packet() -> TcpPacket {
    syn_packet_from(remote_addr(None), CLIENT_ISN)
}

fn syn_packet_with_payload_and_cookie(
    remote: SocketAddress,
    sequence: u32,
    payload: &[u8],
    cookie: TcpFastOpenCookie,
) -> TcpPacket {
    TcpPacket {
        capabilities: TcpCapabilities { fast_open: true, ..TcpCapabilities::default() },
        fast_open_cookie: Some(cookie),
        payload_len: payload.len() as u32,
        ..syn_packet_from(remote, sequence)
    }
}

fn ack_packet_with_payload(acknowledgment: u32, payload_len: u32) -> TcpPacket {
    TcpPacket {
        sequence: TcpSeq::new(CLIENT_ISN + 1),
        acknowledgment: Some(TcpSeq::new(acknowledgment)),
        flags: TcpSegmentFlags::ack(),
        payload_len,
        ..syn_packet()
    }
}

fn ack_packet(acknowledgment: u32) -> TcpPacket {
    ack_packet_with_payload(acknowledgment, 0)
}

/// A worker with a listener, and what it sent.
struct Worker {
    lookup: TcpLookupState,
    control: TcpInputControlPlane,
    sessions: Vec<TcpConnection<BbrController>>,
    sent: Vec<TcpSegment>,
}

impl Worker {
    fn new() -> Worker {
        let mut lookup = TcpLookupState::new(DataWorkerId::new(0));
        lookup.insert_listener::<TcpIpv4ListenerAddress>(
            TcpV4ListenerKey::new(0, LOCAL_IP, LOCAL_PORT),
            LISTENER_ID,
            TcpCapabilities { fast_open: true, ..TcpCapabilities::default() },
        );
        let control = TcpInputControlPlane::new();
        control.publish_lookup(lookup.publish_snapshot());
        Worker { lookup, control, sessions: Vec::new(), sent: Vec::new() }
    }

    fn session(&self, id: SessionId) -> &TcpConnection<BbrController> {
        &self.sessions[id.get() as usize]
    }

    fn opened(&mut self, connection: TcpConnection<BbrController>, packet: &TcpPacket) {
        let id = SessionId::from_raw(self.sessions.len() as u64);
        let close = tcp_listener_opened(&mut self.lookup, id, &connection, LISTENER_ID, packet);
        assert!(!close);
        self.sessions.push(connection);
    }

    fn receive(&mut self, packet: &TcpPacket) -> TcpInputAction {
        let segment = TcpInputSegment {
            version: IpVersion::V4,
            protocol: 6,
            local: packet.local,
            remote: packet.remote,
            flags: tcp_input_flags(packet.flags),
        };
        let action = tcp_input_next(
            &mut self.lookup,
            &self.control.snapshot(),
            true,
            None,
            Ok(segment),
            (NOW_SECS / TCP_LISTENER_PENDING_ROTATION_SECS) as u32,
        );
        if action == (TcpInputAction::Listener { next: TcpInputNext::Listen }) {
            self.listen(packet);
        }
        action
    }

    fn listen(&mut self, packet: &TcpPacket) {
        let listener = self.control.lookup_listener(packet.local).expect("listener");
        let id = SessionId::from_raw(self.sessions.len() as u64);
        let worker = DataWorkerId::new(0);
        let action = tcp_handle_listener_packet(
            &mut self.lookup,
            listener.id,
            listener.capabilities,
            packet,
            NOW_SECS,
        );
        match action {
            TcpListenAction::Ignore => {}
            TcpListenAction::Reply { segment } => self.sent.push(segment),
            TcpListenAction::FastOpen => {
                let (connection, segment) =
                    tcp_accept_listener_fast_open(id, worker, listener.capabilities, packet, now());
                self.opened(connection, packet);
                self.sent.push(segment);
                assert!(tcp_listen_forward(listener, Some(id), packet).is_none());
            }
            TcpListenAction::Complete { open } => {
                let (connection, answer) = tcp_complete_listener_open(
                    id,
                    worker,
                    listener.capabilities,
                    packet,
                    open,
                    now(),
                );
                self.opened(connection, packet);
                self.sent.extend(answer);
                if let Some(route) = tcp_listen_forward(listener, Some(id), packet) {
                    assert_eq!(route.next, TcpInputNext::Established);
                    self.establish(route.session_id, packet);
                }
            }
        }
    }

    fn establish(&mut self, id: SessionId, packet: &TcpPacket) {
        let connection = &mut self.sessions[id.get() as usize];
        let arrival = tcp_established_receive(connection, packet, now()).expect("established");
        let delivery = RxDelivery::InOrder {
            accepted: packet.payload_len,
            promoted: 0,
            rx_available: u16::MAX as u32,
        };
        let outcome = tcp_established_finish(connection, packet, arrival, delivery, now());
        self.sent.extend(outcome.reply);
    }

    fn waits(&mut self, remote: SocketAddress) -> bool {
        self.lookup.has_listener_pending(local_addr(), remote, NOW_SECS)
    }

    fn fill_backlog(&mut self) {
        for offset in 0..TCP_LISTENER_BACKLOG {
            let remote = remote_addr(Some(REMOTE_PORT + offset as u16));
            self.receive(&syn_packet_from(remote, CLIENT_ISN + offset as u32));
            assert_eq!(self.sent.len(), offset + 1);
        }
    }
}

#[test]
fn initial_syn_emits_cookie_syn_ack_without_creating_session_route() {
    let mut worker = Worker::new();

    worker.receive(&syn_packet());

    assert_eq!(worker.sent.len(), 1);
    let syn_ack = worker.sent[0];
    assert_eq!(syn_ack.flags.to_byte(), TCP_FLAG_SYN | TCP_FLAG_ACK);
    assert_eq!(syn_ack.acknowledgment, CLIENT_ISN + 1);
    assert_ne!(syn_ack.sequence, 0);

    assert_eq!(
        worker.lookup.session_route_by_tuple(local_addr(), remote_addr(None)),
        None
    );
    assert!(worker.waits(remote_addr(None)));
}

#[test]
fn final_ack_creates_real_session_after_cookie_validation() {
    let mut worker = Worker::new();

    worker.receive(&syn_packet());
    let cookie_sequence = worker.sent[0].sequence;

    worker.receive(&ack_packet(cookie_sequence.wrapping_add(1)));
    assert_eq!(worker.sent.len(), 1);

    let route = worker
        .lookup
        .session_route_by_tuple(local_addr(), remote_addr(None))
        .expect("established session route");
    assert_eq!(worker.session(route.session_id).state(), TcpState::Established);
    assert!(!worker.waits(remote_addr(None)));
}

#[test]
fn invalid_cookie_does_not_create_real_session_route() {
    let mut worker = Worker::new();

    worker.receive(&syn_packet());
    let cookie_sequence = worker.sent[0].sequence;

    worker.receive(&ack_packet(cookie_sequence.wrapping_add(2)));

    assert_eq!(
        worker.lookup.session_route_by_tuple(local_addr(), remote_addr(None)),
        None
    );
    assert!(worker.waits(remote_addr(None)));
}

#[test]
fn final_ack_payload_is_not_folded_into_listener_syn_state() {
    let mut worker = Worker::new();

    worker.receive(&syn_packet());
    let cookie_sequence = worker.sent[0].sequence;

    worker.receive(&ack_packet_with_payload(cookie_sequence.wrapping_add(1), 5));

    let route = worker
        .lookup
        .session_route_by_tuple(local_addr(), remote_addr(None))
        .expect("established session route");
    let connection = worker.session(route.session_id);
    assert_eq!(connection.state(), TcpState::Established);
    assert_eq!(connection.rcv_nxt(), CLIENT_ISN + 6);
}

#[test]
fn passive_tfo_clears_existing_listener_pending_tuple() {
    let mut worker = Worker::new();

    worker.receive(&syn_packet());
    assert!(worker.waits(remote_addr(None)));
    let cookie = worker.lookup.fast_open_cookie_for_listener(
        LISTENER_ID,
        local_addr(),
        remote_addr(None),
        NOW_SECS,
    );
    worker.receive(&syn_packet_with_payload_and_cookie(
        remote_addr(None),
        CLIENT_ISN,
        b"hello",
        cookie,
    ));

    assert!(!worker.waits(remote_addr(None)));
    let route = worker
        .lookup
        .session_route_by_tuple(local_addr(), remote_addr(None))
        .expect("tfo session route");
    let connection = worker.session(route.session_id);
    assert_eq!(connection.state(), TcpState::SynRcvd);
    assert_eq!(connection.rcv_nxt(), CLIENT_ISN + 6);
    assert_eq!(worker.sent[1].acknowledgment, CLIENT_ISN + 6);
}

#[test]
fn passive_tfo_invalid_cookie_does_not_create_session() {
    let mut worker = Worker::new();
    let cookie = TcpFastOpenCookie::from_slice(&[0xaa; 16]).expect("cookie");

    worker.receive(&syn_packet_with_payload_and_cookie(
        remote_addr(None),
        CLIENT_ISN,
        b"hello",
        cookie,
    ));

    assert_eq!(
        worker.lookup.session_route_by_tuple(local_addr(), remote_addr(None)),
        None
    );
    assert!(worker.waits(remote_addr(None)));
    assert_eq!(worker.sent.len(), 1);
    let syn_ack = worker.sent[0];
    assert_eq!(syn_ack.flags.to_byte(), TCP_FLAG_SYN | TCP_FLAG_ACK);
    assert_eq!(syn_ack.acknowledgment, CLIENT_ISN + 1);
}

#[test]
fn backlog_full_rejects_new_listener_tuple() {
    let mut worker = Worker::new();
    worker.fill_backlog();

    let overflow_remote = remote_addr(Some(REMOTE_PORT + TCP_LISTENER_BACKLOG as u16));
    worker.receive(&syn_packet_from(
        overflow_remote,
        CLIENT_ISN + TCP_LISTENER_BACKLOG as u32,
    ));

    assert_eq!(worker.sent.len(), TCP_LISTENER_BACKLOG);
    assert_eq!(
        worker.lookup.listener_pending_len(LISTENER_ID),
        TCP_LISTENER_BACKLOG as u64
    );
    assert!(!worker.waits(overflow_remote));
    assert_eq!(
        worker.lookup.session_route_by_tuple(local_addr(), overflow_remote),
        None
    );
}

#[test]
fn passive_tfo_valid_cookie_bypasses_listener_backlog() {
    let mut worker = Worker::new();
    worker.fill_backlog();

    let tfo_remote = remote_addr(Some(REMOTE_PORT + TCP_LISTENER_BACKLOG as u16 + 1));
    let cookie = worker.lookup.fast_open_cookie_for_listener(
        LISTENER_ID,
        local_addr(),
        tfo_remote,
        NOW_SECS,
    );
    worker.receive(&syn_packet_with_payload_and_cookie(
        tfo_remote,
        CLIENT_ISN + 9_999,
        b"hello",
        cookie,
    ));
    assert_eq!(worker.sent.len(), TCP_LISTENER_BACKLOG + 1);

    assert_eq!(
        worker.lookup.listener_pending_len(LISTENER_ID),
        TCP_LISTENER_BACKLOG as u64
    );
    assert!(!worker.waits(tfo_remote));
    let route = worker
        .lookup
        .session_route_by_tuple(local_addr(), tfo_remote)
        .expect("tfo session route");
    assert_eq!(worker.session(route.session_id).state(), TcpState::SynRcvd);
}

#[test]
fn listener_ignores_what_is_neither_syn_nor_acknowledgment() {
    let mut worker = Worker::new();
    for flags in [
        TcpSegmentFlags::empty(),
        TcpSegmentFlags::rst(),
        TcpSegmentFlags { ack: true, ..TcpSegmentFlags::rst() },
        TcpSegmentFlags { fin: true, ..TcpSegmentFlags::syn() },
    ] {
        let packet = TcpPacket {
            flags,
            acknowledgment: Some(TcpSeq::new(1)),
            ..syn_packet()
        };
        worker.listen(&packet);
    }
    assert!(worker.sent.is_empty());
    assert!(worker.sessions.is_empty());
    assert_eq!(worker.lookup.listener_pending_len(LISTENER_ID), 0);
}

#[test]
fn fast_open_needs_a_listener_that_takes_it() {
    let mut worker = Worker::new();
    let cookie = worker.lookup.fast_open_cookie_for_listener(
        LISTENER_ID,
        local_addr(),
        remote_addr(None),
        NOW_SECS,
    );
    let packet =
        syn_packet_with_payload_and_cookie(remote_addr(None), CLIENT_ISN, b"hello", cookie);
    let action = tcp_handle_listener_packet(
        &mut worker.lookup,
        LISTENER_ID,
        TcpCapabilities::default(),
        &packet,
        NOW_SECS,
    );
    assert!(matches!(action, TcpListenAction::Reply { .. }));
}

#[test]
fn repeated_syn_is_answered_with_the_same_cookie() {
    let mut worker = Worker::new();
    worker.receive(&syn_packet());
    worker.receive(&syn_packet());
    assert_eq!(worker.sent[0].sequence, worker.sent[1].sequence);
    assert_eq!(worker.lookup.listener_pending_len(LISTENER_ID), 1);
}

#[test]
fn handshakes_between_other_addresses_do_not_disturb_a_waiting_one() {
    let mut worker = Worker::new();
    worker.receive(&syn_packet());
    let cookie = worker.sent[0].sequence;
    for offset in 1..9u16 {
        let other = remote_addr(Some(REMOTE_PORT + offset));
        worker.receive(&syn_packet_from(other, CLIENT_ISN + u32::from(offset)));
        let answered = worker.sent[worker.sent.len() - 1].sequence;
        if offset % 2 == 0 {
            worker.receive(&TcpPacket {
                remote: other,
                sequence: TcpSeq::new(CLIENT_ISN + u32::from(offset) + 1),
                ..ack_packet(answered.wrapping_add(1))
            });
        }
    }
    assert_eq!(worker.sessions.len(), 4);
    assert!(worker.waits(remote_addr(None)));

    worker.receive(&ack_packet(cookie.wrapping_add(1)));
    assert_eq!(worker.sessions.len(), 5);
    assert_eq!(worker.sessions[4].state(), TcpState::Established);
    assert!(!worker.waits(remote_addr(None)));
}
