use hammer_transport::congestion::BbrController;
use hammer_transport::tcp::accept::{TcpAcceptNext, TcpAcceptNode};
use hammer_transport::tcp::close_wait::{TcpCloseWaitError, TcpCloseWaitNode};
use hammer_transport::tcp::connection_model::{TcpConnection, TcpConnectionError};
use hammer_transport::tcp::established::{
    tcp_established_finish, tcp_established_receive, RxDelivery,
};
use hammer_transport::tcp::fin_wait2::{SessionQueueHandle, TcpFinWait2Error, TcpFinWait2Node};
use hammer_transport::tcp::lookup::{TcpLookupState, TcpRoute};
use hammer_transport::tcp::output::TCP_FLAG_ACK;
use hammer_transport::tcp::rcv_process::{tcp_rcv_process_receive, LocalBatch, TcpRcvProcessNext};
use hammer_transport::tcp::route_opaque::{
    read_session_id, write_session_route_opaque, TcpRouteOpaque,
};
use hammer_transport::tcp::routes::SessionId;
use hammer_transport::tcp::sequence::TcpSeq;
use hammer_transport::tcp::timers::TCP_TIMER_DELAYED_ACK;
use hammer_transport::tcp::types::{
    DataWorkerId, IpAddress, SocketAddress, TcpCapabilities, TcpConnectionId, TcpPacket,
    TcpSegment, TcpSegmentFlags, TcpState,
};
use hammer_transport::tcp::TcpInputNext;
use hammer_transport::time::Instant;

const LOCAL_PORT: u16 = 443;

fn now() -> Instant {
    Instant::from_nanos(10_000_000_000_000_000)
}

fn local_addr() -> SocketAddress {
    SocketAddress::new(IpAddress::V4(0xc000_020a), LOCAL_PORT)
}

fn remote_addr() -> SocketAddress {
    SocketAddress::new(IpAddress::V4(0xc633_6414), 50_001)
}

fn segment(sequence: u32, acknowledgment: Option<u32>, flags: TcpSegmentFlags) -> TcpPacket {
    TcpPacket {
        local: local_addr(),
        remote: remote_addr(),
        sequence: TcpSeq::new(sequence),
        acknowledgment: acknowledgment.map(TcpSeq::new),
        advertised_window: u16::MAX,
        flags,
        capabilities: TcpCapabilities::default(),
        sack_blocks: Vec::new(),
        timestamp: None,
        fast_open_cookie: None,
        ip_ecn: None,
        payload_offset: 0,
        payload_len: 0,
    }
}

fn control_packet(sequence: u32, acknowledgment: u32, flags: TcpSegmentFlags) -> TcpPacket {
    segment(sequence, Some(acknowledgment), flags)
}

fn fin_ack() -> TcpSegmentFlags {
    TcpSegmentFlags { fin: true, ..TcpSegmentFlags::ack() }
}

fn new_connection() -> TcpConnection<BbrController> {
    TcpConnection::new(
        Some(TcpConnectionId::new(1)),
        DataWorkerId::new(0),
        LOCAL_PORT,
        Some(local_addr()),
        remote_addr(),
    )
}

fn syn_rcvd() -> TcpConnection<BbrController> {
    let mut connection = new_connection();
    connection
        .receive_syn(&segment(7_000, None, TcpSegmentFlags::syn()), 0, now())
        .expect("accept syn")
        .expect("syn-ack");
    assert_eq!(connection.state(), TcpState::SynRcvd);
    connection
}

fn established() -> TcpConnection<BbrController> {
    let mut connection = syn_rcvd();
    let sack = TcpCapabilities { sack: true, ..TcpCapabilities::default() };
    connection.set_local_capabilities(sack);
    connection.apply_peer_handshake_capabilities(sack);
    let ack = control_packet(7_001, connection.snd_nxt(), TcpSegmentFlags::ack());
    connection.receive_final_ack(&ack, now()).expect("accept final ack");
    connection
}

/// One session of a worker, and what it sent.
struct Worker {
    lookup: TcpLookupState,
    session_id: SessionId,
    connection: Option<TcpConnection<BbrController>>,
    sent: Vec<TcpSegment>,
}

impl Worker {
    fn with(connection: TcpConnection<BbrController>) -> Worker {
        let mut worker = Worker {
            lookup: TcpLookupState::new(DataWorkerId::new(0)),
            session_id: SessionId::from_raw(1),
            connection: Some(connection),
            sent: Vec::new(),
        };
        worker.publish();
        worker
    }

    fn in_fin_wait1() -> Worker {
        let mut worker = Worker::with(established());
        worker.request_local_close_and_prepare_fin();
        assert_eq!(worker.state(), TcpState::FinWait1);
        worker
    }

    fn publish(&mut self) {
        let connection = self.connection.as_ref().expect("session");
        if self.lookup.publish_connection(self.session_id, connection) {
            self.connection = None;
        }
    }

    fn request_local_close_and_prepare_fin(&mut self) {
        let connection = self.connection.as_mut().expect("session");
        connection.on_session_close();
        connection.on_tcp_ready(false, now()).expect("fin segment");
        self.publish();
    }

    fn session(&mut self) -> &mut TcpConnection<BbrController> {
        self.connection.as_mut().expect("session")
    }

    fn state(&mut self) -> TcpState {
        self.session().state()
    }

    fn receive(&mut self, packet: TcpPacket) {
        let arrival = tcp_rcv_process_receive(self.session(), &packet, now());
        self.sent.extend(arrival.control);
        self.publish();
    }

    fn receive_buffer(&mut self, opaque: &TcpRouteOpaque, packet: TcpPacket) -> TcpRcvProcessNext {
        match read_session_id(opaque) {
            Some(session_id) if session_id == self.session_id => {
                self.receive(packet);
                TcpRcvProcessNext::Output
            }
            _ => TcpRcvProcessNext::Drop,
        }
    }

    fn receive_established(&mut self, packet: TcpPacket) {
        let connection = self.session();
        let arrival = tcp_established_receive(connection, &packet, now()).expect("established");
        let delivery = RxDelivery::NotAccepted { rx_available: u16::MAX as u32 };
        let outcome = tcp_established_finish(connection, &packet, arrival, delivery, now());
        self.sent.extend(outcome.reply);
        self.publish();
    }
}

#[test]
fn ack_of_local_fin_moves_finwait1_to_finwait2() {
    let mut worker = Worker::in_fin_wait1();
    let (rcv_nxt, snd_nxt) = (worker.session().rcv_nxt(), worker.session().snd_nxt());

    worker.receive(control_packet(rcv_nxt, snd_nxt, TcpSegmentFlags::ack()));

    assert_eq!(worker.state(), TcpState::FinWait2);
    assert!(worker.sent.is_empty());
}

#[test]
fn peer_fin_in_finwait2_acks_and_enters_time_wait() {
    let mut worker = Worker::in_fin_wait1();
    let (rcv_nxt, snd_nxt) = (worker.session().rcv_nxt(), worker.session().snd_nxt());

    worker.receive(control_packet(rcv_nxt, snd_nxt, TcpSegmentFlags::ack()));
    assert_eq!(worker.state(), TcpState::FinWait2);

    worker.receive(control_packet(rcv_nxt, snd_nxt, fin_ack()));

    assert_eq!(worker.state(), TcpState::TimeWait);
    assert_eq!(worker.session().rcv_nxt(), rcv_nxt + 1);
    assert_eq!(worker.sent.len(), 1);
    assert_eq!(worker.sent[0].flags.to_byte() & TCP_FLAG_ACK, TCP_FLAG_ACK);
    assert_eq!(worker.sent[0].acknowledgment, rcv_nxt + 1);
}

#[test]
fn simultaneous_close_acks_peer_fin_and_enters_closing() {
    let mut worker = Worker::in_fin_wait1();
    let (rcv_nxt, snd_una) = (worker.session().rcv_nxt(), worker.session().snd_una());

    worker.receive(control_packet(rcv_nxt, snd_una, fin_ack()));

    assert_eq!(worker.state(), TcpState::Closing);
    assert_eq!(worker.session().rcv_nxt(), rcv_nxt + 1);
    assert_eq!(worker.sent.len(), 1);
    assert_eq!(worker.sent[0].flags.to_byte() & TCP_FLAG_ACK, TCP_FLAG_ACK);
    assert_eq!(worker.sent[0].acknowledgment, rcv_nxt + 1);
}

#[test]
fn close_side_segment_without_session_is_discarded() {
    let mut worker = Worker::in_fin_wait1();
    let (rcv_nxt, snd_nxt) = (worker.session().rcv_nxt(), worker.session().snd_nxt());
    let packet = control_packet(rcv_nxt, snd_nxt, TcpSegmentFlags::ack());

    let mut opaque = TcpRouteOpaque::default();
    assert_eq!(worker.receive_buffer(&opaque, packet.clone()), TcpRcvProcessNext::Drop);

    assert_eq!(worker.state(), TcpState::FinWait1);
    assert!(worker.sent.is_empty());

    let route = TcpRoute {
        session_id: worker.session_id,
        owner: DataWorkerId::new(0),
        next: TcpInputNext::RcvProcess,
    };
    write_session_route_opaque(&mut opaque, route);
    assert_eq!(worker.receive_buffer(&opaque, packet), TcpRcvProcessNext::Output);
    assert_eq!(worker.state(), TcpState::FinWait2);
}

#[test]
fn ack_of_local_fin_in_closing_enters_time_wait() {
    let mut worker = Worker::in_fin_wait1();
    let rcv_nxt = worker.session().rcv_nxt();
    let (snd_una, snd_nxt) = (worker.session().snd_una(), worker.session().snd_nxt());

    worker.receive(control_packet(rcv_nxt, snd_una, fin_ack()));
    assert_eq!(worker.state(), TcpState::Closing);
    worker.sent.clear();

    let rcv_nxt = rcv_nxt + 1;
    worker.receive(control_packet(rcv_nxt, snd_nxt, TcpSegmentFlags::ack()));

    assert_eq!(worker.state(), TcpState::TimeWait);
    assert!(worker.sent.is_empty());
}

#[test]
fn ack_of_local_fin_in_last_ack_closes() {
    let mut worker = Worker::with(established());
    let (rcv_nxt, snd_nxt) = (worker.session().rcv_nxt(), worker.session().snd_nxt());

    worker.receive_established(control_packet(rcv_nxt, snd_nxt, fin_ack()));
    assert_eq!(worker.sent.len(), 1);
    assert_eq!(worker.state(), TcpState::CloseWait);
    worker.sent.clear();

    worker.request_local_close_and_prepare_fin();
    assert_eq!(worker.state(), TcpState::LastAck);
    let (rcv_nxt, snd_nxt) = (worker.session().rcv_nxt(), worker.session().snd_nxt());

    worker.receive(control_packet(rcv_nxt, snd_nxt, TcpSegmentFlags::ack()));

    assert!(worker.connection.is_none());
    assert!(worker.sent.is_empty());
}

#[test]
fn final_ack_in_syn_rcvd_enters_established() {
    let mut worker = Worker::with(syn_rcvd());
    let (rcv_nxt, snd_nxt) = (worker.session().rcv_nxt(), worker.session().snd_nxt());

    worker.receive(control_packet(rcv_nxt, snd_nxt, TcpSegmentFlags::ack()));

    assert_eq!(worker.state(), TcpState::Established);
    assert!(worker.sent.is_empty());
}

#[test]
fn rst_in_syn_rcvd_deletes_session() {
    let mut worker = Worker::with(syn_rcvd());
    let (rcv_nxt, snd_nxt) = (worker.session().rcv_nxt(), worker.session().snd_nxt());

    let flags = TcpSegmentFlags { rst: true, ..TcpSegmentFlags::ack() };
    worker.receive(control_packet(rcv_nxt, snd_nxt, flags));

    assert!(worker.connection.is_none());
    assert!(worker.sent.is_empty());
}

#[test]
fn time_wait_duplicate_fin_reacks_peer() {
    let mut worker = Worker::in_fin_wait1();
    let mut rcv_nxt = worker.session().rcv_nxt();
    let (snd_una, snd_nxt) = (worker.session().snd_una(), worker.session().snd_nxt());

    worker.receive(control_packet(rcv_nxt, snd_una, fin_ack()));
    rcv_nxt += 1;
    worker.sent.clear();

    worker.receive(control_packet(rcv_nxt, snd_nxt, TcpSegmentFlags::ack()));
    assert_eq!(worker.state(), TcpState::TimeWait);

    worker.receive(control_packet(rcv_nxt.wrapping_sub(1), snd_nxt, fin_ack()));

    assert_eq!(worker.state(), TcpState::TimeWait);
    assert_eq!(worker.sent.len(), 1);
    assert_eq!(worker.sent[0].flags.to_byte() & TCP_FLAG_ACK, TCP_FLAG_ACK);
    assert_eq!(worker.sent[0].acknowledgment, rcv_nxt);
}

#[test]
fn payload_of_the_final_ack_is_announced() {
    let mut connection = syn_rcvd();
    let packet = TcpPacket {
        payload_len: 5,
        ..control_packet(7_001, connection.snd_nxt(), TcpSegmentFlags::ack())
    };
    let arrival = tcp_rcv_process_receive(&mut connection, &packet, now());
    assert!(arrival.established && arrival.established_with_payload);
    assert!(arrival.ack_advanced);
    assert_eq!(arrival.acked_tx_len, 1);
    assert_eq!(connection.rcv_nxt(), 7_006);
    let answer = arrival.control.unwrap();
    assert_eq!(answer.flags, TcpSegmentFlags::ack());
    assert_eq!(answer.acknowledgment, 7_006);
}

#[test]
fn established_stage_refuses_other_states() {
    let mut connection = syn_rcvd();
    let packet = control_packet(7_001, connection.snd_nxt(), TcpSegmentFlags::ack());
    let refused = tcp_established_receive(&mut connection, &packet, now());
    assert_eq!(
        refused.err(),
        Some(TcpConnectionError::ReceiveOutsideEstablished)
    );
    assert_eq!(connection.state(), TcpState::SynRcvd);
}

fn data(connection: &TcpConnection<BbrController>, ahead: u32, payload_len: u32) -> TcpPacket {
    TcpPacket {
        payload_len,
        ..control_packet(
            connection.rcv_nxt().wrapping_add(ahead),
            connection.snd_nxt(),
            TcpSegmentFlags::ack(),
        )
    }
}

#[test]
fn second_delivery_is_acknowledged_at_once() {
    let mut connection = established();
    let start = connection.rcv_nxt();
    let room = RxDelivery::InOrder { accepted: 5, promoted: 0, rx_available: 1_000 };

    let packet = data(&connection, 0, 5);
    let arrival = tcp_established_receive(&mut connection, &packet, now()).expect("first");
    assert_eq!(arrival.payload, Some((0, 0)));
    let outcome = tcp_established_finish(&mut connection, &packet, arrival, room, now());
    assert!(outcome.reply.is_none() && outcome.ready);
    assert!(connection.timer_is_active(TCP_TIMER_DELAYED_ACK));

    let packet = TcpPacket {
        acknowledgment: None,
        flags: TcpSegmentFlags::empty(),
        ..data(&connection, 0, 5)
    };
    let arrival = tcp_established_receive(&mut connection, &packet, now()).expect("second");
    let outcome = tcp_established_finish(&mut connection, &packet, arrival, room, now());
    let reply = outcome.reply.expect("acknowledgment");
    assert_eq!(reply.acknowledgment, start + 10);
    assert_eq!(reply.advertised_window, 1_000);
    assert!(!connection.timer_is_active(TCP_TIMER_DELAYED_ACK));
}

#[test]
fn acknowledgments_put_owed_ones_off() {
    let mut connection = established();
    let room = RxDelivery::InOrder { accepted: 5, promoted: 0, rx_available: 1_000 };
    for _ in 0..3 {
        let packet = data(&connection, 0, 5);
        let arrival = tcp_established_receive(&mut connection, &packet, now()).expect("payload");
        assert!(!connection.timer_is_active(TCP_TIMER_DELAYED_ACK));
        let outcome = tcp_established_finish(&mut connection, &packet, arrival, room, now());
        assert!(outcome.reply.is_none());
        assert!(connection.timer_is_active(TCP_TIMER_DELAYED_ACK));
    }
}

#[test]
fn early_and_repeated_payloads_are_reported_at_once() {
    let mut connection = established();
    let start = connection.rcv_nxt();

    let early = data(&connection, 10, 5);
    let arrival = tcp_established_receive(&mut connection, &early, now()).expect("early");
    assert_eq!(arrival.payload, Some((0, 10)));
    let kept = RxDelivery::OutOfOrder { accepted: 5, start: 10, len: 5, rx_available: 995 };
    let outcome = tcp_established_finish(&mut connection, &early, arrival, kept, now());
    let reply = outcome.reply.expect("acknowledgment");
    assert!(!outcome.ready);
    assert_eq!(reply.acknowledgment, start);
    assert_eq!(connection.rcv_nxt(), start);

    let gap = data(&connection, 0, 10);
    let arrival = tcp_established_receive(&mut connection, &gap, now()).expect("gap");
    let filled = RxDelivery::InOrder { accepted: 10, promoted: 5, rx_available: 985 };
    let outcome = tcp_established_finish(&mut connection, &gap, arrival, filled, now());
    assert!(outcome.ready);
    assert_eq!(outcome.reply.expect("acknowledgment").acknowledgment, start + 15);

    let arrival = tcp_established_receive(&mut connection, &early, now()).expect("again");
    assert!(arrival.duplicate && arrival.payload.is_none());
    let nothing = RxDelivery::NotAccepted { rx_available: 985 };
    let outcome = tcp_established_finish(&mut connection, &early, arrival, nothing, now());
    assert_eq!(outcome.reply.expect("acknowledgment").acknowledgment, start + 15);
}

#[test]
fn batches_hand_out_full_frames() {
    let mut batch = LocalBatch::new(2);
    assert!(batch.take_frame().is_none());
    assert!(batch.emit(TcpRcvProcessNext::Drop, 1).is_none());
    assert!(batch.emit(TcpRcvProcessNext::Output, 2).is_none());
    let frame = batch.emit(TcpRcvProcessNext::Drop, 3).expect("full frame");
    assert_eq!(frame.indices, vec![1, 2]);
    assert_eq!(frame.nexts, vec![1, 0]);
    let rest = batch.take_frame().expect("rest");
    assert_eq!(rest.indices, vec![3]);
    assert_eq!(rest.nexts, vec![1]);
    assert!(batch.take_frame().is_none());
}

#[test]
fn close_wait_stage_takes_its_own_sessions() {
    let mut worker = Worker::with(established());
    let (rcv_nxt, snd_nxt) = (worker.session().rcv_nxt(), worker.session().snd_nxt());
    let packet = control_packet(rcv_nxt, snd_nxt, TcpSegmentFlags::ack());
    assert_eq!(
        TcpCloseWaitNode::session(&worker.lookup, &packet),
        Ok(worker.session_id)
    );
    let stranger = TcpPacket { remote: local_addr(), ..packet.clone() };
    assert_eq!(
        TcpCloseWaitNode::session(&worker.lookup, &stranger),
        Err(TcpCloseWaitError::SessionMissing)
    );
    assert_eq!(
        TcpCloseWaitNode::receive(worker.session(), &packet, now()).err(),
        Some(TcpCloseWaitError::WrongState)
    );

    worker.receive_established(control_packet(rcv_nxt, snd_nxt, fin_ack()));
    let again = control_packet(rcv_nxt, snd_nxt, fin_ack());
    let answer = TcpCloseWaitNode::receive(worker.session(), &again, now()).expect("close wait");
    assert!(answer.is_none());
    assert_eq!(worker.state(), TcpState::CloseWait);
    assert_eq!(
        TcpCloseWaitError::SessionMissing.message(),
        "tcp close-wait session is missing"
    );
    assert_eq!(
        TcpCloseWaitError::WrongState.message(),
        "tcp close-wait connection is in another state"
    );
}

#[test]
fn fin_wait2_stage_needs_a_queue_and_a_session() {
    let node = TcpFinWait2Node::new();
    assert_eq!(node.queue(), Err(TcpFinWait2Error::QueueMissing));
    let handle = SessionQueueHandle { slot: 3 };
    assert_eq!(node.with_session_queue(handle).queue(), Ok(handle));

    let mut worker = Worker::in_fin_wait1();
    let (rcv_nxt, snd_nxt) = (worker.session().rcv_nxt(), worker.session().snd_nxt());
    let packet = control_packet(rcv_nxt, snd_nxt, TcpSegmentFlags::ack());
    assert_eq!(
        TcpFinWait2Node::session(&worker.lookup, &packet),
        Ok(worker.session_id)
    );
    let stranger = TcpPacket { remote: local_addr(), ..packet.clone() };
    assert_eq!(
        TcpFinWait2Node::session(&worker.lookup, &stranger),
        Err(TcpFinWait2Error::SessionMissing)
    );
    assert_eq!(
        TcpFinWait2Node::receive(worker.session(), &packet, now()).err(),
        Some(TcpFinWait2Error::WrongState)
    );

    worker.receive(packet);
    let fin = control_packet(rcv_nxt, snd_nxt, fin_ack());
    let answer = TcpFinWait2Node::receive(worker.session(), &fin, now()).expect("fin wait 2");
    assert_eq!(answer.map(|segment| segment.acknowledgment), Some(rcv_nxt + 1));
    assert_eq!(worker.state(), TcpState::TimeWait);
    assert_eq!(
        TcpFinWait2Error::QueueMissing.message(),
        "tcp fin-wait2 node missing session queue"
    );
    assert_eq!(
        TcpFinWait2Error::SessionMissing.message(),
        "tcp fin-wait2 session is missing"
    );
    assert_eq!(
        TcpFinWait2Error::WrongState.message(),
        "tcp fin-wait2 connection is in another state"
    );
}

#[test]
fn accept_stage_passes_nothing_on() {
    let mut frame = vec![1, 2, 3];
    assert_eq!(TcpAcceptNode::process(&mut frame), TcpAcceptNext::Drop);
    assert!(frame.is_empty());
}
