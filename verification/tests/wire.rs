use hammer_transport::bytes::{
    be_u128, be_u16, be_u32, push_be128, push_be16, push_be32, push_be64, push_bytes,
};
use hammer_transport::checksum::{internet_checksum, internet_checksum_parts};
use hammer_transport::congestion::node::{CongestionControlNext, CongestionControlNode};
use hammer_transport::tcp::cursor::{
    tcp_control_cursor, PacketCursor, TcpControlPacketParseError,
};
use hammer_transport::tcp::errors::{TcpError, TcpNodeError, TcpOutputError, TcpResetError};
use hammer_transport::tcp::header::{push_control_header, tcp_header};
use hammer_transport::tcp::options::tcp_capabilities_from_options;
use hammer_transport::tcp::output::{tcp_output_next, TcpOutputNext, TCP_FLAG_ACK, TCP_FLAG_PSH};
use hammer_transport::tcp::policy::{
    TcpConfig, TcpKeepaliveConfig, TcpPmtuConfig, TcpPolicy, TcpRetransmitConfig,
};
use hammer_transport::tcp::reply;
use hammer_transport::tcp::reply::ControlCursorError;
use hammer_transport::tcp::reset::{
    tcp_reset_next, tcp_reset_prepare_from_current, IpRoute, TcpResetNext,
};
use hammer_transport::tcp::types::{IpAddress, SocketAddress, TcpSegmentFlags};
use hammer_transport::time::Duration;
use hammer_transport::transport::{
    Pacer, SessionHandle, TransportConnection, TransportConnectionFlags, TransportError,
    TransportOptions, TransportSendFlags, TransportSendParams, TransportServiceType,
    TransportTxMode, TransportVftTable, PACER_MAX_BURST,
};

#[test]
fn parses_max_segment_size_option() {
    let capabilities = tcp_capabilities_from_options(&[2, 4, 0x05, 0xb4]);

    assert_eq!(capabilities.max_segment_size, Some(1_460));
}

#[test]
fn skips_nop_and_stops_at_eol() {
    let capabilities = tcp_capabilities_from_options(&[1, 2, 4, 0x04, 0xc4, 0, 2, 4, 0x01, 0]);

    assert_eq!(capabilities.max_segment_size, Some(1_220));
}

#[test]
fn broken_options_announce_nothing() {
    assert_eq!(tcp_capabilities_from_options(&[]).max_segment_size, None);
    assert_eq!(tcp_capabilities_from_options(&[2, 4, 5]).max_segment_size, None);
    assert_eq!(tcp_capabilities_from_options(&[3, 1, 2, 4, 5, 0]).max_segment_size, None);
    assert_eq!(
        tcp_capabilities_from_options(&[3, 3, 7, 2, 4, 5, 0]).max_segment_size,
        Some(1_280)
    );
}

fn data_segment() -> Vec<u8> {
    let mut segment = Vec::new();
    push_be16(&mut segment, 50_000);
    push_be16(&mut segment, 443);
    push_be32(&mut segment, 100);
    push_be32(&mut segment, 200);
    push_bytes(&mut segment, &[0x50, TCP_FLAG_ACK | TCP_FLAG_PSH, 0x10, 0x00, 0, 0, 0, 0]);
    push_bytes(&mut segment, b"hello");
    segment
}

#[test]
fn tcp_output_routes_tcp_buffers_to_lookup() {
    let packet = data_segment();

    assert_eq!(tcp_output_next(&packet), (TcpOutputNext::Lookup, None));

    assert_eq!(&packet[0..2], &[0xc3, 0x50]);
    assert_eq!(&packet[2..4], &[0x01, 0xbb]);
    assert_eq!(&packet[4..8], &[0, 0, 0, 100]);
    assert_eq!(&packet[8..12], &[0, 0, 0, 200]);
    assert_eq!(packet[12] >> 4, 5);
    assert_eq!(packet[13] & TCP_FLAG_ACK, TCP_FLAG_ACK);
    assert_eq!(packet[13] & TCP_FLAG_PSH, TCP_FLAG_PSH);
    assert_eq!(&packet[14..16], &[0x10, 0x00]);
    assert_eq!(&packet[20..], b"hello");
}

#[test]
fn tcp_output_non_tcp_buffer_routes_drop() {
    assert_eq!(
        tcp_output_next(b"hello"),
        (TcpOutputNext::Drop, Some(TcpOutputError::NoTcpHeader))
    );
    let mut short = data_segment();
    short[12] = 0x40;
    assert_eq!(tcp_output_next(&short).0, TcpOutputNext::Drop);
    short[12] = 0x70;
    assert_eq!(tcp_output_next(&short).0, TcpOutputNext::Drop);
}

#[test]
fn headers_are_read_as_other_parsers_read_them() {
    let segment = data_segment();
    let ours = tcp_header(&segment).expect("header");
    let theirs = etherparse::TcpSlice::from_slice(&segment).expect("tcp segment");
    assert_eq!(ours.source_port, theirs.source_port());
    assert_eq!(ours.destination_port, theirs.destination_port());
    assert_eq!(ours.sequence_number, theirs.sequence_number());
    assert_eq!(ours.acknowledgment_number, theirs.acknowledgment_number());
    assert_eq!(ours.header_len, theirs.header_len());
    assert_eq!(ours.window, theirs.window_size());
    assert_eq!(
        ours.flags,
        TcpSegmentFlags { psh: true, ..TcpSegmentFlags::ack() }
    );
}

#[test]
fn written_headers_are_read_back() {
    let mut segment = Vec::new();
    push_control_header(&mut segment, 80, 50_000, 9_000, 1_000, 0x14, 0xbeef);
    let header = tcp_header(&segment).expect("header");
    assert_eq!((header.source_port, header.destination_port), (80, 50_000));
    assert_eq!(header.sequence_number, 9_000);
    assert_eq!(header.acknowledgment_number, 1_000);
    assert_eq!(header.header_len, 20);
    assert_eq!(header.flags, TcpSegmentFlags { rst: true, ..TcpSegmentFlags::ack() });
    assert_eq!(be_u16(&segment, 16), 0xbeef);
}

fn ipv4_tcp_packet(flags: u8, sequence: u32, acknowledgment: u32, payload: &[u8]) -> Vec<u8> {
    let packet_len = 20 + 20 + payload.len();
    let total_len = u16::try_from(packet_len).expect("packet length fits");
    let mut packet = vec![0u8; packet_len];
    packet[0] = 0x45;
    packet[2..4].copy_from_slice(&total_len.to_be_bytes());
    packet[8] = 64;
    packet[9] = 6;
    packet[12..16].copy_from_slice(&[192, 0, 2, 1]);
    packet[16..20].copy_from_slice(&[198, 51, 100, 2]);
    packet[20..22].copy_from_slice(&50_000u16.to_be_bytes());
    packet[22..24].copy_from_slice(&80u16.to_be_bytes());
    packet[24..28].copy_from_slice(&sequence.to_be_bytes());
    packet[28..32].copy_from_slice(&acknowledgment.to_be_bytes());
    packet[32] = 0x50;
    packet[33] = flags;
    packet[34..36].copy_from_slice(&4096u16.to_be_bytes());
    packet[40..].copy_from_slice(payload);
    let tcp_checksum = ipv4_l4_checksum([192, 0, 2, 1], [198, 51, 100, 2], 6, &packet[20..]);
    packet[36..38].copy_from_slice(&tcp_checksum.to_be_bytes());
    let ip_checksum = internet_checksum(&packet[..20]);
    packet[10..12].copy_from_slice(&ip_checksum.to_be_bytes());
    packet
}

fn ipv4_l4_checksum(source: [u8; 4], destination: [u8; 4], protocol: u8, segment: &[u8]) -> u16 {
    internet_checksum_parts(&[
        source.to_vec(),
        destination.to_vec(),
        vec![0, protocol],
        (segment.len() as u16).to_be_bytes().to_vec(),
        segment.to_vec(),
    ])
}

fn buffer_packet_cursor(packet_len: usize) -> PacketCursor {
    PacketCursor {
        packet_len,
        network_header_offset: 0,
        network_header_len: 20,
        transport_header_offset: 20,
        transport_header_len: 20,
        transport_payload_offset: 40,
    }
}

#[test]
fn tcp_reset_node_rewrites_buffer_and_routes_to_lookup() {
    let packet = ipv4_tcp_packet(0x10, 1_000, 9_000, &[]);

    let outcome = tcp_reset_next(&packet, buffer_packet_cursor(40), 512, false);

    assert_eq!(outcome.next, TcpResetNext::Lookup);
    let reply = outcome.reply.expect("reply");
    let reply_tcp = etherparse::TcpSlice::from_slice(&reply.packet[20..]).expect("parse reply");
    assert_eq!(reply.cursor.packet_len, reply.packet.len());
    assert_eq!(reply.cursor.network_header_offset, 0);
    assert_eq!(reply.cursor.transport_header_offset, 20);
    assert_eq!(reply.cursor.transport_payload_offset, 40);
    assert!(reply_tcp.rst());
    assert_eq!(reply_tcp.sequence_number(), 9_000);
}

#[test]
fn resets_go_back_with_valid_checksums() {
    let packet = ipv4_tcp_packet(0x02, 1_000, 0, b"hello");
    let reset = tcp_reset_prepare_from_current(&packet, buffer_packet_cursor(45)).expect("reset");
    assert_eq!(
        reset.route,
        IpRoute::V4 { source: 0xc633_6402, destination: 0xc000_0201 }
    );
    assert_eq!((reset.source_port, reset.destination_port), (80, 50_000));
    assert_eq!((reset.sequence, reset.acknowledgment), (0, 1_006));
    assert_eq!(reset.flags, 0x14);

    let answer = reset.packet(true);
    assert_eq!(answer[6], 0x40);
    assert_eq!(internet_checksum(&answer[..20]), 0);
    assert_eq!(
        ipv4_l4_checksum([198, 51, 100, 2], [192, 0, 2, 1], 6, &answer[20..]),
        0
    );
    assert_eq!(reset.packet(false)[6], 0);
    assert_eq!(tcp_control_cursor(&answer), Ok(buffer_packet_cursor(40)));
}

#[test]
fn resets_answer_over_ipv6_too() {
    let mut packet = vec![0u8; 60];
    packet[0] = 0x60;
    packet[5] = 20;
    packet[6] = 6;
    packet[7] = 64;
    packet[23] = 1;
    packet[39] = 2;
    packet[40..42].copy_from_slice(&50_000u16.to_be_bytes());
    packet[42..44].copy_from_slice(&80u16.to_be_bytes());
    packet[52] = 0x50;
    packet[53] = 0x02;
    let cursor = tcp_control_cursor(&packet).expect("cursor");
    let outcome = tcp_reset_next(&packet, cursor, 60, false);
    let answer = outcome.reply.expect("reply").packet;
    assert_eq!(be_u128(&answer, 8), 2);
    assert_eq!(be_u128(&answer, 24), 1);
    assert_eq!(
        internet_checksum_parts(&[
            answer[8..40].to_vec(),
            vec![0, 0, 0, 20],
            vec![0, 0, 0, 6],
            answer[40..].to_vec(),
        ]),
        0
    );
    assert_eq!(
        tcp_reset_next(&packet, cursor, 59, false).next,
        TcpResetNext::Drop
    );
}

#[test]
fn resets_are_not_answered() {
    let packet = ipv4_tcp_packet(0x04, 1_000, 9_000, &[]);
    let outcome = tcp_reset_next(&packet, buffer_packet_cursor(40), 512, false);
    assert_eq!(outcome.next, TcpResetNext::Drop);
    assert!(outcome.reply.is_none());
}

#[test]
fn cursors_need_whole_headers() {
    let packet = ipv4_tcp_packet(0x10, 1, 2, b"abc");
    assert_eq!(
        tcp_control_cursor(&packet),
        Ok(PacketCursor { packet_len: 43, ..buffer_packet_cursor(43) })
    );
    assert_eq!(tcp_control_cursor(&[]), Err(TcpControlPacketParseError::EmptyPacket));
    assert_eq!(
        tcp_control_cursor(&[0x10]),
        Err(TcpControlPacketParseError::UnsupportedIpVersion)
    );
    assert_eq!(
        tcp_control_cursor(&packet[..39]),
        Err(TcpControlPacketParseError::PacketTooShort)
    );
    assert_eq!(
        tcp_control_cursor(&packet[..42]),
        Err(TcpControlPacketParseError::InvalidCursor)
    );
    let mut long = packet.clone();
    long[32] = 0x60;
    assert_eq!(
        tcp_control_cursor(&long),
        Err(TcpControlPacketParseError::InvalidHeaderLength)
    );
}

#[test]
fn replies_are_for_ipv4() {
    let packet = ipv4_tcp_packet(0x10, 1, 2, b"abc");
    assert_eq!(
        reply::tcp_control_cursor(&packet),
        Ok(PacketCursor { packet_len: 43, ..buffer_packet_cursor(43) })
    );
    assert_eq!(reply::tcp_control_cursor(&[]), Err(ControlCursorError::Empty));
    assert_eq!(reply::tcp_control_cursor(&[0x60; 60]), Err(ControlCursorError::NotIpv4));
    assert_eq!(
        reply::tcp_control_cursor(&packet[..39]),
        Err(ControlCursorError::TooShort)
    );
    assert_eq!(
        reply::tcp_control_cursor(&packet[..42]),
        Err(ControlCursorError::CursorInvalid)
    );
    let mut long = packet.clone();
    long[32] = 0x60;
    assert_eq!(
        reply::tcp_control_cursor(&long),
        Err(ControlCursorError::HeaderLengthInvalid)
    );
    let messages = [
        (ControlCursorError::Empty, "tcp control packet is empty"),
        (ControlCursorError::NotIpv4, "tcp control packet must be IPv4"),
        (ControlCursorError::TooShort, "tcp control packet is too short"),
        (ControlCursorError::CursorInvalid, "tcp control packet cursor is invalid"),
        (ControlCursorError::HeaderLengthInvalid, "tcp control header length is invalid"),
    ];
    for (error, message) in messages {
        assert_eq!(error.message(), message);
    }
}

#[test]
fn checksums_are_ones_complement_sums() {
    assert_eq!(internet_checksum(&[]), 0xffff);
    assert_eq!(internet_checksum(&[0x00, 0x01, 0xf2, 0x03, 0xf4, 0xf5, 0xf6, 0xf7]), 0x220d);
    assert_eq!(internet_checksum(&[0x12]), !0x1200);
    assert_eq!(
        internet_checksum_parts(&[vec![0x00, 0x01], vec![0xf2, 0x03, 0xf4, 0xf5, 0xf6, 0xf7]]),
        0x220d
    );
}

#[test]
fn numbers_are_written_most_significant_byte_first() {
    let mut out = Vec::new();
    push_be16(&mut out, 0x0102);
    push_be32(&mut out, 0x0304_0506);
    push_be64(&mut out, 0x0708_090a_0b0c_0d0e);
    assert_eq!(out, (1..=14).collect::<Vec<u8>>());
    assert_eq!(be_u16(&out, 2), 0x0304);
    assert_eq!(be_u32(&out, 4), 0x0506_0708);
    let mut wide = vec![9];
    push_be128(&mut wide, 0x0102_0304_0506_0708_090a_0b0c_0d0e_0f10);
    assert_eq!(be_u128(&wide, 1), 0x0102_0304_0506_0708_090a_0b0c_0d0e_0f10);
}

#[test]
fn stage_errors_have_codes_and_words() {
    let expected = [
        (TcpNodeError::SessionMissing, "invalid connection", TcpError::InvalidConnection),
        (TcpNodeError::EstablishedSessionMissing, "invalid connection", TcpError::InvalidConnection),
        (
            TcpNodeError::EstablishedSessionRouteMissing,
            "invalid connection",
            TcpError::InvalidConnection,
        ),
        (TcpNodeError::RcvProcessSessionMissing, "invalid connection", TcpError::InvalidConnection),
        (
            TcpNodeError::RcvProcessSessionRouteMissing,
            "invalid connection",
            TcpError::InvalidConnection,
        ),
        (TcpNodeError::SynSentSessionMissing, "invalid connection", TcpError::InvalidConnection),
        (
            TcpNodeError::SynSentSessionRouteMissing,
            "invalid connection",
            TcpError::InvalidConnection,
        ),
        (TcpNodeError::TimerUpdateFailed, "dispatch error", TcpError::Dispatch),
        (TcpNodeError::TxOffsetOverflow, "dispatch error", TcpError::Dispatch),
        (TcpNodeError::BadChecksum, "bad TCP checksum", TcpError::SegmentInvalid),
        (TcpNodeError::ResetReceived, "RST received", TcpError::ConnectionClosed),
        (TcpNodeError::BadSegment, "bad segment", TcpError::SegmentInvalid),
        (TcpNodeError::NoListener, "no listener", TcpError::NoListener),
        (TcpNodeError::ConnectionCreate, "connection create failed", TcpError::InvalidConnection),
        (TcpNodeError::RackTimeout, "RACK timeout", TcpError::Dispatch),
        (TcpNodeError::TlpProbe, "TLP probe", TcpError::Dispatch),
        (TcpNodeError::Retransmit, "retransmit", TcpError::Dispatch),
        (TcpNodeError::PacingLimited, "pacing limited", TcpError::Dispatch),
        (TcpNodeError::PersistTimer, "persist timer", TcpError::Dispatch),
        (TcpNodeError::BbrCongestion, "BBR congestion", TcpError::Dispatch),
        (TcpNodeError::BadWindow, "bad window", TcpError::RcvWnd),
    ];
    for (code, (error, message, general)) in expected.into_iter().enumerate() {
        assert_eq!(usize::from(error.code()), code);
        assert_eq!(error.message(), message);
        assert_eq!(TcpError::from(error), general);
    }
    assert_eq!(TcpOutputError::NoTcpHeader.code(), 0);
    assert_eq!(TcpOutputError::NoTcpHeader.message(), "not a TCP header");
    assert_eq!(TcpResetError::BadTcpHeader.code(), 0);
    assert_eq!(TcpResetError::BadTcpHeader.message(), "bad TCP header");
}

#[test]
fn congestion_stage_needs_both_addresses() {
    let address = Some(SocketAddress::new(IpAddress::V4(1), 2));
    assert_eq!(
        CongestionControlNode::next(address, address),
        CongestionControlNext::Transmit
    );
    assert_eq!(CongestionControlNode::next(address, None), CongestionControlNext::Drop);
    assert_eq!(CongestionControlNode::next(None, address), CongestionControlNext::Drop);
}

#[test]
fn policies_follow_their_configuration() {
    let defaults = TcpPolicy::production_defaults();
    assert_eq!(defaults.mss, 1_440);
    assert_eq!(defaults.receive_window, 65_535);
    assert_eq!(defaults.time_wait, Duration::from_secs(60));
    assert_eq!(defaults.paws_idle, Duration::from_secs(24 * 86_400));
    assert_eq!(defaults.retransmit_min, Duration::from_millis(50));
    assert_eq!(defaults.keepalive_probe_limit, 8);
    let config = TcpConfig {
        mss: 1_400,
        receive_window: 9,
        nagle: false,
        time_wait: Duration::from_secs(1),
        paws_idle: Duration::from_secs(2),
        retransmit: TcpRetransmitConfig {
            initial: Duration::from_millis(3),
            min: Duration::from_millis(4),
            max: Duration::from_millis(5),
        },
        keepalive: TcpKeepaliveConfig {
            idle: Duration::from_secs(6),
            probe_interval: Duration::from_secs(7),
            probe_limit: 8,
        },
        pmtu: TcpPmtuConfig { enabled: false },
    };
    let policy = TcpPolicy::from_config(&config);
    assert_eq!(policy.mss, 1_400);
    assert_eq!(policy.retransmit_max, Duration::from_millis(5));
    assert_eq!(policy.keepalive_probe_interval, Duration::from_secs(7));
    assert!(!policy.nagle && !policy.pmtu_enabled);
}

#[test]
fn pacers_grant_bursts_while_they_have_tokens() {
    let mut pacer = Pacer::default();
    assert!(!pacer.is_enabled());
    assert_eq!(pacer.update(5, None), PACER_MAX_BURST);
    pacer.update_bytes(100);
    assert_eq!(pacer.update(7, None), 0);
    assert_eq!(pacer.last_update, 0);
    assert_eq!(pacer.elapsed(7), 7);
    assert_eq!(pacer.update(7, Some(100)), PACER_MAX_BURST);
    assert_eq!(pacer.elapsed(6), 0);
    assert_eq!(pacer.update(9, Some(1_000_000)), PACER_MAX_BURST);
    assert_eq!(pacer.bucket, i64::from(PACER_MAX_BURST));
}

#[test]
fn scheduling_again_empties_a_paced_bucket() {
    let mut connection = TransportConnection {
        session: SessionHandle { session_index: 1, worker_index: 2 },
        connection_index: 3,
        worker_index: 2,
        flags: TransportConnectionFlags {
            tx_paced: true,
            descheduled: true,
            ..TransportConnectionFlags::default()
        },
        endpoint: (),
        pacer: Pacer { bucket: 9, ..Pacer::new() },
        opaque: (),
    };
    assert!(connection.is_descheduled() && connection.is_tx_paced());
    assert!(!connection.is_connectionless());
    connection.clear_descheduled(44);
    assert!(!connection.is_descheduled());
    assert_eq!((connection.pacer.bucket, connection.pacer.last_update), (0, 44));
}

#[test]
fn transports_keep_their_slots() {
    let mut table: TransportVftTable<u16> = TransportVftTable::new();
    assert_eq!(table.get(0), None);
    for number in 0..255u16 {
        assert_eq!(table.register(number), Ok((number + 1) as u8));
    }
    assert_eq!(table.register(999), Err(TransportError::ProtocolSlotsExhausted));
    assert_eq!(table.get(1), Some(0));
    assert_eq!(table.get(255), Some(254));
    assert_eq!(
        TransportError::ProtocolSlotsExhausted.message(),
        "transport protocol slots are exhausted"
    );
    assert_eq!(
        TransportError::RegistryUnavailable.message(),
        "global TRANSPORT_VFTS is not initialized"
    );
    let options =
        TransportOptions::new(TransportTxMode::Peek, TransportServiceType::VirtualCircuit);
    assert_eq!(options.tx_mode(), TransportTxMode::Peek);
    assert_eq!(options.service_type(), TransportServiceType::VirtualCircuit);
    assert_eq!(TransportSendParams::default().flags, TransportSendFlags::default());
}
