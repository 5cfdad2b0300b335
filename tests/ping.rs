use ping_rs::icmp::{IcmpMessage, ReplyStep, Request, Response, ResponseError, MAX_RECV_RETRIES};
use ping_rs::ip::HdrIpv4;
use ping_rs::socket::{SocketError, SocketIcmp};
use ping_rs::statistics::Statistics;
use ping_rs::util::ip_checksum;

fn request(seq: u16) -> Request {
    Request::new([192, 168, 0, 1], 0x1234, seq, b"hello world!".to_vec(), 4000)
}

/// A datagram: a 20-byte IPv4 header from 10.0.0.7 with TTL 57, then `icmp`.
fn datagram(icmp: &[u8]) -> Vec<u8> {
    let mut d = vec![
        0x45, 0x00, 0x00, 0x00, 0x00, 0x00, 0x40, 0x00, 57, 0x01, 0x00, 0x00, 10, 0, 0, 7, 192,
        168, 0, 1,
    ];
    d.extend_from_slice(icmp);
    d
}

fn icmp_message(icmp_type: u8, code: u8, pid: u16, seq: u16, payload: &[u8]) -> Vec<u8> {
    let mut m = vec![icmp_type, code, 0, 0];
    m.extend_from_slice(&pid.to_be_bytes());
    m.extend_from_slice(&seq.to_be_bytes());
    m.extend_from_slice(payload);
    m
}

#[test]
fn it_calculates_the_correct_checksum() {
    let header = [
        0x45, 0x0, 0x0, 0x73, 0x0, 0x0, 0x40, 0x0, 0x40, 0x11, 0x0, 0x0, 0xc0, 0xa8, 0x0, 0x1,
        0xc0, 0xa8, 0x0, 0xc7,
    ];
    let checksum = ip_checksum(&header);
    let expected = u16::from_be_bytes([0xb8, 0x61]);
    assert_eq!(checksum, expected);
}

#[test]
fn checksum_of_empty_and_odd_input() {
    assert_eq!(ip_checksum(&[]), 0xFFFF);
    // a last odd byte is the high byte of its word
    assert_eq!(ip_checksum(&[0x01]), 0xFEFF);
    assert_eq!(ip_checksum(&[0x00, 0x01]), 0xFFFE);
}

#[test]
fn checksum_folds_carries() {
    // 0xFFFF + 0x0001 = 0x10000, folded to 0x0001
    assert_eq!(ip_checksum(&[0xFF, 0xFF, 0x00, 0x01]), 0xFFFE);
    // 0xFFFF + 0xFFFF = 0x1FFFE, folded to 0xFFFF
    assert_eq!(ip_checksum(&[0xFF, 0xFF, 0xFF, 0xFF]), 0x0000);
}

#[test]
fn checksum_written_back_gives_zero() {
    let mut header = [
        0x45, 0x0, 0x0, 0x73, 0x0, 0x0, 0x40, 0x0, 0x40, 0x11, 0x0, 0x0, 0xc0, 0xa8, 0x0, 0x1,
        0xc0, 0xa8, 0x0, 0xc7,
    ];
    let c = ip_checksum(&header);
    header[10..12].copy_from_slice(&c.to_be_bytes());
    assert_eq!(ip_checksum(&header), 0);

    let packet = request(7).pack();
    assert_eq!(ip_checksum(&packet), 0);
}

#[test]
fn pack_encodes_an_echo_request() {
    let packet = request(0x0102).pack();
    assert_eq!(&packet[0..2], &[8, 0]);
    assert_eq!(&packet[4..8], &[0x12, 0x34, 0x01, 0x02]);
    assert_eq!(&packet[8..], b"hello world!");
    let mut zeroed = packet.clone();
    zeroed[2] = 0;
    zeroed[3] = 0;
    assert_eq!(&packet[2..4], &ip_checksum(&zeroed).to_be_bytes());
}

#[test]
fn decode_of_encode_round_trips() {
    for (pid, seq, payload) in [(0x1234u16, 1u16, b"hello world!".to_vec()), (0, 0xFFFF, vec![]), (0xFFFF, 9, vec![7])] {
        let req = Request::new([1, 2, 3, 4], pid, seq, payload.clone(), 100);
        let msg = IcmpMessage::decode(&req.pack()).unwrap();
        assert_eq!(msg.icmp_type, 8);
        assert_eq!(msg.code, 0);
        assert_eq!(msg.identifier, pid);
        assert_eq!(msg.sequence, seq);
        assert_eq!(msg.payload, payload);
    }
}

#[test]
fn decode_rejects_truncated_message() {
    assert_eq!(IcmpMessage::decode(&[0, 0, 0, 0, 0, 0, 0]).unwrap_err(), ResponseError::TruncatedMessage);
    let msg = IcmpMessage::decode(&[0, 0, 0xAB, 0xCD, 0, 1, 0, 2]).unwrap();
    assert_eq!(msg.checksum, 0xABCD);
    assert!(msg.payload.is_empty());
}

#[test]
fn ipv4_header_is_parsed() {
    let d = datagram(&[]);
    let h = HdrIpv4::parse(&d).unwrap();
    assert_eq!(h.vers_ihl, 0x45);
    assert_eq!(h.ttl, 57);
    assert_eq!(h.protocol, 1);
    assert_eq!(h.flags_off, 0x4000);
    assert_eq!(h.src_addr, [10, 0, 0, 7]);
    assert_eq!(h.dst_addr, [192, 168, 0, 1]);
    assert!(HdrIpv4::parse(&d[..19]).is_none());
}

#[test]
fn parse_classifies_messages() {
    let reply = icmp_message(0, 0, 0x1234, 5, b"abc");
    match Response::parse(&reply, 0x1234, 5, [10, 0, 0, 7], 57, 1500) {
        Ok(Response::EchoReply { addr, seq, ttl, rtt_micros, data }) => {
            assert_eq!(addr, [10, 0, 0, 7]);
            assert_eq!(seq, 5);
            assert_eq!(ttl, 57);
            assert_eq!(rtt_micros, 1500);
            assert_eq!(data, b"abc".to_vec());
        }
        other => panic!("unexpected {:?}", other),
    }
    let unreachable = icmp_message(3, 1, 0, 0, &[]);
    assert!(matches!(Response::parse(&unreachable, 0x1234, 5, [0; 4], 0, 0), Ok(Response::HostUnreachable)));
    let other_seq = icmp_message(0, 0, 0x1234, 6, &[]);
    assert_eq!(Response::parse(&other_seq, 0x1234, 5, [0; 4], 0, 0).unwrap_err(), ResponseError::UnexpectedPacket);
    let net_unreachable = icmp_message(3, 0, 0, 0, &[]);
    assert_eq!(Response::parse(&net_unreachable, 0x1234, 5, [0; 4], 0, 0).unwrap_err(), ResponseError::UnexpectedPacket);
    assert_eq!(Response::parse(&[0, 0, 0], 0x1234, 5, [0; 4], 0, 0).unwrap_err(), ResponseError::TruncatedMessage);
}

#[test]
fn matching_reply_finishes_the_cycle() {
    let req = request(3);
    let d = datagram(&icmp_message(0, 0, 0x1234, 3, b"hello world!"));
    match req.on_receive(0, Ok(d.clone()), 2500) {
        ReplyStep::Finished(Response::EchoReply { addr, seq, ttl, rtt_micros, data }) => {
            assert_eq!(addr, [10, 0, 0, 7]);
            assert_eq!(seq, 3);
            assert_eq!(ttl, 57);
            assert_eq!(rtt_micros, 2500);
            assert_eq!(data, b"hello world!".to_vec());
            assert_eq!(d.len(), 20 + 8 + data.len());
        }
        other => panic!("unexpected {:?}", other),
    }
}

#[test]
fn unreachable_host_counts_as_error() {
    let req = request(1);
    let step = req.on_receive(0, Ok(datagram(&icmp_message(3, 1, 0, 0, &[]))), 10);
    let response = match step {
        ReplyStep::Finished(r) => r,
        other => panic!("unexpected {:?}", other),
    };
    assert!(matches!(response, Response::HostUnreachable));
    let mut stats = Statistics::new("example.org".to_string());
    stats.update(response);
    assert_eq!(stats.sent(), 1);
    assert_eq!(stats.errors(), 1);
    assert_eq!(stats.received(), 0);
    assert_eq!(stats.dropped(), 0);
}

#[test]
fn timeout_counts_as_dropped() {
    let req = request(1);
    let response = match req.on_receive(0, Err(SocketError::TimedOut), 0) {
        ReplyStep::Finished(r) => r,
        other => panic!("unexpected {:?}", other),
    };
    assert!(matches!(response, Response::Dropped));
    let mut stats = Statistics::new("example.org".to_string());
    stats.update(response);
    assert_eq!(stats.sent(), 1);
    assert_eq!(stats.dropped(), 1);
    assert_eq!(stats.received(), 0);
    assert_eq!(stats.errors(), 0);
}

#[test]
fn mismatched_replies_retry_until_the_ceiling() {
    let req = request(1);
    let other = datagram(&icmp_message(0, 0, 0x9999, 1, &[]));
    let mut retries = 0u8;
    for expected in 1..MAX_RECV_RETRIES {
        match req.on_receive(retries, Ok(other.clone()), 0) {
            ReplyStep::AwaitAgain(n) => {
                assert_eq!(n, expected);
                retries = n;
            }
            step => panic!("unexpected {:?}", step),
        }
    }
    assert_eq!(retries, 7);
    assert!(matches!(
        req.on_receive(retries, Ok(other), 0),
        ReplyStep::Failed(ResponseError::RetriesExceeded)
    ));
}

#[test]
fn short_datagrams_and_receive_errors_fail_the_cycle() {
    let req = request(1);
    assert!(matches!(req.on_receive(0, Ok(vec![0x45; 19]), 0), ReplyStep::Failed(ResponseError::MalformedHeader)));
    assert!(matches!(req.on_receive(0, Ok(datagram(&[0, 0, 0, 0])), 0), ReplyStep::Failed(ResponseError::TruncatedMessage)));
    assert!(matches!(
        req.on_receive(0, Err(SocketError::IoError(4)), 0),
        ReplyStep::Failed(ResponseError::Receive(SocketError::IoError(4)))
    ));
    assert!(matches!(
        req.on_receive(2, Err(SocketError::PollError(8)), 0),
        ReplyStep::Failed(ResponseError::Receive(SocketError::PollError(8)))
    ));
}

#[test]
fn statistics_account_for_every_outcome() {
    let mut stats = Statistics::new("localhost".to_string());
    assert_eq!(stats.packet_loss_percent(), 0);
    assert_eq!(stats.rtt_min(), None);
    assert_eq!(stats.rtt_max(), None);
    assert_eq!(stats.rtt_total(), 0);
    let outcomes = vec![
        Response::EchoReply { addr: [1, 1, 1, 1], seq: 1, ttl: 60, rtt_micros: 3000, data: vec![] },
        Response::Dropped,
        Response::EchoReply { addr: [1, 1, 1, 1], seq: 3, ttl: 60, rtt_micros: 1000, data: vec![] },
        Response::HostUnreachable,
        Response::EchoReply { addr: [1, 1, 1, 1], seq: 5, ttl: 60, rtt_micros: 2000, data: vec![] },
        Response::Dropped,
    ];
    let n = outcomes.len() as u32;
    for o in outcomes {
        stats.update(o);
    }
    assert_eq!(stats.destination(), "localhost");
    assert_eq!(stats.sent(), n);
    assert_eq!(stats.received(), 3);
    assert_eq!(stats.errors(), 1);
    assert_eq!(stats.dropped(), 2);
    assert!(stats.received() + stats.errors() + stats.dropped() <= stats.sent());
    assert_eq!(stats.rtt(), &[3000, 1000, 2000]);
    assert_eq!(stats.rtt_min(), Some(1000));
    assert_eq!(stats.rtt_max(), Some(3000));
    assert_eq!(stats.rtt_total(), 6000);
    // 3 of 6 lost
    assert_eq!(stats.packet_loss_percent(), 50);
}

#[test]
fn packet_loss_percent_values() {
    let mut stats = Statistics::new("h".to_string());
    stats.update(Response::Dropped);
    assert_eq!(stats.packet_loss_percent(), 100);
    stats.update(Response::EchoReply { addr: [0; 4], seq: 2, ttl: 1, rtt_micros: 5, data: vec![] });
    stats.update(Response::EchoReply { addr: [0; 4], seq: 3, ttl: 1, rtt_micros: 5, data: vec![] });
    // 1 of 3 lost: 33.3%
    assert_eq!(stats.packet_loss_percent(), 33);
    stats.update(Response::EchoReply { addr: [0; 4], seq: 4, ttl: 1, rtt_micros: 5, data: vec![] });
    assert_eq!(stats.packet_loss_percent(), 25);
}

#[test]
fn packet_loss_rounds_to_nearest() {
    let mut stats = Statistics::new("h".to_string());
    stats.update(Response::Dropped);
    stats.update(Response::Dropped);
    stats.update(Response::EchoReply { addr: [0; 4], seq: 3, ttl: 1, rtt_micros: 5, data: vec![] });
    // 2 of 3 lost: 66.7%
    assert_eq!(stats.packet_loss_percent(), 67);
    let mut stats = Statistics::new("h".to_string());
    stats.update(Response::HostUnreachable);
    for seq in 2..=8u16 {
        stats.update(Response::EchoReply { addr: [0; 4], seq, ttl: 1, rtt_micros: 5, data: vec![] });
    }
    // 1 of 8 lost: 12.5%, halves up
    assert_eq!(stats.packet_loss_percent(), 13);
}

#[test]
fn reply_to_packed_request_gives_back_its_payload() {
    let req = request(9);
    let mut reply = req.pack();
    reply[0] = 0;
    match Response::parse(&reply, 0x1234, 9, [10, 0, 0, 7], 64, 7) {
        Ok(Response::EchoReply { seq, data, .. }) => {
            assert_eq!(seq, 9);
            assert_eq!(data, b"hello world!".to_vec());
        }
        other => panic!("unexpected {:?}", other),
    }
}

#[test]
fn one_deadline_covers_the_cycle() {
    let req = request(1);
    assert_eq!(req.receive_wait(0), 4000);
    assert_eq!(req.receive_wait(1500), 2500);
    assert_eq!(req.receive_wait(4000), 0);
    assert_eq!(req.receive_wait(u64::MAX), 0);
    let negative = Request::new([1, 2, 3, 4], 1, 1, vec![], -5);
    assert_eq!(negative.receive_wait(0), 0);
}

#[test]
fn checksum_of_largest_input() {
    // 65537 words of 0xFFFF sum to u32::MAX, which folds to 0xFFFF
    let bytes = vec![0xFFu8; 131074];
    assert_eq!(ip_checksum(&bytes), 0);
    let mut odd = vec![0u8; 131073];
    odd[131072] = 0x12;
    assert_eq!(ip_checksum(&odd), !0x1200u16);
}

#[test]
fn socket_results_are_classified() {
    assert!(matches!(SocketIcmp::from_descriptor(-1, 1, 4000), Err(SocketError::IoError(1))));
    let s = SocketIcmp::from_descriptor(3, 0, 4000).unwrap();
    assert_eq!(s.fd(), 3);
    assert_eq!(s.timeout(), 4000);
    assert_eq!(SocketIcmp::transfer_result(-1, 11), Err(SocketError::IoError(11)));
    assert_eq!(SocketIcmp::transfer_result(36, 0), Ok(36));
    assert_eq!(SocketIcmp::readiness(0, 0, false), Err(SocketError::TimedOut));
    assert_eq!(SocketIcmp::readiness(1, 1, true), Ok(()));
    assert_eq!(SocketIcmp::readiness(1, 8, false), Err(SocketError::PollError(8)));
}
