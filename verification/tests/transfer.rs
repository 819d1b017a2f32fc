//! The reliable transfer engine: the Go-Back-N window, cumulative
//! acknowledgments, retransmission, the cumulative receiver, and
//! wrap-around of the sequence space.

use styx::packet::{StyxPacket, ACK, FIN, MAX_PAYLOAD, SYN, SYN_ACK};
use styx::receiver::{GoBackNReceiver, RecvOutcome};
use styx::sender::{split_message, GoBackNSender};
use styx::seqnum::{seq_advance, seq_le_exec, seq_lt_exec, seq_next, seq_sub};

fn data_at(seq: u32, payload: Vec<u8>) -> styx::packet::StyxPacket {
    styx::packet::StyxPacket { sequence_number: seq, ack_number: 0, flags: 0, payload }
}

#[test]
fn single_packet_data_exchange() {
    // after a handshake with client ISN 100 both sides agree on 101
    let mut snd = GoBackNSender::new(101, 4);
    let mut rcv = GoBackNReceiver::new(101);

    let pkt = snd.send_data(b"hello".to_vec());
    assert_eq!(pkt.sequence_number, 101);
    assert_eq!(pkt.flags, 0);
    assert_eq!(pkt.payload, b"hello".to_vec());
    assert!(snd.timer);

    match rcv.on_segment(500, &pkt) {
        RecvOutcome::Deliver { data, ack } => {
            assert_eq!(data, b"hello".to_vec());
            assert_eq!(ack.ack_number, 106);
            assert_eq!(ack.flags, ACK);
            let advanced = snd.on_ack(ack.ack_number);
            assert!(advanced);
        },
        _ => panic!("in-order data must be delivered"),
    }
    assert_eq!(snd.base, 106);
    assert_eq!(rcv.rcv_nxt, 106);
    assert!(!snd.timer);
}

#[test]
fn window_admission_stops_at_window_size() {
    let mut snd = GoBackNSender::new(101, 4);
    for _ in 0..4 {
        assert!(snd.can_send());
        snd.send_data(vec![b'x']);
    }
    assert!(!snd.can_send());
}

#[test]
fn lost_segment_is_retransmitted_and_delivered_once() {
    // window 4, one-byte payloads: seqs 101..=104; the network drops 103
    let mut snd = GoBackNSender::new(101, 4);
    let p1 = snd.send_data(vec![b'a']);
    let p2 = snd.send_data(vec![b'b']);
    let p3 = snd.send_data(vec![b'c']);
    let p4 = snd.send_data(vec![b'd']);
    assert_eq!(
        [p1.sequence_number, p2.sequence_number, p3.sequence_number, p4.sequence_number],
        [101, 102, 103, 104]
    );

    let mut rcv = GoBackNReceiver::new(101);
    let mut delivered: Vec<(u32, Vec<u8>)> = Vec::new();

    // 101 and 102 arrive and are delivered in order
    for p in [&p1, &p2] {
        match rcv.on_segment(500, p) {
            RecvOutcome::Deliver { data, ack } => {
                delivered.push((p.sequence_number, data));
                assert_eq!(ack.ack_number, p.sequence_number + 1);
                snd.on_ack(ack.ack_number);
            },
            _ => panic!("in-order data must be delivered"),
        }
    }
    assert_eq!(snd.base, 103);

    // 103 is lost; 104 arrives out of order and only re-acks 103
    match rcv.on_segment(500, &p4) {
        RecvOutcome::DupAck { ack } => {
            assert_eq!(ack.ack_number, 103);
            let advanced = snd.on_ack(ack.ack_number);
            assert!(!advanced, "a duplicate cumulative ack must not move the base");
        },
        _ => panic!("out-of-order data must be dropped and re-acked"),
    }
    assert_eq!(rcv.rcv_nxt, 103);

    // the timer fires: everything from the base is retransmitted
    let again = snd.retransmission_list();
    assert_eq!(again.len(), 2);
    assert_eq!(again[0].sequence_number, 103);
    assert_eq!(again[1].sequence_number, 104);

    for p in &again {
        match rcv.on_segment(500, p) {
            RecvOutcome::Deliver { data, ack } => {
                delivered.push((p.sequence_number, data));
                snd.on_ack(ack.ack_number);
            },
            _ => panic!("retransmitted data must now be in order"),
        }
    }

    assert_eq!(snd.base, 105);
    assert!(!snd.timer);
    assert_eq!(
        delivered,
        vec![
            (101, vec![b'a']),
            (102, vec![b'b']),
            (103, vec![b'c']),
            (104, vec![b'd']),
        ],
        "payloads 101..=104 in order, exactly once"
    );
}

#[test]
fn cumulative_ack_covers_several_segments() {
    let mut snd = GoBackNSender::new(10, 4);
    snd.send_data(vec![1]);
    snd.send_data(vec![2, 3]);
    snd.send_data(vec![4]);
    assert_eq!(snd.next, 14);
    // one ack for the first two segments (bytes 10, 11 and 12)
    let advanced = snd.on_ack(13);
    assert!(advanced);
    assert_eq!(snd.base, 13);
    assert_eq!(snd.buffer.len(), 1);
    assert!(snd.timer);
}

#[test]
fn stale_and_overreaching_acks_are_ignored() {
    let mut snd = GoBackNSender::new(100, 4);
    snd.send_data(vec![9]);
    assert!(!snd.on_ack(100), "ack at the base is a duplicate");
    assert!(!snd.on_ack(90), "ack behind the base is a duplicate");
    assert!(!snd.on_ack(150), "ack beyond snd_nxt acknowledges nothing sent");
    assert_eq!(snd.base, 100);
    assert_eq!(snd.buffer.len(), 1);
}

#[test]
fn sequence_space_wraps_across_zero() {
    let mut snd = GoBackNSender::new(u32::MAX - 1, 4);
    let pkt = snd.send_data(vec![1, 2, 3, 4]);
    assert_eq!(pkt.sequence_number, u32::MAX - 1);
    assert_eq!(snd.next, 2, "snd_nxt wraps modulo 2^32");

    let mut rcv = GoBackNReceiver::new(u32::MAX - 1);
    match rcv.on_segment(7, &pkt) {
        RecvOutcome::Deliver { data, ack } => {
            assert_eq!(data, vec![1, 2, 3, 4]);
            assert_eq!(ack.ack_number, 2);
            assert!(snd.on_ack(ack.ack_number));
        },
        _ => panic!("in-order data must be delivered across the wrap"),
    }
    assert_eq!(snd.base, 2);
    assert!(snd.buffer.is_empty());
}

#[test]
fn duplicate_data_is_not_delivered_twice() {
    let mut rcv = GoBackNReceiver::new(50);
    let pkt = data_at(50, vec![b'z']);
    assert!(matches!(rcv.on_segment(1, &pkt), RecvOutcome::Deliver { .. }));
    assert_eq!(rcv.rcv_nxt, 51);
    match rcv.on_segment(1, &pkt) {
        RecvOutcome::DupAck { ack } => assert_eq!(ack.ack_number, 51),
        _ => panic!("a replayed segment must not be delivered again"),
    }
    assert_eq!(rcv.rcv_nxt, 51);
}

#[test]
fn empty_data_segment_does_not_advance() {
    let mut rcv = GoBackNReceiver::new(50);
    let pkt = data_at(50, Vec::new());
    assert!(matches!(rcv.on_segment(1, &pkt), RecvOutcome::DupAck { .. }));
    assert_eq!(rcv.rcv_nxt, 50);
}

#[test]
fn oversized_data_segment_is_dropped() {
    let mut rcv = GoBackNReceiver::new(50);
    let pkt = data_at(50, vec![0; MAX_PAYLOAD + 1]);
    assert!(matches!(rcv.on_segment(1, &pkt), RecvOutcome::DupAck { .. }));
    assert_eq!(rcv.rcv_nxt, 50);
}

#[test]
fn stray_segments_in_data_phase() {
    let mut rcv = GoBackNReceiver::new(50);
    for flags in [SYN, ACK, SYN_ACK] {
        let pkt = StyxPacket { sequence_number: 50, ack_number: 0, flags, payload: Vec::new() };
        assert!(matches!(rcv.on_segment(1, &pkt), RecvOutcome::Ignored));
    }
    let fin = StyxPacket { sequence_number: 50, ack_number: 0, flags: FIN, payload: Vec::new() };
    assert!(matches!(rcv.on_segment(1, &fin), RecvOutcome::FinReceived));
    // an illegal combination is dropped and re-acked
    let odd = StyxPacket { sequence_number: 50, ack_number: 0, flags: 6, payload: Vec::new() };
    match rcv.on_segment(1, &odd) {
        RecvOutcome::DupAck { ack } => assert_eq!(ack.ack_number, 50),
        _ => panic!("an illegal flag combination must be dropped and re-acked"),
    }
    assert_eq!(rcv.rcv_nxt, 50);
}

#[test]
fn split_message_chunks_cover_the_message() {
    assert!(split_message(&[]).is_empty());

    let exact = vec![3u8; MAX_PAYLOAD];
    let chunks = split_message(&exact);
    assert_eq!(chunks.len(), 1);
    assert_eq!(chunks[0], exact);

    let long = (0..2u32 * MAX_PAYLOAD as u32 + 5).map(|i| (i % 251) as u8).collect::<Vec<u8>>();
    let chunks = split_message(&long);
    assert_eq!(chunks.len(), 3);
    assert_eq!(chunks[0].len(), MAX_PAYLOAD);
    assert_eq!(chunks[1].len(), MAX_PAYLOAD);
    assert_eq!(chunks[2].len(), 5);
    let mut joined = Vec::new();
    for c in &chunks {
        joined.extend_from_slice(c);
    }
    assert_eq!(joined, long);
}

#[test]
fn serial_number_comparison_handles_wrap() {
    // plain `<` breaks near the wrap; serial comparison does not
    assert!(seq_lt_exec(u32::MAX - 1, 2));
    assert!(!seq_lt_exec(2, u32::MAX - 1));
    assert!(seq_lt_exec(100, 101));
    assert!(!seq_lt_exec(101, 100));
    assert!(!seq_lt_exec(7, 7));
    assert!(seq_le_exec(7, 7));
    // a point and its antipode are not ordered either way
    assert!(!seq_lt_exec(0, 0x8000_0000));
    assert!(!seq_lt_exec(0x8000_0000, 0));
    assert!(!seq_le_exec(0x8000_0000, 0));
}

#[test]
fn serial_number_arithmetic_wraps() {
    assert_eq!(seq_next(u32::MAX), 0);
    assert_eq!(seq_advance(u32::MAX - 1, 4), 2);
    assert_eq!(seq_sub(2, u32::MAX - 1), 4);
    assert_eq!(seq_sub(500, 100), 400);
}
