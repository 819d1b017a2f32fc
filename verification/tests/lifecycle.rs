//! The connection lifecycle: the three-way handshake, the transition
//! table, the four-way teardown, and the per-connection record.

use styx::connection::{Connection, WINDOW_SIZE};
use styx::error::StyxError;
use styx::handshake::{
    active_open_reply, is_valid_syn_ack, make_syn, passive_open_ack, passive_open_syn, pick_isn,
    ISN_RANGE,
};
use styx::packet::{StyxPacket, ACK, FIN, SYN, SYN_ACK};
use styx::receiver::GoBackNReceiver;
use styx::state::{is_fully_closed, transition, Action, ConnectionState, Event};
use styx::state::ConnectionState::{
    CloseWait, Closed, Established, FinWait1, FinWait2, LastAck, Listen, SynReceived, SynSent,
    TimeWait,
};
use styx::state::Event::{
    ActiveOpen, AppClose, HandshakeFailure, RecvAckOfFin, RecvFin, RecvSyn, RecvValidAckOfSyn,
    RecvValidSynAck, TimeWaitElapsed,
};
use styx::teardown::{ack_for_fin, is_fin, is_fin_ack, make_fin, passive_close_final,
    passive_close_reply};

#[test]
fn lossless_handshake_wire_trace() {
    // client ISN 100, server ISN 500
    let syn = make_syn(100);
    assert_eq!((syn.sequence_number, syn.ack_number, syn.flags), (100, 0, SYN));
    assert!(syn.payload.is_empty());

    let (pending, syn_ack) = passive_open_syn(500, &syn).unwrap();
    assert_eq!((syn_ack.sequence_number, syn_ack.ack_number, syn_ack.flags), (500, 101, SYN_ACK));

    let (client_est, final_ack) = active_open_reply(100, &syn_ack).unwrap();
    assert_eq!((final_ack.sequence_number, final_ack.ack_number, final_ack.flags), (101, 501, ACK));
    assert_eq!(client_est.snd_nxt, 101);
    assert_eq!(client_est.rcv_nxt, 501);

    let server_est = passive_open_ack(&pending, &final_ack).unwrap();
    assert_eq!(server_est.snd_nxt, 501);
    assert_eq!(server_est.rcv_nxt, 101);
}

#[test]
fn handshake_rejects_wrong_acknowledgment() {
    let bad = StyxPacket { sequence_number: 500, ack_number: 102, flags: SYN_ACK, payload: Vec::new() };
    assert!(!is_valid_syn_ack(100, &bad));
    assert_eq!(active_open_reply(100, &bad).unwrap_err(), StyxError::HandshakeFailed);

    let wrong_flags = StyxPacket { sequence_number: 500, ack_number: 101, flags: ACK, payload: Vec::new() };
    assert_eq!(active_open_reply(100, &wrong_flags).unwrap_err(), StyxError::HandshakeFailed);
}

#[test]
fn listen_rejects_everything_but_syn() {
    let not_syn = StyxPacket { sequence_number: 9, ack_number: 0, flags: ACK, payload: Vec::new() };
    assert_eq!(passive_open_syn(500, &not_syn).unwrap_err(), StyxError::ProtocolViolation);
}

#[test]
fn passive_open_rejects_wrong_final_ack() {
    let syn = make_syn(100);
    let (pending, _) = passive_open_syn(500, &syn).unwrap();
    let bad = StyxPacket { sequence_number: 101, ack_number: 500, flags: ACK, payload: Vec::new() };
    assert_eq!(passive_open_ack(&pending, &bad).unwrap_err(), StyxError::HandshakeFailed);
}

#[test]
fn isn_stays_in_its_range() {
    for _ in 0..32 {
        assert!(pick_isn() < ISN_RANGE);
    }
}

#[test]
fn transition_table_legal_edges() {
    let edges = [
        (Closed, ActiveOpen, SynSent, Action::SendSyn),
        (Listen, RecvSyn, SynReceived, Action::SendSynAck),
        (SynSent, RecvValidSynAck, Established, Action::SendAck),
        (SynSent, HandshakeFailure, Closed, Action::Abort),
        (SynReceived, RecvValidAckOfSyn, Established, Action::Stay),
        (SynReceived, HandshakeFailure, Listen, Action::DiscardPartial),
        (Established, AppClose, FinWait1, Action::SendFin),
        (Established, RecvFin, CloseWait, Action::SendAck),
        (FinWait1, RecvAckOfFin, FinWait2, Action::Stay),
        (FinWait2, RecvFin, TimeWait, Action::SendAck),
        (CloseWait, AppClose, LastAck, Action::SendFin),
        (LastAck, RecvAckOfFin, Closed, Action::Stay),
        (TimeWait, TimeWaitElapsed, Closed, Action::Stay),
    ];
    for (from, event, to, action) in edges {
        assert_eq!(transition(from, event), Some((to, action)));
    }
}

#[test]
fn transition_table_refuses_stray_edges() {
    let illegal = [
        (Closed, RecvSyn),
        (Listen, ActiveOpen),
        (Established, RecvSyn),
        (Established, RecvValidSynAck),
        (FinWait1, RecvFin),
        (TimeWait, RecvFin),
        (LastAck, AppClose),
    ];
    for (from, event) in illegal {
        assert_eq!(transition(from, event), None);
    }
}

#[test]
fn active_close_wire_trace() {
    // from ESTABLISHED with client snd_nxt = 120
    let fin = make_fin(120);
    assert_eq!((fin.sequence_number, fin.ack_number, fin.flags), (120, 0, FIN));

    // the peer acknowledges the FIN: ack = 121
    let ack = StyxPacket { sequence_number: 501, ack_number: 121, flags: ACK, payload: Vec::new() };
    assert!(is_fin_ack(120, &ack));
    let short_ack = StyxPacket { sequence_number: 501, ack_number: 120, flags: ACK, payload: Vec::new() };
    assert!(!is_fin_ack(120, &short_ack));

    // the peer's own FIN at seq 501 is answered with ack 502
    let server_fin = StyxPacket { sequence_number: 501, ack_number: 0, flags: FIN, payload: Vec::new() };
    assert!(is_fin(&server_fin));
    let final_ack = ack_for_fin(121, &server_fin);
    assert_eq!((final_ack.sequence_number, final_ack.ack_number, final_ack.flags), (121, 502, ACK));
}

#[test]
fn passive_close_wire_trace() {
    // the peer closes first: FIN at seq 120 acknowledging 501
    let client_fin = StyxPacket { sequence_number: 120, ack_number: 501, flags: FIN, payload: Vec::new() };
    let (ack, our_fin) = passive_close_reply(&client_fin).unwrap();
    assert_eq!((ack.sequence_number, ack.ack_number, ack.flags), (501, 121, ACK));
    assert_eq!((our_fin.sequence_number, our_fin.ack_number, our_fin.flags), (501, 0, FIN));

    // the final acknowledgment of our FIN closes the connection
    let final_ack = StyxPacket { sequence_number: 121, ack_number: 502, flags: ACK, payload: Vec::new() };
    assert!(passive_close_final(our_fin.sequence_number, &final_ack).is_ok());
    let wrong = StyxPacket { sequence_number: 121, ack_number: 501, flags: ACK, payload: Vec::new() };
    assert_eq!(
        passive_close_final(our_fin.sequence_number, &wrong).unwrap_err(),
        StyxError::TeardownFailed
    );

    let not_fin = StyxPacket { sequence_number: 120, ack_number: 501, flags: ACK, payload: Vec::new() };
    assert_eq!(passive_close_reply(&not_fin).unwrap_err(), StyxError::ProtocolViolation);
}

#[test]
fn connection_walks_the_active_lifecycle() {
    let mut c = Connection::new(ConnectionState::Closed, WINDOW_SIZE);
    assert_eq!(c.apply_event(Event::ActiveOpen), Some(Action::SendSyn));
    assert_eq!(c.state, ConnectionState::SynSent);
    assert_eq!(c.apply_event(Event::RecvValidSynAck), Some(Action::SendAck));
    assert_eq!(c.state, ConnectionState::Established);
    assert_eq!(c.apply_event(Event::AppClose), Some(Action::SendFin));
    assert_eq!(c.state, ConnectionState::FinWait1);
    assert_eq!(c.apply_event(Event::RecvAckOfFin), Some(Action::Stay));
    assert_eq!(c.state, ConnectionState::FinWait2);
    assert_eq!(c.apply_event(Event::RecvFin), Some(Action::SendAck));
    assert_eq!(c.state, ConnectionState::TimeWait);
    assert!(!is_fully_closed(c.state));
    assert_eq!(c.apply_event(Event::TimeWaitElapsed), Some(Action::Stay));
    assert_eq!(c.state, ConnectionState::Closed);
    assert!(is_fully_closed(c.state));
}

#[test]
fn connection_ignores_illegal_events() {
    let mut c = Connection::new(ConnectionState::Listen, WINDOW_SIZE);
    assert_eq!(c.apply_event(Event::AppClose), None);
    assert_eq!(c.state, ConnectionState::Listen);
    assert_eq!(c.apply_event(Event::RecvSyn), Some(Action::SendSynAck));
    assert_eq!(c.state, ConnectionState::SynReceived);
    assert_eq!(c.apply_event(Event::HandshakeFailure), Some(Action::DiscardPartial));
    assert_eq!(c.state, ConnectionState::Listen);
}

#[test]
fn established_connection_carries_the_agreed_numbering() {
    let syn = make_syn(100);
    let (pending, syn_ack) = passive_open_syn(500, &syn).unwrap();
    let (client_est, final_ack) = active_open_reply(100, &syn_ack).unwrap();
    let server_est = passive_open_ack(&pending, &final_ack).unwrap();

    let client = Connection::establish(&client_est, WINDOW_SIZE);
    let server = Connection::establish(&server_est, WINDOW_SIZE);
    assert_eq!(client.state, ConnectionState::Established);
    assert_eq!(client.sender.base, 101);
    assert_eq!(client.sender.next, 101);
    assert_eq!(client.receiver.rcv_nxt, 501);
    assert_eq!(server.sender.next, 501);
    assert_eq!(server.receiver.rcv_nxt, 101);
}

#[test]
fn reserved_flags_leave_the_receiver_untouched() {
    // a crafted segment with flags = 0x80 arrives in ESTABLISHED: it is
    // refused by the codec, the receiver never advances, and the
    // endpoint re-emits the cumulative acknowledgment
    let mut crafted = vec![0u8; 9];
    crafted[3] = 42;
    crafted[8] = 0x80;
    assert_eq!(StyxPacket::from_bytes(&crafted).unwrap_err(), StyxError::MalformedSegment);

    let rcv = GoBackNReceiver::new(42);
    let dup = rcv.current_ack(7);
    assert_eq!(rcv.rcv_nxt, 42);
    assert_eq!((dup.sequence_number, dup.ack_number, dup.flags), (7, 42, ACK));
}
