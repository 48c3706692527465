use zbench::frame::Framing;
use zbench::handshake::{
    frame_reply, init_ack_bytes, keep_alive_frame, reply_bytes, Handshake, HandshakeError,
    HandshakeState, Reply,
};
use zbench::wire::{
    is_decodable, local_peer_id, peer_id_from, read_message, read_zint, Inbound, ROUTER,
};
use zenoh::net::protocol::proto::{TransportBody, TransportMessage};
use zenoh::net::{PeerId, WBuf, ZBuf};

fn to_bytes(mut m: TransportMessage) -> Vec<u8> {
    let mut w = WBuf::new(32, false);
    assert!(w.write_transport_message(&mut m));
    ZBuf::from(w).to_vec()
}

fn init_syn_bytes(is_qos: bool) -> Vec<u8> {
    let pid = PeerId::new(1, [7u8; PeerId::MAX_SIZE]);
    to_bytes(TransportMessage::make_init_syn(0, 2, pid, 268_435_456, is_qos, None))
}

#[test]
fn handshake_scenario() {
    let mut h = Handshake::new(ROUTER, vec![42]);
    let r = h.on_message(Inbound::InitSyn { is_qos: false });
    assert_eq!(
        r,
        Ok(Reply::InitAck {
            whatami: ROUTER,
            pid: vec![42],
            sn_resolution: None,
            is_qos: false,
            cookie: vec![0u8; 8],
        })
    );
    assert_eq!(h.state(), HandshakeState::AwaitOpenSyn);
    let r = h.on_message(Inbound::OpenSyn { lease_ms: 1000, initial_sn: 0 });
    assert_eq!(r, Ok(Reply::OpenAck { lease_ms: 1000, initial_sn: 0 }));
    assert!(h.is_established());
}

#[test]
fn open_before_init_aborts() {
    let mut h = Handshake::new(ROUTER, vec![1]);
    let m = Inbound::OpenSyn { lease_ms: 1000, initial_sn: 0 };
    assert_eq!(
        h.on_message(m),
        Err(HandshakeError::Unexpected { state: HandshakeState::Listening, received: m })
    );
    assert_eq!(h.state(), HandshakeState::Closed);
    let m = Inbound::InitSyn { is_qos: false };
    assert_eq!(
        h.on_message(m),
        Err(HandshakeError::Unexpected { state: HandshakeState::Closed, received: m })
    );
    assert_eq!(h.state(), HandshakeState::Closed);
}

#[test]
fn repeated_init_aborts() {
    let mut h = Handshake::new(ROUTER, vec![1]);
    assert!(h.on_message(Inbound::InitSyn { is_qos: true }).is_ok());
    let m = Inbound::InitSyn { is_qos: true };
    assert_eq!(
        h.on_message(m),
        Err(HandshakeError::Unexpected { state: HandshakeState::AwaitOpenSyn, received: m })
    );
    assert!(!h.is_established());
}

#[test]
fn io_error_closes_session() {
    let mut h = Handshake::new(ROUTER, vec![1]);
    h.on_message(Inbound::InitSyn { is_qos: false }).unwrap();
    h.on_message(Inbound::OpenSyn { lease_ms: 10, initial_sn: 3 }).unwrap();
    h.on_io_error();
    assert_eq!(h.state(), HandshakeState::Closed);
}

#[test]
fn init_syn_bytes_are_read() {
    let mut h = Handshake::new(ROUTER, vec![9, 8]);
    match h.on_bytes(&init_syn_bytes(true)) {
        Ok(Reply::InitAck { is_qos, pid, .. }) => {
            assert!(is_qos);
            assert_eq!(pid, vec![9, 8]);
        }
        other => panic!("unexpected {:?}", other),
    }
    assert_eq!(h.state(), HandshakeState::AwaitOpenSyn);
}

#[test]
fn garbage_bytes_abort() {
    let mut h = Handshake::new(ROUTER, vec![1]);
    assert!(h.on_bytes(&[]).is_err());
    assert_eq!(h.state(), HandshakeState::Closed);
}

#[test]
fn init_ack_bytes_decode_back() {
    let bytes = init_ack_bytes(ROUTER, &[5], None, false, &[0u8; 8]);
    let m = ZBuf::from(bytes).read_transport_message().unwrap();
    match m.body {
        TransportBody::InitAck(a) => {
            assert_eq!(a.whatami, ROUTER);
            assert_eq!(a.pid.as_slice(), &[5]);
            assert_eq!(a.sn_resolution, None);
            assert!(!a.is_qos);
            assert_eq!(a.cookie.as_slice(), &[0u8; 8]);
        }
        other => panic!("unexpected {:?}", other),
    }
}

#[test]
fn init_ack_framed_for_stream() {
    let reply = Reply::InitAck {
        whatami: ROUTER,
        pid: vec![5],
        sn_resolution: None,
        is_qos: true,
        cookie: vec![0u8; 8],
    };
    let body = init_ack_bytes(ROUTER, &[5], None, true, &[0u8; 8]);
    assert_eq!(reply_bytes(&reply), body);
    let f = frame_reply(Framing::Stream, &reply).unwrap();
    assert_eq!(f.len(), body.len() + 2);
    assert_eq!(f[0] as usize, body.len());
    assert_eq!(&f[2..], &body[..]);
    let d = frame_reply(Framing::Datagram, &reply).unwrap();
    assert_eq!(d, body);
}

#[test]
fn open_ack_bytes_decode_back() {
    let bytes = reply_bytes(&Reply::OpenAck { lease_ms: 1500, initial_sn: 300 });
    let m = ZBuf::from(bytes).read_transport_message().unwrap();
    match m.body {
        TransportBody::OpenAck(a) => {
            assert_eq!(a.lease.as_millis(), 1500);
            assert_eq!(a.initial_sn, 300);
        }
        other => panic!("unexpected {:?}", other),
    }
}

#[test]
fn open_syn_bytes_are_read() {
    // OpenSyn header, lease 1000 ms (0xe8 0x07), initial sn 0, 2-byte cookie.
    let bytes = vec![0x04u8, 0xe8, 0x07, 0x00, 0x02, 0xaa, 0xbb];
    assert!(is_decodable(&bytes));
    assert_eq!(read_message(&bytes), Inbound::OpenSyn { lease_ms: 1000, initial_sn: 0 });
    // Lease in seconds.
    let bytes = vec![0x44u8, 0x0a, 0x05, 0x00, 0x99];
    assert_eq!(read_message(&bytes), Inbound::OpenSyn { lease_ms: 10_000, initial_sn: 5 });
}

#[test]
fn overrunning_cookie_is_malformed() {
    let bytes = vec![0x04u8, 0x01, 0x00, 0x03, 0x00];
    assert!(!is_decodable(&bytes));
    assert_eq!(read_message(&bytes), Inbound::Malformed);
    let mut h = Handshake::new(ROUTER, vec![1]);
    h.on_message(Inbound::InitSyn { is_qos: false }).unwrap();
    assert_eq!(
        h.on_bytes(&bytes),
        Err(HandshakeError::Unexpected {
            state: HandshakeState::AwaitOpenSyn,
            received: Inbound::Malformed
        })
    );
    assert_eq!(read_message(&[0x04u8, 0x81]), Inbound::Malformed);
}

#[test]
fn zint_reading() {
    assert_eq!(read_zint(&[0x05], 0), Some((5, 1)));
    assert_eq!(read_zint(&[0x00, 0xe8, 0x07], 1), Some((1000, 3)));
    assert_eq!(read_zint(&[0x80], 0), None);
    assert_eq!(read_zint(&[0xffu8; 12], 0), None);
}

#[test]
fn peer_id_prefix() {
    assert_eq!(peer_id_from(&[9, 8, 7], 2), vec![9, 8]);
    assert_eq!(peer_id_from(&[9, 8, 7], 0), Vec::<u8>::new());
}

#[test]
fn keep_alive_frames() {
    assert_eq!(keep_alive_frame(Framing::Stream), vec![1, 0, 0x08]);
    assert_eq!(keep_alive_frame(Framing::Datagram), vec![0x08]);
    let m = ZBuf::from(vec![0x08u8]).read_transport_message().unwrap();
    assert!(matches!(m.body, TransportBody::KeepAlive(_)));
}

#[test]
fn peer_id_has_requested_size() {
    assert_eq!(local_peer_id(1).len(), 1);
    assert_eq!(local_peer_id(16).len(), 16);
    let a = local_peer_id(16);
    let b = local_peer_id(16);
    assert_ne!(a, b);
}

#[test]
fn read_message_kinds() {
    assert_eq!(read_message(&[]), Inbound::Malformed);
    assert_eq!(read_message(&[0x08]), Inbound::KeepAlive);
    assert_eq!(read_message(&init_syn_bytes(false)), Inbound::InitSyn { is_qos: false });
    assert_eq!(read_message(&init_ack_bytes(ROUTER, &[5], None, false, &[0u8; 8])), Inbound::Other);
    assert_eq!(read_message(&[0x0a, 0x01]), Inbound::Other);
    assert_eq!(read_message(&[0x1f, 0x01]), Inbound::Other);
}

#[test]
fn priority_decorated_messages_are_read() {
    // Priority decorator (Data, 5 << 5 | 0x1c), then an OpenSyn.
    let bytes = vec![0xbcu8, 0x04, 0xe8, 0x07, 0x00, 0x02, 0xaa, 0xbb];
    assert!(is_decodable(&bytes));
    assert_eq!(read_message(&bytes), Inbound::OpenSyn { lease_ms: 1000, initial_sn: 0 });
    let mut decorated = vec![0xbcu8];
    decorated.extend(init_syn_bytes(true));
    assert_eq!(read_message(&decorated), Inbound::InitSyn { is_qos: true });
    assert_eq!(read_message(&[0xbcu8, 0x04, 0x01, 0x00, 0x03, 0x00]), Inbound::Malformed);
    assert_eq!(read_message(&[0xbcu8]), Inbound::Malformed);
}

#[test]
fn open_syn_with_empty_cookie_at_end_is_malformed() {
    assert_eq!(read_message(&[0x04u8, 0x01, 0x00, 0x00]), Inbound::Malformed);
    assert_eq!(read_message(&[0x04u8, 0x01, 0x00, 0x00, 0x00]), Inbound::OpenSyn { lease_ms: 1, initial_sn: 0 });
}
