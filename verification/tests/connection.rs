use keychain::packet::{ClientPacket, ServerPacket};
use keychain::passkey::PasskeyMetadata;
use keychain::session::{ClientSession, SessionStep};
use keychain::stream::{frame_length, u32_to_le_bytes, StreamConnection};
use keychain::version::{version, ProtocolVersion};
use keychain::error::DecodeError;

#[test]
fn frame_of_req_vault() {
    let mut conn = StreamConnection::new(());
    assert_eq!(conn.buffered_len(), 0);
    let frame = conn.frame_packet(&ClientPacket::ReqVault);
    assert_eq!(&frame[..], &[4, 0, 0, 0, 1, 0, 0, 0]);
    assert_eq!(conn.buffered_len(), 0);
}

#[test]
fn frame_roundtrip() {
    let mut sender = StreamConnection::new(());
    let mut receiver = StreamConnection::new(());
    let pong = ServerPacket::Pong { incompatible: false, version: version() };
    let frame = sender.frame_packet(&pong);
    assert_eq!(frame.len(), 4 + 17);
    let header = [frame[0], frame[1], frame[2], frame[3]];
    let len = frame_length(header);
    assert_eq!(len, 17);
    let got = receiver.receive_packet::<ServerPacket>(&frame[4..4 + len as usize]);
    assert_eq!(got, Ok(pong));
    assert_eq!(receiver.buffered_len(), 0);
}

#[test]
fn frames_in_a_row_are_independent() {
    let mut conn = StreamConnection::new(());
    let a = conn.frame_packet(&ClientPacket::Disconnect);
    let b = conn.frame_packet(&ClientPacket::Ping(ProtocolVersion { major: 1, minor: 2, patch: 3 }));
    assert_eq!(&a[..], &[4, 0, 0, 0, 2, 0, 0, 0]);
    assert_eq!(&b[..4], &[16, 0, 0, 0]);
    assert_eq!(b.len(), 20);
}

#[test]
fn receive_packet_reports_decode_errors() {
    let mut conn = StreamConnection::new(0u8);
    assert_eq!(conn.receive_packet::<ClientPacket>(&[9, 0, 0, 0]), Err(DecodeError::UnrecognizedOpcode));
    assert_eq!(conn.receive_packet::<ClientPacket>(&[0]), Err(DecodeError::MalformedLength));
    assert_eq!(conn.stream, 0u8);
}

#[test]
fn le_bytes_helpers() {
    assert_eq!(u32_to_le_bytes(0x0809A0A1), [0xA1, 0xA0, 0x09, 0x08]);
    assert_eq!(frame_length([0xA1, 0xA0, 0x09, 0x08]), 0x0809A0A1);
    assert_eq!(frame_length([0xFF; 4]), u32::MAX);
}

#[test]
fn handshake_with_matching_version() {
    let mut session = ClientSession::new();
    assert!(!session.handshaked());
    let step = session.on_packet(ClientPacket::Ping(version()));
    assert_eq!(
        step,
        SessionStep { reply: Some(ServerPacket::Pong { incompatible: false, version: version() }), keep_open: true }
    );
    assert!(session.handshaked());
    let later = session.on_packet(ClientPacket::ReqVault);
    assert_eq!(later, SessionStep { reply: None, keep_open: true });
    let ping_again = session.on_packet(ClientPacket::Ping(ProtocolVersion { major: 9, minor: 9, patch: 9 }));
    assert_eq!(ping_again, SessionStep { reply: None, keep_open: true });
    assert!(session.handshaked());
}

#[test]
fn handshake_with_other_version_closes() {
    let mut session = ClientSession::new();
    let other = ProtocolVersion { major: 1, minor: 0, patch: 0 };
    let step = session.on_packet(ClientPacket::Ping(other));
    assert_eq!(
        step,
        SessionStep { reply: Some(ServerPacket::Pong { incompatible: true, version: version() }), keep_open: false }
    );
    assert!(!session.handshaked());
}

#[test]
fn first_packet_not_ping_is_dropped() {
    for p in [ClientPacket::ReqVault, ClientPacket::Disconnect] {
        let mut session = ClientSession::new();
        let step = session.on_packet(p);
        assert_eq!(step, SessionStep { reply: Some(ServerPacket::DropConnection), keep_open: false });
        assert!(!session.handshaked());
    }
}

#[test]
fn passkey_meta_text() {
    let both = PasskeyMetadata::new(String::from("wallet"), true, true);
    assert_eq!(both.meta(), ": <encrypted> <hidden>");
    assert_eq!(both.label(), "wallet");
    assert!(both.encrypted() && both.hidden());
    let enc = PasskeyMetadata::new(String::from("ntbk"), true, false);
    assert_eq!(enc.meta(), ": <encrypted>");
    let hidden = PasskeyMetadata::new(String::from("h"), false, true);
    assert_eq!(hidden.meta(), ":  <hidden>");
    let plain = PasskeyMetadata::new(String::from("p"), false, false);
    assert_eq!(plain.meta(), "");
    assert!(!plain.encrypted() && !plain.hidden());
}
