use bytes::{Bytes, BytesMut};
use keychain::encode::{check_len, Decode, Encode, GenericBufDecoder};
use keychain::error::{DecodeError, ProtocolError};
use keychain::packet::{ClientPacket, PacketBodyCodec, ServerPacket};
use keychain::version::{parse_semver, parse_u32, version, ProtocolVersion, RAW_VERSION};

fn encoded<T: Encode>(v: &T) -> Vec<u8> {
    let mut buf = BytesMut::new();
    v.encode(&mut buf);
    buf.to_vec()
}

fn v(major: u32, minor: u32, patch: u32) -> ProtocolVersion {
    ProtocolVersion { major, minor, patch }
}

#[test]
fn u32_is_four_little_endian_bytes() {
    assert_eq!(encoded(&0x0809A0A1u32), vec![0xA1, 0xA0, 0x09, 0x08]);
    let mut data = Bytes::from(vec![0xA1, 0xA0, 0x09, 0x08, 0x77]);
    assert_eq!(u32::decode(&mut data), Ok(0x0809A0A1));
    assert_eq!(&data[..], &[0x77]);
}

#[test]
fn u32_roundtrip() {
    for x in [0u32, 1, 255, 256, 0xdead_beef, u32::MAX] {
        let mut data = Bytes::from(encoded(&x));
        assert_eq!(u32::decode(&mut data), Ok(x));
        assert!(data.is_empty());
    }
}

#[test]
fn u32_short_input_is_malformed_and_untouched() {
    let mut data = Bytes::from(vec![1, 2, 3]);
    assert_eq!(u32::decode(&mut data), Err(DecodeError::MalformedLength));
    assert_eq!(&data[..], &[1, 2, 3]);
}

#[test]
fn bool_encoding_and_decoding() {
    assert_eq!(encoded(&true), vec![1]);
    assert_eq!(encoded(&false), vec![0]);
    for b in [true, false] {
        let mut data = Bytes::from(encoded(&b));
        assert_eq!(bool::decode(&mut data), Ok(b));
    }
    let mut data = Bytes::from(vec![2, 9]);
    assert_eq!(bool::decode(&mut data), Ok(false));
    assert_eq!(&data[..], &[9]);
    let mut empty = Bytes::new();
    assert_eq!(bool::decode(&mut empty), Err(DecodeError::MalformedLength));
}

#[test]
fn string_is_length_then_utf8() {
    let s = String::from("héllo");
    assert_eq!(encoded(&s), vec![6, 0, 0, 0, b'h', 0xC3, 0xA9, b'l', b'l', b'o']);
    let mut data = Bytes::from(encoded(&s));
    assert_eq!(String::decode(&mut data), Ok(s));
    assert!(data.is_empty());
}

#[test]
fn string_roundtrip_leaves_trailing_bytes() {
    let s = String::from("keychain ✓");
    let mut bytes = encoded(&s);
    bytes.extend_from_slice(&[7, 7]);
    let mut data = Bytes::from(bytes);
    assert_eq!(String::decode(&mut data), Ok(s));
    assert_eq!(&data[..], &[7, 7]);
}

#[test]
fn string_too_long_length_is_malformed() {
    let mut data = Bytes::from(vec![5, 0, 0, 0, b'a', b'b']);
    assert_eq!(String::decode(&mut data), Err(DecodeError::MalformedLength));
    assert_eq!(&data[..], b"ab");
    let mut short = Bytes::from(vec![5, 0]);
    assert_eq!(String::decode(&mut short), Err(DecodeError::MalformedLength));
    assert_eq!(&short[..], &[5, 0]);
}

#[test]
fn string_invalid_utf8_is_replaced() {
    let mut data = Bytes::from(vec![3, 0, 0, 0, b'a', 0xFF, b'b']);
    assert_eq!(String::decode(&mut data), Ok(String::from("a\u{FFFD}b")));
}

#[test]
fn version_encoding_and_roundtrip() {
    let ver = v(1, 2, 3);
    assert_eq!(encoded(&ver), vec![1, 0, 0, 0, 2, 0, 0, 0, 3, 0, 0, 0]);
    let mut data = Bytes::from(encoded(&ver));
    assert_eq!(ProtocolVersion::decode(&mut data), Ok(v(1, 2, 3)));
}

#[test]
fn version_partial_input_consumes_whole_fields() {
    let mut data = Bytes::from(vec![1, 0, 0, 0, 2, 0]);
    assert_eq!(ProtocolVersion::decode(&mut data), Err(DecodeError::MalformedLength));
    assert_eq!(&data[..], &[2, 0]);
    let mut data = Bytes::from(vec![1, 0, 0, 0, 2, 0, 0, 0, 3]);
    assert_eq!(ProtocolVersion::decode(&mut data), Err(DecodeError::MalformedLength));
    assert_eq!(&data[..], &[3]);
}

#[test]
fn check_len_checks_remaining() {
    let data = Bytes::from(vec![1, 2, 3]);
    assert_eq!(check_len(&data, 3), Ok(()));
    assert_eq!(check_len(&data, 0), Ok(()));
    assert_eq!(check_len(&data, 4), Err(DecodeError::MalformedLength));
    let _decoder = GenericBufDecoder;
}

#[test]
fn client_packet_encodings() {
    assert_eq!(encoded(&ClientPacket::ReqVault), vec![1, 0, 0, 0]);
    assert_eq!(encoded(&ClientPacket::Disconnect), vec![2, 0, 0, 0]);
    assert_eq!(
        encoded(&ClientPacket::Ping(v(4, 5, 6))),
        vec![0, 0, 0, 0, 4, 0, 0, 0, 5, 0, 0, 0, 6, 0, 0, 0]
    );
    assert_eq!(ClientPacket::Ping(v(0, 0, 0)).opcode(), 0);
    assert_eq!(ClientPacket::ReqVault.opcode(), 1);
    assert_eq!(ClientPacket::Disconnect.opcode(), 2);
}

#[test]
fn client_packet_roundtrip() {
    for p in [ClientPacket::Ping(v(7, 8, 9)), ClientPacket::ReqVault, ClientPacket::Disconnect] {
        let mut data = Bytes::from(encoded(&p));
        assert_eq!(ClientPacket::decode(&mut data), Ok(p));
        assert!(data.is_empty());
    }
}

#[test]
fn client_packet_errors() {
    let mut unknown = Bytes::from(vec![7, 0, 0, 0, 1, 2]);
    assert_eq!(ClientPacket::decode(&mut unknown), Err(DecodeError::UnrecognizedOpcode));
    assert!(unknown.is_empty());
    let mut short_body = Bytes::from(vec![0, 0, 0, 0, 1, 0, 0]);
    assert_eq!(ClientPacket::decode(&mut short_body), Err(DecodeError::MalformedLength));
    assert!(short_body.is_empty());
    let mut no_opcode = Bytes::from(vec![0, 0]);
    assert_eq!(ClientPacket::decode(&mut no_opcode), Err(DecodeError::MalformedLength));
    assert_eq!(&no_opcode[..], &[0, 0]);
}

#[test]
fn client_packet_trailing_bytes_are_consumed() {
    let mut data = Bytes::from(vec![1, 0, 0, 0, 9, 9, 9]);
    assert_eq!(ClientPacket::decode(&mut data), Ok(ClientPacket::ReqVault));
    assert!(data.is_empty());
}

#[test]
fn decode_body_leaves_rest() {
    let mut body = Bytes::from(vec![1, 0, 0, 0, 2, 0, 0, 0, 3, 0, 0, 0, 42]);
    assert_eq!(ClientPacket::decode_body(&mut body, 0), Ok(ClientPacket::Ping(v(1, 2, 3))));
    assert_eq!(&body[..], &[42]);
}

#[test]
fn server_packet_encodings_and_roundtrip() {
    let pong = ServerPacket::Pong { incompatible: true, version: v(1, 0, 2) };
    assert_eq!(encoded(&pong), vec![0, 0, 0, 0, 1, 1, 0, 0, 0, 0, 0, 0, 0, 2, 0, 0, 0]);
    assert_eq!(encoded(&ServerPacket::DropConnection), vec![1, 0, 0, 0]);
    for p in [
        ServerPacket::Pong { incompatible: false, version: v(3, 3, 3) },
        ServerPacket::Pong { incompatible: true, version: v(0, 1, 0) },
        ServerPacket::DropConnection,
    ] {
        let mut data = Bytes::from(encoded(&p));
        assert_eq!(ServerPacket::decode(&mut data), Ok(p));
    }
}

#[test]
fn server_packet_errors() {
    let mut unknown = Bytes::from(vec![2, 0, 0, 0]);
    assert_eq!(ServerPacket::decode(&mut unknown), Err(DecodeError::UnrecognizedOpcode));
    let mut no_flag = Bytes::from(vec![0, 0, 0, 0]);
    assert_eq!(ServerPacket::decode(&mut no_flag), Err(DecodeError::MalformedLength));
    let mut short_version = Bytes::from(vec![0, 0, 0, 0, 1, 5]);
    assert_eq!(ServerPacket::decode(&mut short_version), Err(DecodeError::MalformedLength));
}

#[test]
fn parse_u32_packs_digit_bytes() {
    assert_eq!(parse_u32(b"12a", 0), (0x3231, 2));
    assert_eq!(parse_u32(b"x9", 1), (0x39, 2));
    assert_eq!(parse_u32(b"abc", 0), (0, 0));
    assert_eq!(parse_u32(b"ab", 5), (0, 5));
    assert_eq!(parse_u32(b"1234", 0), (0x34333231, 4));
}

#[test]
fn parse_semver_reads_three_parts() {
    assert_eq!(parse_semver("0.1.0"), v(0x30, 0x31, 0x30));
    assert_eq!(parse_semver("12.3.45"), v(0x3231, 0x33, 0x3534));
    assert_eq!(parse_semver("7"), v(0x37, 0, 0));
}

#[test]
fn version_is_parsed_raw_version() {
    assert_eq!(RAW_VERSION, "0.1.0");
    assert_eq!(version(), parse_semver(RAW_VERSION));
    assert_eq!(version(), v(0x30, 0x31, 0x30));
}

#[test]
fn decode_error_messages() {
    assert_eq!(
        DecodeError::UnrecognizedOpcode.message(),
        "Failed to decode packet because opcode was unrecognized."
    );
    assert_eq!(
        DecodeError::MalformedLength.message(),
        "Failed to decode packet because the length was formed in a way exceeding any respectable size for a packet."
    );
    assert_eq!(
        DecodeError::UnexpectedEof.message(),
        "Failed to decode because there was a unexpected end of data."
    );
}

#[test]
fn protocol_error_conversions() {
    let e: ProtocolError = DecodeError::UnrecognizedOpcode.into();
    assert!(matches!(e, ProtocolError::Decode(DecodeError::UnrecognizedOpcode)));
    let io = std::io::Error::new(std::io::ErrorKind::UnexpectedEof, "closed");
    let e: ProtocolError = io.into();
    assert!(matches!(e, ProtocolError::Io(ref inner) if inner.kind() == std::io::ErrorKind::UnexpectedEof));
}

#[test]
fn parse_semver_ignores_separators_and_suffix() {
    let plain = parse_semver("1.2.3");
    assert_eq!(parse_semver("1-2-3"), plain);
    assert_eq!(parse_semver("1.2.3-beta"), plain);
    assert_eq!(parse_semver("1x2_3+build.7"), plain);
    assert_eq!(plain, v(0x31, 0x32, 0x33));
}
