use rust_vpn::crypto::encryption::EncryptionManager;
use rust_vpn::protocol::handler::ProtocolHandler;
use rust_vpn::protocol::packet::{ControlType, PacketType, VpnPacket};
use rust_vpn::VpnError;

fn protocol_message(e: &VpnError) -> String {
    match e {
        VpnError::Protocol(m) => m.clone(),
        other => panic!("expected a protocol error, got {:?}", other),
    }
}

#[test]
fn test_packet_serialization() {
    let packet =
        VpnPacket::new_data([192, 168, 1, 1], [192, 168, 1, 2], b"test payload".to_vec());

    let bytes = packet.to_bytes();
    let decoded = VpnPacket::from_bytes(&bytes).unwrap();

    assert_eq!(decoded.source_ip, packet.source_ip);
    assert_eq!(decoded.dest_ip, packet.dest_ip);
    assert_eq!(decoded.packet_type, packet.packet_type);
    assert_eq!(decoded.payload, packet.payload);
}

#[test]
fn test_control_packet() {
    let packet = VpnPacket::new_control(ControlType::ConfigRequest);
    assert!(packet.is_control());
    assert_eq!(packet.control_type(), Some(ControlType::ConfigRequest));
}

#[test]
fn test_keepalive_packet() {
    let packet = VpnPacket::new_keepalive();
    assert!(packet.is_keepalive());
    assert_eq!(packet.payload.len(), 0);
}

#[test]
fn plaintext_layout_is_exact() {
    let mut packet = VpnPacket::new_control(ControlType::RouteUpdate);
    packet.set_source_ip([1, 2, 3, 4]);
    packet.set_dest_ip([5, 6, 7, 8]);
    packet.set_payload(vec![9, 10]);
    assert_eq!(packet.to_bytes(), vec![1, 2, 3, 4, 5, 6, 7, 8, 2, 2, 9, 10]);
    let data = VpnPacket::new_data([1, 1, 1, 1], [2, 2, 2, 2], vec![]);
    assert_eq!(data.to_bytes(), vec![1, 1, 1, 1, 2, 2, 2, 2, 0, 0]);
}

#[test]
fn round_trip_drops_control_type_of_non_control_packet() {
    let mut packet = VpnPacket::new_data([10, 0, 0, 1], [10, 0, 0, 2], vec![7; 5]);
    packet.control_type = Some(ControlType::Disconnect);
    let decoded = VpnPacket::from_bytes(&packet.to_bytes()).unwrap();
    assert_eq!(decoded.control_type, None);
    assert_eq!(decoded.payload, vec![7; 5]);
    let control = VpnPacket::new_control(ControlType::Disconnect);
    let decoded = VpnPacket::from_bytes(&control.to_bytes()).unwrap();
    assert_eq!(decoded.control_type, Some(ControlType::Disconnect));
    assert_eq!(decoded.packet_type, PacketType::Control);
}

#[test]
fn short_plaintext_is_protocol_error() {
    for n in 0..10 {
        let bytes = vec![0u8; n];
        let err = VpnPacket::from_bytes(&bytes).unwrap_err();
        assert_eq!(protocol_message(&err), "Packet too short");
    }
}

#[test]
fn unknown_packet_type_is_protocol_error() {
    let bytes = vec![0, 0, 0, 0, 0, 0, 0, 0, 3, 0];
    let err = VpnPacket::from_bytes(&bytes).unwrap_err();
    assert_eq!(protocol_message(&err), "Invalid packet type");
}

#[test]
fn unknown_control_type_is_protocol_error() {
    let bytes = vec![0, 0, 0, 0, 0, 0, 0, 0, 2, 4];
    let err = VpnPacket::from_bytes(&bytes).unwrap_err();
    assert_eq!(protocol_message(&err), "Invalid control type");
    // the control byte is ignored on other packets
    let bytes = vec![0, 0, 0, 0, 0, 0, 0, 0, 1, 4];
    assert!(VpnPacket::from_bytes(&bytes).unwrap().is_keepalive());
}

#[test]
fn type_bytes() {
    assert!(matches!(PacketType::from_byte(2), Ok(PacketType::Control)));
    assert!(matches!(ControlType::from_byte(1), Ok(ControlType::ConfigResponse)));
    assert_eq!(ControlType::Disconnect.to_byte(), 3);
    assert_eq!(PacketType::Keepalive.to_byte(), 1);
}

fn handler() -> ProtocolHandler {
    ProtocolHandler::new(EncryptionManager::new(&[1u8; 32]))
}

#[test]
fn encryption_round_trip() {
    let enc = EncryptionManager::new(&[1u8; 32]);
    for msg in [vec![], b"hello".to_vec(), vec![0xAB; 1000]] {
        let sealed = enc.encrypt(&msg).unwrap();
        assert_eq!(sealed.len(), 12 + msg.len() + 16);
        if !msg.is_empty() {
            assert_ne!(&sealed[12..12 + msg.len()], &msg[..], "ciphertext must differ");
        }
        assert_eq!(enc.decrypt(&sealed).unwrap(), msg);
    }
}

#[test]
fn tampered_ciphertext_is_encryption_error() {
    let enc = EncryptionManager::new(&[1u8; 32]);
    let sealed = enc.encrypt(b"some bytes").unwrap();
    for i in 0..sealed.len() {
        let mut t = sealed.clone();
        t[i] ^= 0x01;
        assert!(matches!(enc.decrypt(&t), Err(VpnError::Encryption(_))));
    }
    let other = EncryptionManager::new(&[2u8; 32]);
    assert!(matches!(other.decrypt(&sealed), Err(VpnError::Encryption(_))));
}

#[test]
fn decrypt_short_input_is_data_too_short() {
    let enc = EncryptionManager::new(&[1u8; 32]);
    for n in 0..12 {
        match enc.decrypt(&vec![0u8; n]) {
            Err(VpnError::Encryption(m)) => assert_eq!(m, "Data too short"),
            other => panic!("unexpected {:?}", other),
        }
    }
}

#[test]
fn frame_round_trip() {
    let h = handler();
    let mut packets = vec![
        VpnPacket::new_data([192, 168, 1, 1], [192, 168, 1, 2], b"Hello, VPN Server!".to_vec()),
        VpnPacket::new_keepalive(),
    ];
    for c in [
        ControlType::ConfigRequest,
        ControlType::ConfigResponse,
        ControlType::RouteUpdate,
        ControlType::Disconnect,
    ] {
        packets.push(VpnPacket::new_control(c));
    }
    for p in packets {
        let frame = h.pack(p.clone()).unwrap();
        let q = h.unpack(&frame).unwrap();
        assert_eq!(q.source_ip, p.source_ip);
        assert_eq!(q.dest_ip, p.dest_ip);
        assert_eq!(q.packet_type, p.packet_type);
        assert_eq!(q.control_type, p.control_type);
        assert_eq!(q.payload, p.payload);
    }
}

#[test]
fn unpack_of_short_plaintext_is_protocol_error() {
    let enc = EncryptionManager::new(&[1u8; 32]);
    let h = handler();
    for n in 0..10 {
        let frame = enc.encrypt(&vec![0u8; n]).unwrap();
        assert!(matches!(h.unpack(&frame), Err(VpnError::Protocol(_))));
    }
    let frame = enc.encrypt(&[0, 0, 0, 0, 0, 0, 0, 0, 3, 0]).unwrap();
    assert_eq!(protocol_message(&h.unpack(&frame).unwrap_err()), "Invalid packet type");
    let frame = enc.encrypt(&[0, 0, 0, 0, 0, 0, 0, 0, 2, 4]).unwrap();
    assert_eq!(protocol_message(&h.unpack(&frame).unwrap_err()), "Invalid control type");
}

#[test]
fn each_encryption_draws_a_fresh_nonce() {
    let enc = EncryptionManager::new(&[1u8; 32]);
    let a = enc.encrypt(b"same bytes").unwrap();
    let b = enc.encrypt(b"same bytes").unwrap();
    assert_ne!(&a[..12], &b[..12]);
    assert_eq!(enc.decrypt(&a).unwrap(), enc.decrypt(&b).unwrap());
}

#[test]
fn body_shorter_than_tag_is_encryption_error() {
    let enc = EncryptionManager::new(&[1u8; 32]);
    for n in 12..28 {
        assert!(matches!(enc.decrypt(&vec![0u8; n]), Err(VpnError::Encryption(_))));
    }
}

#[test]
fn encryption_under_a_given_nonce() {
    let enc = EncryptionManager::new(&[1u8; 32]);
    let nonce = [7u8; 12];
    let a = enc.encrypt_with_nonce(nonce, b"fixed").unwrap();
    let b = enc.encrypt_with_nonce(nonce, b"fixed").unwrap();
    assert_eq!(a, b);
    assert_eq!(&a[..12], &nonce[..]);
    assert_eq!(a.len(), 12 + 5 + 16);
    assert_ne!(&a[12..17], b"fixed");
    assert_eq!(enc.decrypt(&a).unwrap(), b"fixed".to_vec());
}
