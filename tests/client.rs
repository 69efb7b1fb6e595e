use rust_vpn::config::settings;
use rust_vpn::crypto::key_exchange::KeyExchange;
use rust_vpn::protocol::packet::{ControlType, VpnPacket};
use rust_vpn::vpn::vpn_client::ClientSession;
use rust_vpn::vpn::vpn_service::VpnConfig;
use rust_vpn::VpnError;

#[test]
fn handshake_applies_server_config() {
    let mut s = ClientSession::new(VpnConfig::default());
    assert!(!s.is_connected());
    assert!(matches!(s.check_connected(), Err(VpnError::Protocol(_))));
    assert!(s.disconnect_request().is_none());
    let req = ClientSession::handshake_request();
    assert_eq!(req.control_type, Some(ControlType::ConfigRequest));
    let mut resp = VpnPacket::new_control(ControlType::ConfigResponse);
    resp.set_payload(vec![0, 0, 4, 0, 0, 0, 0, 10, 0, 0, 0, 7]);
    s.complete_handshake(&resp).unwrap();
    assert!(s.is_connected());
    assert!(s.check_connected().is_ok());
    let c = s.config_in_force();
    assert_eq!(c.mtu, 1024);
    assert_eq!(c.keepalive_interval, 10);
    assert_eq!(c.reconnect_attempts, 7);
    let bye = s.disconnect_request().unwrap();
    assert_eq!(bye.control_type, Some(ControlType::Disconnect));
    s.mark_disconnected();
    assert!(!s.is_connected());
}

#[test]
fn handshake_refuses_other_packets() {
    let mut s = ClientSession::new(VpnConfig::default());
    let wrong = VpnPacket::new_control(ControlType::Disconnect);
    match s.complete_handshake(&wrong) {
        Err(VpnError::Protocol(m)) => assert_eq!(m, "Invalid handshake response"),
        other => panic!("unexpected {:?}", other),
    }
    let short = VpnPacket::new_control(ControlType::ConfigResponse);
    assert!(matches!(s.complete_handshake(&short), Err(VpnError::Config(_))));
    assert!(!s.is_connected());
    assert_eq!(s.config_in_force(), VpnConfig::default());
}

#[test]
fn key_agreement_is_symmetric() {
    let a = KeyExchange::new();
    let b = KeyExchange::new();
    let ab = a.generate_shared_secret(&b.public_key_bytes());
    let ba = b.generate_shared_secret(&a.public_key_bytes());
    assert_eq!(ab, ba);
    assert_ne!(a.public_key_bytes(), b.public_key_bytes());
    assert_ne!(ab, [0u8; 32]);
}

#[test]
fn settings_always_validate() {
    let s = settings::VpnConfig { mtu: 1500, keepalive_interval: 30, reconnect_attempts: 3 };
    assert!(s.validate().is_ok());
}
