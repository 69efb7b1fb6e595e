use rust_vpn::crypto::encryption::EncryptionManager;
use rust_vpn::network::connection::ConnectionInfo;
use rust_vpn::network::transport::{encode_frame, frame_length};
use rust_vpn::protocol::handler::ProtocolHandler;
use rust_vpn::protocol::packet::{ControlType, PacketType, VpnPacket};
use rust_vpn::vpn::vpn_service::{parse_route_updates, VpnConfig};
use rust_vpn::vpn::vpn_worker::SessionTables;
use rust_vpn::VpnError;

fn handler() -> ProtocolHandler {
    ProtocolHandler::new(EncryptionManager::new(&[1u8; 32]))
}

fn route_bytes() -> Vec<u8> {
    vec![
        10, 0, 0, 0, 255, 255, 255, 0, 10, 0, 0, 1, 0, 0, 0, 5, //
        192, 168, 0, 0, 255, 255, 0, 0, 192, 168, 0, 1, 0, 0, 1, 0,
    ]
}

#[test]
fn route_payload_parses_in_order() {
    let routes = parse_route_updates(&route_bytes()).unwrap();
    assert_eq!(routes.len(), 2);
    assert_eq!(routes[0].target_network, [10, 0, 0, 0]);
    assert_eq!(routes[0].network_mask, [255, 255, 255, 0]);
    assert_eq!(routes[0].next_hop, [10, 0, 0, 1]);
    assert_eq!(routes[0].metric, 5);
    assert_eq!(routes[1].target_network, [192, 168, 0, 0]);
    assert_eq!(routes[1].metric, 256);
    assert_eq!(parse_route_updates(&[]).unwrap().len(), 0);
}

#[test]
fn route_payload_of_bad_length_is_refused() {
    for n in [1usize, 15, 17, 31] {
        match parse_route_updates(&vec![0u8; n]) {
            Err(VpnError::Protocol(m)) => assert_eq!(m, "Invalid route update payload length"),
            other => panic!("unexpected {:?}", other),
        }
    }
}

#[test]
fn config_wire_form() {
    let c = VpnConfig::default();
    assert_eq!(c.to_bytes(), vec![0, 0, 5, 0xDC, 0, 0, 0, 0x1E, 0, 0, 0, 3]);
    assert_eq!(VpnConfig::from_bytes(&c.to_bytes()).unwrap(), c);
    match VpnConfig::from_bytes(&[0u8; 11]) {
        Err(VpnError::Config(m)) => assert_eq!(m, "Config data too short"),
        other => panic!("unexpected {:?}", other),
    }
}

#[test]
fn frame_length_bound() {
    assert_eq!(frame_length([0, 0, 0xFF, 0xFF]).unwrap(), 65535);
    assert_eq!(frame_length([0, 0, 0, 0]).unwrap(), 0);
    match frame_length([0, 1, 0, 0]) {
        Err(VpnError::Protocol(m)) => assert_eq!(m, "Packet too large"),
        other => panic!("unexpected {:?}", other),
    }
    assert!(frame_length([0xFF, 0xFF, 0xFF, 0xFF]).is_err());
    assert_eq!(encode_frame(&[7, 8, 9]), vec![0, 0, 0, 3, 7, 8, 9]);
}

#[test]
fn oversize_frame_is_refused_on_read() {
    let h = handler();
    let packet = VpnPacket::new_data([1, 1, 1, 1], [2, 2, 2, 2], vec![0u8; 64 * 1024]);
    let body = h.pack(packet).unwrap();
    assert!(body.len() > 65535);
    let frame = encode_frame(&body);
    let prefix = [frame[0], frame[1], frame[2], frame[3]];
    assert!(matches!(frame_length(prefix), Err(VpnError::Protocol(_))));
}

fn send(
    t: &mut SessionTables,
    h: &ProtocolHandler,
    id: &str,
    p: VpnPacket,
    now: u64,
) -> (Option<VpnPacket>, bool) {
    let frame = h.pack(p).unwrap();
    let out = t.handle_frame(h, id, &frame, &VpnConfig::default(), now).unwrap();
    (out.reply.map(|b| h.unpack(&b).unwrap()), out.close)
}

#[test]
fn handshake_returns_default_config() {
    let h = handler();
    let mut t = SessionTables::new();
    t.add_session("127.0.0.1:5000", 0);
    let (reply, close) = send(&mut t, &h, "127.0.0.1:5000", VpnPacket::new_control(ControlType::ConfigRequest), 5);
    let reply = reply.unwrap();
    assert!(!close);
    assert_eq!(reply.packet_type, PacketType::Control);
    assert_eq!(reply.control_type, Some(ControlType::ConfigResponse));
    assert_eq!(reply.payload, vec![0x00, 0x00, 0x05, 0xDC, 0x00, 0x00, 0x00, 0x1E, 0x00, 0x00, 0x00, 0x03]);
    assert_eq!(t.config_of("127.0.0.1:5000"), Some(VpnConfig::default()));
    assert_eq!(t.last_seen("127.0.0.1:5000"), Some(5));
}

#[test]
fn data_is_echoed_with_addresses_swapped() {
    let h = handler();
    let mut t = SessionTables::new();
    t.add_session("a", 0);
    let p = VpnPacket::new_data([192, 168, 1, 1], [192, 168, 1, 2], b"Hello, VPN Server!".to_vec());
    let (reply, _) = send(&mut t, &h, "a", p, 1);
    let reply = reply.unwrap();
    assert_eq!(reply.packet_type, PacketType::Data);
    assert_eq!(reply.source_ip, [192, 168, 1, 2]);
    assert_eq!(reply.dest_ip, [192, 168, 1, 1]);
    assert_eq!(reply.payload, b"Hello, VPN Server!".to_vec());
}

#[test]
fn keepalive_refreshes_and_has_no_reply() {
    let h = handler();
    let mut t = SessionTables::new();
    t.add_session("a", 1_000);
    let (reply, close) = send(&mut t, &h, "a", VpnPacket::new_keepalive(), 50_000);
    assert!(reply.is_none());
    assert!(!close);
    assert_eq!(t.last_seen("a"), Some(50_000));
    assert!(t.reap(50_000 + 89_000).is_empty());
    assert!(t.contains("a"));
    assert_eq!(t.reap(50_000 + 90_001), vec!["a".to_string()]);
    assert!(!t.contains("a"));
}

#[test]
fn disconnect_acknowledges_and_clears_tables() {
    let h = handler();
    let mut t = SessionTables::new();
    t.add_session("a", 0);
    send(&mut t, &h, "a", VpnPacket::new_control(ControlType::ConfigRequest), 1);
    let mut update = VpnPacket::new_control(ControlType::RouteUpdate);
    update.set_payload(route_bytes());
    let (ack, _) = send(&mut t, &h, "a", update, 2);
    assert_eq!(ack.unwrap().payload, vec![1]);
    assert_eq!(t.routes_of("a").unwrap().len(), 2);
    let (reply, close) = send(&mut t, &h, "a", VpnPacket::new_control(ControlType::Disconnect), 3);
    let reply = reply.unwrap();
    assert!(close);
    assert_eq!(reply.control_type, Some(ControlType::Disconnect));
    assert!(reply.payload.is_empty());
    assert!(!t.contains("a"));
    assert!(t.routes_of("a").is_none());
    assert!(t.config_of("a").is_none());
}

#[test]
fn three_clients_get_their_own_echo() {
    let h = handler();
    let mut t = SessionTables::new();
    let ids = ["10.0.0.1:1", "10.0.0.2:2", "10.0.0.3:3"];
    for id in ids {
        t.add_session(id, 0);
    }
    assert_eq!(t.session_ids().len(), 3);
    for (i, id) in ids.iter().enumerate() {
        let payload = format!("payload of client {}", i).into_bytes();
        let p = VpnPacket::new_data([192, 168, 1, i as u8], [192, 168, 1, 2], payload.clone());
        let (reply, _) = send(&mut t, &h, id, p, 1);
        assert_eq!(reply.unwrap().payload, payload);
    }
}

#[test]
fn unknown_session_and_bad_frames() {
    let h = handler();
    let mut t = SessionTables::new();
    let frame = h.pack(VpnPacket::new_keepalive()).unwrap();
    assert!(matches!(
        t.handle_frame(&h, "nobody", &frame, &VpnConfig::default(), 0),
        Err(VpnError::ClientNotFound)
    ));
    t.add_session("a", 0);
    let mut bad = frame.clone();
    bad[20] ^= 1;
    let err = t.handle_frame(&h, "a", &bad, &VpnConfig::default(), 0).unwrap_err();
    assert!(matches!(err, VpnError::Encryption(_)));
    assert!(t.handle_error("a", &err));
    assert!(!t.contains("a"));
    t.add_session("b", 0);
    let resp = VpnPacket::new_control(ControlType::ConfigResponse);
    let frame = h.pack(resp).unwrap();
    let err = t.handle_frame(&h, "b", &frame, &VpnConfig::default(), 0).unwrap_err();
    assert!(matches!(err, VpnError::Protocol(_)));
    assert!(!t.handle_error("b", &VpnError::GenericError("x".to_string())));
    assert!(t.contains("b"));
}

#[test]
fn tables_stay_consistent() {
    let h = handler();
    let mut t = SessionTables::new();
    t.add_session("a", 0);
    t.add_session("b", 0);
    let mut update = VpnPacket::new_control(ControlType::RouteUpdate);
    update.set_payload(route_bytes());
    send(&mut t, &h, "a", update.clone(), 1);
    send(&mut t, &h, "b", VpnPacket::new_control(ControlType::ConfigRequest), 1);
    send(&mut t, &h, "b", update, 100_000);
    // "a" goes stale and takes its routes with it
    assert_eq!(t.stale_sessions(100_000), vec!["a".to_string()]);
    t.reap(100_000);
    assert!(t.routes_of("a").is_none());
    assert!(t.routes_of("b").is_some());
    t.remove_session("b");
    assert!(t.routes_of("b").is_none());
    assert!(t.config_of("b").is_none());
    assert!(t.session_ids().is_empty());
}

#[test]
fn touch_unknown_session() {
    let mut t = SessionTables::new();
    assert!(matches!(t.touch("x", 1), Err(VpnError::ClientNotFound)));
    t.add_session("x", 1);
    assert!(t.touch("x", 2).is_ok());
    assert_eq!(t.last_seen("x"), Some(2));
}

#[test]
fn connection_counters() {
    let mut c = ConnectionInfo::new(10);
    c.update_stats(20, 100, 50);
    c.update_stats(30, 1, 2);
    assert_eq!(c.last_seen, 30);
    assert_eq!(c.connected_since, 10);
    assert_eq!(c.bytes_sent, 101);
    assert_eq!(c.bytes_received, 52);
    assert_eq!(c.packets_sent, 2);
    assert_eq!(c.packets_received, 2);
}

#[test]
fn reap_keeps_live_sessions_with_their_tables() {
    let h = handler();
    let mut t = SessionTables::new();
    t.add_session("old", 0);
    t.add_session("live", 0);
    send(&mut t, &h, "old", VpnPacket::new_control(ControlType::ConfigRequest), 0);
    send(&mut t, &h, "live", VpnPacket::new_control(ControlType::ConfigRequest), 50_000);
    let mut update = VpnPacket::new_control(ControlType::RouteUpdate);
    update.set_payload(route_bytes());
    send(&mut t, &h, "live", update, 60_000);
    let removed = t.reap(120_000);
    assert_eq!(removed, vec!["old".to_string()]);
    assert!(t.config_of("old").is_none());
    assert_eq!(t.config_of("live"), Some(VpnConfig::default()));
    assert_eq!(t.routes_of("live").unwrap().len(), 2);
    assert_eq!(t.stale_sessions(200_000), vec!["live".to_string()]);
}
