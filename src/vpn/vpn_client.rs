use vstd::prelude::*;

use crate::error::VpnError;
use crate::protocol::packet::{ControlType, PacketType, VpnPacket};
use crate::vpn::vpn_service::{VpnConfig, CONFIG_LEN};
use crate::vpn::vpn_worker::control_reply;

verus! {

/// The client's side of a session: the configuration in force and whether
/// the handshake has completed.
pub struct ClientSession {
    config: VpnConfig,
    connected: bool,
}

impl ClientSession {
    pub closed spec fn config(&self) -> VpnConfig {
        self.config
    }

    pub closed spec fn connected(&self) -> bool {
        self.connected
    }

    /// A session that has not shaken hands yet, with a configuration to use
    /// until the server sends its own.
    pub fn new(config: VpnConfig) -> (r: Self)
        ensures
            r.config() == config,
            !r.connected(),
    {
        ClientSession { config, connected: false }
    }

    pub fn is_connected(&self) -> (r: bool)
        ensures
            r == self.connected(),
    {
        self.connected
    }

    pub fn config_in_force(&self) -> (r: VpnConfig)
        ensures
            r == self.config(),
    {
        self.config
    }

    /// The packet that opens the handshake: an empty configuration request.
    pub fn handshake_request() -> (r: VpnPacket)
        ensures
            r@ == control_reply(ControlType::ConfigRequest, Seq::<u8>::empty()),
    {
        VpnPacket::new_control(ControlType::ConfigRequest)
    }

    /// Completes the handshake with the server's answer, which must be a
    /// configuration response holding a configuration; the session then
    /// uses that configuration and is connected. On failure nothing changes.
    pub fn complete_handshake(&mut self, response: &VpnPacket) -> (r: Result<(), VpnError>)
        ensures
            !(response.packet_type == PacketType::Control && response.control_type == Some(
                ControlType::ConfigResponse,
            )) ==> r is Err && r->Err_0.is_protocol("Invalid handshake response"@),
            response.packet_type == PacketType::Control && response.control_type == Some(
                ControlType::ConfigResponse,
            ) && response.payload@.len() < CONFIG_LEN ==> r is Err && r->Err_0.is_config(
                "Config data too short"@,
            ),
            r is Err ==> *final(self) == *old(self),
            r is Ok <==> response.packet_type == PacketType::Control && response.control_type
                == Some(ControlType::ConfigResponse) && response.payload@.len() >= CONFIG_LEN,
            r is Ok ==> final(self).config() == VpnConfig::decoded(response.payload@)
                && final(self).connected(),
    {
        if response.packet_type != PacketType::Control || response.control_type != Some(
            ControlType::ConfigResponse,
        ) {
            return Err(VpnError::protocol("Invalid handshake response"));
        }
        let config = match VpnConfig::from_bytes(response.payload.as_slice()) {
            Ok(c) => c,
            Err(e) => return Err(e),
        };
        self.config = config;
        self.connected = true;
        Ok(())
    }

    /// Requests may be sent only on a connected session.
    pub fn check_connected(&self) -> (r: Result<(), VpnError>)
        ensures
            r is Ok <==> self.connected(),
            r is Err ==> r->Err_0.is_protocol("Not connected"@),
    {
        if self.connected {
            Ok(())
        } else {
            Err(VpnError::protocol("Not connected"))
        }
    }

    /// The packet that ends a connected session; none once it is closed.
    pub fn disconnect_request(&self) -> (r: Option<VpnPacket>)
        ensures
            r is Some <==> self.connected(),
            r is Some ==> r->Some_0@ == control_reply(ControlType::Disconnect, Seq::<u8>::empty()),
    {
        if self.connected {
            Some(VpnPacket::new_control(ControlType::Disconnect))
        } else {
            None
        }
    }

    /// Records that the disconnect request went out.
    pub fn mark_disconnected(&mut self)
        ensures
            !final(self).connected(),
            final(self).config() == old(self).config(),
    {
        self.connected = false;
    }
}

} // verus!
