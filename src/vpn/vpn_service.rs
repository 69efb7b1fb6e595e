use vstd::prelude::*;

use crate::error::VpnError;
use crate::wire::{be32_bytes, be32_value, push_be32, read_be32};

verus! {

/// Bytes of a configuration on the wire: three big-endian words.
pub const CONFIG_LEN: usize = 12;

/// Bytes of one route entry on the wire.
pub const ROUTE_ENTRY_LEN: usize = 16;

/// The operating parameters that a server hands its clients.
#[derive(Debug, Clone, Copy, PartialEq, Eq, Structural)]
pub struct VpnConfig {
    pub mtu: usize,
    /// Seconds between heartbeats.
    pub keepalive_interval: u64,
    pub reconnect_attempts: u32,
}

impl VpnConfig {
    /// The defaults: an MTU of 1500, a heartbeat every 30 s, 3 reconnects.
    pub open spec fn spec_default() -> VpnConfig {
        VpnConfig { mtu: 1500, keepalive_interval: 30, reconnect_attempts: 3 }
    }

    /// The wire form: MTU, heartbeat seconds and reconnect attempts, each
    /// as a big-endian word (a value over 32 bits keeps its low 32 bits).
    pub open spec fn encode(self) -> Seq<u8> {
        be32_bytes(self.mtu as u32) + be32_bytes(self.keepalive_interval as u32) + be32_bytes(
            self.reconnect_attempts,
        )
    }

    /// The configuration that the first twelve bytes of `b` hold.
    pub open spec fn decoded(b: Seq<u8>) -> VpnConfig {
        VpnConfig {
            mtu: be32_value(b.subrange(0, 4)) as usize,
            keepalive_interval: be32_value(b.subrange(4, 8)) as u64,
            reconnect_attempts: be32_value(b.subrange(8, 12)) as u32,
        }
    }

    /// The wire form of the configuration.
    pub fn to_bytes(&self) -> (r: Vec<u8>)
        ensures
            r@ == self.encode(),
    {
        let mut data: Vec<u8> = Vec::new();
        push_be32(&mut data, self.mtu as u32);
        push_be32(&mut data, self.keepalive_interval as u32);
        push_be32(&mut data, self.reconnect_attempts);
        assert(data@ =~= self.encode());
        data
    }

    /// Parses a configuration from its wire form; bytes after the first
    /// twelve are ignored, and fewer than twelve are a configuration error.
    pub fn from_bytes(bytes: &[u8]) -> (r: Result<Self, VpnError>)
        ensures
            bytes@.len() < CONFIG_LEN ==> r is Err && r->Err_0.is_config(
                "Config data too short"@,
            ),
            bytes@.len() >= CONFIG_LEN ==> r == Ok::<VpnConfig, VpnError>(
                VpnConfig::decoded(bytes@),
            ),
    {
        if bytes.len() < CONFIG_LEN {
            return Err(VpnError::config("Config data too short"));
        }
        let mtu = read_be32(bytes, 0);
        let keepalive = read_be32(bytes, 4);
        let reconnect = read_be32(bytes, 8);
        Ok(
            VpnConfig {
                mtu: mtu as usize,
                keepalive_interval: keepalive as u64,
                reconnect_attempts: reconnect,
            },
        )
    }
}

impl Default for VpnConfig {
    fn default() -> (r: Self)
        ensures
            r == VpnConfig::spec_default(),
    {
        VpnConfig { mtu: 1500, keepalive_interval: 30, reconnect_attempts: 3 }
    }
}

/// A configuration whose values fit in 32 bits reads back from its wire form
/// unchanged.
pub proof fn lemma_config_round_trip(c: VpnConfig)
    requires
        c.mtu <= u32::MAX,
        c.keepalive_interval <= u32::MAX,
    ensures
        VpnConfig::decoded(c.encode()) == c,
{
    let b = c.encode();
    assert(b.subrange(0, 4) =~= be32_bytes(c.mtu as u32));
    assert(b.subrange(4, 8) =~= be32_bytes(c.keepalive_interval as u32));
    assert(b.subrange(8, 12) =~= be32_bytes(c.reconnect_attempts));
    crate::wire::lemma_be32_round_trip(c.mtu as u32);
    crate::wire::lemma_be32_round_trip(c.keepalive_interval as u32);
    crate::wire::lemma_be32_round_trip(c.reconnect_attempts);
}

/// The mathematical value of a route entry.
pub struct RouteView {
    pub target_network: Seq<u8>,
    pub network_mask: Seq<u8>,
    pub next_hop: Seq<u8>,
    pub metric: u32,
}

/// A route that a client announces.
#[derive(Debug, Clone, Copy)]
pub struct RouteEntry {
    pub target_network: [u8; 4],
    pub network_mask: [u8; 4],
    pub next_hop: [u8; 4],
    pub metric: u32,
}

impl View for RouteEntry {
    type V = RouteView;

    open spec fn view(&self) -> RouteView {
        RouteView {
            target_network: self.target_network@,
            network_mask: self.network_mask@,
            next_hop: self.next_hop@,
            metric: self.metric,
        }
    }
}

/// The route that the sixteen bytes at entry `i` of a payload hold:
/// network, mask, next hop, then the metric as a big-endian word.
pub open spec fn route_at(payload: Seq<u8>, i: int) -> RouteView {
    let e = payload.subrange(16 * i, 16 * i + 16);
    RouteView {
        target_network: e.subrange(0, 4),
        network_mask: e.subrange(4, 8),
        next_hop: e.subrange(8, 12),
        metric: be32_value(e.subrange(12, 16)) as u32,
    }
}

/// Parses a route payload: a run of sixteen-byte entries. A length that is
/// not a multiple of sixteen is a protocol error; otherwise there is one
/// route per entry, in order.
pub fn parse_route_updates(payload: &[u8]) -> (r: Result<Vec<RouteEntry>, VpnError>)
    ensures
        payload@.len() % 16 != 0 ==> r is Err && r->Err_0.is_protocol(
            "Invalid route update payload length"@,
        ),
        payload@.len() % 16 == 0 ==> r is Ok && r->Ok_0@.len() == payload@.len() / 16 && forall|
            i: int,
        |
            0 <= i < r->Ok_0@.len() ==> #[trigger] r->Ok_0@[i]@ == route_at(payload@, i),
{
    if payload.len() % ROUTE_ENTRY_LEN != 0 {
        return Err(VpnError::protocol("Invalid route update payload length"));
    }
    let mut routes: Vec<RouteEntry> = Vec::new();
    let mut offset: usize = 0;
    while offset < payload.len()
        invariant
            payload@.len() % 16 == 0,
            offset % 16 == 0,
            offset <= payload@.len(),
            routes@.len() == offset / 16,
            forall|i: int| 0 <= i < routes@.len() ==> #[trigger] routes@[i]@ == route_at(payload@, i),
        decreases payload.len() - offset,
    {
        assert(offset + 16 <= payload@.len());
        let network: [u8; 4] = [
            payload[offset],
            payload[offset + 1],
            payload[offset + 2],
            payload[offset + 3],
        ];
        let mask: [u8; 4] = [
            payload[offset + 4],
            payload[offset + 5],
            payload[offset + 6],
            payload[offset + 7],
        ];
        let next_hop: [u8; 4] = [
            payload[offset + 8],
            payload[offset + 9],
            payload[offset + 10],
            payload[offset + 11],
        ];
        let metric = read_be32(payload, offset + 12);
        let entry = RouteEntry { target_network: network, network_mask: mask, next_hop, metric };
        proof {
            let i = (offset / 16) as int;
            assert(16 * i == offset);
            let e = payload@.subrange(16 * i, 16 * i + 16);
            assert(entry.target_network@ =~= e.subrange(0, 4));
            assert(entry.network_mask@ =~= e.subrange(4, 8));
            assert(entry.next_hop@ =~= e.subrange(8, 12));
            assert(payload@.subrange(offset + 12, offset + 16) =~= e.subrange(12, 16));
        }
        routes.push(entry);
        offset = offset + ROUTE_ENTRY_LEN;
    }
    Ok(routes)
}

} // verus!
