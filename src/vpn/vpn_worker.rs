use vstd::prelude::*;

use crate::crypto::encryption::{sealed_frame, PLAINTEXT_MAX};
use crate::error::VpnError;
use crate::protocol::handler::ProtocolHandler;
use crate::protocol::packet::{
    decode_fault,
    decode_packet,
    ControlType,
    PacketType,
    PacketView,
    VpnPacket,
};
use crate::vpn::table::KeyedTable;
use crate::vpn::vpn_service::{parse_route_updates, route_at, RouteEntry, VpnConfig};

verus! {

/// Milliseconds of silence after which a session is stale.
pub const STALE_AFTER_MS: u64 = 90_000;

/// A session last heard from at `last_seen` is stale at `now` once more than
/// ninety seconds have passed (times in milliseconds).
pub open spec fn is_stale(last_seen: u64, now: u64) -> bool {
    now > last_seen + STALE_AFTER_MS
}

/// A control packet from the server: zero addresses, the given control type
/// and payload.
pub open spec fn control_reply(c: ControlType, payload: Seq<u8>) -> PacketView {
    PacketView {
        source_ip: seq![0u8, 0, 0, 0],
        dest_ip: seq![0u8, 0, 0, 0],
        packet_type: PacketType::Control,
        control_type: Some(c),
        payload,
    }
}

/// The echo of a data packet: addresses swapped, the same payload.
pub open spec fn echo_reply(p: PacketView) -> PacketView {
    PacketView {
        source_ip: p.dest_ip,
        dest_ip: p.source_ip,
        packet_type: PacketType::Data,
        control_type: None,
        payload: p.payload,
    }
}

/// What the server does after a packet: the reply to send, if any, and
/// whether to close the session's stream once it is sent.
#[derive(Debug)]
pub struct Response {
    pub reply: Option<VpnPacket>,
    pub close: bool,
}

/// What handling `packet` from the live session `id` does: the tables before
/// (`s0`, `r0`, `c0`), after (`s1`, `r1`, `c1`), and the result.
pub open spec fn dispatched(
    s0: Map<Seq<char>, u64>,
    r0: Map<Seq<char>, Vec<RouteEntry>>,
    c0: Map<Seq<char>, VpnConfig>,
    s1: Map<Seq<char>, u64>,
    r1: Map<Seq<char>, Vec<RouteEntry>>,
    c1: Map<Seq<char>, VpnConfig>,
    id: Seq<char>,
    packet: PacketView,
    server_config: VpnConfig,
    now: u64,
    r: Result<Response, VpnError>,
) -> bool {
    &&& r is Err ==> s1 == s0 && r1 == r0 && c1 == c0
    &&& match packet.packet_type {
        PacketType::Data => r is Ok && r->Ok_0.reply is Some && r->Ok_0.reply->Some_0@
            == echo_reply(packet) && !r->Ok_0.close && (s1 == s0 && r1 == r0 && c1 == c0),
        PacketType::Keepalive => r is Ok && r->Ok_0.reply is None && !r->Ok_0.close && s1
            == s0.insert(id, now) && r1 == r0 && c1 == c0,
        PacketType::Control => match packet.control_type {
            None => r is Err && r->Err_0.is_protocol("Missing control type"@),
            Some(ControlType::ConfigResponse) => r is Err && r->Err_0.is_protocol(
                "Unknown control type"@,
            ),
            Some(ControlType::ConfigRequest) => {
                let cfg = if c0.contains_key(id) {
                    c0[id]
                } else {
                    server_config
                };
                &&& r is Ok && !r->Ok_0.close
                &&& r->Ok_0.reply is Some
                &&& r->Ok_0.reply->Some_0@ == control_reply(
                    ControlType::ConfigResponse,
                    cfg.encode(),
                )
                &&& c1 == c0.insert(id, cfg)
                &&& s1 == s0
                &&& r1 == r0
            },
            Some(ControlType::RouteUpdate) => {
                &&& packet.payload.len() % 16 != 0 ==> r is Err && r->Err_0.is_protocol(
                    "Invalid route update payload length"@,
                )
                &&& packet.payload.len() % 16 == 0 ==> {
                    &&& r is Ok && !r->Ok_0.close
                    &&& r->Ok_0.reply is Some
                    &&& r->Ok_0.reply->Some_0@ == control_reply(
                        ControlType::RouteUpdate,
                        seq![1u8],
                    )
                    &&& r1.contains_key(id)
                    &&& r1[id]@.len() == packet.payload.len() / 16
                    &&& forall|i: int|
                        0 <= i < r1[id]@.len() ==> #[trigger] r1[id]@[i]@ == route_at(
                            packet.payload,
                            i,
                        )
                    &&& forall|k: Seq<char>|
                        k != id ==> (#[trigger] r1.contains_key(k) == r0.contains_key(k))
                            && r1[k] == r0[k]
                    &&& r1.dom() == r0.dom().insert(id)
                    &&& s1 == s0
                    &&& c1 == c0
                }
            },
            Some(ControlType::Disconnect) => {
                &&& r is Ok && r->Ok_0.close
                &&& r->Ok_0.reply is Some
                &&& r->Ok_0.reply->Some_0@ == control_reply(
                    ControlType::Disconnect,
                    Seq::<u8>::empty(),
                )
                &&& s1 == s0.remove(id)
                &&& r1 == r0.remove(id)
                &&& c1 == c0.remove(id)
            },
        },
    }
}

/// What the server writes back after a frame: the encrypted reply body, if
/// any, and whether to close the session's stream once it is written.
#[derive(Debug)]
pub struct Outgoing {
    pub reply: Option<Vec<u8>>,
    pub close: bool,
}

/// `out` is `resp` with its reply encrypted under `key`.
pub open spec fn sent_as(key: Seq<u8>, resp: Response, out: Outgoing) -> bool {
    &&& out.close == resp.close
    &&& resp.reply is None <==> out.reply is None
    &&& resp.reply is Some ==> sealed_frame(key, out.reply->Some_0@, resp.reply->Some_0@.encode())
}

/// The server's shared state: the session table (id to the time the session
/// was last heard from, in milliseconds), the routes that each session
/// announced, and the configuration handed to each session.
pub struct SessionTables {
    sessions: KeyedTable<u64>,
    routes: KeyedTable<Vec<RouteEntry>>,
    configs: KeyedTable<VpnConfig>,
}

impl SessionTables {
    /// Session id to the time it was last heard from.
    pub closed spec fn sessions(&self) -> Map<Seq<char>, u64> {
        self.sessions.view()
    }

    /// Session id to its announced routes.
    pub closed spec fn routes(&self) -> Map<Seq<char>, Vec<RouteEntry>> {
        self.routes.view()
    }

    /// Session id to its configuration.
    pub closed spec fn configs(&self) -> Map<Seq<char>, VpnConfig> {
        self.configs.view()
    }

    /// Every key of the route and configuration tables is a live session.
    pub open spec fn consistent(&self) -> bool {
        &&& self.routes().dom().subset_of(self.sessions().dom())
        &&& self.configs().dom().subset_of(self.sessions().dom())
    }

    pub closed spec fn wf(&self) -> bool {
        &&& self.sessions.wf()
        &&& self.routes.wf()
        &&& self.configs.wf()
        &&& self.consistent()
    }

    /// The three tables, unchanged.
    pub open spec fn same_tables(&self, other: &SessionTables) -> bool {
        &&& self.sessions() == other.sessions()
        &&& self.routes() == other.routes()
        &&& self.configs() == other.configs()
    }

    pub fn new() -> (r: Self)
        ensures
            r.wf(),
            r.sessions() == Map::<Seq<char>, u64>::empty(),
            r.routes() == Map::<Seq<char>, Vec<RouteEntry>>::empty(),
            r.configs() == Map::<Seq<char>, VpnConfig>::empty(),
    {
        SessionTables { sessions: KeyedTable::new(), routes: KeyedTable::new(), configs: KeyedTable::new() }
    }

    /// Records a new connection from `id` at `now`; a connection from an id
    /// that is already present takes its place.
    pub fn add_session(&mut self, id: &str, now: u64)
        requires
            old(self).wf(),
        ensures
            final(self).wf(),
            final(self).sessions() == old(self).sessions().insert(id@, now),
            final(self).routes() == old(self).routes(),
            final(self).configs() == old(self).configs(),
    {
        self.sessions.insert(id.to_owned(), now);
    }

    pub fn contains(&self, id: &str) -> (r: bool)
        requires
            self.wf(),
        ensures
            r == self.sessions().contains_key(id@),
    {
        self.sessions.contains(&id.to_owned())
    }

    /// When the session was last heard from.
    pub fn last_seen(&self, id: &str) -> (r: Option<u64>)
        requires
            self.wf(),
        ensures
            r is None <==> !self.sessions().contains_key(id@),
            r is Some ==> r->Some_0 == self.sessions()[id@],
    {
        match self.sessions.get(&id.to_owned()) {
            Some(t) => Some(*t),
            None => None,
        }
    }

    /// Marks the session as heard from at `now`.
    pub fn touch(&mut self, id: &str, now: u64) -> (r: Result<(), VpnError>)
        requires
            old(self).wf(),
        ensures
            final(self).wf(),
            r is Ok <==> old(self).sessions().contains_key(id@),
            r is Err ==> r->Err_0 is ClientNotFound && final(self).same_tables(old(self)),
            r is Ok ==> final(self).sessions() == old(self).sessions().insert(id@, now)
                && final(self).routes() == old(self).routes() && final(self).configs() == old(self).configs(),
    {
        let key = id.to_owned();
        if !self.sessions.contains(&key) {
            return Err(VpnError::ClientNotFound);
        }
        self.sessions.insert(key, now);
        Ok(())
    }

    /// Drops a session together with its routes and its configuration.
    pub fn remove_session(&mut self, id: &str)
        requires
            old(self).wf(),
        ensures
            final(self).wf(),
            final(self).sessions() == old(self).sessions().remove(id@),
            final(self).routes() == old(self).routes().remove(id@),
            final(self).configs() == old(self).configs().remove(id@),
    {
        let key = id.to_owned();
        self.sessions.remove(&key);
        self.routes.remove(&key);
        self.configs.remove(&key);
    }

    /// The ids of all sessions, each once.
    pub fn session_ids(&self) -> (r: Vec<String>)
        requires
            self.wf(),
        ensures
            r@.len() == self.sessions().dom().len(),
            forall|i: int| 0 <= i < r@.len() ==> self.sessions().contains_key(#[trigger] r@[i]@),
            forall|k: Seq<char>| #[trigger]
                self.sessions().contains_key(k) ==> exists|i: int| 0 <= i < r@.len() && r@[i]@ == k,
            forall|i: int, j: int| 0 <= i < j < r@.len() ==> #[trigger] r@[i]@ != #[trigger] r@[j]@,
    {
        self.sessions.keys()
    }

    /// The ids of the sessions that are stale at `now`.
    pub fn stale_sessions(&self, now: u64) -> (r: Vec<String>)
        requires
            self.wf(),
        ensures
            forall|i: int|
                0 <= i < r@.len() ==> self.sessions().contains_key(#[trigger] r@[i]@) && is_stale(
                    self.sessions()[r@[i]@],
                    now,
                ),
            forall|k: Seq<char>| #[trigger]
                self.sessions().contains_key(k) && is_stale(self.sessions()[k], now) ==> exists|
                    i: int,
                | 0 <= i < r@.len() && r@[i]@ == k,
            forall|i: int, j: int| 0 <= i < j < r@.len() ==> #[trigger] r@[i]@ != #[trigger] r@[j]@,
    {
        let ids = self.sessions.keys();
        let mut r: Vec<String> = Vec::new();
        let ghost mut idx: Seq<int> = Seq::empty();
        let mut i: usize = 0;
        while i < ids.len()
            invariant
                self.wf(),
                i <= ids@.len(),
                forall|a: int, b: int|
                    0 <= a < b < ids@.len() ==> #[trigger] ids@[a]@ != #[trigger] ids@[b]@,
                idx.len() == r@.len(),
                forall|m: int|
                    0 <= m < r@.len() ==> 0 <= #[trigger] idx[m] < i && r@[m]@ == ids@[idx[m]]@,
                forall|a: int, b: int| 0 <= a < b < r@.len() ==> #[trigger] r@[a]@ != #[trigger] r@[b]@,
                forall|j: int| 0 <= j < ids@.len() ==> self.sessions().contains_key(#[trigger] ids@[j]@),
                forall|k: Seq<char>| #[trigger]
                    self.sessions().contains_key(k) ==> exists|j: int|
                        0 <= j < ids@.len() && ids@[j]@ == k,
                forall|j: int|
                    0 <= j < r@.len() ==> self.sessions().contains_key(#[trigger] r@[j]@) && is_stale(
                        self.sessions()[r@[j]@],
                        now,
                    ),
                forall|j: int|
                    0 <= j < i && is_stale(self.sessions()[#[trigger] ids@[j]@], now) ==> exists|
                        m: int,
                    | 0 <= m < r@.len() && r@[m]@ == ids@[j]@,
            decreases ids.len() - i,
        {
            let ghost r_before = r@;
            let seen = self.sessions.get(&ids[i]);
            match seen {
                Some(t) => {
                    if now > *t && now - *t > STALE_AFTER_MS {
                        r.push(ids[i].clone());
                        proof {
                            idx = idx.push(i as int);
                            assert forall|a: int, b: int|
                                0 <= a < b < r@.len() implies #[trigger] r@[a]@ != #[trigger] r@[b]@ by {
                                if b == r@.len() - 1 {
                                    assert(r@[a] == r_before[a]);
                                    assert(r@[a]@ == ids@[idx[a]]@);
                                } else {
                                    assert(r@[a] == r_before[a]);
                                    assert(r@[b] == r_before[b]);
                                }
                            }
                            assert forall|m: int|
                                0 <= m < r@.len() implies 0 <= #[trigger] idx[m] < i + 1 && r@[m]@
                                    == ids@[idx[m]]@ by {
                                if m < r@.len() - 1 {
                                    assert(r@[m] == r_before[m]);
                                }
                            }
                        }
                        assert(r@[r@.len() - 1]@ == ids@[i as int]@);
                    }
                },
                None => {},
            }
            proof {
                assert forall|j: int|
                    0 <= j < i + 1 && is_stale(self.sessions()[#[trigger] ids@[j]@], now) implies exists|
                    m: int,
                | 0 <= m < r@.len() && r@[m]@ == ids@[j]@ by {
                    if j < i {
                        let m = choose|m: int| 0 <= m < r_before.len() && r_before[m]@ == ids@[j]@;
                        assert(r@[m] == r_before[m]);
                    } else {
                        assert(r@[r@.len() - 1]@ == ids@[j]@);
                    }
                }
            }
            i = i + 1;
        }
        proof {
            assert forall|k: Seq<char>| #[trigger]
                self.sessions().contains_key(k) && is_stale(self.sessions()[k], now) implies exists|
                i: int,
            | 0 <= i < r@.len() && r@[i]@ == k by {
                let j = choose|j: int| 0 <= j < ids@.len() && ids@[j]@ == k;
                assert(is_stale(self.sessions()[ids@[j]@], now));
            }
        }
        r
    }

    /// Removes every session that is stale at `now`, with its routes and its
    /// configuration, and returns the ids removed.
    pub fn reap(&mut self, now: u64) -> (r: Vec<String>)
        requires
            old(self).wf(),
        ensures
            final(self).wf(),
            forall|k: Seq<char>|
                #![trigger final(self).sessions().contains_key(k)]
                #![trigger old(self).sessions().contains_key(k)]
                final(self).sessions().contains_key(k) <==> old(self).sessions().contains_key(k)
                    && !is_stale(old(self).sessions()[k], now),
            forall|k: Seq<char>| #[trigger]
                final(self).sessions().contains_key(k) ==> final(self).sessions()[k] == old(self).sessions()[k],
            final(self).routes() == old(self).routes().restrict(final(self).sessions().dom()),
            final(self).configs() == old(self).configs().restrict(final(self).sessions().dom()),
            forall|i: int|
                0 <= i < r@.len() ==> old(self).sessions().contains_key(#[trigger] r@[i]@)
                    && is_stale(old(self).sessions()[r@[i]@], now),
            forall|k: Seq<char>| #[trigger]
                old(self).sessions().contains_key(k) && is_stale(old(self).sessions()[k], now)
                    ==> exists|i: int| 0 <= i < r@.len() && r@[i]@ == k,
            forall|i: int, j: int| 0 <= i < j < r@.len() ==> #[trigger] r@[i]@ != #[trigger] r@[j]@,
    {
        let stale = self.stale_sessions(now);
        let ghost s0 = self.sessions();
        let ghost r0 = self.routes();
        let ghost c0 = self.configs();
        let mut i: usize = 0;
        while i < stale.len()
            invariant
                self.wf(),
                i <= stale@.len(),
                forall|j: int|
                    0 <= j < stale@.len() ==> s0.contains_key(#[trigger] stale@[j]@) && is_stale(
                        s0[stale@[j]@],
                        now,
                    ),
                forall|k: Seq<char>| #[trigger]
                    s0.contains_key(k) && is_stale(s0[k], now) ==> exists|j: int|
                        0 <= j < stale@.len() && stale@[j]@ == k,
                forall|k: Seq<char>|
                    #![trigger self.sessions().contains_key(k)]
                    #![trigger s0.contains_key(k)]
                    self.sessions().contains_key(k) <==> s0.contains_key(k) && !(exists|j: int|
                        0 <= j < i && stale@[j]@ == k),
                forall|k: Seq<char>| #[trigger]
                    self.sessions().contains_key(k) ==> self.sessions()[k] == s0[k],
                forall|k: Seq<char>|
                    #![trigger self.routes().contains_key(k)]
                    #![trigger r0.contains_key(k)]
                    self.routes().contains_key(k) <==> r0.contains_key(k) && !(exists|j: int|
                        0 <= j < i && stale@[j]@ == k),
                forall|k: Seq<char>| #[trigger]
                    self.routes().contains_key(k) ==> self.routes()[k] == r0[k],
                forall|k: Seq<char>|
                    #![trigger self.configs().contains_key(k)]
                    #![trigger c0.contains_key(k)]
                    self.configs().contains_key(k) <==> c0.contains_key(k) && !(exists|j: int|
                        0 <= j < i && stale@[j]@ == k),
                forall|k: Seq<char>| #[trigger]
                    self.configs().contains_key(k) ==> self.configs()[k] == c0[k],
            decreases stale.len() - i,
        {
            self.remove_session(stale[i].as_str());
            proof {
                assert forall|k: Seq<char>|
                    #![trigger self.sessions().contains_key(k)]
                    #![trigger s0.contains_key(k)]
                    self.sessions().contains_key(k) <==> s0.contains_key(k) && !(exists|j: int|
                        0 <= j < i + 1 && stale@[j]@ == k) by {
                    if exists|j: int| 0 <= j < i + 1 && stale@[j]@ == k {
                        let j = choose|j: int| 0 <= j < i + 1 && stale@[j]@ == k;
                        if j < i {
                        } else {
                            assert(k == stale@[i as int]@);
                        }
                    }
                }
            }
            proof {
                assert forall|k: Seq<char>|
                    #![trigger self.routes().contains_key(k)]
                    #![trigger r0.contains_key(k)]
                    self.routes().contains_key(k) <==> r0.contains_key(k) && !(exists|j: int|
                        0 <= j < i + 1 && stale@[j]@ == k) by {
                    if exists|j: int| 0 <= j < i + 1 && stale@[j]@ == k {
                        let j = choose|j: int| 0 <= j < i + 1 && stale@[j]@ == k;
                        if j == i {
                            assert(k == stale@[i as int]@);
                        }
                    }
                }
                assert forall|k: Seq<char>|
                    #![trigger self.configs().contains_key(k)]
                    #![trigger c0.contains_key(k)]
                    self.configs().contains_key(k) <==> c0.contains_key(k) && !(exists|j: int|
                        0 <= j < i + 1 && stale@[j]@ == k) by {
                    if exists|j: int| 0 <= j < i + 1 && stale@[j]@ == k {
                        let j = choose|j: int| 0 <= j < i + 1 && stale@[j]@ == k;
                        if j == i {
                            assert(k == stale@[i as int]@);
                        }
                    }
                }
            }
            i = i + 1;
        }
        proof {
            assert forall|k: Seq<char>|
                #![trigger self.sessions().contains_key(k)]
                #![trigger s0.contains_key(k)]
                self.sessions().contains_key(k) <==> s0.contains_key(k) && !is_stale(s0[k], now) by {
                if exists|j: int| 0 <= j < stale@.len() && stale@[j]@ == k {
                    let j = choose|j: int| 0 <= j < stale@.len() && stale@[j]@ == k;
                    assert(s0.contains_key(stale@[j]@));
                }
            }
            assert(r0.dom().subset_of(s0.dom()));
            assert(c0.dom().subset_of(s0.dom()));
            assert(self.routes() =~= r0.restrict(self.sessions().dom()));
            assert(self.configs() =~= c0.restrict(self.sessions().dom()));
        }
        stale
    }

    /// The routes that a session announced.
    pub fn routes_of(&self, id: &str) -> (r: Option<&Vec<RouteEntry>>)
        requires
            self.wf(),
        ensures
            r is None <==> !self.routes().contains_key(id@),
            r is Some ==> *r->Some_0 == self.routes()[id@],
    {
        self.routes.get(&id.to_owned())
    }

    /// The configuration handed to a session.
    pub fn config_of(&self, id: &str) -> (r: Option<VpnConfig>)
        requires
            self.wf(),
        ensures
            r is None <==> !self.configs().contains_key(id@),
            r is Some ==> r->Some_0 == self.configs()[id@],
    {
        match self.configs.get(&id.to_owned()) {
            Some(c) => Some(*c),
            None => None,
        }
    }
}

impl SessionTables {
    /// Handles one packet from session `id`, heard at `now`.
    ///
    /// A packet from an unknown session is refused with `ClientNotFound`.
    /// Data is echoed with its addresses swapped. A keepalive refreshes the
    /// session and has no reply. A configuration request is answered with
    /// the session's configuration, which is `server_config` the first time.
    /// A route update replaces the session's routes and is acknowledged with
    /// the single byte 1. A disconnect removes the session with its routes and
    /// configuration, and is acknowledged before the stream closes.
    pub fn dispatch(&mut self, id: &str, packet: VpnPacket, server_config: &VpnConfig, now: u64) -> (r:
        Result<Response, VpnError>)
        requires
            old(self).wf(),
        ensures
            final(self).wf(),
            r is Err ==> final(self).same_tables(old(self)),
            !old(self).sessions().contains_key(id@) ==> r is Err && r->Err_0 is ClientNotFound,
            old(self).sessions().contains_key(id@) ==> dispatched(
                old(self).sessions(),
                old(self).routes(),
                old(self).configs(),
                final(self).sessions(),
                final(self).routes(),
                final(self).configs(),
                id@,
                packet@,
                *server_config,
                now,
                r,
            ),
    {
        let key = id.to_owned();
        if !self.sessions.contains(&key) {
            return Err(VpnError::ClientNotFound);
        }
        match packet.packet_type {
            PacketType::Data => {
                let reply = VpnPacket {
                    source_ip: packet.dest_ip,
                    dest_ip: packet.source_ip,
                    packet_type: PacketType::Data,
                    control_type: None,
                    payload: packet.payload,
                };
                Ok(Response { reply: Some(reply), close: false })
            },
            PacketType::Keepalive => {
                self.sessions.insert(key, now);
                Ok(Response { reply: None, close: false })
            },
            PacketType::Control => match packet.control_type {
                None => Err(VpnError::protocol("Missing control type")),
                Some(ControlType::ConfigResponse) => Err(VpnError::protocol("Unknown control type")),
                Some(ControlType::ConfigRequest) => {
                    let config = match self.configs.get(&key) {
                        Some(c) => *c,
                        None => *server_config,
                    };
                    self.configs.insert(key, config);
                    let mut reply = VpnPacket::new_control(ControlType::ConfigResponse);
                    reply.set_payload(config.to_bytes());
                    Ok(Response { reply: Some(reply), close: false })
                },
                Some(ControlType::RouteUpdate) => {
                    let routes = match parse_route_updates(packet.payload.as_slice()) {
                        Ok(routes) => routes,
                        Err(e) => return Err(e),
                    };
                    let ghost parsed = routes;
                    self.routes.insert(key, routes);
                    assert(self.routes().dom() =~= old(self).routes().dom().insert(id@));
                    assert(self.routes()[id@] == parsed);
                    let mut reply = VpnPacket::new_control(ControlType::RouteUpdate);
                    let mut ack: Vec<u8> = Vec::new();
                    ack.push(1u8);
                    reply.set_payload(ack);
                    assert(reply@.payload =~= seq![1u8]);
                    Ok(Response { reply: Some(reply), close: false })
                },
                Some(ControlType::Disconnect) => {
                    self.remove_session(id);
                    let reply = VpnPacket::new_control(ControlType::Disconnect);
                    Ok(Response { reply: Some(reply), close: true })
                },
            },
        }
    }

    /// Applies the server's error policy to a failure on session `id`: a
    /// missing session, a malformed frame or one that does not decrypt ends
    /// the session (with its routes and configuration); any other failure
    /// leaves it for the reaper. Returns whether the session was removed.
    pub fn handle_error(&mut self, id: &str, error: &VpnError) -> (r: bool)
        requires
            old(self).wf(),
        ensures
            final(self).wf(),
            r == error.spec_is_fatal(),
            r ==> final(self).sessions() == old(self).sessions().remove(id@) && final(self).routes()
                == old(self).routes().remove(id@) && final(self).configs() == old(self).configs().remove(id@),
            !r ==> final(self).same_tables(old(self)),
    {
        if error.is_fatal() {
            self.remove_session(id);
            true
        } else {
            false
        }
    }
}

impl SessionTables {
    /// Handles one frame body read from session `id` at `now`: marks the
    /// session as heard from, decrypts and parses the frame, dispatches the
    /// packet, and encrypts the reply.
    pub fn handle_frame(
        &mut self,
        handler: &ProtocolHandler,
        id: &str,
        frame: &[u8],
        server_config: &VpnConfig,
        now: u64,
    ) -> (r: Result<Outgoing, VpnError>)
        requires
            old(self).wf(),
        ensures
            final(self).wf(),
            !old(self).sessions().contains_key(id@) ==> r is Err && r->Err_0 is ClientNotFound
                && final(self).same_tables(old(self)),
            old(self).sessions().contains_key(id@) && !(exists|p: Seq<u8>|
                sealed_frame(handler.key(), frame@, p)) ==> r is Err && r->Err_0 is Encryption
                && final(self).sessions() == old(self).sessions().insert(id@, now)
                && final(self).routes() == old(self).routes() && final(self).configs() == old(self).configs(),
            old(self).sessions().contains_key(id@) ==> forall|p: Seq<u8>| #[trigger]
                sealed_frame(handler.key(), frame@, p) ==> match decode_packet(p) {
                    None => r is Err && r->Err_0.is_protocol(decode_fault(p))
                        && final(self).sessions() == old(self).sessions().insert(id@, now)
                        && final(self).routes() == old(self).routes() && final(self).configs()
                        == old(self).configs(),
                    Some(packet) => exists|resp: Result<Response, VpnError>|
                        dispatched(
                            old(self).sessions().insert(id@, now),
                            old(self).routes(),
                            old(self).configs(),
                            final(self).sessions(),
                            final(self).routes(),
                            final(self).configs(),
                            id@,
                            packet,
                            *server_config,
                            now,
                            resp,
                        ) && (resp is Err ==> r is Err && r->Err_0 == resp->Err_0)
                            && (resp is Ok ==> r is Ok && sent_as(handler.key(), resp->Ok_0, r->Ok_0)),
                },
    {
        match self.touch(id, now) {
            Ok(()) => {},
            Err(e) => return Err(e),
        }
        let packet = match handler.unpack(frame) {
            Ok(p) => p,
            Err(e) => return Err(e),
        };
        let ghost pv = packet@;
        let ghost pt = choose|p: Seq<u8>|
            sealed_frame(handler.key(), frame@, p) && decode_packet(p) == Some(pv);
        assert(pt.len() == 10 + pv.payload.len());
        let resp = self.dispatch(id, packet, server_config, now);
        match resp {
            Err(e) => Err(e),
            Ok(Response { reply, close }) => match reply {
                None => Ok(Outgoing { reply: None, close }),
                Some(q) => {
                    assert(q@.encode().len() == 10 + q@.payload.len());
                    assert(q@.encode().len() <= PLAINTEXT_MAX);
                    match handler.pack(q) {
                        Ok(bytes) => Ok(Outgoing { reply: Some(bytes), close }),
                        Err(e) => Err(e),
                    }
                },
            },
        }
    }
}

/// Every table state that the operations produce keeps the route and
/// configuration tables within the session table: each operation keeps `wf`,
/// and `wf` holds this.
pub proof fn lemma_tables_consistent(t: &SessionTables)
    requires
        t.wf(),
    ensures
        t.consistent(),
{
}

} // verus!
