use vstd::prelude::*;

use crate::error::VpnError;

verus! {

/// Length of the fixed plaintext header: two addresses, the packet type and
/// the control type.
pub const HEADER_LEN: usize = 10;

/// What a packet carries: user data, a heartbeat or a control message.
#[derive(Debug, Clone, Copy, PartialEq, Eq, Structural)]
pub enum PacketType {
    Data,
    Keepalive,
    Control,
}

/// The kind of a control message.
#[derive(Debug, Clone, Copy, PartialEq, Eq, Structural)]
pub enum ControlType {
    ConfigRequest,
    ConfigResponse,
    RouteUpdate,
    Disconnect,
}

/// The wire byte of a packet type.
pub open spec fn packet_type_byte(t: PacketType) -> u8 {
    match t {
        PacketType::Data => 0,
        PacketType::Keepalive => 1,
        PacketType::Control => 2,
    }
}

/// The packet type that a wire byte names, if any.
pub open spec fn packet_type_of(b: u8) -> Option<PacketType> {
    if b == 0 {
        Some(PacketType::Data)
    } else if b == 1 {
        Some(PacketType::Keepalive)
    } else if b == 2 {
        Some(PacketType::Control)
    } else {
        None
    }
}

/// The wire byte of a control type.
pub open spec fn control_type_byte(c: ControlType) -> u8 {
    match c {
        ControlType::ConfigRequest => 0,
        ControlType::ConfigResponse => 1,
        ControlType::RouteUpdate => 2,
        ControlType::Disconnect => 3,
    }
}

/// The control type that a wire byte names, if any.
pub open spec fn control_type_of(b: u8) -> Option<ControlType> {
    if b == 0 {
        Some(ControlType::ConfigRequest)
    } else if b == 1 {
        Some(ControlType::ConfigResponse)
    } else if b == 2 {
        Some(ControlType::RouteUpdate)
    } else if b == 3 {
        Some(ControlType::Disconnect)
    } else {
        None
    }
}

impl PacketType {
    pub fn to_byte(self) -> (r: u8)
        ensures
            r == packet_type_byte(self),
    {
        match self {
            PacketType::Data => 0,
            PacketType::Keepalive => 1,
            PacketType::Control => 2,
        }
    }

    /// The packet type of a wire byte; any byte but 0, 1 and 2 is a
    /// protocol error.
    pub fn from_byte(value: u8) -> (r: Result<PacketType, VpnError>)
        ensures
            packet_type_of(value) is Some ==> r == Ok::<PacketType, VpnError>(
                packet_type_of(value)->Some_0,
            ),
            packet_type_of(value) is None ==> r is Err && r->Err_0.is_protocol(
                "Invalid packet type"@,
            ),
    {
        match value {
            0 => Ok(PacketType::Data),
            1 => Ok(PacketType::Keepalive),
            2 => Ok(PacketType::Control),
            _ => Err(VpnError::protocol("Invalid packet type")),
        }
    }
}

impl ControlType {
    pub fn to_byte(self) -> (r: u8)
        ensures
            r == control_type_byte(self),
    {
        match self {
            ControlType::ConfigRequest => 0,
            ControlType::ConfigResponse => 1,
            ControlType::RouteUpdate => 2,
            ControlType::Disconnect => 3,
        }
    }

    /// The control type of a wire byte; any byte above 3 is a protocol error.
    pub fn from_byte(value: u8) -> (r: Result<ControlType, VpnError>)
        ensures
            control_type_of(value) is Some ==> r == Ok::<ControlType, VpnError>(
                control_type_of(value)->Some_0,
            ),
            control_type_of(value) is None ==> r is Err && r->Err_0.is_protocol(
                "Invalid control type"@,
            ),
    {
        match value {
            0 => Ok(ControlType::ConfigRequest),
            1 => Ok(ControlType::ConfigResponse),
            2 => Ok(ControlType::RouteUpdate),
            3 => Ok(ControlType::Disconnect),
            _ => Err(VpnError::protocol("Invalid control type")),
        }
    }
}

impl TryFrom<u8> for PacketType {
    type Error = VpnError;

    /// Same as `PacketType::from_byte`, which carries the contract.
    fn try_from(value: u8) -> Result<PacketType, VpnError> {
        PacketType::from_byte(value)
    }
}

impl vstd::std_specs::convert::TryFromSpecImpl<u8> for PacketType {
    open spec fn obeys_try_from_spec() -> bool {
        false
    }

    open spec fn try_from_spec(v: u8) -> Result<PacketType, VpnError> {
        arbitrary()
    }
}

impl TryFrom<u8> for ControlType {
    type Error = VpnError;

    /// Same as `ControlType::from_byte`, which carries the contract.
    fn try_from(value: u8) -> Result<ControlType, VpnError> {
        ControlType::from_byte(value)
    }
}

impl vstd::std_specs::convert::TryFromSpecImpl<u8> for ControlType {
    open spec fn obeys_try_from_spec() -> bool {
        false
    }

    open spec fn try_from_spec(v: u8) -> Result<ControlType, VpnError> {
        arbitrary()
    }
}

/// The mathematical value of a packet.
pub struct PacketView {
    pub source_ip: Seq<u8>,
    pub dest_ip: Seq<u8>,
    pub packet_type: PacketType,
    pub control_type: Option<ControlType>,
    pub payload: Seq<u8>,
}

impl PacketView {
    /// Addresses of four bytes, and a control type on every control packet.
    pub open spec fn well_typed(self) -> bool {
        &&& self.source_ip.len() == 4
        &&& self.dest_ip.len() == 4
        &&& self.packet_type == PacketType::Control ==> self.control_type is Some
    }

    /// The control-type byte: zero when there is none.
    pub open spec fn control_byte(self) -> u8 {
        match self.control_type {
            Some(c) => control_type_byte(c),
            None => 0,
        }
    }

    /// The plaintext layout: source, destination, packet type, control type,
    /// payload.
    pub open spec fn encode(self) -> Seq<u8> {
        self.source_ip + self.dest_ip + seq![
            packet_type_byte(self.packet_type),
            self.control_byte(),
        ] + self.payload
    }

    /// The packet with its control type dropped unless it is a control packet.
    pub open spec fn normalized(self) -> PacketView {
        PacketView {
            control_type: if self.packet_type == PacketType::Control {
                self.control_type
            } else {
                None
            },
            ..self
        }
    }
}

/// The packet that a plaintext holds, if it is well formed: at least the
/// header, a known packet type and, on a control packet, a known control type.
/// The control-type byte is read only on control packets.
pub open spec fn decode_packet(s: Seq<u8>) -> Option<PacketView> {
    if s.len() < 10 {
        None
    } else {
        match packet_type_of(s[8]) {
            None => None,
            Some(t) => {
                if t == PacketType::Control && control_type_of(s[9]) is None {
                    None
                } else {
                    Some(
                        PacketView {
                            source_ip: s.subrange(0, 4),
                            dest_ip: s.subrange(4, 8),
                            packet_type: t,
                            control_type: if t == PacketType::Control {
                                control_type_of(s[9])
                            } else {
                                None
                            },
                            payload: s.subrange(10, s.len() as int),
                        },
                    )
                }
            },
        }
    }
}

/// The message of the first fault of a malformed plaintext.
pub open spec fn decode_fault(s: Seq<u8>) -> Seq<char> {
    if s.len() < 10 {
        "Packet too short"@
    } else if packet_type_of(s[8]) is None {
        "Invalid packet type"@
    } else {
        "Invalid control type"@
    }
}

/// A decoded packet: `Ok` with the packet that the plaintext holds, or the
/// protocol error of its first fault.
pub open spec fn decodes_as(s: Seq<u8>, r: Result<VpnPacket, VpnError>) -> bool {
    match decode_packet(s) {
        Some(v) => r is Ok && r->Ok_0@ == v,
        None => r is Err && r->Err_0.is_protocol(decode_fault(s)),
    }
}

/// A packet of the relay protocol.
#[derive(Debug, Clone)]
pub struct VpnPacket {
    pub source_ip: [u8; 4],
    pub dest_ip: [u8; 4],
    pub packet_type: PacketType,
    pub control_type: Option<ControlType>,
    pub payload: Vec<u8>,
}

impl View for VpnPacket {
    type V = PacketView;

    open spec fn view(&self) -> PacketView {
        PacketView {
            source_ip: self.source_ip@,
            dest_ip: self.dest_ip@,
            packet_type: self.packet_type,
            control_type: self.control_type,
            payload: self.payload@,
        }
    }
}

impl VpnPacket {
    pub fn new_data(source_ip: [u8; 4], dest_ip: [u8; 4], payload: Vec<u8>) -> (r: Self)
        ensures
            r@ == (PacketView {
                source_ip: source_ip@,
                dest_ip: dest_ip@,
                packet_type: PacketType::Data,
                control_type: None,
                payload: payload@,
            }),
    {
        VpnPacket {
            source_ip,
            dest_ip,
            packet_type: PacketType::Data,
            control_type: None,
            payload,
        }
    }

    pub fn new_keepalive() -> (r: Self)
        ensures
            r@ == (PacketView {
                source_ip: seq![0u8, 0, 0, 0],
                dest_ip: seq![0u8, 0, 0, 0],
                packet_type: PacketType::Keepalive,
                control_type: None,
                payload: Seq::<u8>::empty(),
            }),
    {
        let r = VpnPacket {
            source_ip: [0u8; 4],
            dest_ip: [0u8; 4],
            packet_type: PacketType::Keepalive,
            control_type: None,
            payload: Vec::new(),
        };
        assert(r.source_ip@ =~= seq![0u8, 0, 0, 0]);
        r
    }

    pub fn new_control(control_type: ControlType) -> (r: Self)
        ensures
            r@ == (PacketView {
                source_ip: seq![0u8, 0, 0, 0],
                dest_ip: seq![0u8, 0, 0, 0],
                packet_type: PacketType::Control,
                control_type: Some(control_type),
                payload: Seq::<u8>::empty(),
            }),
    {
        let r = VpnPacket {
            source_ip: [0u8; 4],
            dest_ip: [0u8; 4],
            packet_type: PacketType::Control,
            control_type: Some(control_type),
            payload: Vec::new(),
        };
        assert(r.source_ip@ =~= seq![0u8, 0, 0, 0]);
        r
    }

    /// The plaintext of the packet.
    pub fn to_bytes(&self) -> (r: Vec<u8>)
        ensures
            r@ == self@.encode(),
    {
        let mut bytes: Vec<u8> = Vec::new();
        let mut i: usize = 0;
        while i < 4
            invariant
                i <= 4,
                bytes@ == self.source_ip@.subrange(0, i as int),
            decreases 4 - i,
        {
            bytes.push(self.source_ip[i]);
            i = i + 1;
        }
        let mut i: usize = 0;
        while i < 4
            invariant
                i <= 4,
                bytes@ == self.source_ip@ + self.dest_ip@.subrange(0, i as int),
            decreases 4 - i,
        {
            bytes.push(self.dest_ip[i]);
            i = i + 1;
        }
        bytes.push(self.packet_type.to_byte());
        match self.control_type {
            Some(ct) => bytes.push(ct.to_byte()),
            None => bytes.push(0),
        }
        let ghost head = bytes@;
        let mut i: usize = 0;
        while i < self.payload.len()
            invariant
                i <= self.payload.len(),
                bytes@ == head + self.payload@.subrange(0, i as int),
            decreases self.payload.len() - i,
        {
            bytes.push(self.payload[i]);
            i = i + 1;
        }
        assert(bytes@ =~= self@.encode());
        bytes
    }

    /// Parses a plaintext: a header of ten bytes, then the payload.
    pub fn from_bytes(bytes: &[u8]) -> (r: Result<Self, VpnError>)
        ensures
            decodes_as(bytes@, r),
    {
        if bytes.len() < HEADER_LEN {
            return Err(VpnError::protocol("Packet too short"));
        }
        let source_ip: [u8; 4] = [bytes[0], bytes[1], bytes[2], bytes[3]];
        let dest_ip: [u8; 4] = [bytes[4], bytes[5], bytes[6], bytes[7]];
        let packet_type = match PacketType::from_byte(bytes[8]) {
            Ok(t) => t,
            Err(e) => return Err(e),
        };
        let control_type = if packet_type == PacketType::Control {
            match ControlType::from_byte(bytes[9]) {
                Ok(c) => Some(c),
                Err(e) => return Err(e),
            }
        } else {
            None
        };
        let mut payload: Vec<u8> = Vec::with_capacity(bytes.len() - HEADER_LEN);
        let mut i: usize = HEADER_LEN;
        while i < bytes.len()
            invariant
                HEADER_LEN <= i <= bytes.len(),
                payload@ == bytes@.subrange(10, i as int),
            decreases bytes.len() - i,
        {
            payload.push(bytes[i]);
            i = i + 1;
        }
        let r = VpnPacket { source_ip, dest_ip, packet_type, control_type, payload };
        assert(r.source_ip@ =~= bytes@.subrange(0, 4));
        assert(r.dest_ip@ =~= bytes@.subrange(4, 8));
        assert(r.payload@ =~= bytes@.subrange(10, bytes@.len() as int));
        Ok(r)
    }

    pub fn is_keepalive(&self) -> (r: bool)
        ensures
            r == (self.packet_type == PacketType::Keepalive),
    {
        self.packet_type == PacketType::Keepalive
    }

    pub fn is_control(&self) -> (r: bool)
        ensures
            r == (self.packet_type == PacketType::Control),
    {
        self.packet_type == PacketType::Control
    }

    pub fn control_type(&self) -> (r: Option<ControlType>)
        ensures
            r == self.control_type,
    {
        self.control_type
    }

    pub fn set_payload(&mut self, payload: Vec<u8>)
        ensures
            final(self)@ == (PacketView { payload: payload@, ..old(self)@ }),
    {
        self.payload = payload;
    }

    pub fn set_source_ip(&mut self, ip: [u8; 4])
        ensures
            final(self)@ == (PacketView { source_ip: ip@, ..old(self)@ }),
    {
        self.source_ip = ip;
    }

    pub fn set_dest_ip(&mut self, ip: [u8; 4])
        ensures
            final(self)@ == (PacketView { dest_ip: ip@, ..old(self)@ }),
    {
        self.dest_ip = ip;
    }
}

/// Decoding a packet's plaintext gives the packet back, except that a packet
/// that is not a control packet loses its control type.
pub proof fn lemma_packet_round_trip(p: PacketView)
    requires
        p.well_typed(),
    ensures
        decode_packet(p.encode()) == Some(p.normalized()),
{
    let s = p.encode();
    assert(s[8] == packet_type_byte(p.packet_type));
    assert(s[9] == p.control_byte());
    assert(s.subrange(0, 4) =~= p.source_ip);
    assert(s.subrange(4, 8) =~= p.dest_ip);
    assert(s.subrange(10, s.len() as int) =~= p.payload);
}

} // verus!
