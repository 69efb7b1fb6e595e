use vstd::prelude::*;

use crate::crypto::encryption::{sealed_frame, EncryptionManager, NONCE_LEN, PLAINTEXT_MAX, TAG_LEN};
use crate::error::VpnError;
use crate::protocol::packet::{decode_packet, decodes_as, lemma_packet_round_trip, PacketView, VpnPacket};

verus! {

/// Turns packets into encrypted frame bodies and back.
#[derive(Clone)]
pub struct ProtocolHandler {
    encryption: EncryptionManager,
}

impl ProtocolHandler {
    /// The key that frames are sealed under.
    pub closed spec fn key(&self) -> Seq<u8> {
        self.encryption.key()
    }

    pub fn new(encryption: EncryptionManager) -> (r: Self)
        ensures
            r.key() == encryption.key(),
    {
        ProtocolHandler { encryption }
    }

    /// The packet's plaintext, encrypted under a fresh nonce.
    pub fn pack(&self, packet: VpnPacket) -> (r: Result<Vec<u8>, VpnError>)
        ensures
            packet@.encode().len() <= PLAINTEXT_MAX ==> r is Ok,
            r is Ok ==> sealed_frame(self.key(), r->Ok_0@, packet@.encode()),
            r is Ok ==> r->Ok_0@.len() == NONCE_LEN + packet@.encode().len() + TAG_LEN,
            r is Err ==> r->Err_0 is Encryption,
    {
        let data = packet.to_bytes();
        self.encryption.encrypt(data.as_slice())
    }

    /// Decrypts a frame body and parses the plaintext. A body that does not
    /// open is an `Encryption` error; a plaintext that does not parse is a
    /// `Protocol` error.
    pub fn unpack(&self, data: &[u8]) -> (r: Result<VpnPacket, VpnError>)
        ensures
            data@.len() < NONCE_LEN ==> r is Err && r->Err_0.is_encryption("Data too short"@),
            forall|p: Seq<u8>| #[trigger] sealed_frame(self.key(), data@, p) ==> decodes_as(p, r),
            !(exists|p: Seq<u8>| sealed_frame(self.key(), data@, p)) ==> r is Err
                && r->Err_0 is Encryption,
            r is Ok ==> exists|p: Seq<u8>|
                sealed_frame(self.key(), data@, p) && decode_packet(p) == Some(r->Ok_0@),
    {
        let decrypted = match self.encryption.decrypt(data) {
            Ok(d) => d,
            Err(e) => return Err(e),
        };
        let r = VpnPacket::from_bytes(decrypted.as_slice());
        assert(sealed_frame(self.key(), data@, decrypted@));
        r
    }
}

/// Unpacking what `pack` made of a well-typed packet gives the packet back,
/// except that a packet that is not a control packet loses its control type:
/// `pack` returns a frame that carries the packet's plaintext, and any result
/// that `unpack` may give on such a frame is this one.
pub proof fn lemma_frame_round_trip(
    key: Seq<u8>,
    frame: Seq<u8>,
    p: PacketView,
    r: Result<VpnPacket, VpnError>,
)
    requires
        p.well_typed(),
        sealed_frame(key, frame, p.encode()),
        decodes_as(p.encode(), r),
    ensures
        r is Ok && r->Ok_0@ == p.normalized(),
{
    lemma_packet_round_trip(p);
}

} // verus!
