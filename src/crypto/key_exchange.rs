use vstd::prelude::*;

use rand::rngs::OsRng;
use x25519_dalek::{PublicKey, StaticSecret};

verus! {

/// The X25519 public key of a secret scalar.
pub uninterp spec fn x25519_public_key(secret: Seq<u8>) -> Seq<u8>;

/// The X25519 shared secret of a secret scalar and a peer's public key.
pub uninterp spec fn x25519_shared_secret(secret: Seq<u8>, peer_public: Seq<u8>) -> Seq<u8>;

/// Relies on `x25519_dalek`'s `StaticSecret::random_from_rng` with `rand`'s
/// `OsRng`: 32 random bytes from the operating system, of which nothing else
/// is known.
#[verifier::external_body]
fn random_secret() -> (r: [u8; 32]) {
    StaticSecret::random_from_rng(OsRng).to_bytes()
}

/// Relies on `x25519_dalek`'s `PublicKey::from(&StaticSecret)`: the public
/// key depends on the secret bytes alone.
#[verifier::external_body]
fn public_key_of(secret: &[u8; 32]) -> (r: [u8; 32])
    ensures
        r@ == x25519_public_key(secret@),
{
    PublicKey::from(&StaticSecret::from(*secret)).to_bytes()
}

/// Relies on `x25519_dalek`'s `StaticSecret::diffie_hellman`: the shared
/// secret depends on the secret bytes and the peer's key bytes alone.
#[verifier::external_body]
fn diffie_hellman(secret: &[u8; 32], peer_public: &[u8; 32]) -> (r: [u8; 32])
    ensures
        r@ == x25519_shared_secret(secret@, peer_public@),
{
    StaticSecret::from(*secret).diffie_hellman(&PublicKey::from(*peer_public)).to_bytes()
}

/// A long-lived X25519 key pair.
pub struct KeyExchange {
    private_key: [u8; 32],
    public_key: [u8; 32],
}

impl KeyExchange {
    /// The public key belongs to the secret.
    #[verifier::type_invariant]
    spec fn inv(&self) -> bool {
        self.public_key@ == x25519_public_key(self.private_key@)
    }

    /// The secret scalar.
    pub closed spec fn secret(&self) -> Seq<u8> {
        self.private_key@
    }

    /// The public key, as bytes.
    pub closed spec fn public(&self) -> Seq<u8> {
        self.public_key@
    }

    /// A fresh random key pair.
    pub fn new() -> (r: Self)
        ensures
            r.public() == x25519_public_key(r.secret()),
    {
        let private_key = random_secret();
        let public_key = public_key_of(&private_key);
        KeyExchange { private_key, public_key }
    }

    /// The secret shared with the holder of `peer_public`.
    pub fn generate_shared_secret(&self, peer_public: &[u8; 32]) -> (r: [u8; 32])
        ensures
            r@ == x25519_shared_secret(self.secret(), peer_public@),
    {
        diffie_hellman(&self.private_key, peer_public)
    }

    pub fn public_key_bytes(&self) -> (r: [u8; 32])
        ensures
            r@ == self.public(),
            r@ == x25519_public_key(self.secret()),
    {
        proof {
            use_type_invariant(self);
        }
        self.public_key
    }
}

} // verus!
