use vstd::prelude::*;

use aes_gcm::aead::{Aead, KeyInit};
use aes_gcm::{Aes256Gcm, Key, Nonce};
use rand::Rng;

use crate::error::VpnError;

verus! {

/// Bytes of the random nonce that leads every encrypted frame.
pub const NONCE_LEN: usize = 12;

/// Bytes of the authentication tag that AES-GCM appends.
pub const TAG_LEN: usize = 16;

/// The longest plaintext that AES-GCM takes: 2^36 bytes.
pub const PLAINTEXT_MAX: u64 = 0x10_0000_0000;

/// The ciphertext that AES-256-GCM makes of a plaintext under a key and a
/// nonce, with no associated data: the encrypted bytes, then the tag.
pub uninterp spec fn aes256gcm_seal(key: Seq<u8>, nonce: Seq<u8>, plaintext: Seq<u8>) -> Seq<u8>;

/// Declares the error of `aes_gcm`'s AEAD operations, which carries nothing.
#[verifier::external_type_specification]
#[verifier::external_body]
pub struct ExAeadError(aes_gcm::Error);

/// Relies on `aes_gcm`'s `Aead::encrypt` for `Aes256Gcm` keyed by
/// `KeyInit::new`: it fails exactly on a plaintext over 2^36 bytes, and returns
/// the sealed plaintext, as long as the plaintext and its 16-byte tag.
#[verifier::external_body]
fn aes_gcm_encrypt(key: &[u8; 32], nonce: &[u8; 12], plaintext: &[u8]) -> (r: Result<
    Vec<u8>,
    aes_gcm::Error,
>)
    ensures
        r is Ok <==> plaintext@.len() <= PLAINTEXT_MAX,
        r is Ok ==> r->Ok_0@ == aes256gcm_seal(key@, nonce@, plaintext@),
        r is Ok ==> r->Ok_0@.len() == plaintext@.len() + TAG_LEN,
{
    let cipher = Aes256Gcm::new(Key::<Aes256Gcm>::from_slice(key));
    cipher.encrypt(Nonce::from_slice(nonce), plaintext)
}

/// Relies on `aes_gcm`'s `Aead::decrypt` for `Aes256Gcm` keyed by
/// `KeyInit::new`: it splits off the 16-byte tag and returns the rest
/// decrypted only when the tag checks. A plaintext that sealing could have
/// made (at most 2^36 bytes) then seals again to the ciphertext, and the
/// ciphertext of such a plaintext always opens to that plaintext.
#[verifier::external_body]
fn aes_gcm_decrypt(key: &[u8; 32], nonce: &[u8; 12], ciphertext: &[u8]) -> (r: Result<
    Vec<u8>,
    aes_gcm::Error,
>)
    ensures
        r is Ok ==> r->Ok_0@.len() + TAG_LEN == ciphertext@.len(),
        r is Ok && r->Ok_0@.len() <= PLAINTEXT_MAX ==> aes256gcm_seal(key@, nonce@, r->Ok_0@)
            == ciphertext@,
        forall|p: Seq<u8>|
            p.len() <= PLAINTEXT_MAX && #[trigger] aes256gcm_seal(key@, nonce@, p) == ciphertext@
                ==> r is Ok && r->Ok_0@ == p,
{
    let cipher = Aes256Gcm::new(Key::<Aes256Gcm>::from_slice(key));
    cipher.decrypt(Nonce::from_slice(nonce), ciphertext)
}

/// Relies on `rand`'s `thread_rng` and `Rng::fill`: twelve bytes from a
/// cryptographically secure generator, of which nothing else is known.
#[verifier::external_body]
fn random_nonce() -> (r: [u8; 12]) {
    let mut nonce = [0u8; 12];
    rand::thread_rng().fill(&mut nonce);
    nonce
}

/// A frame that carries `plaintext` under `key`: a nonce of twelve bytes,
/// then the plaintext sealed under that nonce.
pub open spec fn sealed_frame(key: Seq<u8>, frame: Seq<u8>, plaintext: Seq<u8>) -> bool {
    &&& frame.len() >= NONCE_LEN
    &&& plaintext.len() <= PLAINTEXT_MAX
    &&& frame.subrange(NONCE_LEN as int, frame.len() as int) == aes256gcm_seal(
        key,
        frame.subrange(0, NONCE_LEN as int),
        plaintext,
    )
}

/// Authenticated encryption of frames under one 256-bit key.
#[derive(Clone)]
pub struct EncryptionManager {
    key: [u8; 32],
}

impl EncryptionManager {
    /// The key.
    pub closed spec fn key(&self) -> Seq<u8> {
        self.key@
    }

    pub fn new(key: &[u8; 32]) -> (r: Self)
        ensures
            r.key() == key@,
    {
        EncryptionManager { key: *key }
    }

    /// Encrypts under a fresh random nonce: `nonce ‖ ciphertext ‖ tag`.
    pub fn encrypt(&self, data: &[u8]) -> (r: Result<Vec<u8>, VpnError>)
        ensures
            data@.len() <= PLAINTEXT_MAX ==> r is Ok,
            r is Ok ==> sealed_frame(self.key(), r->Ok_0@, data@),
            r is Ok ==> r->Ok_0@.len() == NONCE_LEN + data@.len() + TAG_LEN,
            r is Err ==> r->Err_0 is Encryption,
    {
        let nonce = random_nonce();
        let r = self.encrypt_with_nonce(nonce, data);
        proof {
            if r is Ok {
                let f = r->Ok_0@;
                assert(f.subrange(0, 12) =~= nonce@);
                assert(f.subrange(12, f.len() as int) =~= aes256gcm_seal(self.key(), nonce@, data@));
            }
        }
        r
    }

    /// Encrypts under the given nonce: `nonce ‖ ciphertext ‖ tag`. A plaintext
    /// over 2^36 bytes is an `Encryption` error.
    pub fn encrypt_with_nonce(&self, nonce: [u8; 12], data: &[u8]) -> (r: Result<Vec<u8>, VpnError>)
        ensures
            r is Ok <==> data@.len() <= PLAINTEXT_MAX,
            r is Ok ==> r->Ok_0@ == nonce@ + aes256gcm_seal(self.key(), nonce@, data@),
            r is Ok ==> r->Ok_0@.len() == NONCE_LEN + data@.len() + TAG_LEN,
            r is Err ==> r->Err_0 is Encryption,
    {
        let sealed = match aes_gcm_encrypt(&self.key, &nonce, data) {
            Ok(c) => c,
            Err(_) => return Err(VpnError::encryption("aead::Error")),
        };
        let mut result: Vec<u8> = Vec::new();
        let mut i: usize = 0;
        while i < NONCE_LEN
            invariant
                i <= NONCE_LEN,
                result@ == nonce@.subrange(0, i as int),
            decreases NONCE_LEN - i,
        {
            result.push(nonce[i]);
            i = i + 1;
        }
        let mut j: usize = 0;
        while j < sealed.len()
            invariant
                j <= sealed.len(),
                result@ == nonce@ + sealed@.subrange(0, j as int),
            decreases sealed.len() - j,
        {
            result.push(sealed[j]);
            j = j + 1;
        }
        assert(sealed@.subrange(0, sealed@.len() as int) =~= sealed@);
        Ok(result)
    }

    /// Splits off the nonce and opens the rest; an input shorter than a
    /// nonce, one too short for the tag, one whose tag does not check, or
    /// one that opens to more than 2^36 bytes is an `Encryption` error.
    pub fn decrypt(&self, data: &[u8]) -> (r: Result<Vec<u8>, VpnError>)
        ensures
            data@.len() < NONCE_LEN ==> r is Err && r->Err_0.is_encryption("Data too short"@),
            data@.len() < NONCE_LEN + TAG_LEN ==> r is Err && r->Err_0 is Encryption,
            r is Ok ==> r->Ok_0@.len() + NONCE_LEN + TAG_LEN == data@.len(),
            r is Ok ==> sealed_frame(self.key(), data@, r->Ok_0@),
            forall|p: Seq<u8>| #[trigger]
                sealed_frame(self.key(), data@, p) ==> r is Ok && r->Ok_0@ == p,
            r is Err ==> r->Err_0 is Encryption,
    {
        if data.len() < NONCE_LEN {
            return Err(VpnError::encryption("Data too short"));
        }
        let nonce: [u8; 12] = [
            data[0],
            data[1],
            data[2],
            data[3],
            data[4],
            data[5],
            data[6],
            data[7],
            data[8],
            data[9],
            data[10],
            data[11],
        ];
        let mut body: Vec<u8> = Vec::new();
        let mut i: usize = NONCE_LEN;
        while i < data.len()
            invariant
                NONCE_LEN <= i <= data.len(),
                body@ == data@.subrange(NONCE_LEN as int, i as int),
            decreases data.len() - i,
        {
            body.push(data[i]);
            i = i + 1;
        }
        assert(nonce@ =~= data@.subrange(0, 12));
        assert(body@ =~= data@.subrange(12, data@.len() as int));
        match aes_gcm_decrypt(&self.key, &nonce, body.as_slice()) {
            Ok(p) => {
                if p.len() as u64 > PLAINTEXT_MAX {
                    Err(VpnError::encryption("Plaintext too long"))
                } else {
                    Ok(p)
                }
            },
            Err(_) => Err(VpnError::encryption("aead::Error")),
        }
    }
}

/// A frame made of a twelve-byte nonce and the plaintext sealed under it is
/// one that carries the plaintext: so what `encrypt` returns, `decrypt`
/// opens to the bytes that were encrypted.
pub proof fn lemma_encryption_round_trip(key: Seq<u8>, nonce: Seq<u8>, plaintext: Seq<u8>)
    requires
        nonce.len() == NONCE_LEN,
        plaintext.len() <= PLAINTEXT_MAX,
    ensures
        sealed_frame(key, nonce + aes256gcm_seal(key, nonce, plaintext), plaintext),
{
    let frame = nonce + aes256gcm_seal(key, nonce, plaintext);
    assert(frame.subrange(0, 12) =~= nonce);
    assert(frame.subrange(12, frame.len() as int) =~= aes256gcm_seal(key, nonce, plaintext));
}

} // verus!
