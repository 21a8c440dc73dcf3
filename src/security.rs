use aes_gcm::aead::Aead;
use aes_gcm::aead::KeyInit;
use aes_gcm::aead::rand_core::RngCore;
use sha2::Digest;
use vstd::prelude::*;

use crate::bytes::copy_range;
use crate::bytes::push_all;

verus! {

/// What the caller asks of the security layer, with the keys it supplies.
#[derive(Debug, Clone)]
pub struct SecurityOptions {
    pub enable_encryption: bool,
    pub enable_signing: bool,
    pub encryption_key: Option<[u8; 32]>,
    pub signing_key: Option<[u8; 32]>,
}

#[derive(Clone, Copy, Debug, PartialEq, Eq, Structural)]
pub enum SecurityError {
    EncryptionKeyMissing,
    SigningKeyMissing,
    EncryptionFailed,
    DecryptionFailed,
    SigningFailed,
    VerificationFailed,
}

/// Authenticated encryption (AES-256-GCM) and keyed integrity tags (HMAC-SHA-256).
pub struct Security;

/// Bytes of the nonce that prefixes every encrypted message.
pub const NONCE_LEN: usize = 12;

/// Bytes of the authentication tag that follows the ciphertext.
pub const TAG_LEN: usize = 16;

/// The longest plaintext that AES-GCM accepts.
pub const GCM_MAX_PLAIN: u64 = 68719476736;

/// Bytes in one block of SHA-256, the width of the HMAC key pads.
pub const HMAC_BLOCK: usize = 64;

/// AES-256-GCM ciphertext and tag of `plain` under `key` and `nonce`, with no associated data.
pub uninterp spec fn gcm_seal(key: Seq<u8>, nonce: Seq<u8>, plain: Seq<u8>) -> Seq<u8>;

/// The plaintext of `sealed` under `key` and `nonce`, if its tag checks out.
pub uninterp spec fn gcm_open(key: Seq<u8>, nonce: Seq<u8>, sealed: Seq<u8>) -> Option<Seq<u8>>;

/// The SHA-256 digest of `b`.
pub uninterp spec fn sha256_of(b: Seq<u8>) -> Seq<u8>;

/// Relies on aes_gcm::Aes256Gcm's Aead::encrypt with no associated data: it refuses a
/// plaintext over 2^36 bytes, and otherwise returns the ciphertext followed by a 16-byte tag.
#[verifier::external_body]
fn aes_gcm_seal(key: &[u8; 32], nonce: &[u8], plain: &[u8]) -> (r: Option<Vec<u8>>)
    requires
        nonce@.len() == NONCE_LEN,
    ensures
        r is Some <==> plain@.len() <= GCM_MAX_PLAIN,
        r matches Some(c) ==> c@ == gcm_seal(key@, nonce@, plain@) && c@.len() == plain@.len()
            + TAG_LEN,
{
    let cipher = aes_gcm::Aes256Gcm::new(aes_gcm::Key::<aes_gcm::Aes256Gcm>::from_slice(key));
    cipher.encrypt(aes_gcm::Nonce::from_slice(nonce), plain).ok()
}

/// Relies on aes_gcm::Aes256Gcm's Aead::decrypt with no associated data: it checks the tag
/// and gives back what encrypt was given under the same key and nonce.
#[verifier::external_body]
fn aes_gcm_open(key: &[u8; 32], nonce: &[u8], sealed: &[u8]) -> (r: Option<Vec<u8>>)
    requires
        nonce@.len() == NONCE_LEN,
    ensures
        r matches Some(p) ==> gcm_open(key@, nonce@, sealed@) == Some(p@),
        r is None <==> gcm_open(key@, nonce@, sealed@) is None,
        sealed@.len() < TAG_LEN ==> r is None,
        r is None ==> forall|p: Seq<u8>|
            p.len() <= GCM_MAX_PLAIN ==> sealed@ != #[trigger] gcm_seal(key@, nonce@, p),
        r matches Some(q) ==> forall|p: Seq<u8>|
            p.len() <= GCM_MAX_PLAIN && sealed@ == #[trigger] gcm_seal(key@, nonce@, p) ==> q@
                == p,
{
    let cipher = aes_gcm::Aes256Gcm::new(aes_gcm::Key::<aes_gcm::Aes256Gcm>::from_slice(key));
    cipher.decrypt(aes_gcm::Nonce::from_slice(nonce), sealed).ok()
}

/// Relies on aead::OsRng's RngCore::try_fill_bytes: it fills the nonce with random bytes
/// from the operating system, or reports that the source failed.
#[verifier::external_body]
fn random_nonce() -> (r: Option<Vec<u8>>)
    ensures
        r matches Some(n) ==> n@.len() == NONCE_LEN,
{
    let mut nonce = vec![0u8; NONCE_LEN];
    aes_gcm::aead::OsRng.try_fill_bytes(&mut nonce).ok()?;
    Some(nonce)
}

/// Relies on sha2::Sha256::digest: the 32-byte SHA-256 digest of `data`.
#[verifier::external_body]
fn sha256(data: &[u8]) -> (r: Vec<u8>)
    ensures
        r@ == sha256_of(data@),
        r@.len() == 32,
{
    sha2::Sha256::digest(data).to_vec()
}

/// A key padded to one block with zeros, each byte XORed with `pad`.
pub open spec fn hmac_pad(key: Seq<u8>, pad: u8) -> Seq<u8> {
    Seq::new(HMAC_BLOCK as nat, |i: int| if i < key.len() { key[i] ^ pad } else { pad })
}

/// HMAC-SHA-256 of `data` under a key of at most one block.
pub open spec fn mac_of(key: Seq<u8>, data: Seq<u8>) -> Seq<u8> {
    sha256_of(hmac_pad(key, 0x5c) + sha256_of(hmac_pad(key, 0x36) + data))
}

/// Whether `tag` is the integrity tag of `data` under `key`.
pub open spec fn tag_matches(key: Seq<u8>, data: Seq<u8>, tag: Seq<u8>) -> bool {
    tag == mac_of(key, data)
}

/// The block-wide pad of a 32-byte key.
fn key_pad(key: &[u8; 32], pad: u8) -> (r: Vec<u8>)
    ensures
        r@ == hmac_pad(key@, pad),
{
    let mut out: Vec<u8> = Vec::new();
    let mut i: usize = 0;
    while i < HMAC_BLOCK
        invariant
            i <= HMAC_BLOCK,
            out@ == hmac_pad(key@, pad).take(i as int),
        decreases HMAC_BLOCK - i,
    {
        let b: u8 = if i < 32 {
            key[i] ^ pad
        } else {
            pad
        };
        out.push(b);
        assert(hmac_pad(key@, pad).take(i + 1) =~= hmac_pad(key@, pad).take(i as int).push(b));
        i = i + 1;
    }
    assert(hmac_pad(key@, pad).take(HMAC_BLOCK as int) =~= hmac_pad(key@, pad));
    out
}

/// Whether two byte strings are equal.
fn bytes_equal(a: &[u8], b: &[u8]) -> (r: bool)
    ensures
        r == (a@ == b@),
{
    if a.len() != b.len() {
        return false;
    }
    let mut i: usize = 0;
    while i < a.len()
        invariant
            a@.len() == b@.len(),
            i <= a@.len(),
            forall|j: int| 0 <= j < i ==> a@[j] == b@[j],
        decreases a@.len() - i,
    {
        if a[i] != b[i] {
            return false;
        }
        i = i + 1;
    }
    assert(a@ =~= b@);
    true
}

impl Security {
    /// An encrypted message: the nonce, then the ciphertext and tag.
    pub open spec fn sealed(key: Seq<u8>, nonce: Seq<u8>, plain: Seq<u8>) -> Seq<u8> {
        nonce + gcm_seal(key, nonce, plain)
    }

    /// What `decrypt` makes of `data`; `None` where it fails.
    pub open spec fn opened(key: Seq<u8>, data: Seq<u8>) -> Option<Seq<u8>> {
        if data.len() < NONCE_LEN {
            None
        } else {
            gcm_open(key, data.take(NONCE_LEN as int), data.skip(NONCE_LEN as int))
        }
    }

    /// Encrypts `data` under `key` with the given nonce, which leads the result.
    pub fn encrypt_with_nonce(data: &[u8], key: &[u8; 32], nonce: &[u8]) -> (r: Result<
        Vec<u8>,
        SecurityError,
    >)
        requires
            nonce@.len() == NONCE_LEN,
        ensures
            r is Ok <==> data@.len() <= GCM_MAX_PLAIN,
            r matches Ok(c) ==> c@ == Self::sealed(key@, nonce@, data@) && c@.len() == NONCE_LEN
                + data@.len() + TAG_LEN,
            r is Err ==> r == Err::<Vec<u8>, SecurityError>(SecurityError::EncryptionFailed),
    {
        match aes_gcm_seal(key, nonce, data) {
            Some(c) => {
                let mut out: Vec<u8> = Vec::new();
                push_all(&mut out, nonce);
                push_all(&mut out, c.as_slice());
                Ok(out)
            },
            None => Err(SecurityError::EncryptionFailed),
        }
    }

    /// Encrypts `data` under `key` with a fresh random nonce, which leads the result. It fails
    /// on a plaintext too long for AES-GCM, or when no random nonce can be had.
    pub fn encrypt(data: &[u8], key: &[u8; 32]) -> (r: Result<Vec<u8>, SecurityError>)
        ensures
            r is Ok ==> data@.len() <= GCM_MAX_PLAIN,
            data@.len() > GCM_MAX_PLAIN ==> r is Err,
            r matches Ok(c) ==> c@.len() == NONCE_LEN + data@.len() + TAG_LEN && c@ == Self::sealed(
                key@,
                c@.take(NONCE_LEN as int),
                data@,
            ),
            r is Err ==> r == Err::<Vec<u8>, SecurityError>(SecurityError::EncryptionFailed),
    {
        let nonce = match random_nonce() {
            Some(n) => n,
            None => return Err(SecurityError::EncryptionFailed),
        };
        let r = Self::encrypt_with_nonce(data, key, nonce.as_slice());
        if let Ok(c) = &r {
            assert(c@.take(NONCE_LEN as int) =~= nonce@);
        }
        r
    }

    /// Decrypts a message that `encrypt` made; fails on a wrong key or any tampering that
    /// the tag detects.
    pub fn decrypt(data: &[u8], key: &[u8; 32]) -> (r: Result<Vec<u8>, SecurityError>)
        ensures
            match Self::opened(key@, data@) {
                Some(p) => r matches Ok(v) && v@ == p,
                None => r == Err::<Vec<u8>, SecurityError>(SecurityError::DecryptionFailed),
            },
            forall|n: Seq<u8>, p: Seq<u8>|
                n.len() == NONCE_LEN && p.len() <= GCM_MAX_PLAIN && data@ == #[trigger] Self::sealed(
                    key@,
                    n,
                    p,
                ) ==> (r matches Ok(v) && v@ == p),
    {
        if data.len() < NONCE_LEN {
            proof {
                assert forall|n: Seq<u8>, p: Seq<u8>|
                    n.len() == NONCE_LEN && p.len() <= GCM_MAX_PLAIN && data@ == #[trigger] Self::sealed(
                        key@,
                        n,
                        p,
                    ) implies false by {}
            }
            return Err(SecurityError::DecryptionFailed);
        }
        let nonce = copy_range(data, 0, NONCE_LEN);
        let body = copy_range(data, NONCE_LEN, data.len());
        assert(nonce@ =~= data@.take(NONCE_LEN as int));
        assert(body@ =~= data@.skip(NONCE_LEN as int));
        let r = aes_gcm_open(key, nonce.as_slice(), body.as_slice());
        proof {
            assert forall|n: Seq<u8>, p: Seq<u8>|
                n.len() == NONCE_LEN && p.len() <= GCM_MAX_PLAIN && data@ == #[trigger] Self::sealed(
                    key@,
                    n,
                    p,
                ) implies (r matches Some(v) && v@ == p) by {
                assert(data@.take(NONCE_LEN as int) =~= n);
                assert(data@.skip(NONCE_LEN as int) =~= gcm_seal(key@, n, p));
            }
        }
        match r {
            Some(p) => Ok(p),
            None => Err(SecurityError::DecryptionFailed),
        }
    }

    /// The HMAC-SHA-256 tag of `data` under `key`.
    pub fn sign(data: &[u8], key: &[u8; 32]) -> (r: Result<Vec<u8>, SecurityError>)
        ensures
            r matches Ok(t) && t@ == mac_of(key@, data@) && t@.len() == 32,
    {
        let mut inner = key_pad(key, 0x36);
        push_all(&mut inner, data);
        let inner_digest = sha256(inner.as_slice());
        let mut outer = key_pad(key, 0x5c);
        push_all(&mut outer, inner_digest.as_slice());
        Ok(sha256(outer.as_slice()))
    }

    /// Whether `signature` is the tag of `data` under `key`; a mismatch is `Ok(false)`.
    pub fn verify(data: &[u8], signature: &[u8], key: &[u8; 32]) -> (r: Result<bool, SecurityError>)
        ensures
            r == Ok::<bool, SecurityError>(tag_matches(key@, data@, signature@)),
            signature@.len() != 32 ==> r == Ok::<bool, SecurityError>(false),
    {
        let expected = match Self::sign(data, key) {
            Ok(t) => t,
            Err(e) => return Err(e),
        };
        Ok(bytes_equal(expected.as_slice(), signature))
    }
}

/// A tag made by `sign` passes `verify` with the same data and key.
pub proof fn lemma_sign_then_verify(key: Seq<u8>, data: Seq<u8>)
    ensures
        tag_matches(key, data, mac_of(key, data)),
{
}

/// Changing any one byte of a valid tag makes `verify` reject it.
pub proof fn lemma_altered_tag_rejected(key: Seq<u8>, data: Seq<u8>, i: int, b: u8)
    requires
        0 <= i < mac_of(key, data).len(),
        mac_of(key, data)[i] != b,
    ensures
        !tag_matches(key, data, mac_of(key, data).update(i, b)),
{
    assert(mac_of(key, data).update(i, b)[i] != mac_of(key, data)[i]);
}

} // verus!
