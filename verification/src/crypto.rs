//! Cryptographic primitives: X25519 key agreement, BLAKE3 and SHA-256 hashing,
//! HKDF-SHA256 expansion, and ChaCha20-Poly1305 authenticated encryption.
//!
//! The outside implementations are reached through a small set of trusted
//! wrappers; everything built on top of them is verified.

use chacha20poly1305::aead::{Aead, KeyInit};
use rand::RngCore;
use sha2::Digest;
use vstd::prelude::*;

verus! {

// ---------------------------------------------------------------------------
// Names for the results of the outside primitives.
//
// Each of these stands for the (deterministic) output of one outside function;
// the wrappers below tie them to the real implementations.
// ---------------------------------------------------------------------------

/// The X25519 public key derived from a 32-byte secret.
pub uninterp spec fn x25519_pub_of(sk: Seq<u8>) -> Seq<u8>;

/// The X25519 shared point computed from a secret and a peer public key.
pub uninterp spec fn x25519_shared_of(sk: Seq<u8>, pk: Seq<u8>) -> Seq<u8>;

/// The BLAKE3 digest of a byte string.
pub uninterp spec fn blake3_of(data: Seq<u8>) -> Seq<u8>;

/// The keyed BLAKE3 digest of a byte string under a 32-byte key.
pub uninterp spec fn blake3_keyed_of(key: Seq<u8>, data: Seq<u8>) -> Seq<u8>;

/// 32 bytes of HKDF-SHA256 output for the given salt, input key material and info label.
pub uninterp spec fn hkdf32_of(salt: Option<Seq<u8>>, ikm: Seq<u8>, info: Seq<u8>) -> Seq<u8>;

/// The SHA-256 digest of a byte string.
pub uninterp spec fn sha256_of(data: Seq<u8>) -> Seq<u8>;

/// The ChaCha20-Poly1305 ciphertext (body plus tag) for a key, nonce and plaintext.
pub uninterp spec fn seal_of(key: Seq<u8>, nonce: Seq<u8>, pt: Seq<u8>) -> Seq<u8>;

/// X25519 key agreement is symmetric for this secret: agreeing with any peer's
/// public key yields the same shared point the peer computes from ours.
pub open spec fn dh_agreeable(sk: Seq<u8>) -> bool {
    forall|other: Seq<u8>|
        #[trigger] x25519_shared_of(sk, x25519_pub_of(other)) == x25519_shared_of(
            other,
            x25519_pub_of(sk),
        )
}

/// The exclusive plaintext length bound of the cipher: ChaCha20 refuses a
/// buffer of 64 * (2^32 - 1) bytes or more, and below that encryption cannot
/// fail.
pub const MAX_PLAINTEXT_LEN: u64 = 0x3FFFFFFFC0;

/// Plaintexts handed to the AEAD must stay below the cipher's block-count
/// bound, under which encryption cannot fail.
pub open spec fn aead_sealable(pt: Seq<u8>) -> bool {
    pt.len() < MAX_PLAINTEXT_LEN
}

// ---------------------------------------------------------------------------
// Trusted wrappers around the outside crates.
// ---------------------------------------------------------------------------

/// Relies on x25519_dalek::StaticSecret::random_from_rng and PublicKey::from:
/// a fresh keypair whose public half is derived from the secret by clamped
/// base-point multiplication, which makes Diffie-Hellman agreement symmetric.
#[verifier::external_body]
pub(crate) fn x25519_keypair() -> (r: (Vec<u8>, Vec<u8>))
    ensures
        r.0@.len() == 32,
        r.1@.len() == 32,
        r.1@ == x25519_pub_of(r.0@),
        dh_agreeable(r.0@),
{
    let secret = x25519_dalek::StaticSecret::random_from_rng(rand::rngs::OsRng);
    let public = x25519_dalek::PublicKey::from(&secret);
    (secret.to_bytes().to_vec(), public.as_bytes().to_vec())
}

/// Relies on x25519_dalek::StaticSecret::diffie_hellman: the shared point is a
/// function of the secret and the peer public key alone.
#[verifier::external_body]
pub(crate) fn x25519_dh(sk: &[u8], pk: &[u8]) -> (r: Vec<u8>)
    requires
        sk@.len() == 32,
        pk@.len() == 32,
    ensures
        r@.len() == 32,
        r@ == x25519_shared_of(sk@, pk@),
{
    let mut sk_arr = [0u8; 32];
    sk_arr.copy_from_slice(sk);
    let mut pk_arr = [0u8; 32];
    pk_arr.copy_from_slice(pk);
    let secret = x25519_dalek::StaticSecret::from(sk_arr);
    let public = x25519_dalek::PublicKey::from(pk_arr);
    secret.diffie_hellman(&public).as_bytes().to_vec()
}

/// Relies on blake3::hash: a 32-byte digest that depends on the input alone.
#[verifier::external_body]
pub(crate) fn blake3_hash(data: &[u8]) -> (r: Vec<u8>)
    ensures
        r@.len() == 32,
        r@ == blake3_of(data@),
{
    blake3::hash(data).as_bytes().to_vec()
}

/// Relies on blake3::keyed_hash: a 32-byte digest that depends on the 32-byte
/// key and the input alone.
#[verifier::external_body]
pub(crate) fn blake3_keyed(key: &[u8], data: &[u8]) -> (r: Vec<u8>)
    requires
        key@.len() == 32,
    ensures
        r@.len() == 32,
        r@ == blake3_keyed_of(key@, data@),
{
    let mut key_arr = [0u8; 32];
    key_arr.copy_from_slice(key);
    blake3::keyed_hash(&key_arr, data).as_bytes().to_vec()
}

/// Relies on hkdf::Hkdf::<Sha256>: expanding to 32 bytes is within HKDF's
/// output bound (255 hash lengths) and so cannot fail, and the output depends
/// on salt, input key material and info alone.
#[verifier::external_body]
pub(crate) fn hkdf_expand32(salt: Option<&[u8]>, ikm: &[u8], info: &[u8]) -> (r: Vec<u8>)
    ensures
        r@.len() == 32,
        r@ == hkdf32_of(
            match salt {
                Some(s) => Some(s@),
                None => None,
            },
            ikm@,
            info@,
        ),
{
    let hk = hkdf::Hkdf::<sha2::Sha256>::new(salt, ikm);
    let mut okm = [0u8; 32];
    hk.expand(info, &mut okm).expect("HKDF expand failed");
    okm.to_vec()
}

/// Relies on sha2::Sha256::digest: a 32-byte digest that depends on the input alone.
#[verifier::external_body]
pub(crate) fn sha256_hash(data: &[u8]) -> (r: Vec<u8>)
    ensures
        r@.len() == 32,
        r@ == sha256_of(data@),
{
    sha2::Sha256::digest(data).to_vec()
}

/// Relies on chacha20poly1305::ChaCha20Poly1305::encrypt: it fails only at
/// 64 * (2^32 - 1) plaintext bytes and beyond, so below that bound it cannot
/// fail; the ciphertext is the plaintext length plus a 16-byte tag, and it
/// depends on key, nonce and plaintext alone.
#[verifier::external_body]
pub(crate) fn aead_seal(key: &[u8], nonce: &[u8], pt: &[u8]) -> (r: Vec<u8>)
    requires
        key@.len() == 32,
        nonce@.len() == 12,
        aead_sealable(pt@),
    ensures
        r@ == seal_of(key@, nonce@, pt@),
        r@.len() == pt@.len() + 16,
{
    let cipher = chacha20poly1305::ChaCha20Poly1305::new(key.into());
    cipher.encrypt(chacha20poly1305::Nonce::from_slice(nonce), pt).expect(
        "ChaCha20-Poly1305 encryption failed",
    )
}

/// Relies on chacha20poly1305::ChaCha20Poly1305::decrypt: it inverts encrypt,
/// succeeding exactly on the ciphertexts that encrypt produces for this key
/// and nonce and returning the plaintext that produced them.
#[verifier::external_body]
pub(crate) fn aead_open(key: &[u8], nonce: &[u8], ct: &[u8]) -> (r: Option<Vec<u8>>)
    requires
        key@.len() == 32,
        nonce@.len() == 12,
    ensures
        r is Some ==> ct@ == seal_of(key@, nonce@, r.unwrap()@),
        r is None ==> forall|pt: Seq<u8>| ct@ != seal_of(key@, nonce@, pt),
        forall|pt: Seq<u8>| ct@ == seal_of(key@, nonce@, pt) ==> r is Some && r.unwrap()@ == pt,
{
    let cipher = chacha20poly1305::ChaCha20Poly1305::new(key.into());
    cipher.decrypt(chacha20poly1305::Nonce::from_slice(nonce), ct).ok()
}

/// Relies on rand::rngs::OsRng::fill_bytes; only the length of the output is known.
#[verifier::external_body]
pub(crate) fn random_bytes(n: usize) -> (r: Vec<u8>)
    ensures
        r@.len() == n,
{
    let mut buf = vec![0u8; n];
    rand::rngs::OsRng.fill_bytes(&mut buf);
    buf
}

// ---------------------------------------------------------------------------
// Errors
// ---------------------------------------------------------------------------

/// Failures of the message-level encryption helpers.
#[derive(Clone, Copy, PartialEq, Eq, Structural, Debug)]
pub enum CryptoError {
    /// The symmetric key was not 32 bytes long.
    InvalidKeyLength,
    /// The nonce was not 12 bytes long.
    InvalidNonceLength,
    /// The peer's public key was not 32 bytes long.
    InvalidPeerKey,
    /// The ciphertext failed authentication.
    AeadFailure,
    /// The sealed blob was too short to hold a nonce.
    BlobTooShort,
}

// ---------------------------------------------------------------------------
// Identity
// ---------------------------------------------------------------------------

/// A long-lived X25519 identity keypair. The public half is the user's
/// durable identifier.
pub struct Identity {
    secret_key: Vec<u8>,
    public_key: Vec<u8>,
}

impl Identity {
    /// The secret key bytes, as a mathematical value.
    pub closed spec fn sk(&self) -> Seq<u8> {
        self.secret_key@
    }

    /// The public key bytes, as a mathematical value.
    pub closed spec fn pk(&self) -> Seq<u8> {
        self.public_key@
    }

    /// A well-formed identity: the public key is derived from the secret, and
    /// the secret takes part in symmetric Diffie-Hellman agreement.
    pub open spec fn wf(&self) -> bool {
        &&& self.sk().len() == 32
        &&& self.pk().len() == 32
        &&& self.pk() == x25519_pub_of(self.sk())
        &&& dh_agreeable(self.sk())
    }

    /// Generate a new random identity.
    pub fn generate() -> (r: Identity)
        ensures
            r.wf(),
    {
        let (secret_key, public_key) = x25519_keypair();
        Identity { secret_key, public_key }
    }

    /// Rebuild an identity from its raw secret key (as read back from the
    /// identity file). The public half is re-derived from the secret.
    pub fn from_secret_bytes(secret: Vec<u8>) -> (r: Result<Identity, CryptoError>)
        ensures
            secret@.len() == 32 ==> r is Ok,
            secret@.len() != 32 ==> r == Err::<Identity, CryptoError>(CryptoError::InvalidPeerKey),
            match r {
                Ok(id) => id.wf() && id.sk() == secret@,
                Err(_) => true,
            },
    {
        if secret.len() != 32 {
            return Err(CryptoError::InvalidPeerKey);
        }
        let public_key = x25519_pub_from_secret(&secret);
        Ok(Identity { secret_key: secret, public_key })
    }

    /// Get the public key as bytes.
    pub fn public_key_bytes(&self) -> (r: Vec<u8>)
        ensures
            r@ == self.pk(),
    {
        clone_bytes(&self.public_key)
    }

    /// The public key as a base64 string: the user's durable identifier.
    pub fn public_key_b64(&self) -> (r: String)
        ensures
            r@ == crate::encoding::b64_of(self.pk()),
    {
        crate::encoding::base64_encode(self.public_key.as_slice())
    }

    /// The secret key as bytes, for sealing into the identity file.
    pub fn secret_key_bytes(&self) -> (r: Vec<u8>)
        ensures
            r@ == self.sk(),
    {
        clone_bytes(&self.secret_key)
    }

    /// Perform X25519 key agreement with a peer's identity public key and
    /// derive the symmetric shared secret with BLAKE3.
    pub fn key_exchange(&self, peer_public_key: &[u8]) -> (r: Result<Vec<u8>, CryptoError>)
        requires
            self.wf(),
        ensures
            peer_public_key@.len() == 32 ==> r is Ok,
            peer_public_key@.len() != 32 ==> r == Err::<Vec<u8>, CryptoError>(
                CryptoError::InvalidPeerKey,
            ),
            match r {
                Ok(s) => s@ == shared_secret_of(self.sk(), peer_public_key@) && s@.len() == 32,
                Err(_) => true,
            },
    {
        if peer_public_key.len() != 32 {
            return Err(CryptoError::InvalidPeerKey);
        }
        let point = x25519_dh(self.secret_key.as_slice(), peer_public_key);
        Ok(blake3_hash(point.as_slice()))
    }
}

/// The symmetric secret both parties derive: BLAKE3 of the X25519 shared point.
pub open spec fn shared_secret_of(sk: Seq<u8>, peer_pk: Seq<u8>) -> Seq<u8> {
    blake3_of(x25519_shared_of(sk, peer_pk))
}

/// Relies on x25519_dalek::PublicKey::from(&StaticSecret): the public key is a
/// function of the secret bytes, derived by clamped base-point multiplication,
/// which makes Diffie-Hellman agreement through it symmetric.
#[verifier::external_body]
fn x25519_pub_from_secret(sk: &Vec<u8>) -> (r: Vec<u8>)
    requires
        sk@.len() == 32,
    ensures
        r@.len() == 32,
        r@ == x25519_pub_of(sk@),
        forall|other: Seq<u8>|
            #[trigger] x25519_shared_of(sk@, x25519_pub_of(other)) == x25519_shared_of(other, r@),
{
    let mut sk_arr = [0u8; 32];
    sk_arr.copy_from_slice(sk.as_slice());
    let secret = x25519_dalek::StaticSecret::from(sk_arr);
    x25519_dalek::PublicKey::from(&secret).as_bytes().to_vec()
}

/// Law: key agreement is symmetric. Two well-formed identities derive the
/// same shared secret from each other's public keys.
pub proof fn lemma_key_exchange_symmetry(a: Identity, b: Identity)
    requires
        a.wf(),
        b.wf(),
    ensures
        shared_secret_of(a.sk(), b.pk()) == shared_secret_of(b.sk(), a.pk()),
{
    assert(x25519_shared_of(a.sk(), x25519_pub_of(b.sk())) == x25519_shared_of(
        b.sk(),
        x25519_pub_of(a.sk()),
    ));
}

// ---------------------------------------------------------------------------
// Message-level authenticated encryption
// ---------------------------------------------------------------------------

/// Encrypt a message with ChaCha20-Poly1305 under a fresh random 12-byte
/// nonce, returning (nonce, ciphertext).
pub fn encrypt_message(key: &[u8], plaintext: &[u8]) -> (r: Result<(Vec<u8>, Vec<u8>), CryptoError>)
    requires
        aead_sealable(plaintext@),
    ensures
        key@.len() == 32 ==> r is Ok,
        key@.len() != 32 ==> r == Err::<(Vec<u8>, Vec<u8>), CryptoError>(
            CryptoError::InvalidKeyLength,
        ),
        match r {
            Ok((nonce, ct)) => nonce@.len() == 12 && ct@ == seal_of(key@, nonce@, plaintext@)
                && ct@.len() == plaintext@.len() + 16,
            Err(_) => true,
        },
{
    if key.len() != 32 {
        return Err(CryptoError::InvalidKeyLength);
    }
    let nonce = random_bytes(12);
    let ct = aead_seal(key, nonce.as_slice(), plaintext);
    Ok((nonce, ct))
}

/// Decrypt a ChaCha20-Poly1305 message. Succeeds exactly on ciphertexts that
/// `encrypt_message` produces for this key and nonce.
pub fn decrypt_message(key: &[u8], nonce: &[u8], ciphertext: &[u8]) -> (r: Result<
    Vec<u8>,
    CryptoError,
>)
    ensures
        key@.len() != 32 ==> r == Err::<Vec<u8>, CryptoError>(CryptoError::InvalidKeyLength),
        key@.len() == 32 && nonce@.len() != 12 ==> r == Err::<Vec<u8>, CryptoError>(
            CryptoError::InvalidNonceLength,
        ),
        key@.len() == 32 && nonce@.len() == 12 && r is Err ==> r == Err::<Vec<u8>, CryptoError>(
            CryptoError::AeadFailure,
        ) && (forall|pt: Seq<u8>| ciphertext@ != seal_of(key@, nonce@, pt)),
        match r {
            Ok(pt) => key@.len() == 32 && nonce@.len() == 12 && ciphertext@ == seal_of(
                key@,
                nonce@,
                pt@,
            ),
            Err(e) => e == CryptoError::AeadFailure ==> forall|pt: Seq<u8>|
                ciphertext@ != seal_of(key@, nonce@, pt),
        },
        forall|pt: Seq<u8>|
            (key@.len() == 32 && nonce@.len() == 12 && ciphertext@ == seal_of(key@, nonce@, pt))
                ==> r is Ok && r.unwrap()@ == pt,
{
    if key.len() != 32 {
        return Err(CryptoError::InvalidKeyLength);
    }
    if nonce.len() != 12 {
        return Err(CryptoError::InvalidNonceLength);
    }
    match aead_open(key, nonce, ciphertext) {
        Some(pt) => Ok(pt),
        None => Err(CryptoError::AeadFailure),
    }
}

// ---------------------------------------------------------------------------
// Password-sealed blobs (identity file format)
// ---------------------------------------------------------------------------

/// The symmetric key derived from a password: the full BLAKE3 digest.
pub open spec fn password_key_of(password: Seq<u8>) -> Seq<u8> {
    blake3_of(password)
}

/// Seal a blob under a password-derived key. The result is the 12-byte random
/// nonce followed by the ciphertext, the identity-file layout.
pub fn seal_with_password(password: &[u8], plaintext: &[u8]) -> (r: Vec<u8>)
    requires
        aead_sealable(plaintext@),
    ensures
        r@.len() == plaintext@.len() + 28,
        exists|nonce: Seq<u8>|
            nonce.len() == 12 && r@ == nonce + seal_of(password_key_of(password@), nonce, plaintext@),
{
    let key = blake3_hash(password);
    let nonce = random_bytes(12);
    let ct = aead_seal(key.as_slice(), nonce.as_slice(), plaintext);
    let ghost n = nonce@;
    let mut out = nonce;
    let mut ct = ct;
    out.append(&mut ct);
    proof {
        assert(out@ == n + seal_of(password_key_of(password@), n, plaintext@));
    }
    out
}

/// Open a password-sealed blob: split off the 12-byte nonce and decrypt.
/// Fails on blobs shorter than 13 bytes and on a wrong password (AEAD failure).
pub fn open_with_password(password: &[u8], data: &[u8]) -> (r: Result<Vec<u8>, CryptoError>)
    ensures
        data@.len() <= 12 ==> r == Err::<Vec<u8>, CryptoError>(CryptoError::BlobTooShort),
        match r {
            Ok(pt) => data@.len() > 12 && data@.skip(12) == seal_of(
                password_key_of(password@),
                data@.take(12),
                pt@,
            ),
            Err(e) => true,
        },
        forall|pt: Seq<u8>|
            (data@.len() > 12 && data@.skip(12) == seal_of(
                password_key_of(password@),
                data@.take(12),
                pt,
            )) ==> r is Ok && r.unwrap()@ == pt,
{
    if data.len() <= 12 {
        return Err(CryptoError::BlobTooShort);
    }
    let key = blake3_hash(password);
    let mut nonce: Vec<u8> = Vec::new();
    let mut i: usize = 0;
    while i < 12
        invariant
            i <= 12,
            data@.len() > 12,
            nonce@ == data@.take(i as int),
        decreases 12 - i,
    {
        nonce.push(data[i]);
        proof {
            assert(nonce@ =~= data@.take(i + 1));
        }
        i = i + 1;
    }
    let ct = slice_suffix(data, 12);
    match aead_open(key.as_slice(), nonce.as_slice(), ct.as_slice()) {
        Some(pt) => Ok(pt),
        None => Err(CryptoError::AeadFailure),
    }
}

/// Copy the suffix of a byte slice starting at `from`.
pub fn slice_suffix(data: &[u8], from: usize) -> (r: Vec<u8>)
    requires
        from <= data@.len(),
    ensures
        r@ == data@.skip(from as int),
{
    let mut out: Vec<u8> = Vec::new();
    let mut i: usize = from;
    while i < data.len()
        invariant
            from <= i <= data@.len(),
            out@ == data@.subrange(from as int, i as int),
        decreases data@.len() - i,
    {
        out.push(data[i]);
        proof {
            assert(out@ =~= data@.subrange(from as int, i + 1));
        }
        i = i + 1;
    }
    proof {
        assert(out@ =~= data@.skip(from as int));
    }
    out
}

/// Copy a byte vector.
pub fn clone_bytes(data: &Vec<u8>) -> (r: Vec<u8>)
    ensures
        r@ == data@,
{
    let mut out: Vec<u8> = Vec::new();
    let mut i: usize = 0;
    while i < data.len()
        invariant
            i <= data@.len(),
            out@ == data@.take(i as int),
        decreases data@.len() - i,
    {
        out.push(data[i]);
        proof {
            assert(out@ =~= data@.take(i + 1));
        }
        i = i + 1;
    }
    proof {
        assert(out@ =~= data@);
    }
    out
}

} // verus!
