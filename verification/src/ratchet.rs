//! Double Ratchet session state machine.
//!
//! Provides forward secrecy and break-in recovery through symmetric-key KDF
//! chains (sending and receiving) combined with DH ratchet steps on X25519
//! ephemeral keys, plus a stable media base key for the low-latency voice and
//! screen paths.

use crate::crypto;
use crate::crypto::{
    aead_sealable, blake3_keyed_of, dh_agreeable, hkdf32_of, seal_of, x25519_pub_of,
    x25519_shared_of,
};
use vstd::prelude::*;
use vstd::string::*;

verus! {

/// Max number of skipped message keys to store (prevents DoS via huge gaps).
pub const MAX_SKIP: u32 = 100;

// ---------------------------------------------------------------------------
// Key-schedule spec functions
// ---------------------------------------------------------------------------

/// The initial root key expanded from the shared secret.
pub open spec fn root_key_of(secret: Seq<u8>) -> Seq<u8> {
    hkdf32_of(None, secret, "wsp-ratchet-root".spec_bytes())
}

/// The chain key the initiator sends on (and the responder receives on).
pub open spec fn chain_a_of(secret: Seq<u8>) -> Seq<u8> {
    hkdf32_of(None, secret, "wsp-chain-alice".spec_bytes())
}

/// The chain key the responder sends on (and the initiator receives on).
pub open spec fn chain_b_of(secret: Seq<u8>) -> Seq<u8> {
    hkdf32_of(None, secret, "wsp-chain-bob".spec_bytes())
}

/// The stable media base key expanded from the shared secret; it never rotates.
pub open spec fn media_base_of(secret: Seq<u8>) -> Seq<u8> {
    hkdf32_of(None, secret, "wsp-voice-base".spec_bytes())
}

/// The voice key expanded from the media base key.
pub open spec fn voice_key_of(media_base: Seq<u8>) -> Seq<u8> {
    hkdf32_of(None, media_base, "wsp-voice-key".spec_bytes())
}

/// The screen-share key expanded from the media base key.
pub open spec fn screen_key_of(media_base: Seq<u8>) -> Seq<u8> {
    hkdf32_of(None, media_base, "wsp-screen-key".spec_bytes())
}

/// Advancing a chain key by one message.
pub open spec fn chain_next(ck: Seq<u8>) -> Seq<u8> {
    blake3_keyed_of(ck, "chain".spec_bytes())
}

/// The one-time message key split off a chain key.
pub open spec fn chain_msg_key(ck: Seq<u8>) -> Seq<u8> {
    blake3_keyed_of(ck, "message".spec_bytes())
}

/// The new root key after a DH ratchet step.
pub open spec fn root_step_root(root: Seq<u8>, dh: Seq<u8>) -> Seq<u8> {
    hkdf32_of(Some(root), dh, "wsp-root".spec_bytes())
}

/// The new chain key installed by a DH ratchet step.
pub open spec fn root_step_chain(root: Seq<u8>, dh: Seq<u8>) -> Seq<u8> {
    hkdf32_of(Some(root), dh, "wsp-chain".spec_bytes())
}

// ---------------------------------------------------------------------------
// Header and its wire form
// ---------------------------------------------------------------------------

/// Header sent with each ratcheted message.
#[derive(Debug)]
pub struct RatchetHeader {
    /// Sender's current DH ratchet public key (32 bytes).
    pub dh_public: Vec<u8>,
    /// Number of messages in the previous sending chain.
    pub prev_chain_len: u32,
    /// Message number in the current sending chain.
    pub msg_num: u32,
}

/// A u32 in little-endian byte order.
pub open spec fn le32(x: u32) -> Seq<u8> {
    seq![
        (x & 0xff) as u8,
        ((x >> 8) & 0xff) as u8,
        ((x >> 16) & 0xff) as u8,
        ((x >> 24) & 0xff) as u8,
    ]
}

/// The 40-byte wire form of a header: raw DH public key, then the two
/// counters as little-endian u32.
pub open spec fn header_bytes(dh: Seq<u8>, prev: u32, n: u32) -> Seq<u8> {
    dh + le32(prev) + le32(n)
}

impl RatchetHeader {
    /// A header is well formed when its DH public key is 32 bytes.
    pub open spec fn wf(&self) -> bool {
        self.dh_public@.len() == 32
    }

    /// Serialize the header for the wire.
    pub fn encode(&self) -> (r: Vec<u8>)
        requires
            self.wf(),
        ensures
            r@ == header_bytes(self.dh_public@, self.prev_chain_len, self.msg_num),
            r@.len() == 40,
    {
        let mut out = crypto::clone_bytes(&self.dh_public);
        push_le32(&mut out, self.prev_chain_len);
        push_le32(&mut out, self.msg_num);
        proof {
            assert(out@ =~= header_bytes(self.dh_public@, self.prev_chain_len, self.msg_num));
        }
        out
    }

    /// Parse a header from the wire. Succeeds exactly on 40-byte inputs.
    pub fn decode(data: &[u8]) -> (r: Option<RatchetHeader>)
        ensures
            r is Some <==> data@.len() == 40,
            match r {
                Some(h) => h.wf() && data@ == header_bytes(h.dh_public@, h.prev_chain_len, h.msg_num),
                None => true,
            },
    {
        if data.len() != 40 {
            return None;
        }
        let mut dh_public: Vec<u8> = Vec::new();
        let mut i: usize = 0;
        while i < 32
            invariant
                i <= 32,
                data@.len() == 40,
                dh_public@ == data@.take(i as int),
            decreases 32 - i,
        {
            dh_public.push(data[i]);
            proof {
                assert(dh_public@ =~= data@.take(i + 1));
            }
            i = i + 1;
        }
        let prev_chain_len = read_le32(data, 32);
        let msg_num = read_le32(data, 36);
        let h = RatchetHeader { dh_public, prev_chain_len, msg_num };
        proof {
            lemma_le32_roundtrip(prev_chain_len, data@.subrange(32, 36));
            lemma_le32_roundtrip(msg_num, data@.subrange(36, 40));
            assert(data@ =~= h.dh_public@ + le32(h.prev_chain_len) + le32(h.msg_num));
        }
        Some(h)
    }
}

/// Append a u32 to a byte vector in little-endian order.
fn push_le32(out: &mut Vec<u8>, x: u32)
    ensures
        final(out)@ == old(out)@ + le32(x),
{
    out.push((x & 0xff) as u8);
    out.push(((x >> 8) & 0xff) as u8);
    out.push(((x >> 16) & 0xff) as u8);
    out.push(((x >> 24) & 0xff) as u8);
    proof {
        assert(out@ =~= old(out)@ + le32(x));
    }
}

/// Read a little-endian u32 at offset `at`.
fn read_le32(data: &[u8], at: usize) -> (r: u32)
    requires
        at + 4 <= data@.len(),
    ensures
        r == (data@[at as int] as u32) | (data@[at as int + 1] as u32) << 8 | (data@[at as int
            + 2] as u32) << 16 | (data@[at as int + 3] as u32) << 24,
{
    (data[at] as u32) | (data[at + 1] as u32) << 8 | (data[at + 2] as u32) << 16 | (data[at
        + 3] as u32) << 24
}

/// Serializing a u32 reassembled from four bytes yields those bytes back.
proof fn lemma_le32_roundtrip(x: u32, b: Seq<u8>)
    requires
        b.len() == 4,
        x == (b[0] as u32) | (b[1] as u32) << 8 | (b[2] as u32) << 16 | (b[3] as u32) << 24,
    ensures
        le32(x) == b,
{
    let b0 = b[0];
    let b1 = b[1];
    let b2 = b[2];
    let b3 = b[3];
    assert({
        let x = (b0 as u32) | (b1 as u32) << 8 | (b2 as u32) << 16 | (b3 as u32) << 24;
        (x & 0xff) as u8 == b0 && ((x >> 8) & 0xff) as u8 == b1 && ((x >> 16) & 0xff) as u8 == b2
            && ((x >> 24) & 0xff) as u8 == b3
    }) by (bit_vector);
    assert(le32(x) =~= b);
}

// ---------------------------------------------------------------------------
// Errors
// ---------------------------------------------------------------------------

/// Failures of the ratchet engine. All of them leave the session state
/// exactly as it was.
#[derive(Clone, Copy, PartialEq, Eq, Structural, Debug)]
pub enum RatchetError {
    /// No sending chain key is installed.
    MissingSendChain,
    /// No receiving chain key is installed.
    MissingRecvChain,
    /// A send-side DH ratchet step was requested before the remote DH key was known.
    MissingRemoteDh,
    /// The send counter has reached its maximum.
    SendCounterExhausted,
    /// The header demands skipping more than MAX_SKIP message keys, or would
    /// exhaust the receive counter.
    ExcessiveSkip,
    /// The nonce was not 12 bytes long.
    InvalidNonce,
    /// The ciphertext failed authentication.
    DecryptFailed,
}

// ---------------------------------------------------------------------------
// The mathematical model of a session
// ---------------------------------------------------------------------------

/// A skipped message key, indexed by (DH public key, message number).
pub struct SkipView {
    pub dh: Seq<u8>,
    pub n: nat,
    pub key: Seq<u8>,
}

/// The mathematical state of a ratchet session.
#[verifier::ext_equal]
pub struct RatchetView {
    pub dh_self_secret: Seq<u8>,
    pub dh_self_public: Seq<u8>,
    pub dh_remote: Option<Seq<u8>>,
    pub root_key: Seq<u8>,
    pub chain_send: Option<Seq<u8>>,
    pub send_n: nat,
    pub chain_recv: Option<Seq<u8>>,
    pub recv_n: nat,
    pub prev_len: nat,
    pub skipped: Seq<SkipView>,
    pub is_alice: bool,
    pub initial_done: bool,
    pub media_base: Seq<u8>,
    pub voice_key: Option<Seq<u8>>,
    pub screen_key: Option<Seq<u8>>,
}

/// A well-formed session state: keys have their nominal lengths, the DH
/// public key matches the secret, both chains are installed, the skipped map
/// is bounded, counters fit the wire format, and cached media keys agree with
/// the media base key.
pub open spec fn rs_wf(v: RatchetView) -> bool {
    &&& v.dh_self_secret.len() == 32
    &&& v.dh_self_public.len() == 32
    &&& v.dh_self_public == x25519_pub_of(v.dh_self_secret)
    &&& dh_agreeable(v.dh_self_secret)
    &&& v.root_key.len() == 32
    &&& v.chain_send is Some
    &&& v.chain_send.unwrap().len() == 32
    &&& v.chain_recv is Some
    &&& v.chain_recv.unwrap().len() == 32
    &&& (v.dh_remote is Some ==> v.dh_remote.unwrap().len() == 32)
    &&& v.media_base.len() == 32
    &&& v.skipped.len() <= MAX_SKIP as nat
    &&& (forall|i: int|
        0 <= i < v.skipped.len() ==> (#[trigger] v.skipped[i]).dh.len() == 32
            && v.skipped[i].key.len() == 32)
    &&& v.send_n <= u32::MAX as nat
    &&& v.recv_n <= u32::MAX as nat
    &&& v.prev_len <= u32::MAX as nat
    &&& (v.voice_key is Some ==> v.voice_key.unwrap() == voice_key_of(v.media_base)
        && v.voice_key.unwrap().len() == 32)
    &&& (v.screen_key is Some ==> v.screen_key.unwrap() == screen_key_of(v.media_base)
        && v.screen_key.unwrap().len() == 32)
}

// ---------------------------------------------------------------------------
// Spec-level transitions
// ---------------------------------------------------------------------------

/// The initiator performs its first send-side DH step as soon as it knows the
/// peer's DH key and has not ratcheted yet.
pub open spec fn needs_initial_ratchet(v: RatchetView) -> bool {
    v.is_alice && v.dh_remote is Some && !v.initial_done
}

/// A send-side DH ratchet step with the fresh ephemeral secret `nsk`.
pub open spec fn send_dh_step(v: RatchetView, nsk: Seq<u8>) -> RatchetView {
    let dh = x25519_shared_of(nsk, v.dh_remote.unwrap());
    RatchetView {
        dh_self_secret: nsk,
        dh_self_public: x25519_pub_of(nsk),
        root_key: root_step_root(v.root_key, dh),
        chain_send: Some(root_step_chain(v.root_key, dh)),
        prev_len: v.send_n,
        send_n: 0,
        ..v
    }
}

/// The state encrypt reads its chain from: after the initial send-side step,
/// if one is due, and otherwise unchanged.
pub open spec fn send_prepared(v: RatchetView, nsk: Seq<u8>) -> RatchetView {
    if needs_initial_ratchet(v) {
        RatchetView { initial_done: true, ..send_dh_step(v, nsk) }
    } else {
        v
    }
}

/// Advancing the sending chain by one message.
pub open spec fn send_advance(v: RatchetView) -> RatchetView {
    RatchetView {
        chain_send: Some(chain_next(v.chain_send.unwrap())),
        send_n: v.send_n + 1,
        ..v
    }
}

/// Adopting the sender's DH key on first contact.
pub open spec fn adopt_remote(v: RatchetView, hdr_dh: Seq<u8>) -> RatchetView {
    if v.dh_remote is None {
        RatchetView { dh_remote: Some(hdr_dh), ..v }
    } else {
        v
    }
}

/// A receive-side DH ratchet step is due when the header carries a DH key
/// other than the recorded one.
pub open spec fn recv_needs_dh(v: RatchetView, hdr_dh: Seq<u8>) -> bool {
    v.dh_remote is Some && v.dh_remote.unwrap() != hdr_dh
}

/// The receive-side DH ratchet step.
pub open spec fn recv_dh_step(v: RatchetView, hdr_dh: Seq<u8>) -> RatchetView {
    let dh = x25519_shared_of(v.dh_self_secret, hdr_dh);
    RatchetView {
        dh_remote: Some(hdr_dh),
        root_key: root_step_root(v.root_key, dh),
        chain_recv: Some(root_step_chain(v.root_key, dh)),
        recv_n: 0,
        ..v
    }
}

/// Walking a receive chain from counter `n` up to `until`, storing each
/// passed-over message key.
pub open spec fn skip3(ck: Seq<u8>, n: nat, es: Seq<SkipView>, dh: Seq<u8>, until: nat) -> (
    Seq<u8>,
    nat,
    Seq<SkipView>,
)
    decreases until - n,
{
    if n >= until {
        (ck, n, es)
    } else {
        skip3(chain_next(ck), n + 1, es.push(SkipView { dh, n, key: chain_msg_key(ck) }), dh, until)
    }
}

/// Oldest-first eviction keeps at most MAX_SKIP stored keys.
pub open spec fn trim_skipped(es: Seq<SkipView>) -> Seq<SkipView> {
    if es.len() > MAX_SKIP as nat {
        es.skip(es.len() - MAX_SKIP as nat)
    } else {
        es
    }
}

/// Skipping message keys in the current receive chain up to `until`.
pub open spec fn skip_to(v: RatchetView, until: nat) -> RatchetView {
    let t = skip3(v.chain_recv.unwrap(), v.recv_n, v.skipped, v.dh_remote.unwrap(), until);
    RatchetView { chain_recv: Some(t.0), recv_n: t.1, skipped: trim_skipped(t.2), ..v }
}

/// Advancing the receiving chain by one message.
pub open spec fn recv_advance(v: RatchetView) -> RatchetView {
    RatchetView {
        chain_recv: Some(chain_next(v.chain_recv.unwrap())),
        recv_n: v.recv_n + 1,
        ..v
    }
}

/// The skip bounds under which a header is accepted on the receive path: no
/// gap may exceed MAX_SKIP, and the receive counter must not be exhausted.
pub open spec fn recv_ok(pre: RatchetView, hdr_dh: Seq<u8>, hdr_prev: nat, hdr_n: nat) -> bool {
    let v0 = adopt_remote(pre, hdr_dh);
    if recv_needs_dh(v0, hdr_dh) {
        hdr_prev <= v0.recv_n + MAX_SKIP as nat && hdr_n <= MAX_SKIP as nat
    } else {
        hdr_n <= v0.recv_n + MAX_SKIP as nat && hdr_n < u32::MAX as nat && v0.recv_n
            < u32::MAX as nat
    }
}

/// The receive side brought level with the header: remote key adopted, a DH
/// step taken if due, and the chain walked up to the header's message number.
pub open spec fn recv_prepared(pre: RatchetView, hdr_dh: Seq<u8>, hdr_prev: nat, hdr_n: nat)
    -> RatchetView {
    let v0 = adopt_remote(pre, hdr_dh);
    let v2 = if recv_needs_dh(v0, hdr_dh) {
        recv_dh_step(skip_to(v0, hdr_prev), hdr_dh)
    } else {
        v0
    };
    skip_to(v2, hdr_n)
}

/// The one-time key the header's message is decrypted with.
pub open spec fn recv_key(pre: RatchetView, hdr_dh: Seq<u8>, hdr_prev: nat, hdr_n: nat)
    -> Seq<u8> {
    chain_msg_key(recv_prepared(pre, hdr_dh, hdr_prev, hdr_n).chain_recv.unwrap())
}

/// The state after a successful receive outside the skipped map: prepared as
/// above, with a send-side DH step (under the fresh secret `nsk`) following a
/// receive-side step, and the receive chain advanced past the message.
pub open spec fn recv_transition(
    pre: RatchetView,
    hdr_dh: Seq<u8>,
    hdr_prev: nat,
    hdr_n: nat,
    nsk: Seq<u8>,
) -> RatchetView {
    let p = recv_prepared(pre, hdr_dh, hdr_prev, hdr_n);
    let q = if recv_needs_dh(adopt_remote(pre, hdr_dh), hdr_dh) {
        send_dh_step(p, nsk)
    } else {
        p
    };
    recv_advance(q)
}

/// The position of the first stored entry for (dh, n), or -1 if none is stored.
pub open spec fn skipped_index(es: Seq<SkipView>, dh: Seq<u8>, n: nat) -> int
    decreases es.len(),
{
    if es.len() == 0 {
        -1
    } else if es[0].dh == dh && es[0].n == n {
        0
    } else {
        let r = skipped_index(es.drop_first(), dh, n);
        if r < 0 {
            -1
        } else {
            r + 1
        }
    }
}

/// Whether the skipped map holds an entry for (dh, n).
pub open spec fn skipped_has(es: Seq<SkipView>, dh: Seq<u8>, n: nat) -> bool {
    skipped_index(es, dh, n) >= 0
}

/// The first matching position determines `skipped_index`.
proof fn lemma_skipped_index_first(es: Seq<SkipView>, dh: Seq<u8>, n: nat, i: int)
    requires
        0 <= i < es.len(),
        es[i].dh == dh,
        es[i].n == n,
        forall|j: int| 0 <= j < i ==> !((#[trigger] es[j]).dh == dh && es[j].n == n),
    ensures
        skipped_index(es, dh, n) == i,
    decreases es.len(),
{
    if i == 0 {
    } else {
        assert(!(es[0].dh == dh && es[0].n == n));
        assert(forall|j: int|
            0 <= j < i - 1 ==> !((#[trigger] es.drop_first()[j]).dh == dh && es.drop_first()[j].n
                == n)) by {
            assert(forall|j: int| 0 <= j < i - 1 ==> es.drop_first()[j] == es[j + 1]);
        }
        lemma_skipped_index_first(es.drop_first(), dh, n, i - 1);
    }
}

/// Without a matching entry, `skipped_index` is -1.
proof fn lemma_skipped_index_none(es: Seq<SkipView>, dh: Seq<u8>, n: nat)
    requires
        forall|j: int| 0 <= j < es.len() ==> !((#[trigger] es[j]).dh == dh && es[j].n == n),
    ensures
        skipped_index(es, dh, n) == -1,
    decreases es.len(),
{
    if es.len() == 0 {
    } else {
        assert(forall|j: int|
            0 <= j < es.len() - 1 ==> !((#[trigger] es.drop_first()[j]).dh == dh
                && es.drop_first()[j].n == n)) by {
            assert(forall|j: int| 0 <= j < es.len() - 1 ==> es.drop_first()[j] == es[j + 1]);
        }
        lemma_skipped_index_none(es.drop_first(), dh, n);
    }
}

/// What a successful decrypt did. Either the header named a stored skipped
/// key, which decrypted the ciphertext and left the map without it; or the
/// receive chain was brought level with the header (with a receive-side and
/// send-side DH step, under the fresh secret `nsk`, if the header carried a
/// new DH key), the message key at the header's number decrypted the
/// ciphertext, and the chain advanced past it.
pub open spec fn decrypt_ok_spec(
    pre: RatchetView,
    post: RatchetView,
    hdr_dh: Seq<u8>,
    hdr_prev: nat,
    hdr_n: nat,
    nonce: Seq<u8>,
    ct: Seq<u8>,
    pt: Seq<u8>,
    nsk: Seq<u8>,
) -> bool {
    &&& nonce.len() == 12
    &&& if skipped_has(pre.skipped, hdr_dh, hdr_n) {
        let i = skipped_index(pre.skipped, hdr_dh, hdr_n);
        &&& ct == seal_of(pre.skipped[i].key, nonce, pt)
        &&& post == (RatchetView { skipped: pre.skipped.remove(i), ..pre })
    } else {
        &&& recv_ok(pre, hdr_dh, hdr_prev, hdr_n)
        &&& ct == seal_of(recv_key(pre, hdr_dh, hdr_prev, hdr_n), nonce, pt)
        &&& (recv_needs_dh(adopt_remote(pre, hdr_dh), hdr_dh) ==> nsk.len() == 32
            && dh_agreeable(nsk))
        &&& post == recv_transition(pre, hdr_dh, hdr_prev, hdr_n, nsk)
    }
}

/// A successful decrypt, with the fresh ephemeral secret abstracted away.
pub open spec fn decrypt_ok(
    pre: RatchetView,
    post: RatchetView,
    hdr_dh: Seq<u8>,
    hdr_prev: nat,
    hdr_n: nat,
    nonce: Seq<u8>,
    ct: Seq<u8>,
    pt: Seq<u8>,
) -> bool {
    exists|nsk: Seq<u8>|
        #[trigger] decrypt_ok_spec(pre, post, hdr_dh, hdr_prev, hdr_n, nonce, ct, pt, nsk)
}

/// The one-time key a decrypt of this header resolves to: the stored skipped
/// key if one matches, else the receive chain's key at the header's number.
pub open spec fn decrypt_key(
    pre: RatchetView,
    hdr_dh: Seq<u8>,
    hdr_prev: nat,
    hdr_n: nat,
) -> Seq<u8> {
    if skipped_has(pre.skipped, hdr_dh, hdr_n) {
        pre.skipped[skipped_index(pre.skipped, hdr_dh, hdr_n)].key
    } else {
        recv_key(pre, hdr_dh, hdr_prev, hdr_n)
    }
}

/// Exactly when each decrypt error is returned. The state is never mutated
/// on an error.
pub open spec fn decrypt_err_spec(
    pre: RatchetView,
    hdr_dh: Seq<u8>,
    hdr_prev: nat,
    hdr_n: nat,
    nonce: Seq<u8>,
    ct: Seq<u8>,
    e: RatchetError,
) -> bool {
    if skipped_has(pre.skipped, hdr_dh, hdr_n) {
        let i = skipped_index(pre.skipped, hdr_dh, hdr_n);
        ||| (e == RatchetError::InvalidNonce && nonce.len() != 12)
        ||| (e == RatchetError::DecryptFailed && nonce.len() == 12 && forall|pt: Seq<u8>|
            ct != seal_of(pre.skipped[i].key, nonce, pt))
    } else if !recv_ok(pre, hdr_dh, hdr_prev, hdr_n) {
        e == RatchetError::ExcessiveSkip
    } else {
        ||| (e == RatchetError::InvalidNonce && nonce.len() != 12)
        ||| (e == RatchetError::DecryptFailed && nonce.len() == 12 && forall|pt: Seq<u8>|
            ct != seal_of(recv_key(pre, hdr_dh, hdr_prev, hdr_n), nonce, pt))
    }
}

// ---------------------------------------------------------------------------
// The session
// ---------------------------------------------------------------------------

/// A skipped message key held for out-of-order delivery.
struct SkippedEntry {
    dh_public: Vec<u8>,
    msg_num: u32,
    key: Vec<u8>,
}

impl View for SkippedEntry {
    type V = SkipView;

    closed spec fn view(&self) -> SkipView {
        SkipView { dh: self.dh_public@, n: self.msg_num as nat, key: self.key@ }
    }
}

/// The mathematical contents of the stored skipped keys.
spec fn sk_views(s: Seq<SkippedEntry>) -> Seq<SkipView> {
    s.map_values(|e: SkippedEntry| e@)
}

/// The stored skipped keys are read entry by entry.
proof fn lemma_sk_views_index(s: Seq<SkippedEntry>)
    ensures
        sk_views(s).len() == s.len(),
        forall|i: int| 0 <= i < s.len() ==> sk_views(s)[i] == (#[trigger] s[i])@,
{
}

/// The Double Ratchet session state for one peer.
///
/// Cached media keys are zeroised when `clear_voice_key` / `clear_screen_key`
/// drop them. The remaining key material is not zeroised at the session's end
/// of life: the verifier accepts no custom drop glue, and what memory holds
/// after a value is gone is outside what contracts here can state.
pub struct RatchetSession {
    dh_self_secret: Vec<u8>,
    dh_self_public: Vec<u8>,
    dh_remote: Option<Vec<u8>>,
    root_key: Vec<u8>,
    chain_key_send: Option<Vec<u8>>,
    send_msg_num: u32,
    chain_key_recv: Option<Vec<u8>>,
    recv_msg_num: u32,
    prev_chain_len: u32,
    skipped_keys: Vec<SkippedEntry>,
    is_alice: bool,
    initial_ratchet_done: bool,
    voice_base_key: Vec<u8>,
    voice_key: Option<Vec<u8>>,
    screen_key: Option<Vec<u8>>,
}

impl View for RatchetSession {
    type V = RatchetView;

    closed spec fn view(&self) -> RatchetView {
        RatchetView {
            dh_self_secret: self.dh_self_secret@,
            dh_self_public: self.dh_self_public@,
            dh_remote: match self.dh_remote {
                Some(v) => Some(v@),
                None => None,
            },
            root_key: self.root_key@,
            chain_send: match self.chain_key_send {
                Some(v) => Some(v@),
                None => None,
            },
            send_n: self.send_msg_num as nat,
            chain_recv: match self.chain_key_recv {
                Some(v) => Some(v@),
                None => None,
            },
            recv_n: self.recv_msg_num as nat,
            prev_len: self.prev_chain_len as nat,
            skipped: sk_views(self.skipped_keys@),
            is_alice: self.is_alice,
            initial_done: self.initial_ratchet_done,
            media_base: self.voice_base_key@,
            voice_key: match self.voice_key {
                Some(v) => Some(v@),
                None => None,
            },
            screen_key: match self.screen_key {
                Some(v) => Some(v@),
                None => None,
            },
        }
    }
}

impl RatchetSession {
    /// A well-formed session.
    pub open spec fn wf(&self) -> bool {
        rs_wf(self@)
    }

    /// Initialize a new ratchet session after X25519 key exchange.
    ///
    /// `shared_secret` is the initial shared secret from the handshake;
    /// `is_alice` says whether this side initiates the first DH ratchet
    /// (the side with the lexicographically lower session id).
    pub fn init(shared_secret: &[u8], is_alice: bool) -> (r: RatchetSession)
        ensures
            r.wf(),
            r@.root_key == root_key_of(shared_secret@),
            r@.chain_send == Some(
                if is_alice {
                    chain_a_of(shared_secret@)
                } else {
                    chain_b_of(shared_secret@)
                },
            ),
            r@.chain_recv == Some(
                if is_alice {
                    chain_b_of(shared_secret@)
                } else {
                    chain_a_of(shared_secret@)
                },
            ),
            r@.media_base == media_base_of(shared_secret@),
            r@.send_n == 0,
            r@.recv_n == 0,
            r@.prev_len == 0,
            r@.dh_remote is None,
            r@.skipped.len() == 0,
            r@.is_alice == is_alice,
            !r@.initial_done,
            r@.voice_key is None,
            r@.screen_key is None,
    {
        let (secret, public) = crypto::x25519_keypair();
        let root_key = crypto::hkdf_expand32(None, shared_secret, "wsp-ratchet-root".as_bytes());
        let chain_a = crypto::hkdf_expand32(None, shared_secret, "wsp-chain-alice".as_bytes());
        let chain_b = crypto::hkdf_expand32(None, shared_secret, "wsp-chain-bob".as_bytes());
        let voice_base_key = crypto::hkdf_expand32(None, shared_secret, "wsp-voice-base".as_bytes());
        let (chain_key_send, chain_key_recv) = if is_alice {
            (chain_a, chain_b)
        } else {
            (chain_b, chain_a)
        };
        RatchetSession {
            dh_self_secret: secret,
            dh_self_public: public,
            dh_remote: None,
            root_key,
            chain_key_send: Some(chain_key_send),
            send_msg_num: 0,
            chain_key_recv: Some(chain_key_recv),
            recv_msg_num: 0,
            prev_chain_len: 0,
            skipped_keys: Vec::new(),
            is_alice,
            initial_ratchet_done: false,
            voice_base_key,
            voice_key: None,
            screen_key: None,
        }
    }

    /// Get our current DH ratchet public key (included in message headers).
    pub fn public_key(&self) -> (r: Vec<u8>)
        ensures
            r@ == self@.dh_self_public,
    {
        crypto::clone_bytes(&self.dh_self_public)
    }

    /// How many skipped message keys are currently stored.
    pub fn skipped_len(&self) -> (r: usize)
        ensures
            r == self@.skipped.len(),
    {
        self.skipped_keys.len()
    }

    /// Set the remote peer's initial DH public key (from key exchange). Only
    /// the first call has any effect.
    pub fn set_remote_dh(&mut self, remote_dh: Vec<u8>)
        requires
            old(self).wf(),
            remote_dh@.len() == 32,
        ensures
            final(self).wf(),
            final(self)@ == (if old(self)@.dh_remote is None {
                RatchetView { dh_remote: Some(remote_dh@), ..old(self)@ }
            } else {
                old(self)@
            }),
    {
        if self.dh_remote.is_none() {
            self.dh_remote = Some(remote_dh);
            proof {
                assert(self@ =~~= (RatchetView { dh_remote: Some(remote_dh@), ..old(self)@ }));
            }
        } else {
            proof {
                assert(self@ =~~= old(self)@);
            }
        }
    }

    /// Derive (or return the cached) voice key for audio encryption. It reads
    /// from the stable media base key, not the rotating root key, so both
    /// sides always derive the same voice key regardless of ratchet state.
    pub fn derive_voice_key(&mut self) -> (r: Vec<u8>)
        requires
            old(self).wf(),
        ensures
            final(self).wf(),
            r@ == voice_key_of(old(self)@.media_base),
            r@.len() == 32,
            final(self)@ == (RatchetView { voice_key: Some(r@), ..old(self)@ }),
    {
        match &self.voice_key {
            Some(vk) => {
                let r = crypto::clone_bytes(vk);
                proof {
                    assert(self@ =~~= (RatchetView { voice_key: Some(r@), ..old(self)@ }));
                }
                r
            },
            None => {
                let vk = crypto::hkdf_expand32(
                    None,
                    self.voice_base_key.as_slice(),
                    "wsp-voice-key".as_bytes(),
                );
                let r = crypto::clone_bytes(&vk);
                self.voice_key = Some(vk);
                proof {
                    assert(self@ =~~= (RatchetView { voice_key: Some(r@), ..old(self)@ }));
                }
                r
            },
        }
    }

    /// Derive (or return the cached) screen-share key; like the voice key it
    /// reads from the stable media base key, under a different label.
    pub fn derive_screen_key(&mut self) -> (r: Vec<u8>)
        requires
            old(self).wf(),
        ensures
            final(self).wf(),
            r@ == screen_key_of(old(self)@.media_base),
            r@.len() == 32,
            final(self)@ == (RatchetView { screen_key: Some(r@), ..old(self)@ }),
    {
        match &self.screen_key {
            Some(sk) => {
                let r = crypto::clone_bytes(sk);
                proof {
                    assert(self@ =~~= (RatchetView { screen_key: Some(r@), ..old(self)@ }));
                }
                r
            },
            None => {
                let sk = crypto::hkdf_expand32(
                    None,
                    self.voice_base_key.as_slice(),
                    "wsp-screen-key".as_bytes(),
                );
                let r = crypto::clone_bytes(&sk);
                self.screen_key = Some(sk);
                proof {
                    assert(self@ =~~= (RatchetView { screen_key: Some(r@), ..old(self)@ }));
                }
                r
            },
        }
    }

    /// Zeroise and drop the cached voice key (call when a call ends).
    pub fn clear_voice_key(&mut self)
        requires
            old(self).wf(),
        ensures
            final(self).wf(),
            final(self)@ == (RatchetView { voice_key: None, ..old(self)@ }),
    {
        match &mut self.voice_key {
            Some(vk) => {
                zero_bytes(vk);
            },
            None => {},
        }
        self.voice_key = None;
        proof {
            assert(self@ =~~= (RatchetView { voice_key: None, ..old(self)@ }));
        }
    }

    /// Zeroise and drop the cached screen-share key.
    pub fn clear_screen_key(&mut self)
        requires
            old(self).wf(),
        ensures
            final(self).wf(),
            final(self)@ == (RatchetView { screen_key: None, ..old(self)@ }),
    {
        match &mut self.screen_key {
            Some(sk) => {
                zero_bytes(sk);
            },
            None => {},
        }
        self.screen_key = None;
        proof {
            assert(self@ =~~= (RatchetView { screen_key: None, ..old(self)@ }));
        }
    }
}

/// Relates the states before and after a send-side DH step under the fresh
/// ephemeral secret `nsk`.
pub open spec fn send_step_rel(pre: RatchetView, post: RatchetView, nsk: Seq<u8>) -> bool {
    &&& nsk.len() == 32
    &&& dh_agreeable(nsk)
    &&& post == send_dh_step(pre, nsk)
}

/// What a successful encrypt did: the session performed the initial DH step
/// if one was due (under the fresh secret `nsk`), emitted the header of the
/// prepared state, sealed the plaintext under the next message key of the
/// sending chain, and advanced that chain.
pub open spec fn encrypt_ok_spec(
    pre: RatchetView,
    post: RatchetView,
    hdr_dh: Seq<u8>,
    hdr_prev: nat,
    hdr_n: nat,
    nonce: Seq<u8>,
    ct: Seq<u8>,
    pt: Seq<u8>,
    nsk: Seq<u8>,
) -> bool {
    let mid = send_prepared(pre, nsk);
    &&& (needs_initial_ratchet(pre) ==> nsk.len() == 32 && dh_agreeable(nsk))
    &&& post == send_advance(mid)
    &&& hdr_dh == mid.dh_self_public
    &&& hdr_prev == mid.prev_len
    &&& hdr_n == mid.send_n
    &&& nonce.len() == 12
    &&& ct == seal_of(chain_msg_key(mid.chain_send.unwrap()), nonce, pt)
    &&& ct.len() == pt.len() + 16
}

/// A successful encrypt, with the fresh ephemeral secret abstracted away.
pub open spec fn encrypt_ok(
    pre: RatchetView,
    post: RatchetView,
    hdr_dh: Seq<u8>,
    hdr_prev: nat,
    hdr_n: nat,
    nonce: Seq<u8>,
    ct: Seq<u8>,
    pt: Seq<u8>,
) -> bool {
    exists|nsk: Seq<u8>|
        #[trigger] encrypt_ok_spec(pre, post, hdr_dh, hdr_prev, hdr_n, nonce, ct, pt, nsk)
}

/// KDF for the root chain: (root key, DH output) to (new root key, chain key).
fn kdf_root(root_key: &Vec<u8>, dh_output: &Vec<u8>) -> (r: (Vec<u8>, Vec<u8>))
    ensures
        r.0@ == root_step_root(root_key@, dh_output@),
        r.0@.len() == 32,
        r.1@ == root_step_chain(root_key@, dh_output@),
        r.1@.len() == 32,
{
    let new_root = crypto::hkdf_expand32(
        Some(root_key.as_slice()),
        dh_output.as_slice(),
        "wsp-root".as_bytes(),
    );
    let chain_key = crypto::hkdf_expand32(
        Some(root_key.as_slice()),
        dh_output.as_slice(),
        "wsp-chain".as_bytes(),
    );
    (new_root, chain_key)
}

/// KDF for chain advancement: chain key to (new chain key, message key),
/// through keyed BLAKE3 on the per-message hot path.
fn kdf_chain(chain_key: &Vec<u8>) -> (r: (Vec<u8>, Vec<u8>))
    requires
        chain_key@.len() == 32,
    ensures
        r.0@ == chain_next(chain_key@),
        r.0@.len() == 32,
        r.1@ == chain_msg_key(chain_key@),
        r.1@.len() == 32,
{
    let new_chain = crypto::blake3_keyed(chain_key.as_slice(), "chain".as_bytes());
    let msg_key = crypto::blake3_keyed(chain_key.as_slice(), "message".as_bytes());
    (new_chain, msg_key)
}

impl RatchetSession {
    /// Perform a DH ratchet step on the sending side: generate a fresh
    /// ephemeral keypair and derive a new root and send chain key.
    fn ratchet_send(&mut self) -> (r: Result<(), RatchetError>)
        requires
            old(self).wf(),
        ensures
            final(self).wf(),
            r is Ok <==> old(self)@.dh_remote is Some,
            match r {
                Ok(()) => exists|nsk: Seq<u8>|
                    #[trigger] send_step_rel(old(self)@, final(self)@, nsk),
                Err(e) => e == RatchetError::MissingRemoteDh && final(self)@ == old(self)@,
            },
    {
        let remote = match &self.dh_remote {
            Some(r) => crypto::clone_bytes(r),
            None => {
                proof {
                    assert(self@ =~~= old(self)@);
                }
                return Err(RatchetError::MissingRemoteDh);
            },
        };
        self.prev_chain_len = self.send_msg_num;
        self.send_msg_num = 0;
        let (new_secret, new_public) = crypto::x25519_keypair();
        let dh_output = crypto::x25519_dh(new_secret.as_slice(), remote.as_slice());
        let (new_root, new_chain) = kdf_root(&self.root_key, &dh_output);
        self.root_key = new_root;
        self.chain_key_send = Some(new_chain);
        self.dh_self_secret = new_secret;
        self.dh_self_public = new_public;
        proof {
            assert(self@ =~~= send_dh_step(old(self)@, self@.dh_self_secret));
            assert(send_step_rel(old(self)@, self@, self@.dh_self_secret));
        }
        Ok(())
    }

    /// Encrypt a plaintext message, returning (header, nonce, ciphertext).
    ///
    /// If this side initiates, knows the peer's DH key, and has not done the
    /// initial send ratchet yet, that DH step happens first. The sending
    /// chain then advances by one message.
    #[verifier::rlimit(50)]
    pub fn encrypt(&mut self, plaintext: &[u8]) -> (r: Result<
        (RatchetHeader, Vec<u8>, Vec<u8>),
        RatchetError,
    >)
        requires
            old(self).wf(),
            aead_sealable(plaintext@),
        ensures
            final(self).wf(),
            r is Ok <==> (needs_initial_ratchet(old(self)@) || old(self)@.send_n
                < u32::MAX as nat),
            r is Ok ==> r.unwrap().0.wf(),
            r is Ok ==> encrypt_ok(
                old(self)@,
                final(self)@,
                r.unwrap().0.dh_public@,
                r.unwrap().0.prev_chain_len as nat,
                r.unwrap().0.msg_num as nat,
                r.unwrap().1@,
                r.unwrap().2@,
                plaintext@,
            ),
            r is Err ==> r.unwrap_err() == RatchetError::SendCounterExhausted && final(self)@
                == old(self)@,
    {
        let ghost pre = old(self)@;
        let ghost mut gnsk = pre.dh_self_secret;
        if self.is_alice && self.dh_remote.is_some() && !self.initial_ratchet_done {
            let stepped = self.ratchet_send();
            proof {
                assert(stepped is Ok);
                gnsk = choose|nsk: Seq<u8>| send_step_rel(pre, self@, nsk);
            }
            self.initial_ratchet_done = true;
            proof {
                assert(self@ =~~= send_prepared(pre, gnsk));
            }
        }
        let ghost mid = send_prepared(pre, gnsk);
        proof {
            assert(self@ =~~= mid);
        }
        if self.send_msg_num == u32::MAX {
            proof {
                assert(self@ =~~= pre);
            }
            return Err(RatchetError::SendCounterExhausted);
        }
        let chain_key = match &self.chain_key_send {
            Some(c) => crypto::clone_bytes(c),
            None => {
                proof {
                    assert(false);
                }
                return Err(RatchetError::MissingSendChain);
            },
        };
        let (new_chain, message_key) = kdf_chain(&chain_key);
        self.chain_key_send = Some(new_chain);
        let header = RatchetHeader {
            dh_public: crypto::clone_bytes(&self.dh_self_public),
            prev_chain_len: self.prev_chain_len,
            msg_num: self.send_msg_num,
        };
        self.send_msg_num = self.send_msg_num + 1;
        let nonce = crypto::random_bytes(12);
        let ct = crypto::aead_seal(message_key.as_slice(), nonce.as_slice(), plaintext);
        proof {
            assert(self@ =~~= send_advance(mid));
            assert(encrypt_ok_spec(
                pre,
                self@,
                header.dh_public@,
                header.prev_chain_len as nat,
                header.msg_num as nat,
                nonce@,
                ct@,
                plaintext@,
                gnsk,
            ));
            assert(encrypt_ok(
                pre,
                self@,
                header.dh_public@,
                header.prev_chain_len as nat,
                header.msg_num as nat,
                nonce@,
                ct@,
                plaintext@,
            ));
        }
        Ok((header, nonce, ct))
    }
}

/// Entry lengths as the session invariant demands them.
spec fn entries_wf(s: Seq<SkippedEntry>) -> bool {
    forall|i: int|
        0 <= i < s.len() ==> (#[trigger] s[i])@.dh.len() == 32 && s[i]@.key.len() == 32
}

/// Copy the stored skipped keys, preserving their contents.
fn clone_entries(es: &Vec<SkippedEntry>) -> (r: Vec<SkippedEntry>)
    ensures
        sk_views(r@) == sk_views(es@),
        r@.len() == es@.len(),
        entries_wf(es@) ==> entries_wf(r@),
{
    let mut out: Vec<SkippedEntry> = Vec::new();
    let mut i: usize = 0;
    while i < es.len()
        invariant
            i <= es@.len(),
            out@.len() == i,
            forall|j: int| 0 <= j < i ==> (#[trigger] out@[j])@ == es@[j]@,
        decreases es@.len() - i,
    {
        let e = &es[i];
        out.push(
            SkippedEntry {
                dh_public: crypto::clone_bytes(&e.dh_public),
                msg_num: e.msg_num,
                key: crypto::clone_bytes(&e.key),
            },
        );
        i = i + 1;
    }
    proof {
        assert(sk_views(out@) =~= sk_views(es@));
    }
    out
}

/// Walk a receive chain from `start` to `until`, storing each passed-over
/// message key for later out-of-order delivery.
fn skip_forward(ck: Vec<u8>, start: u32, entries: Vec<SkippedEntry>, dh: &Vec<u8>, until: u32)
    -> (r: (Vec<u8>, u32, Vec<SkippedEntry>))
    requires
        ck@.len() == 32,
        dh@.len() == 32,
        until as nat <= start as nat + MAX_SKIP as nat,
        entries@.len() <= MAX_SKIP as nat,
        entries_wf(entries@),
    ensures
        ({
            let t = skip3(ck@, start as nat, sk_views(entries@), dh@, until as nat);
            r.0@ == t.0 && r.1 as nat == t.1 && sk_views(r.2@) == t.2
        }),
        r.0@.len() == 32,
        r.1 == (if until > start {
            until
        } else {
            start
        }),
        r.2@.len() <= entries@.len() + MAX_SKIP as nat,
        entries_wf(r.2@),
{
    let mut ck = ck;
    let mut n = start;
    let mut entries = entries;
    let ghost es0_len = entries@.len();
    let ghost t = skip3(ck@, start as nat, sk_views(entries@), dh@, until as nat);
    while n < until
        invariant
            ck@.len() == 32,
            dh@.len() == 32,
            start <= n,
            n <= until || n == start,
            entries@.len() == es0_len + (n as nat - start as nat),
            entries_wf(entries@),
            skip3(ck@, n as nat, sk_views(entries@), dh@, until as nat) == t,
        decreases until as int - n as int,
    {
        let ghost prev_es = sk_views(entries@);
        let ghost prev_ck = ck@;
        let (new_ck, mk) = kdf_chain(&ck);
        let entry = SkippedEntry { dh_public: crypto::clone_bytes(dh), msg_num: n, key: mk };
        entries.push(entry);
        proof {
            assert(sk_views(entries@) =~= prev_es.push(
                SkipView { dh: dh@, n: n as nat, key: chain_msg_key(prev_ck) },
            ));
        }
        ck = new_ck;
        n = n + 1;
    }
    (ck, n, entries)
}

/// Evict oldest stored keys until at most MAX_SKIP remain.
fn trim_entries(entries: Vec<SkippedEntry>) -> (r: Vec<SkippedEntry>)
    requires
        entries_wf(entries@),
    ensures
        sk_views(r@) == trim_skipped(sk_views(entries@)),
        r@.len() <= MAX_SKIP as nat,
        entries_wf(r@),
{
    let mut entries = entries;
    let ghost target = trim_skipped(sk_views(entries@));
    while entries.len() > MAX_SKIP as usize
        invariant
            entries_wf(entries@),
            trim_skipped(sk_views(entries@)) == target,
        decreases entries@.len(),
    {
        let ghost prev = sk_views(entries@);
        entries.remove(0);
        proof {
            assert(sk_views(entries@) =~= prev.drop_first());
            assert(trim_skipped(prev.drop_first()) =~= trim_skipped(prev));
        }
    }
    proof {
        assert(trim_skipped(sk_views(entries@)) =~= sk_views(entries@));
    }
    entries
}

impl RatchetSession {
    /// Decrypt a message given its header, nonce, and ciphertext.
    ///
    /// Skipped message keys are tried first; otherwise the receive chain is
    /// brought level with the header, performing a DH ratchet step if the
    /// header carries a new DH key. Every failure leaves the session exactly
    /// as it was.
    pub fn decrypt(&mut self, header: &RatchetHeader, nonce: &[u8], ciphertext: &[u8]) -> (r:
        Result<Vec<u8>, RatchetError>)
        requires
            old(self).wf(),
            header.wf(),
        ensures
            final(self).wf(),
            r is Ok ==> decrypt_ok(
                old(self)@,
                final(self)@,
                header.dh_public@,
                header.prev_chain_len as nat,
                header.msg_num as nat,
                nonce@,
                ciphertext@,
                r.unwrap()@,
            ),
            r is Ok ==> forall|p: Seq<u8>|
                ciphertext@ == seal_of(
                    decrypt_key(
                        old(self)@,
                        header.dh_public@,
                        header.prev_chain_len as nat,
                        header.msg_num as nat,
                    ),
                    nonce@,
                    p,
                ) ==> r.unwrap()@ == p,
            r is Err ==> final(self)@ == old(self)@ && decrypt_err_spec(
                old(self)@,
                header.dh_public@,
                header.prev_chain_len as nat,
                header.msg_num as nat,
                nonce@,
                ciphertext@,
                r.unwrap_err(),
            ),
    {
        let ghost pre = old(self)@;
        let ghost hd = header.dh_public@;
        let ghost hp = header.prev_chain_len as nat;
        let ghost hn = header.msg_num as nat;

        // 1. Try the stored skipped message keys first.
        let n_entries = self.skipped_keys.len();
        let mut i: usize = 0;
        let mut found: usize = n_entries;
        while i < n_entries && found == n_entries
            invariant
                i <= n_entries,
                found <= n_entries,
                n_entries == pre.skipped.len(),
                self@ == pre,
                hd == header.dh_public@,
                hn == header.msg_num as nat,
                found == n_entries ==> forall|j: int|
                    0 <= j < i ==> !((#[trigger] pre.skipped[j]).dh == hd && pre.skipped[j].n
                        == hn),
                found < n_entries ==> pre.skipped[found as int].dh == hd
                    && pre.skipped[found as int].n == hn && (forall|j: int|
                    0 <= j < found ==> !((#[trigger] pre.skipped[j]).dh == hd && pre.skipped[j].n
                        == hn)),
            decreases n_entries - i, (if found == n_entries {
                1int
            } else {
                0int
            }),
        {
            proof {
                lemma_sk_views_index(self.skipped_keys@);
                assert(pre.skipped[i as int] == self.skipped_keys@[i as int]@);
            }
            let e = &self.skipped_keys[i];
            let dh_match = crate::bytes_eq(e.dh_public.as_slice(), header.dh_public.as_slice());
            let n_match = e.msg_num == header.msg_num;
            proof {
                assert(e@ == pre.skipped[i as int]);
                assert(dh_match == (pre.skipped[i as int].dh == hd));
                assert(n_match == (pre.skipped[i as int].n == hn));
            }
            if dh_match && n_match {
                found = i;
            } else {
                i = i + 1;
            }
        }
        if found < n_entries {
            proof {
                lemma_skipped_index_first(pre.skipped, hd, hn, found as int);
            }
            if nonce.len() != 12 {
                return Err(RatchetError::InvalidNonce);
            }
            let key = crypto::clone_bytes(&self.skipped_keys[found].key);
            match crypto::aead_open(key.as_slice(), nonce, ciphertext) {
                Some(pt) => {
                    self.skipped_keys.remove(found);
                    proof {
                        assert(self@.skipped =~= pre.skipped.remove(found as int));
                        assert(self@ =~~= (RatchetView {
                            skipped: pre.skipped.remove(found as int),
                            ..pre
                        }));
                        assert(decrypt_ok_spec(
                            pre,
                            self@,
                            hd,
                            hp,
                            hn,
                            nonce@,
                            ciphertext@,
                            pt@,
                            pre.dh_self_secret,
                        ));
                        assert(decrypt_ok(pre, self@, hd, hp, hn, nonce@, ciphertext@, pt@));
                        assert(decrypt_key(pre, hd, hp, hn) == key@);
                    }
                    return Ok(pt);
                },
                None => {
                    return Err(RatchetError::DecryptFailed);
                },
            }
        }
        proof {
            lemma_skipped_index_none(pre.skipped, hd, hn);
        }

        // 2. Decide whether the header demands a DH ratchet step.
        let (remote_known, remote_matches): (bool, bool) = match &self.dh_remote {
            Some(r) => (true, crate::bytes_eq(r.as_slice(), header.dh_public.as_slice())),
            None => (false, false),
        };
        let needs = remote_known && !remote_matches;
        let ghost v0 = adopt_remote(pre, hd);
        proof {
            assert(needs == recv_needs_dh(v0, hd));
        }

        // 3. Enforce the skip bounds before touching any state.
        if needs {
            if (header.prev_chain_len as u64) > (self.recv_msg_num as u64) + (MAX_SKIP as u64) {
                return Err(RatchetError::ExcessiveSkip);
            }
            if header.msg_num > MAX_SKIP {
                return Err(RatchetError::ExcessiveSkip);
            }
        } else {
            if (header.msg_num as u64) > (self.recv_msg_num as u64) + (MAX_SKIP as u64) {
                return Err(RatchetError::ExcessiveSkip);
            }
            if header.msg_num == u32::MAX || self.recv_msg_num == u32::MAX {
                return Err(RatchetError::ExcessiveSkip);
            }
        }
        proof {
            assert(recv_ok(pre, hd, hp, hn));
        }
        if nonce.len() != 12 {
            return Err(RatchetError::InvalidNonce);
        }

        let chain_recv = match &self.chain_key_recv {
            Some(c) => crypto::clone_bytes(c),
            None => {
                proof {
                    assert(false);
                }
                return Err(RatchetError::MissingRecvChain);
            },
        };
        proof {
            lemma_sk_views_index(self.skipped_keys@);
            assert(entries_wf(self.skipped_keys@));
        }
        let entries = clone_entries(&self.skipped_keys);

        if needs {
            let remote = match &self.dh_remote {
                Some(r) => crypto::clone_bytes(r),
                None => {
                    proof {
                        assert(false);
                    }
                    return Err(RatchetError::MissingRecvChain);
                },
            };
            // Skip the unused keys of the outgoing chain, then take the
            // receive-side DH step.
            let s1 = skip_forward(
                chain_recv,
                self.recv_msg_num,
                entries,
                &remote,
                header.prev_chain_len,
            );
            let entries1 = trim_entries(s1.2);
            let ghost v1 = skip_to(v0, hp);
            proof {
                assert(v1.chain_recv == Some(s1.0@) && v1.recv_n == s1.1 as nat && v1.skipped
                    == sk_views(entries1@));
            }
            let dh1 = crypto::x25519_dh(
                self.dh_self_secret.as_slice(),
                header.dh_public.as_slice(),
            );
            let kr = kdf_root(&self.root_key, &dh1);
            let ghost v2 = recv_dh_step(v1, hd);
            // Skip within the new receive chain up to the message number.
            let s2 = skip_forward(kr.1, 0, entries1, &header.dh_public, header.msg_num);
            let entries2 = trim_entries(s2.2);
            let ghost p = skip_to(v2, hn);
            proof {
                assert(p == recv_prepared(pre, hd, hp, hn));
                assert(p.chain_recv == Some(s2.0@) && p.recv_n == s2.1 as nat && p.skipped
                    == sk_views(entries2@));
            }
            let kc = kdf_chain(&s2.0);
            match crypto::aead_open(kc.1.as_slice(), nonce, ciphertext) {
                Some(pt) => {
                    // Commit: receive side, then the send-side DH step so the
                    // next outbound message carries a fresh self key.
                    let (new_secret, new_public) = crypto::x25519_keypair();
                    let dh2 = crypto::x25519_dh(
                        new_secret.as_slice(),
                        header.dh_public.as_slice(),
                    );
                    let ks = kdf_root(&kr.0, &dh2);
                    let ghost nsk = new_secret@;
                    self.dh_remote = Some(crypto::clone_bytes(&header.dh_public));
                    self.root_key = ks.0;
                    self.chain_key_recv = Some(kc.0);
                    self.recv_msg_num = s2.1 + 1;
                    self.skipped_keys = entries2;
                    self.prev_chain_len = self.send_msg_num;
                    self.send_msg_num = 0;
                    self.chain_key_send = Some(ks.1);
                    self.dh_self_secret = new_secret;
                    self.dh_self_public = new_public;
                    proof {
                        assert(self@ =~~= recv_advance(send_dh_step(p, nsk)));
                        assert(self@ == recv_transition(pre, hd, hp, hn, nsk));
                        assert(decrypt_ok_spec(pre, self@, hd, hp, hn, nonce@, ciphertext@, pt@, nsk));
                        assert(decrypt_ok(pre, self@, hd, hp, hn, nonce@, ciphertext@, pt@));
                        assert(decrypt_key(pre, hd, hp, hn) == kc.1@);
                    }
                    Ok(pt)
                },
                None => {
                    proof {
                        assert(kc.1@ == recv_key(pre, hd, hp, hn));
                    }
                    Err(RatchetError::DecryptFailed)
                },
            }
        } else {
            // Same chain: skip ahead if needed and advance by one.
            let s2 = skip_forward(
                chain_recv,
                self.recv_msg_num,
                entries,
                &header.dh_public,
                header.msg_num,
            );
            let entries2 = trim_entries(s2.2);
            let ghost p = skip_to(v0, hn);
            proof {
                assert(v0.dh_remote == Some(hd));
                assert(p == recv_prepared(pre, hd, hp, hn));
                assert(p.chain_recv == Some(s2.0@) && p.recv_n == s2.1 as nat && p.skipped
                    == sk_views(entries2@));
            }
            let kc = kdf_chain(&s2.0);
            match crypto::aead_open(kc.1.as_slice(), nonce, ciphertext) {
                Some(pt) => {
                    if self.dh_remote.is_none() {
                        self.dh_remote = Some(crypto::clone_bytes(&header.dh_public));
                    }
                    self.chain_key_recv = Some(kc.0);
                    self.recv_msg_num = s2.1 + 1;
                    self.skipped_keys = entries2;
                    proof {
                        assert(self@ =~~= recv_advance(p));
                        assert(self@ == recv_transition(pre, hd, hp, hn, pre.dh_self_secret));
                        assert(decrypt_ok_spec(
                            pre,
                            self@,
                            hd,
                            hp,
                            hn,
                            nonce@,
                            ciphertext@,
                            pt@,
                            pre.dh_self_secret,
                        ));
                        assert(decrypt_ok(pre, self@, hd, hp, hn, nonce@, ciphertext@, pt@));
                        assert(decrypt_key(pre, hd, hp, hn) == kc.1@);
                    }
                    Ok(pt)
                },
                None => {
                    proof {
                        assert(kc.1@ == recv_key(pre, hd, hp, hn));
                    }
                    Err(RatchetError::DecryptFailed)
                },
            }
        }
    }
}

/// Overwrite a byte vector with zeroes.
fn zero_bytes(v: &mut Vec<u8>)
    ensures
        final(v)@.len() == old(v)@.len(),
        forall|i: int| 0 <= i < final(v)@.len() ==> final(v)@[i] == 0,
{
    let mut i: usize = 0;
    while i < v.len()
        invariant
            i <= v@.len(),
            v@.len() == old(v)@.len(),
            forall|j: int| 0 <= j < i ==> v@[j] == 0,
        decreases v@.len() - i,
    {
        v.set(i, 0);
        i = i + 1;
    }
}

} // verus!
