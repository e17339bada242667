//! Global laws of the ratchet engine, proved from its transition model: the
//! round-trip guarantee for linked session pairs, the stability of the media
//! base key, media key agreement, and the skipped-key bound.

use crate::crypto::{dh_agreeable, seal_of, x25519_pub_of, x25519_shared_of};
use crate::ratchet::{
    adopt_remote, chain_msg_key, decrypt_key, decrypt_ok_spec, media_base_of, needs_initial_ratchet,
    recv_advance, recv_dh_step, recv_key, recv_needs_dh, recv_ok, recv_prepared, recv_transition,
    root_step_chain, root_step_root, rs_wf, screen_key_of, send_advance, send_dh_step, send_prepared,
    skip_to, skipped_has, voice_key_of, RatchetView, MAX_SKIP,
};
use vstd::prelude::*;

verus! {

// ---------------------------------------------------------------------------
// The pairing relation
// ---------------------------------------------------------------------------

/// The key material both transitions rely on: the public half matches the
/// secret, the secret agrees symmetrically, and both chains are installed.
pub open spec fn key_material_ok(v: RatchetView) -> bool {
    &&& v.dh_self_public == x25519_pub_of(v.dh_self_secret)
    &&& dh_agreeable(v.dh_self_secret)
    &&& v.chain_send is Some
    &&& v.chain_recv is Some
}

/// Two sessions still in their symmetric bootstrap chains: no DH ratchet has
/// happened on either side, each side's sending chain is the other's
/// receiving chain, and any recorded remote DH key is the peer's real one.
pub open spec fn linked_sym(a: RatchetView, b: RatchetView) -> bool {
    &&& a.root_key == b.root_key
    &&& !a.initial_done && !b.initial_done
    &&& a.chain_send == b.chain_recv && a.send_n == b.recv_n
    &&& b.chain_send == a.chain_recv && b.send_n == a.recv_n
    &&& (a.dh_remote is Some ==> a.dh_remote == Some(b.dh_self_public))
    &&& (b.dh_remote is Some ==> b.dh_remote == Some(a.dh_self_public))
    &&& (needs_initial_ratchet(a) ==> b.dh_remote is Some)
    &&& (needs_initial_ratchet(b) ==> a.dh_remote is Some)
}

/// `l` performed the most recent DH ratchet step (during its decrypt of a
/// message from `o`); `o` has not seen `l`'s fresh key yet, while `o`'s own
/// sending chain is still the one `l` receives on.
pub open spec fn linked_run(l: RatchetView, o: RatchetView) -> bool {
    let d = x25519_shared_of(o.dh_self_secret, l.dh_self_public);
    &&& !needs_initial_ratchet(l) && !needs_initial_ratchet(o)
    &&& l.dh_remote == Some(o.dh_self_public)
    &&& o.dh_remote is Some && o.dh_remote != Some(l.dh_self_public)
    &&& l.root_key == root_step_root(o.root_key, d)
    &&& l.chain_send == Some(root_step_chain(o.root_key, d))
    &&& l.send_n == 0
    &&& l.prev_len == o.recv_n
    &&& o.chain_send == l.chain_recv && o.send_n == l.recv_n
}

/// Two sessions of one peer pair between messages, under lossless in-order
/// delivery: one side initiates (the roles differ), no keys are pending in
/// the skipped maps, and the chains stand in one of the reachable pairings.
pub open spec fn linked(a: RatchetView, b: RatchetView) -> bool {
    &&& key_material_ok(a) && key_material_ok(b)
    &&& a.is_alice != b.is_alice
    &&& a.skipped.len() == 0 && b.skipped.len() == 0
    &&& (linked_sym(a, b) || linked_run(a, b) || linked_run(b, a))
}

// ---------------------------------------------------------------------------
// The round-trip law
// ---------------------------------------------------------------------------

/// Law (ratchet round-trip): take two linked sessions and let `a`
/// encrypt a plaintext. The header `a` emits is not answered from `b`'s
/// skipped map, passes `b`'s skip bounds, and selects at `b` exactly the
/// message key `a` sealed with — so `b`'s decrypt contract is met, and its
/// uniqueness clause (over `decrypt_key`) returns the sent plaintext bit for
/// bit — and the two sessions are linked again afterwards.
///
/// `nsk` and `msk` stand for the fresh ephemeral secrets the two sides would
/// generate; the hypotheses on them say only that they are fresh (their
/// public keys differ from the keys already recorded) and well formed.
pub proof fn lemma_ratchet_exchange(
    a: RatchetView,
    b: RatchetView,
    nsk: Seq<u8>,
    msk: Seq<u8>,
    nonce: Seq<u8>,
    pt: Seq<u8>,
)
    requires
        linked(a, b),
        a.send_n + 1 < u32::MAX as nat,
        b.recv_n + 1 < u32::MAX as nat,
        nonce.len() == 12,
        nsk.len() == 32,
        dh_agreeable(nsk),
        msk.len() == 32,
        dh_agreeable(msk),
        needs_initial_ratchet(a) ==> x25519_pub_of(nsk) != b.dh_remote.unwrap(),
        x25519_pub_of(msk) != b.dh_self_public,
        (b.is_alice && !b.initial_done && b.dh_remote is None) ==> a.dh_remote is Some,
    ensures
        ({
            let mid = send_prepared(a, nsk);
            let a1 = send_advance(mid);
            let hd = mid.dh_self_public;
            let hp = mid.prev_len;
            let hn = mid.send_n;
            let key = chain_msg_key(mid.chain_send.unwrap());
            let b1 = recv_transition(b, hd, hp, hn, msk);
            &&& !skipped_has(b.skipped, hd, hn)
            &&& recv_ok(b, hd, hp, hn)
            &&& recv_key(b, hd, hp, hn) == key
            &&& decrypt_key(b, hd, hp, hn) == key
            &&& decrypt_ok_spec(b, b1, hd, hp, hn, nonce, seal_of(key, nonce, pt), pt, msk)
            &&& linked(a1, b1)
        }),
{
    let mid = send_prepared(a, nsk);
    let a1 = send_advance(mid);
    let hd = mid.dh_self_public;
    let hp = mid.prev_len;
    let hn = mid.send_n;
    let key = chain_msg_key(mid.chain_send.unwrap());
    let v0 = adopt_remote(b, hd);
    assert(!skipped_has(b.skipped, hd, hn));
    if needs_initial_ratchet(a) {
        // The sender takes its initial DH step; the header carries a fresh
        // key, so the receiver takes a DH step too.
        assert(linked_sym(a, b));
        assert(a.dh_remote == Some(b.dh_self_public));
        assert(hd == x25519_pub_of(nsk));
        assert(recv_needs_dh(v0, hd));
        assert(hp == a.send_n && hp == b.recv_n);
        assert(hn == 0);
        assert(recv_ok(b, hd, hp, hn));
        // The two sides compute the same DH output.
        let d1 = x25519_shared_of(nsk, b.dh_self_public);
        assert(x25519_shared_of(b.dh_self_secret, hd) == d1);
        let v1 = skip_to(v0, hp);
        assert(v1 == v0);
        let v2 = recv_dh_step(v1, hd);
        assert(v2.chain_recv == Some(root_step_chain(b.root_key, d1)));
        assert(mid.chain_send == Some(root_step_chain(a.root_key, d1)));
        assert(a.root_key == b.root_key);
        let p = skip_to(v2, hn);
        assert(p == v2);
        assert(recv_prepared(b, hd, hp, hn) == p);
        assert(recv_key(b, hd, hp, hn) == key);
        let q = send_dh_step(p, msk);
        let b1 = recv_advance(q);
        assert(recv_transition(b, hd, hp, hn, msk) == b1);
        // The receiver's answering chain matches what the sender will
        // receive on after this step.
        let d2 = x25519_shared_of(msk, hd);
        assert(x25519_shared_of(nsk, x25519_pub_of(msk)) == d2);
        assert(linked_run(b1, a1));
        assert(linked(a1, b1));
        assert(decrypt_ok_spec(b, b1, hd, hp, hn, nonce, seal_of(key, nonce, pt), pt, msk));
    } else if linked_sym(a, b) {
        // Symmetric chains on both sides: no step anywhere.
        assert(mid == a);
        assert(hd == a.dh_self_public);
        assert(!recv_needs_dh(v0, hd));
        assert(hn == a.send_n && hn == b.recv_n);
        assert(recv_ok(b, hd, hp, hn));
        let p = skip_to(v0, hn);
        assert(p == v0);
        assert(recv_prepared(b, hd, hp, hn) == p);
        assert(recv_key(b, hd, hp, hn) == key);
        let b1 = recv_advance(p);
        assert(recv_transition(b, hd, hp, hn, msk) == b1);
        assert(linked_sym(a1, b1));
        assert(linked(a1, b1));
        assert(decrypt_ok_spec(b, b1, hd, hp, hn, nonce, seal_of(key, nonce, pt), pt, msk));
    } else if linked_run(a, b) {
        // The sender ratcheted last; the receiver catches up with a DH step
        // of its own.
        assert(mid == a);
        assert(hd == a.dh_self_public);
        assert(recv_needs_dh(v0, hd));
        assert(hp == a.prev_len && hp == b.recv_n);
        assert(hn == 0);
        assert(recv_ok(b, hd, hp, hn));
        let d1 = x25519_shared_of(b.dh_self_secret, a.dh_self_public);
        let v1 = skip_to(v0, hp);
        assert(v1 == v0);
        let v2 = recv_dh_step(v1, hd);
        assert(v2.chain_recv == Some(root_step_chain(b.root_key, d1)));
        assert(a.chain_send == Some(root_step_chain(b.root_key, d1)));
        let p = skip_to(v2, hn);
        assert(p == v2);
        assert(recv_prepared(b, hd, hp, hn) == p);
        assert(recv_key(b, hd, hp, hn) == key);
        let q = send_dh_step(p, msk);
        let b1 = recv_advance(q);
        assert(recv_transition(b, hd, hp, hn, msk) == b1);
        let d2 = x25519_shared_of(msk, hd);
        assert(x25519_shared_of(a.dh_self_secret, x25519_pub_of(msk)) == d2);
        assert(a1.root_key == root_step_root(b.root_key, d1));
        assert(linked_run(b1, a1));
        assert(linked(a1, b1));
        assert(decrypt_ok_spec(b, b1, hd, hp, hn, nonce, seal_of(key, nonce, pt), pt, msk));
    } else {
        // The receiver ratcheted last; the sender's chain is the aligned one.
        assert(linked_run(b, a));
        assert(mid == a);
        assert(hd == a.dh_self_public);
        assert(b.dh_remote == Some(a.dh_self_public));
        assert(!recv_needs_dh(v0, hd));
        assert(hn == a.send_n && hn == b.recv_n);
        assert(recv_ok(b, hd, hp, hn));
        let p = skip_to(v0, hn);
        assert(p == v0);
        assert(recv_prepared(b, hd, hp, hn) == p);
        assert(recv_key(b, hd, hp, hn) == key);
        let b1 = recv_advance(p);
        assert(recv_transition(b, hd, hp, hn, msk) == b1);
        assert(linked_run(b1, a1));
        assert(linked(a1, b1));
        assert(decrypt_ok_spec(b, b1, hd, hp, hn, nonce, seal_of(key, nonce, pt), pt, msk));
    }
}

// ---------------------------------------------------------------------------
// Media keys
// ---------------------------------------------------------------------------

/// Law (media base stability): no ratchet transition touches the media base
/// key, so the voice and screen keys never change over a session's lifetime.
pub proof fn lemma_media_base_stable(
    v: RatchetView,
    nsk: Seq<u8>,
    hdr_dh: Seq<u8>,
    hdr_prev: nat,
    hdr_n: nat,
)
    ensures
        send_prepared(v, nsk).media_base == v.media_base,
        send_advance(v).media_base == v.media_base,
        recv_transition(v, hdr_dh, hdr_prev, hdr_n, nsk).media_base == v.media_base,
{
}

/// Law (media key agreement): two sessions built from the same shared secret
/// derive identical voice keys and identical screen keys, regardless of the
/// role bit and of any later ratchet advancement.
pub proof fn lemma_media_key_agreement(a: RatchetView, b: RatchetView, secret: Seq<u8>)
    requires
        a.media_base == media_base_of(secret),
        b.media_base == media_base_of(secret),
    ensures
        voice_key_of(a.media_base) == voice_key_of(b.media_base),
        screen_key_of(a.media_base) == screen_key_of(b.media_base),
{
}

// ---------------------------------------------------------------------------
// Skipped keys
// ---------------------------------------------------------------------------

/// Law (skipped-message bound): every well-formed session stores at most
/// MAX_SKIP skipped message keys; since every ratchet operation returns a
/// well-formed session, the bound holds at all times.
pub proof fn lemma_skipped_bounded(v: RatchetView)
    requires
        rs_wf(v),
    ensures
        v.skipped.len() <= MAX_SKIP as nat,
{
}

} // verus!
