//! The peer session manager: one ratchet per known peer, bootstrapped by
//! X25519 key exchange, dispatching inbound frames to the right ratchet and
//! outbound payloads to encryption. The transport around it is the caller's
//! concern; this state machine only decides.

use crate::crypto::{shared_secret_of, Identity};
use crate::protocol::{Message, PlainMessage};
use crate::ratchet::{
    chain_a_of, chain_b_of, decrypt_ok, header_bytes, media_base_of, root_key_of, rs_wf,
    RatchetError, RatchetHeader, RatchetSession,
};
use crate::relay::clone_string;
use crate::{bytes_lt, lex_lt};
use vstd::prelude::*;
use vstd::string::*;
use vstd::utf8::encode_utf8;

verus! {

/// Display-only peer info handed to the display layer (no crypto state).
pub struct PeerDisplay {
    pub nickname: Option<String>,
    /// The peer's identity public key (for safety-number computation).
    pub public_key: Vec<u8>,
}

/// Full peer state: the pairwise ratchet, the peer's display name, and the
/// peer's identity public key as observed during key exchange.
pub struct PeerInfo {
    pub ratchet: RatchetSession,
    pub nickname: Option<String>,
    pub public_key: Vec<u8>,
}

/// The mathematical state of one peer record.
pub struct PeerInfoView {
    pub ratchet: crate::ratchet::RatchetView,
    pub nickname: Option<Seq<char>>,
    pub public_key: Seq<u8>,
}

impl View for PeerInfo {
    type V = PeerInfoView;

    open spec fn view(&self) -> PeerInfoView {
        PeerInfoView {
            ratchet: self.ratchet@,
            nickname: match self.nickname {
                Some(n) => Some(n@),
                None => None,
            },
            public_key: self.public_key@,
        }
    }
}

/// An outbound application intent, as the connection supervisor consumes it.
pub enum OutgoingMessage {
    /// Fan out to every known peer, one ratcheted frame per peer.
    Global(PlainMessage),
    /// One ratcheted frame to one peer.
    Direct { target_id: String, message: PlainMessage },
    /// One ratcheted frame per group member, carrying the group id.
    Group { group_id: String, member_ids: Vec<String>, message: PlainMessage },
    /// Relay signalling: join a group room.
    JoinRoom { group_id: String },
    /// Relay signalling: leave a group room.
    LeaveRoom { group_id: String },
    /// An encrypted audio frame under the cached voice key.
    Audio { target_id: String, data: Vec<u8> },
    /// An encrypted screen frame under the cached screen key.
    Screen { target_id: String, data: Vec<u8> },
    /// Direct passthrough of a plaintext control frame.
    Signal(Message),
}

/// The position of the first peer record for `sid`, or -1 if none exists.
pub open spec fn peer_index(peers: Seq<(Seq<char>, PeerInfoView)>, sid: Seq<char>) -> int
    decreases peers.len(),
{
    if peers.len() == 0 {
        -1
    } else if peers[0].0 == sid {
        0
    } else {
        let r = peer_index(peers.drop_first(), sid);
        if r < 0 {
            -1
        } else {
            r + 1
        }
    }
}

/// The first matching position determines `peer_index`.
proof fn lemma_peer_index_first(peers: Seq<(Seq<char>, PeerInfoView)>, sid: Seq<char>, i: int)
    requires
        0 <= i < peers.len(),
        peers[i].0 == sid,
        forall|j: int| 0 <= j < i ==> (#[trigger] peers[j]).0 != sid,
    ensures
        peer_index(peers, sid) == i,
    decreases peers.len(),
{
    if i > 0 {
        assert(forall|j: int|
            0 <= j < i - 1 ==> (#[trigger] peers.drop_first()[j]).0 == peers[j + 1].0);
        lemma_peer_index_first(peers.drop_first(), sid, i - 1);
    }
}

/// Without a matching record, `peer_index` is -1.
proof fn lemma_peer_index_none(peers: Seq<(Seq<char>, PeerInfoView)>, sid: Seq<char>)
    requires
        forall|j: int| 0 <= j < peers.len() ==> (#[trigger] peers[j]).0 != sid,
    ensures
        peer_index(peers, sid) == -1,
    decreases peers.len(),
{
    if peers.len() > 0 {
        assert(forall|j: int|
            0 <= j < peers.len() - 1 ==> (#[trigger] peers.drop_first()[j]).0 == peers[j + 1].0);
        lemma_peer_index_none(peers.drop_first(), sid);
    }
}

/// `peer_index` names a matching record when it is nonnegative.
pub proof fn lemma_peer_index_valid(peers: Seq<(Seq<char>, PeerInfoView)>, sid: Seq<char>)
    ensures
        peer_index(peers, sid) >= 0 ==> 0 <= peer_index(peers, sid) < peers.len() && peers[peer_index(
            peers,
            sid,
        )].0 == sid,
    decreases peers.len(),
{
    if peers.len() > 0 && peers[0].0 != sid {
        lemma_peer_index_valid(peers.drop_first(), sid);
    }
}

/// A freshly initialized ratchet for this shared secret and role, exactly as
/// `RatchetSession::init` promises it.
pub open spec fn fresh_ratchet(rv: crate::ratchet::RatchetView, secret: Seq<u8>, is_alice: bool) -> bool {
    &&& rs_wf(rv)
    &&& rv.root_key == root_key_of(secret)
    &&& rv.chain_send == Some(
        if is_alice {
            chain_a_of(secret)
        } else {
            chain_b_of(secret)
        },
    )
    &&& rv.chain_recv == Some(
        if is_alice {
            chain_b_of(secret)
        } else {
            chain_a_of(secret)
        },
    )
    &&& rv.media_base == media_base_of(secret)
    &&& rv.send_n == 0 && rv.recv_n == 0 && rv.prev_len == 0
    &&& rv.skipped.len() == 0
    &&& rv.is_alice == is_alice
    &&& !rv.initial_done
    &&& rv.voice_key is None && rv.screen_key is None
}

/// What the manager decides about one inbound key exchange.
#[derive(Clone, Copy, PartialEq, Eq, Structural, Debug)]
pub enum KeyExchangeOutcome {
    /// Our own announcement, echoed back by the relay: ignored.
    OwnEcho,
    /// A new peer: a ratchet was created and a reply is owed.
    NewPeer,
    /// A duplicate from a known peer: the ratchet's chains and counters are
    /// untouched; at most a still-unset remote DH key is filled in.
    Duplicate,
    /// The public key had the wrong length: discarded.
    BadKey,
}

/// The peer session manager's state.
pub struct ClientState {
    pub identity: Identity,
    pub session_id: String,
    pub nickname: Option<String>,
    pub peers: Vec<(String, PeerInfo)>,
}

impl ClientState {
    /// The peer table, as a mathematical association list.
    pub open spec fn peers_view(&self) -> Seq<(Seq<char>, PeerInfoView)> {
        self.peers@.map_values(|e: (String, PeerInfo)| (e.0@, e.1@))
    }

    /// Whether a peer record exists for this session id.
    pub open spec fn has_peer(&self, sid: Seq<char>) -> bool {
        peer_index(self.peers_view(), sid) >= 0
    }

    /// The peer record for a known session id.
    pub open spec fn peer(&self, sid: Seq<char>) -> PeerInfoView {
        self.peers_view()[peer_index(self.peers_view(), sid)].1
    }

    /// Every ratchet in the table is well formed.
    pub open spec fn wf(&self) -> bool {
        &&& self.identity.wf()
        &&& forall|i: int|
            0 <= i < self.peers_view().len() ==> rs_wf((#[trigger] self.peers_view()[i]).1.ratchet)
    }

    /// A manager with no peers yet.
    pub fn new(identity: Identity, session_id: String, nickname: Option<String>) -> (r: ClientState)
        requires
            identity.wf(),
        ensures
            r.wf(),
            r.peers_view().len() == 0,
            r.session_id@ == session_id@,
            r.identity == identity,
    {
        ClientState { identity, session_id, nickname, peers: Vec::new() }
    }

    /// How many peers are known.
    pub fn peer_count(&self) -> (r: usize)
        ensures
            r == self.peers_view().len(),
    {
        self.peers.len()
    }

    /// Find a peer record's position.
    fn find_peer(&self, sid: &String) -> (r: Option<usize>)
        ensures
            match r {
                Some(i) => peer_index(self.peers_view(), sid@) == i as int,
                None => peer_index(self.peers_view(), sid@) == -1,
            },
    {
        let ghost pv = self.peers_view();
        let n = self.peers.len();
        let mut i: usize = 0;
        while i < n
            invariant
                i <= n,
                n == self.peers@.len(),
                pv == self.peers_view(),
                pv.len() == n,
                forall|j: int| 0 <= j < i ==> (#[trigger] pv[j]).0 != sid@,
            decreases n - i,
        {
            proof {
                assert(pv[i as int].0 == self.peers@[i as int].0@);
            }
            if self.peers[i].0 == *sid {
                proof {
                    lemma_peer_index_first(pv, sid@, i as int);
                }
                return Some(i);
            }
            i = i + 1;
        }
        proof {
            lemma_peer_index_none(pv, sid@);
        }
        None
    }

    /// Handle an inbound `KeyExchange{from, public_key, dh_ratchet_key}`.
    ///
    /// For an unknown peer, derive the shared secret, construct a ratchet
    /// with `is_initiator` decided by the lexicographically lower session id,
    /// record the peer, and (if the sender included its initial DH ratchet
    /// key) set the remote DH. A duplicate from a known peer never replaces
    /// the ratchet — that would desynchronise the pair — and leaves its
    /// chains, root, counters and stored keys exactly as they were; only a
    /// still-unset remote DH may be filled in from the carried ratchet key
    /// (both sides emit a bootstrap and a reply, so the second exchange is
    /// how the replying side's initial DH key arrives).
    pub fn handle_key_exchange(
        &mut self,
        from: &String,
        public_key: Vec<u8>,
        dh_ratchet_key: Vec<u8>,
    ) -> (r: KeyExchangeOutcome)
        requires
            old(self).wf(),
        ensures
            final(self).wf(),
            final(self).identity == old(self).identity,
            final(self).session_id@ == old(self).session_id@,
            r == KeyExchangeOutcome::OwnEcho <==> from@ == old(self).session_id@,
            from@ != old(self).session_id@ ==> (r == KeyExchangeOutcome::Duplicate <==> old(
                self,
            ).has_peer(from@)),
            r == KeyExchangeOutcome::OwnEcho || r == KeyExchangeOutcome::BadKey
                ==> final(self).peers_view() == old(self).peers_view(),
            r == KeyExchangeOutcome::Duplicate ==> {
                let pre = old(self).peer(from@).ratchet;
                final(self).peers_view() == (if pre.dh_remote is None && dh_ratchet_key@.len()
                    == 32 {
                    old(self).table_with_ratchet(
                        from@,
                        crate::ratchet::RatchetView { dh_remote: Some(dh_ratchet_key@), ..pre },
                    )
                } else {
                    old(self).peers_view()
                })
            },
            r == KeyExchangeOutcome::NewPeer ==> {
                &&& public_key@.len() == 32
                &&& final(self).peers_view().len() == old(self).peers_view().len() + 1
                &&& (forall|i: int|
                    0 <= i < old(self).peers_view().len() ==> final(self).peers_view()[i] == old(
                        self,
                    ).peers_view()[i])
                &&& {
                    let entry = final(self).peers_view()[final(self).peers_view().len() - 1];
                    &&& entry.0 == from@
                    &&& entry.1.public_key == public_key@
                    &&& entry.1.nickname is None
                    &&& {
                        let rv = entry.1.ratchet;
                        let secret = shared_secret_of(old(self).identity.sk(), public_key@);
                        let is_alice = lex_lt(
                            encode_utf8(old(self).session_id@),
                            encode_utf8(from@),
                        );
                        if dh_ratchet_key@.len() == 32 {
                            exists|f: crate::ratchet::RatchetView|
                                #[trigger] fresh_ratchet(f, secret, is_alice) && rv == (
                                crate::ratchet::RatchetView {
                                    dh_remote: Some(dh_ratchet_key@),
                                    ..f
                                })
                        } else {
                            fresh_ratchet(rv, secret, is_alice)
                        }
                    }
                }
            },
    {
        if *from == self.session_id {
            return KeyExchangeOutcome::OwnEcho;
        }
        match self.find_peer(from) {
            Some(i) => {
                proof {
                    lemma_peer_index_valid(self.peers_view(), from@);
                }
                if dh_ratchet_key.len() == 32 {
                    let ghost prev_view = self.peers_view();
                    let ghost pre = self.peers_view()[i as int].1.ratchet;
                    let mut entry = self.peers.remove(i);
                    entry.1.ratchet.set_remote_dh(dh_ratchet_key);
                    let ghost entryv = entry.1@;
                    self.peers.insert(i, entry);
                    proof {
                        assert(self.peers_view() =~= prev_view.update(i as int, (from@, entryv)));
                        if pre.dh_remote is None {
                            assert(entryv =~~= (PeerInfoView {
                                ratchet: crate::ratchet::RatchetView {
                                    dh_remote: Some(dh_ratchet_key@),
                                    ..pre
                                },
                                ..prev_view[i as int].1
                            }));
                        } else {
                            assert(entryv =~~= prev_view[i as int].1);
                            assert(self.peers_view() =~= prev_view);
                        }
                    }
                }
                KeyExchangeOutcome::Duplicate
            },
            None => {
                let secret = match self.identity.key_exchange(public_key.as_slice()) {
                    Ok(s) => s,
                    Err(_) => {
                        return KeyExchangeOutcome::BadKey;
                    },
                };
                let ghost pkv = public_key@;
                let ghost secretv = shared_secret_of(self.identity.sk(), pkv);
                let ghost alice_spec = lex_lt(encode_utf8(self.session_id@), encode_utf8(from@));
                let is_alice = bytes_lt(
                    self.session_id.as_str().as_bytes(),
                    from.as_str().as_bytes(),
                );
                proof {
                    assert(is_alice == alice_spec);
                }
                let mut ratchet = RatchetSession::init(secret.as_slice(), is_alice);
                let ghost fresh = ratchet@;
                proof {
                    assert(fresh_ratchet(fresh, secretv, alice_spec));
                }
                let set_dh = dh_ratchet_key.len() == 32;
                let ghost dhv = dh_ratchet_key@;
                if set_dh {
                    ratchet.set_remote_dh(dh_ratchet_key);
                    proof {
                        assert(ratchet@ =~~= (crate::ratchet::RatchetView {
                            dh_remote: Some(dhv),
                            ..fresh
                        }));
                        assert(fresh_ratchet(fresh, secretv, alice_spec) && ratchet@ == (
                        crate::ratchet::RatchetView { dh_remote: Some(dhv), ..fresh }));
                    }
                }
                let info = PeerInfo { ratchet, nickname: None, public_key };
                let ghost infov = info@;
                let ghost prev = self.peers_view();
                self.peers.push((clone_string(from), info));
                proof {
                    assert(self.peers@[self.peers@.len() - 1].1@ == infov);
                    assert(self.peers_view() =~= prev.push((from@, infov)));
                    if set_dh {
                        assert(exists|f: crate::ratchet::RatchetView|
                            #[trigger] fresh_ratchet(f, secretv, alice_spec) && infov.ratchet == (
                            crate::ratchet::RatchetView { dh_remote: Some(dhv), ..f })) by {
                            assert(fresh_ratchet(fresh, secretv, alice_spec) && infov.ratchet == (
                            crate::ratchet::RatchetView { dh_remote: Some(dhv), ..fresh }));
                        }
                    }
                }
                KeyExchangeOutcome::NewPeer
            },
        }
    }

    /// The key-exchange announcement this side broadcasts on every connect:
    /// its identity public key. It names no peer, so it carries no per-peer
    /// ratchet key; those travel in the replies.
    pub fn announce_identity(&self) -> (r: Message)
        requires
            self.wf(),
        ensures
            match r {
                Message::KeyExchange { from, public_key, dh_ratchet_key } => from@
                    == self.session_id@ && public_key@ == self.identity.pk() && dh_ratchet_key@.len()
                    == 0,
                _ => false,
            },
    {
        Message::KeyExchange {
            from: clone_string(&self.session_id),
            public_key: self.identity.public_key_bytes(),
            dh_ratchet_key: Vec::new(),
        }
    }

    /// The reply owed to a peer we just learned of: our identity public key,
    /// plus our current DH ratchet key for that peer so it can set its
    /// remote DH immediately.
    pub fn key_exchange_reply(&self, target: &String) -> (r: Option<Message>)
        requires
            self.wf(),
        ensures
            r is Some <==> self.has_peer(target@),
            match r {
                Some(m) => match m {
                    Message::KeyExchange { from, public_key, dh_ratchet_key } => from@
                        == self.session_id@ && public_key@ == self.identity.pk() && dh_ratchet_key@
                        == self.peer(target@).ratchet.dh_self_public,
                    _ => false,
                },
                None => true,
            },
    {
        match self.find_peer(target) {
            Some(i) => {
                proof {
                    lemma_peer_index_valid(self.peers_view(), target@);
                }
                let dh_key = self.peers[i].1.ratchet.public_key();
                Some(
                    Message::KeyExchange {
                        from: clone_string(&self.session_id),
                        public_key: self.identity.public_key_bytes(),
                        dh_ratchet_key: dh_key,
                    },
                )
            },
            None => None,
        }
    }
}

/// One payload went out through the ratchet of peer `sid`: the emitted
/// header, nonce and ciphertext are exactly what one `encrypt` step of that
/// ratchet produces for this plaintext, and only that peer's ratchet moved.
pub open spec fn payload_sent(
    pre: Seq<(Seq<char>, PeerInfoView)>,
    post: Seq<(Seq<char>, PeerInfoView)>,
    sid: Seq<char>,
    header: Seq<u8>,
    nonce: Seq<u8>,
    ct: Seq<u8>,
    pt: Seq<u8>,
) -> bool {
    let i = peer_index(pre, sid);
    exists|hd: Seq<u8>, hp: u32, hn: u32, rv: crate::ratchet::RatchetView|
        {
            &&& #[trigger] crate::ratchet::encrypt_ok(
                pre[i].1.ratchet,
                rv,
                hd,
                hp as nat,
                hn as nat,
                nonce,
                ct,
                pt,
            )
            &&& header == header_bytes(hd, hp, hn)
            &&& post == pre.update(i, (sid, PeerInfoView { ratchet: rv, ..pre[i].1 }))
        }
}

/// One payload came in through the ratchet of peer `sid`: the header parsed,
/// the ratchet's decrypt contract accepted it with this plaintext, and only
/// that peer's ratchet moved.
pub open spec fn payload_received(
    pre: Seq<(Seq<char>, PeerInfoView)>,
    post: Seq<(Seq<char>, PeerInfoView)>,
    sid: Seq<char>,
    header: Seq<u8>,
    nonce: Seq<u8>,
    ct: Seq<u8>,
    pt: Seq<u8>,
) -> bool {
    let i = peer_index(pre, sid);
    exists|hd: Seq<u8>, hp: u32, hn: u32, rv: crate::ratchet::RatchetView|
        {
            &&& #[trigger] decrypt_ok(
                pre[i].1.ratchet,
                rv,
                hd,
                hp as nat,
                hn as nat,
                nonce,
                ct,
                pt,
            )
            &&& header == header_bytes(hd, hp, hn)
            &&& post == pre.update(i, (sid, PeerInfoView { ratchet: rv, ..pre[i].1 }))
        }
}

/// The ratchet of peer `sid` refused this frame with error `e`, exactly as
/// its decrypt contract says, leaving every record unchanged.
pub open spec fn payload_refused(
    pre: Seq<(Seq<char>, PeerInfoView)>,
    sid: Seq<char>,
    header: Seq<u8>,
    nonce: Seq<u8>,
    ct: Seq<u8>,
    e: RatchetError,
) -> bool {
    exists|hd: Seq<u8>, hp: u32, hn: u32|
        header == #[trigger] header_bytes(hd, hp, hn) && crate::ratchet::decrypt_err_spec(
            pre[peer_index(pre, sid)].1.ratchet,
            hd,
            hp as nat,
            hn as nat,
            nonce,
            ct,
            e,
        )
}

/// Why an outbound payload could not be encrypted.
#[derive(Clone, Copy, PartialEq, Eq, Structural, Debug)]
pub enum SendError {
    /// No key exchange has happened with this peer: report, do not queue.
    UnknownPeer,
    /// The peer's ratchet refused to encrypt.
    Ratchet(RatchetError),
}

/// What became of one inbound encrypted frame.
pub enum RecvOutcome {
    /// The ratchet accepted the frame; here is the plaintext.
    Plaintext(Vec<u8>),
    /// No ratchet exists for the sender: silently dropped.
    UnknownPeer,
    /// The header did not parse: dropped.
    BadHeader,
    /// The ratchet rejected the frame; its state is untouched.
    Failed(RatchetError),
}

impl ClientState {
    /// The peer table after replacing one peer's ratchet.
    pub open spec fn table_with_ratchet(
        &self,
        sid: Seq<char>,
        rv: crate::ratchet::RatchetView,
    ) -> Seq<(Seq<char>, PeerInfoView)> {
        let i = peer_index(self.peers_view(), sid);
        self.peers_view().update(
            i,
            (sid, PeerInfoView { ratchet: rv, ..self.peers_view()[i].1 }),
        )
    }

    /// Encrypt one payload for one peer through its ratchet, returning the
    /// encoded header, the nonce and the ciphertext.
    ///
    /// (The exact relation is `payload_sent` below.)
    pub fn encrypt_payload(&mut self, target: &String, plaintext: &[u8]) -> (r: Result<
        (Vec<u8>, Vec<u8>, Vec<u8>),
        SendError,
    >)
        requires
            old(self).wf(),
            crate::crypto::aead_sealable(plaintext@),
        ensures
            final(self).wf(),
            final(self).identity == old(self).identity,
            final(self).session_id@ == old(self).session_id@,
            r == Err::<(Vec<u8>, Vec<u8>, Vec<u8>), SendError>(SendError::UnknownPeer) <==> !old(
                self,
            ).has_peer(target@),
            r is Ok <==> old(self).has_peer(target@) && (crate::ratchet::needs_initial_ratchet(
                old(self).peer(target@).ratchet,
            ) || old(self).peer(target@).ratchet.send_n < u32::MAX as nat),
            match r {
                Err(SendError::Ratchet(e)) => e == RatchetError::SendCounterExhausted,
                _ => true,
            },
            r is Err ==> final(self).peers_view() == old(self).peers_view(),
            r is Ok ==> payload_sent(
                old(self).peers_view(),
                final(self).peers_view(),
                target@,
                r.unwrap().0@,
                r.unwrap().1@,
                r.unwrap().2@,
                plaintext@,
            ),
    {
        let i = match self.find_peer(target) {
            Some(i) => i,
            None => {
                return Err(SendError::UnknownPeer);
            },
        };
        proof {
            lemma_peer_index_valid(self.peers_view(), target@);
        }
        let ghost prev_view = self.peers_view();
        let mut entry = self.peers.remove(i);
        let ghost pre = entry.1.ratchet@;
        match entry.1.ratchet.encrypt(plaintext) {
            Ok((header, nonce, ct)) => {
                let ghost post = entry.1.ratchet@;
                let header_enc = header.encode();
                let ghost entryv = entry.1@;
                self.peers.insert(i, entry);
                proof {
                    assert(self.peers_view() =~= prev_view.update(
                        i as int,
                        (target@, entryv),
                    ));
                    assert(entryv =~~= (PeerInfoView { ratchet: post, ..prev_view[i as int].1 }));
                    assert(crate::ratchet::encrypt_ok(
                        pre,
                        post,
                        header.dh_public@,
                        header.prev_chain_len as nat,
                        header.msg_num as nat,
                        nonce@,
                        ct@,
                        plaintext@,
                    ));
                    assert(payload_sent(
                        prev_view,
                        self.peers_view(),
                        target@,
                        header_enc@,
                        nonce@,
                        ct@,
                        plaintext@,
                    ));
                }
                Ok((header_enc, nonce, ct))
            },
            Err(e) => {
                self.peers.insert(i, entry);
                proof {
                    assert(self.peers_view() =~= prev_view);
                }
                Err(SendError::Ratchet(e))
            },
        }
    }

    /// Encrypt a direct payload and wrap it as a targeted `Encrypted` frame.
    pub fn encrypt_direct(&mut self, target: &String, plaintext: &[u8]) -> (r: Result<
        Message,
        SendError,
    >)
        requires
            old(self).wf(),
            crate::crypto::aead_sealable(plaintext@),
        ensures
            final(self).wf(),
            r == Err::<Message, SendError>(SendError::UnknownPeer) <==> !old(self).has_peer(
                target@,
            ),
            r is Ok <==> old(self).has_peer(target@) && (crate::ratchet::needs_initial_ratchet(
                old(self).peer(target@).ratchet,
            ) || old(self).peer(target@).ratchet.send_n < u32::MAX as nat),
            match r {
                Err(SendError::Ratchet(e)) => e == RatchetError::SendCounterExhausted,
                _ => true,
            },
            match r {
                Ok(m) => match m {
                    Message::Encrypted { from, target: t, header, nonce, ciphertext } => {
                        &&& from@ == old(self).session_id@
                        &&& t@ == target@
                        &&& payload_sent(
                            old(self).peers_view(),
                            final(self).peers_view(),
                            target@,
                            header@,
                            nonce@,
                            ciphertext@,
                            plaintext@,
                        )
                    },
                    _ => false,
                },
                Err(_) => final(self).peers_view() == old(self).peers_view(),
            },
    {
        match self.encrypt_payload(target, plaintext) {
            Ok((header, nonce, ciphertext)) => Ok(
                Message::Encrypted {
                    from: clone_string(&self.session_id),
                    target: clone_string(target),
                    header,
                    nonce,
                    ciphertext,
                },
            ),
            Err(e) => Err(e),
        }
    }

    /// Encrypt a group payload and wrap it as a `GroupEncrypted` frame for
    /// one member (the caller fans out over the membership).
    pub fn encrypt_group_frame(&mut self, member: &String, group_id: &String, plaintext: &[u8])
        -> (r: Result<Message, SendError>)
        requires
            old(self).wf(),
            crate::crypto::aead_sealable(plaintext@),
        ensures
            final(self).wf(),
            r == Err::<Message, SendError>(SendError::UnknownPeer) <==> !old(self).has_peer(
                member@,
            ),
            r is Ok <==> old(self).has_peer(member@) && (crate::ratchet::needs_initial_ratchet(
                old(self).peer(member@).ratchet,
            ) || old(self).peer(member@).ratchet.send_n < u32::MAX as nat),
            match r {
                Err(SendError::Ratchet(e)) => e == RatchetError::SendCounterExhausted,
                _ => true,
            },
            match r {
                Ok(m) => match m {
                    Message::GroupEncrypted { from, group_id: g, header, nonce, ciphertext } => {
                        &&& from@ == old(self).session_id@
                        &&& g@ == group_id@
                        &&& payload_sent(
                            old(self).peers_view(),
                            final(self).peers_view(),
                            member@,
                            header@,
                            nonce@,
                            ciphertext@,
                            plaintext@,
                        )
                    },
                    _ => false,
                },
                Err(_) => final(self).peers_view() == old(self).peers_view(),
            },
    {
        match self.encrypt_payload(member, plaintext) {
            Ok((header, nonce, ciphertext)) => Ok(
                Message::GroupEncrypted {
                    from: clone_string(&self.session_id),
                    group_id: clone_string(group_id),
                    header,
                    nonce,
                    ciphertext,
                },
            ),
            Err(e) => Err(e),
        }
    }

    /// Decrypt one inbound encrypted frame from a peer. Unknown peers are
    /// silently dropped; a ratchet failure leaves the ratchet untouched.
    pub fn decrypt_from(&mut self, from: &String, header: &[u8], nonce: &[u8], ciphertext: &[u8])
        -> (r: RecvOutcome)
        requires
            old(self).wf(),
        ensures
            final(self).wf(),
            final(self).identity == old(self).identity,
            final(self).session_id@ == old(self).session_id@,
            !old(self).has_peer(from@) <==> r matches RecvOutcome::UnknownPeer,
            (old(self).has_peer(from@) && header@.len() != 40) <==> r matches RecvOutcome::BadHeader,
            match r {
                RecvOutcome::UnknownPeer => !old(self).has_peer(from@) && final(self).peers_view()
                    == old(self).peers_view(),
                RecvOutcome::BadHeader => header@.len() != 40 && final(self).peers_view() == old(
                    self,
                ).peers_view(),
                RecvOutcome::Failed(e) => final(self).peers_view() == old(self).peers_view()
                    && payload_refused(
                    old(self).peers_view(),
                    from@,
                    header@,
                    nonce@,
                    ciphertext@,
                    e,
                ),
                RecvOutcome::Plaintext(pt) => payload_received(
                    old(self).peers_view(),
                    final(self).peers_view(),
                    from@,
                    header@,
                    nonce@,
                    ciphertext@,
                    pt@,
                ),
            },
    {
        let i = match self.find_peer(from) {
            Some(i) => i,
            None => {
                return RecvOutcome::UnknownPeer;
            },
        };
        proof {
            lemma_peer_index_valid(self.peers_view(), from@);
        }
        let parsed = match RatchetHeader::decode(header) {
            Some(h) => h,
            None => {
                return RecvOutcome::BadHeader;
            },
        };
        let ghost prev_view = self.peers_view();
        let mut entry = self.peers.remove(i);
        let ghost pre = entry.1.ratchet@;
        let ghost hd = parsed.dh_public@;
        let ghost hp = parsed.prev_chain_len;
        let ghost hn = parsed.msg_num;
        match entry.1.ratchet.decrypt(&parsed, nonce, ciphertext) {
            Ok(pt) => {
                let ghost post = entry.1.ratchet@;
                let ghost entryv = entry.1@;
                self.peers.insert(i, entry);
                proof {
                    assert(self.peers_view() =~= prev_view.update(i as int, (from@, entryv)));
                    assert(entryv =~~= (PeerInfoView { ratchet: post, ..prev_view[i as int].1 }));
                    assert(header@ == header_bytes(hd, hp, hn));
                    assert(decrypt_ok(
                        pre,
                        post,
                        hd,
                        hp as nat,
                        hn as nat,
                        nonce@,
                        ciphertext@,
                        pt@,
                    ));
                    assert(payload_received(
                        prev_view,
                        self.peers_view(),
                        from@,
                        header@,
                        nonce@,
                        ciphertext@,
                        pt@,
                    ));
                }
                RecvOutcome::Plaintext(pt)
            },
            Err(e) => {
                self.peers.insert(i, entry);
                proof {
                    assert(self.peers_view() =~= prev_view);
                    assert(header@ == header_bytes(hd, hp, hn));
                    assert(crate::ratchet::decrypt_err_spec(
                        pre,
                        hd,
                        hp as nat,
                        hn as nat,
                        nonce@,
                        ciphertext@,
                        e,
                    ));
                    assert(payload_refused(prev_view, from@, header@, nonce@, ciphertext@, e));
                }
                RecvOutcome::Failed(e)
            },
        }
    }

    /// Derive (or reuse) the voice key for a peer and seal an audio frame
    /// with it — the low-latency path that never touches the ratchet chains.
    pub fn encrypt_audio(&mut self, target: &String, data: &[u8]) -> (r: Result<
        Message,
        SendError,
    >)
        requires
            old(self).wf(),
            crate::crypto::aead_sealable(data@),
        ensures
            final(self).wf(),
            r is Ok <==> old(self).has_peer(target@),
            r == Err::<Message, SendError>(SendError::UnknownPeer) <==> !old(self).has_peer(
                target@,
            ),
            r is Ok ==> final(self).peers_view() == old(self).table_with_ratchet(
                target@,
                (crate::ratchet::RatchetView {
                    voice_key: Some(
                        crate::ratchet::voice_key_of(old(self).peer(target@).ratchet.media_base),
                    ),
                    ..old(self).peer(target@).ratchet
                }),
            ),
            match r {
                Ok(m) => match m {
                    Message::AudioFrame { from, nonce, ciphertext } => {
                        &&& from@ == old(self).session_id@
                        &&& nonce@.len() == 12
                        &&& ciphertext@ == crate::crypto::seal_of(
                            crate::ratchet::voice_key_of(
                                old(self).peer(target@).ratchet.media_base,
                            ),
                            nonce@,
                            data@,
                        )
                    },
                    _ => false,
                },
                Err(_) => final(self).peers_view() == old(self).peers_view(),
            },
    {
        let i = match self.find_peer(target) {
            Some(i) => i,
            None => {
                return Err(SendError::UnknownPeer);
            },
        };
        proof {
            lemma_peer_index_valid(self.peers_view(), target@);
        }
        let ghost prev_view = self.peers_view();
        let mut entry = self.peers.remove(i);
        let vk = entry.1.ratchet.derive_voice_key();
        let ghost post = entry.1.ratchet@;
        let ghost entryv = entry.1@;
        self.peers.insert(i, entry);
        proof {
            assert(self.peers_view() =~= prev_view.update(i as int, (target@, entryv)));
            assert(entryv =~~= (PeerInfoView { ratchet: post, ..prev_view[i as int].1 }));
        }
        let sealed = crate::crypto::encrypt_message(vk.as_slice(), data);
        match sealed {
            Ok((nonce, ciphertext)) => Ok(
                Message::AudioFrame { from: clone_string(&self.session_id), nonce, ciphertext },
            ),
            Err(_) => {
                proof {
                    assert(false);
                }
                Err(SendError::UnknownPeer)
            },
        }
    }

    /// Decrypt an inbound audio frame with the sender's cached voice key.
    pub fn decrypt_audio(&mut self, from: &String, nonce: &[u8], ciphertext: &[u8]) -> (r: Option<
        Vec<u8>,
    >)
        requires
            old(self).wf(),
        ensures
            final(self).wf(),
            !old(self).has_peer(from@) ==> r is None && final(self).peers_view() == old(
                self,
            ).peers_view(),
            old(self).has_peer(from@) ==> final(self).peers_view() == old(self).table_with_ratchet(
                from@,
                (crate::ratchet::RatchetView {
                    voice_key: Some(
                        crate::ratchet::voice_key_of(old(self).peer(from@).ratchet.media_base),
                    ),
                    ..old(self).peer(from@).ratchet
                }),
            ),
            forall|pt: Seq<u8>|
                (old(self).has_peer(from@) && nonce@.len() == 12 && ciphertext@
                    == #[trigger] crate::crypto::seal_of(
                    crate::ratchet::voice_key_of(old(self).peer(from@).ratchet.media_base),
                    nonce@,
                    pt,
                )) ==> r is Some && r.unwrap()@ == pt,
            match r {
                Some(pt) => old(self).has_peer(from@) && nonce@.len() == 12 && ciphertext@
                    == crate::crypto::seal_of(
                    crate::ratchet::voice_key_of(old(self).peer(from@).ratchet.media_base),
                    nonce@,
                    pt@,
                ),
                None => true,
            },
    {
        let i = match self.find_peer(from) {
            Some(i) => i,
            None => {
                return None;
            },
        };
        proof {
            lemma_peer_index_valid(self.peers_view(), from@);
        }
        let ghost prev_view = self.peers_view();
        let mut entry = self.peers.remove(i);
        let vk = entry.1.ratchet.derive_voice_key();
        let ghost post = entry.1.ratchet@;
        let ghost entryv = entry.1@;
        self.peers.insert(i, entry);
        proof {
            assert(self.peers_view() =~= prev_view.update(i as int, (from@, entryv)));
            assert(entryv =~~= (PeerInfoView { ratchet: post, ..prev_view[i as int].1 }));
        }
        match crate::crypto::decrypt_message(vk.as_slice(), nonce, ciphertext) {
            Ok(pt) => Some(pt),
            Err(_) => None,
        }
    }

    /// Derive (or reuse) the screen key for a peer and seal a screen frame
    /// with it, targeted at that peer.
    pub fn encrypt_screen(&mut self, target: &String, data: &[u8]) -> (r: Result<
        Message,
        SendError,
    >)
        requires
            old(self).wf(),
            crate::crypto::aead_sealable(data@),
        ensures
            final(self).wf(),
            r is Ok <==> old(self).has_peer(target@),
            r == Err::<Message, SendError>(SendError::UnknownPeer) <==> !old(self).has_peer(
                target@,
            ),
            r is Ok ==> final(self).peers_view() == old(self).table_with_ratchet(
                target@,
                (crate::ratchet::RatchetView {
                    screen_key: Some(
                        crate::ratchet::screen_key_of(old(self).peer(target@).ratchet.media_base),
                    ),
                    ..old(self).peer(target@).ratchet
                }),
            ),
            match r {
                Ok(m) => match m {
                    Message::ScreenFrame { from, target: t, nonce, ciphertext } => {
                        &&& from@ == old(self).session_id@
                        &&& t@ == target@
                        &&& nonce@.len() == 12
                        &&& ciphertext@ == crate::crypto::seal_of(
                            crate::ratchet::screen_key_of(
                                old(self).peer(target@).ratchet.media_base,
                            ),
                            nonce@,
                            data@,
                        )
                    },
                    _ => false,
                },
                Err(_) => final(self).peers_view() == old(self).peers_view(),
            },
    {
        let i = match self.find_peer(target) {
            Some(i) => i,
            None => {
                return Err(SendError::UnknownPeer);
            },
        };
        proof {
            lemma_peer_index_valid(self.peers_view(), target@);
        }
        let ghost prev_view = self.peers_view();
        let mut entry = self.peers.remove(i);
        let sk = entry.1.ratchet.derive_screen_key();
        let ghost post = entry.1.ratchet@;
        let ghost entryv = entry.1@;
        self.peers.insert(i, entry);
        proof {
            assert(self.peers_view() =~= prev_view.update(i as int, (target@, entryv)));
            assert(entryv =~~= (PeerInfoView { ratchet: post, ..prev_view[i as int].1 }));
        }
        match crate::crypto::encrypt_message(sk.as_slice(), data) {
            Ok((nonce, ciphertext)) => Ok(
                Message::ScreenFrame {
                    from: clone_string(&self.session_id),
                    target: clone_string(target),
                    nonce,
                    ciphertext,
                },
            ),
            Err(_) => {
                proof {
                    assert(false);
                }
                Err(SendError::UnknownPeer)
            },
        }
    }

    /// Decrypt an inbound screen frame with the sender's cached screen key.
    pub fn decrypt_screen(&mut self, from: &String, nonce: &[u8], ciphertext: &[u8]) -> (r: Option<
        Vec<u8>,
    >)
        requires
            old(self).wf(),
        ensures
            final(self).wf(),
            !old(self).has_peer(from@) ==> r is None && final(self).peers_view() == old(
                self,
            ).peers_view(),
            old(self).has_peer(from@) ==> final(self).peers_view() == old(self).table_with_ratchet(
                from@,
                (crate::ratchet::RatchetView {
                    screen_key: Some(
                        crate::ratchet::screen_key_of(old(self).peer(from@).ratchet.media_base),
                    ),
                    ..old(self).peer(from@).ratchet
                }),
            ),
            forall|pt: Seq<u8>|
                (old(self).has_peer(from@) && nonce@.len() == 12 && ciphertext@
                    == #[trigger] crate::crypto::seal_of(
                    crate::ratchet::screen_key_of(old(self).peer(from@).ratchet.media_base),
                    nonce@,
                    pt,
                )) ==> r is Some && r.unwrap()@ == pt,
            match r {
                Some(pt) => old(self).has_peer(from@) && nonce@.len() == 12 && ciphertext@
                    == crate::crypto::seal_of(
                    crate::ratchet::screen_key_of(old(self).peer(from@).ratchet.media_base),
                    nonce@,
                    pt@,
                ),
                None => true,
            },
    {
        let i = match self.find_peer(from) {
            Some(i) => i,
            None => {
                return None;
            },
        };
        proof {
            lemma_peer_index_valid(self.peers_view(), from@);
        }
        let ghost prev_view = self.peers_view();
        let mut entry = self.peers.remove(i);
        let sk = entry.1.ratchet.derive_screen_key();
        let ghost post = entry.1.ratchet@;
        let ghost entryv = entry.1@;
        self.peers.insert(i, entry);
        proof {
            assert(self.peers_view() =~= prev_view.update(i as int, (from@, entryv)));
            assert(entryv =~~= (PeerInfoView { ratchet: post, ..prev_view[i as int].1 }));
        }
        match crate::crypto::decrypt_message(sk.as_slice(), nonce, ciphertext) {
            Ok(pt) => Some(pt),
            Err(_) => None,
        }
    }

    /// Record a nickname a peer announced over the encrypted channel.
    pub fn set_peer_nickname(&mut self, from: &String, nickname: String) -> (known: bool)
        requires
            old(self).wf(),
        ensures
            final(self).wf(),
            known == old(self).has_peer(from@),
            !known ==> final(self).peers_view() == old(self).peers_view(),
            known ==> {
                let i = peer_index(old(self).peers_view(), from@);
                final(self).peers_view() == old(self).peers_view().update(
                    i,
                    (
                        from@,
                        PeerInfoView {
                            nickname: Some(nickname@),
                            ..old(self).peers_view()[i].1
                        },
                    ),
                )
            },
    {
        let i = match self.find_peer(from) {
            Some(i) => i,
            None => {
                return false;
            },
        };
        proof {
            lemma_peer_index_valid(self.peers_view(), from@);
        }
        let ghost prev_view = self.peers_view();
        let mut entry = self.peers.remove(i);
        entry.1.nickname = Some(nickname);
        let ghost entryv = entry.1@;
        self.peers.insert(i, entry);
        proof {
            assert(self.peers_view() =~= prev_view.update(i as int, (from@, entryv)));
            assert(entryv =~~= (PeerInfoView {
                nickname: entryv.nickname,
                ..prev_view[i as int].1
            }));
        }
        true
    }

    /// A display-layer copy of the peer table (no crypto state).
    pub fn peer_displays(&self) -> (r: Vec<(String, PeerDisplay)>)
        ensures
            r@.len() == self.peers_view().len(),
            forall|i: int|
                0 <= i < r@.len() ==> (#[trigger] r@[i]).0@ == self.peers_view()[i].0
                    && r@[i].1.public_key@ == self.peers_view()[i].1.public_key && (match r@[i].1.nickname {
                    Some(n) => Some(n@),
                    None => None,
                }) == self.peers_view()[i].1.nickname,
    {
        let mut out: Vec<(String, PeerDisplay)> = Vec::new();
        let mut i: usize = 0;
        while i < self.peers.len()
            invariant
                i <= self.peers@.len(),
                out@.len() == i,
                forall|j: int|
                    0 <= j < i ==> (#[trigger] out@[j]).0@ == self.peers_view()[j].0
                        && out@[j].1.public_key@ == self.peers_view()[j].1.public_key && (match out@[j].1.nickname {
                        Some(n) => Some(n@),
                        None => None,
                    }) == self.peers_view()[j].1.nickname,
            decreases self.peers@.len() - i,
        {
            let e = &self.peers[i];
            let nickname = match &e.1.nickname {
                Some(n) => Some(clone_string(n)),
                None => None,
            };
            out.push(
                (
                    clone_string(&e.0),
                    PeerDisplay { nickname, public_key: crate::crypto::clone_bytes(&e.1.public_key) },
                ),
            );
            i = i + 1;
        }
        out
    }

    /// The session ids of every known peer, for global fan-out.
    pub fn peer_ids(&self) -> (r: Vec<String>)
        ensures
            r@.len() == self.peers_view().len(),
            forall|i: int| 0 <= i < r@.len() ==> (#[trigger] r@[i])@ == self.peers_view()[i].0,
    {
        let mut out: Vec<String> = Vec::new();
        let mut i: usize = 0;
        while i < self.peers.len()
            invariant
                i <= self.peers@.len(),
                out@.len() == i,
                forall|j: int| 0 <= j < i ==> (#[trigger] out@[j])@ == self.peers_view()[j].0,
            decreases self.peers@.len() - i,
        {
            out.push(clone_string(&self.peers[i].0));
            i = i + 1;
        }
        out
    }
}

} // verus!
