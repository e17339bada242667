//! Wire frames and the plaintext message envelope.

use crate::crypto;
use crate::encoding::{hex_encode, hex_of};
use vstd::prelude::*;

verus! {

/// Message types sent over the wire. The relay reads only routing fields;
/// `header`, `nonce` and `ciphertext` stay opaque to it.
pub enum Message {
    /// Initial handshake with the relay.
    Connect { session_id: String },
    /// Peer discovery.
    Discover { target_session: String },
    /// Key exchange (identity public key plus the initial ephemeral DH
    /// ratchet key, so the peer can set its remote DH immediately).
    KeyExchange { from: String, public_key: Vec<u8>, dh_ratchet_key: Vec<u8> },
    /// Encrypted message payload. An empty target means broadcast.
    Encrypted { from: String, target: String, header: Vec<u8>, nonce: Vec<u8>, ciphertext: Vec<u8> },
    /// Acknowledgment.
    Ack,
    /// Error report.
    Error { message: String },
    /// Join a group room on the relay.
    GroupJoin { session_id: String, group_id: String },
    /// Leave a group room on the relay.
    GroupLeave { session_id: String, group_id: String },
    /// Encrypted group message — forwarded to all room members except the sender.
    GroupEncrypted { from: String, group_id: String, header: Vec<u8>, nonce: Vec<u8>, ciphertext: Vec<u8> },
    /// Encrypted audio frame — broadcast; only the holder of the voice key can decrypt.
    AudioFrame { from: String, nonce: Vec<u8>, ciphertext: Vec<u8> },
    /// Encrypted screen frame — follows its target field if present, else broadcast.
    ScreenFrame { from: String, target: String, nonce: Vec<u8>, ciphertext: Vec<u8> },
    /// Lightweight typing indicator — plaintext, never touches the ratchet.
    Typing { from: String, target: String, is_typing: bool },
    /// Lightweight read receipt — plaintext, never touches the ratchet.
    ReadReceipt { from: String, target: String, message_id: String },
}

/// File offer metadata.
pub struct FileOffer {
    /// Random id for this transfer.
    pub file_id: String,
    /// Original filename only (no path).
    pub filename: String,
    /// Total size in bytes.
    pub size: u64,
    /// BLAKE3 hash of the full file.
    pub checksum: String,
    /// Number of chunks.
    pub total_chunks: u32,
}

/// File chunk data.
pub struct FileChunk {
    /// Matches the offer.
    pub file_id: String,
    /// Chunk index, starting at zero.
    pub index: u32,
    /// Chunk payload.
    pub data: Vec<u8>,
}

/// Group invite data (sent inside a direct message).
pub struct GroupInvite {
    pub group_id: String,
    pub group_name: String,
}

/// Plaintext message format (before encryption).
pub struct PlainMessage {
    pub timestamp: i64,
    pub sender: String,
    pub content: String,
    pub system: bool,
    pub nickname: Option<String>,
    /// Whether this is a direct message (vs global broadcast).
    pub direct: bool,
    /// Whether this is a DM open request (peer should open a DM tab).
    pub dm_request: bool,
    pub file_offer: Option<FileOffer>,
    pub file_chunk: Option<FileChunk>,
    /// File response (true = accept, false = reject).
    pub file_response: Option<bool>,
    /// Which group this message belongs to.
    pub group_id: Option<String>,
    pub group_invite: Option<GroupInvite>,
    /// Voice call request (true = requesting a call).
    pub call_request: Option<bool>,
    /// Voice call accept/reject.
    pub call_accept: Option<bool>,
    /// Voice call hangup.
    pub call_hangup: Option<bool>,
    /// Unique message id for tracking read receipts.
    pub message_id: Option<String>,
    /// Typing indicator (true = started typing).
    pub typing: Option<bool>,
    /// Read receipt — the message id that was read.
    pub read_receipt: Option<String>,
}

/// Relies on chrono::Utc::now().timestamp(); the clock's value carries no promise.
#[verifier::external_body]
fn now_ts() -> i64 {
    chrono::Utc::now().timestamp()
}

/// No file transfer fields are set.
pub open spec fn no_file_fields(m: PlainMessage) -> bool {
    m.file_offer is None && m.file_chunk is None && m.file_response is None
}

/// No group fields are set.
pub open spec fn no_group_fields(m: PlainMessage) -> bool {
    m.group_id is None && m.group_invite is None
}

/// No call-signalling fields are set.
pub open spec fn no_call_fields(m: PlainMessage) -> bool {
    m.call_request is None && m.call_accept is None && m.call_hangup is None
}

/// No receipt or typing fields are set.
pub open spec fn no_meta_fields(m: PlainMessage) -> bool {
    m.message_id is None && m.typing is None && m.read_receipt is None
}

/// Every optional field beyond sender, content, system and direct is unset.
pub open spec fn only_base_fields(m: PlainMessage) -> bool {
    &&& m.nickname is None
    &&& !m.dm_request
    &&& no_file_fields(m)
    &&& no_group_fields(m)
    &&& no_call_fields(m)
    &&& no_meta_fields(m)
}

impl PlainMessage {
    /// Base message: sender set, everything else at its quiet default.
    fn base(sender: String) -> (r: PlainMessage)
        ensures
            r.sender@ == sender@,
            r.content@.len() == 0,
            !r.system,
            !r.direct,
            only_base_fields(r),
    {
        PlainMessage {
            timestamp: now_ts(),
            sender,
            content: String::new(),
            system: false,
            nickname: None,
            direct: false,
            dm_request: false,
            file_offer: None,
            file_chunk: None,
            file_response: None,
            group_id: None,
            group_invite: None,
            call_request: None,
            call_accept: None,
            call_hangup: None,
            message_id: None,
            typing: None,
            read_receipt: None,
        }
    }

    /// A broadcast chat message.
    pub fn new(sender: String, content: String) -> (r: PlainMessage)
        ensures
            r.sender@ == sender@,
            r.content@ == content@,
            !r.system,
            !r.direct,
            only_base_fields(r),
    {
        let mut m = Self::base(sender);
        m.content = content;
        m
    }

    /// A direct chat message.
    pub fn direct(sender: String, content: String) -> (r: PlainMessage)
        ensures
            r.sender@ == sender@,
            r.content@ == content@,
            !r.system,
            r.direct,
            only_base_fields(r),
    {
        let mut m = Self::base(sender);
        m.content = content;
        m.direct = true;
        m
    }

    /// A system notice.
    pub fn system(sender: String, content: String) -> (r: PlainMessage)
        ensures
            r.sender@ == sender@,
            r.content@ == content@,
            r.system,
            !r.direct,
            only_base_fields(r),
    {
        let mut m = Self::base(sender);
        m.content = content;
        m.system = true;
        m
    }

    /// A nickname update.
    pub fn nickname(sender: String, nickname: String) -> (r: PlainMessage)
        ensures
            r.sender@ == sender@,
            r.content@.len() == 0,
            r.system,
            !r.direct,
            r.nickname is Some && r.nickname.unwrap()@ == nickname@,
            !r.dm_request,
            no_file_fields(r),
            no_group_fields(r),
            no_call_fields(r),
            no_meta_fields(r),
    {
        let mut m = Self::base(sender);
        m.system = true;
        m.nickname = Some(nickname);
        m
    }

    /// A DM open request.
    pub fn dm_request(sender: String) -> (r: PlainMessage)
        ensures
            r.sender@ == sender@,
            r.content@.len() == 0,
            r.system,
            r.direct,
            r.dm_request,
            r.nickname is None,
            no_file_fields(r),
            no_group_fields(r),
            no_call_fields(r),
            no_meta_fields(r),
    {
        let mut m = Self::base(sender);
        m.system = true;
        m.direct = true;
        m.dm_request = true;
        m
    }

    /// A file offer.
    pub fn file_offer(sender: String, offer: FileOffer, direct: bool) -> (r: PlainMessage)
        ensures
            r.sender@ == sender@,
            r.content@.len() == 0,
            !r.system,
            r.direct == direct,
            r.file_offer is Some,
            r.file_chunk is None,
            r.file_response is None,
            r.nickname is None,
            !r.dm_request,
            no_group_fields(r),
            no_call_fields(r),
            no_meta_fields(r),
    {
        let mut m = Self::base(sender);
        m.direct = direct;
        m.file_offer = Some(offer);
        m
    }

    /// A file chunk.
    pub fn file_chunk(sender: String, chunk: FileChunk, direct: bool) -> (r: PlainMessage)
        ensures
            r.sender@ == sender@,
            r.content@.len() == 0,
            !r.system,
            r.direct == direct,
            r.file_chunk is Some,
            r.file_offer is None,
            r.file_response is None,
            r.nickname is None,
            !r.dm_request,
            no_group_fields(r),
            no_call_fields(r),
            no_meta_fields(r),
    {
        let mut m = Self::base(sender);
        m.direct = direct;
        m.file_chunk = Some(chunk);
        m
    }

    /// A file response: the content carries the file id.
    pub fn file_response(sender: String, file_id: String, accept: bool, direct: bool) -> (r:
        PlainMessage)
        ensures
            r.sender@ == sender@,
            r.content@ == file_id@,
            !r.system,
            r.direct == direct,
            r.file_response == Some(accept),
            r.file_offer is None,
            r.file_chunk is None,
            r.nickname is None,
            !r.dm_request,
            no_group_fields(r),
            no_call_fields(r),
            no_meta_fields(r),
    {
        let mut m = Self::base(sender);
        m.content = file_id;
        m.direct = direct;
        m.file_response = Some(accept);
        m
    }

    /// A group chat message.
    pub fn group(sender: String, content: String, group_id: String) -> (r: PlainMessage)
        ensures
            r.sender@ == sender@,
            r.content@ == content@,
            !r.system,
            !r.direct,
            r.group_id is Some && r.group_id.unwrap()@ == group_id@,
            r.group_invite is None,
            r.nickname is None,
            !r.dm_request,
            no_file_fields(r),
            no_call_fields(r),
            no_meta_fields(r),
    {
        let mut m = Self::base(sender);
        m.content = content;
        m.group_id = Some(group_id);
        m
    }

    /// A group invite sent via DM.
    pub fn group_invite_msg(sender: String, invite: GroupInvite) -> (r: PlainMessage)
        ensures
            r.sender@ == sender@,
            r.content@.len() == 0,
            r.system,
            r.direct,
            r.group_invite is Some,
            r.group_id is None,
            r.nickname is None,
            !r.dm_request,
            no_file_fields(r),
            no_call_fields(r),
            no_meta_fields(r),
    {
        let mut m = Self::base(sender);
        m.system = true;
        m.direct = true;
        m.group_invite = Some(invite);
        m
    }

    /// A voice call request.
    pub fn call_request(sender: String) -> (r: PlainMessage)
        ensures
            r.sender@ == sender@,
            r.content@.len() == 0,
            r.system,
            r.direct,
            r.call_request == Some(true),
            r.call_accept is None,
            r.call_hangup is None,
            r.nickname is None,
            !r.dm_request,
            no_file_fields(r),
            no_group_fields(r),
            no_meta_fields(r),
    {
        let mut m = Self::base(sender);
        m.system = true;
        m.direct = true;
        m.call_request = Some(true);
        m
    }

    /// A voice call accept or reject.
    pub fn call_accept(sender: String, accept: bool) -> (r: PlainMessage)
        ensures
            r.sender@ == sender@,
            r.content@.len() == 0,
            r.system,
            r.direct,
            r.call_accept == Some(accept),
            r.call_request is None,
            r.call_hangup is None,
            r.nickname is None,
            !r.dm_request,
            no_file_fields(r),
            no_group_fields(r),
            no_meta_fields(r),
    {
        let mut m = Self::base(sender);
        m.system = true;
        m.direct = true;
        m.call_accept = Some(accept);
        m
    }

    /// A voice call hangup.
    pub fn call_hangup(sender: String) -> (r: PlainMessage)
        ensures
            r.sender@ == sender@,
            r.content@.len() == 0,
            r.system,
            r.direct,
            r.call_hangup == Some(true),
            r.call_request is None,
            r.call_accept is None,
            r.nickname is None,
            !r.dm_request,
            no_file_fields(r),
            no_group_fields(r),
            no_meta_fields(r),
    {
        let mut m = Self::base(sender);
        m.system = true;
        m.direct = true;
        m.call_hangup = Some(true);
        m
    }

    /// A typing indicator.
    pub fn typing(sender: String, is_typing: bool, direct: bool) -> (r: PlainMessage)
        ensures
            r.sender@ == sender@,
            r.content@.len() == 0,
            r.system,
            r.direct == direct,
            r.typing == Some(is_typing),
            r.message_id is None,
            r.read_receipt is None,
            r.nickname is None,
            !r.dm_request,
            no_file_fields(r),
            no_group_fields(r),
            no_call_fields(r),
    {
        let mut m = Self::base(sender);
        m.system = true;
        m.direct = direct;
        m.typing = Some(is_typing);
        m
    }

    /// A read receipt for a specific message.
    pub fn read_receipt(sender: String, message_id: String, direct: bool) -> (r: PlainMessage)
        ensures
            r.sender@ == sender@,
            r.content@.len() == 0,
            r.system,
            r.direct == direct,
            r.read_receipt is Some && r.read_receipt.unwrap()@ == message_id@,
            r.message_id is None,
            r.typing is None,
            r.nickname is None,
            !r.dm_request,
            no_file_fields(r),
            no_group_fields(r),
            no_call_fields(r),
    {
        let mut m = Self::base(sender);
        m.system = true;
        m.direct = direct;
        m.read_receipt = Some(message_id);
        m
    }

    /// Generate a unique message id: eight random bytes as hex.
    pub fn generate_id() -> (r: String)
        ensures
            r@.len() == 16,
            exists|b: Seq<u8>| b.len() == 8 && r@ == #[trigger] hex_of(b),
    {
        let bytes = crypto::random_bytes(8);
        let r = hex_encode(bytes.as_slice());
        proof {
            assert(r@ == hex_of(bytes@));
        }
        r
    }
}

/// Session state.
pub struct Session {
    pub session_id: String,
    pub peer_id: Option<String>,
    pub shared_secret: Option<Vec<u8>>,
}

impl Session {
    pub fn new(session_id: String) -> (r: Session)
        ensures
            r.session_id@ == session_id@,
            r.peer_id is None,
            r.shared_secret is None,
    {
        Session { session_id, peer_id: None, shared_secret: None }
    }
}

/// Generate a fresh 128-bit session id, hex-encoded.
pub fn generate_session_id() -> (r: String)
    ensures
        r@.len() == 32,
        exists|b: Seq<u8>| b.len() == 16 && r@ == #[trigger] hex_of(b),
{
    let bytes = crypto::random_bytes(16);
    hex_encode(bytes.as_slice())
}

/// Generate a random group id, hex-encoded.
pub fn generate_group_id() -> (r: String)
    ensures
        r@.len() == 32,
        exists|b: Seq<u8>| b.len() == 16 && r@ == #[trigger] hex_of(b),
{
    let bytes = crypto::random_bytes(16);
    hex_encode(bytes.as_slice())
}

} // verus!
