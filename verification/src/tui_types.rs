//! Plain data carried by the display layer: tabs, groups, transfers and
//! call bookkeeping. The terminal drawing around these types is the caller's
//! concern; the chunk assembly of file transfers is verified here.

use crate::protocol::FileOffer;
use vstd::prelude::*;

verus! {

/// 16 KiB chunks for file transfer.
pub const FILE_CHUNK_SIZE: usize = 16384;

/// Read-receipt status for a message.
#[derive(Clone, Copy, PartialEq, Eq, Structural, Debug)]
pub enum ReadStatus {
    /// Sent or delivered.
    Sent,
    /// The peer has seen it.
    Read,
}

/// A command entry for autocompletion.
pub struct CommandEntry {
    pub name: String,
    pub description: String,
}

/// Autocomplete popup state.
pub struct AutocompleteState {
    pub commands: Vec<CommandEntry>,
    /// Indices into `commands`.
    pub filtered: Vec<usize>,
    /// Index into `filtered`.
    pub selected: usize,
    /// The current filter text.
    pub filter: String,
}

/// A conversation tab.
#[derive(Clone, Debug, PartialEq, Eq, Hash)]
pub enum Tab {
    Global,
    /// A direct conversation, by peer session id.
    DirectMessage(String),
    /// A group conversation, by group id.
    Group(String),
}

/// A group the user belongs to.
pub struct GroupInfo {
    pub name: String,
    /// Session ids of the members, excluding this side.
    pub members: Vec<String>,
}

/// A file offer awaiting the user's decision.
pub struct PendingFileOffer {
    pub offer: FileOffer,
    pub from_peer: String,
    pub tab: Tab,
}

/// An inbound transfer in progress.
pub struct ActiveTransfer {
    pub offer: FileOffer,
    pub chunks_received: Vec<Option<Vec<u8>>>,
    pub save_path: String,
    pub chunks_done: u32,
}

/// An outbound transfer in progress.
pub struct OutgoingTransfer {
    pub offer: FileOffer,
    pub file_data: Vec<u8>,
    pub target_peer: String,
    pub chunks_sent: u32,
    pub is_direct: bool,
}

/// What kind of call is running.
pub enum CallType {
    /// A direct call, by peer session id.
    Direct(String),
    /// A group call, using the group's membership.
    Group { group_id: String },
}

/// A running call: its kind, when it started (a Unix timestamp), and whether
/// the microphone is muted.
pub struct CallState {
    pub call_type: CallType,
    pub start_time: i64,
    pub muted: bool,
}

impl ActiveTransfer {
    /// How many chunk slots this transfer has.
    pub open spec fn slots(&self) -> nat {
        self.chunks_received@.len()
    }

    /// Store one received chunk at its index. Returns whether the chunk was
    /// new; a repeated or out-of-range index changes nothing.
    pub fn store_chunk(&mut self, index: u32, data: Vec<u8>) -> (stored: bool)
        requires
            old(self).chunks_done < u32::MAX,
        ensures
            final(self).offer == old(self).offer,
            final(self).save_path@ == old(self).save_path@,
            final(self).slots() == old(self).slots(),
            stored == ((index as int) < old(self).slots() && old(self).chunks_received@[index as int]
                is None),
            !stored ==> final(self).chunks_received@ == old(self).chunks_received@
                && final(self).chunks_done == old(self).chunks_done,
            stored ==> {
                &&& final(self).chunks_received@ == old(self).chunks_received@.update(
                    index as int,
                    Some(data),
                )
                &&& final(self).chunks_done == old(self).chunks_done + 1
            },
    {
        if (index as usize) >= self.chunks_received.len() {
            return false;
        }
        let slot_empty = match &self.chunks_received[index as usize] {
            None => true,
            Some(_) => false,
        };
        if !slot_empty {
            return false;
        }
        self.chunks_received.set(index as usize, Some(data));
        self.chunks_done = self.chunks_done + 1;
        true
    }

    /// Whether every chunk has arrived.
    pub fn is_complete(&self) -> (r: bool)
        ensures
            r == (self.chunks_done as int == self.slots()),
    {
        self.chunks_done as usize == self.chunks_received.len()
    }
}

} // verus!
