//! The relay's room-and-session forwarding engine.
//!
//! The relay stores nothing but an in-memory routing table: which session ids
//! are connected, and which session ids joined which group room. Frames are
//! routed by session id only; payload fields stay opaque. The transport and
//! queueing around this table are the caller's concern.

use crate::protocol::Message;
use vstd::prelude::*;

verus! {

/// Whether some element of `v` reads as the string `x`.
pub open spec fn seq_has(v: Seq<String>, x: Seq<char>) -> bool {
    exists|i: int| 0 <= i < v.len() && (#[trigger] v[i])@ == x
}

/// No two elements read alike.
pub open spec fn str_unique(v: Seq<String>) -> bool {
    forall|i: int, j: int| 0 <= i < j < v.len() ==> (#[trigger] v[i])@ != (#[trigger] v[j])@
}

/// Whether a member list of some room named `g` contains `x`.
pub open spec fn rooms_member(rooms: Seq<(String, Vec<String>)>, g: Seq<char>, x: Seq<char>) -> bool {
    exists|i: int| 0 <= i < rooms.len() && (#[trigger] rooms[i]).0@ == g && seq_has(rooms[i].1@, x)
}

/// The relay's in-memory routing table.
pub struct RelayState {
    peers: Vec<String>,
    rooms: Vec<(String, Vec<String>)>,
}

/// The name the relay knows the sending connection by: its registered
/// session id, or nothing before the first Connect.
pub open spec fn sender_name(sender: Option<&String>) -> Seq<char> {
    match sender {
        Some(s) => s@,
        None => Seq::<char>::empty(),
    }
}

/// What the relay does with one inbound frame: optionally bind the connection
/// to a session id, optionally acknowledge to the sender, and forward the
/// frame to the listed session ids.
pub struct RelayRouting {
    pub register: Option<String>,
    /// Whether the Connect re-used an already-registered session id.
    pub resumed: bool,
    pub ack: bool,
    pub recipients: Vec<String>,
}

impl RelayState {
    /// A connected session id.
    pub closed spec fn online(&self, sid: Seq<char>) -> bool {
        seq_has(self.peers@, sid)
    }

    /// A session id that is a member of a group room.
    pub closed spec fn member(&self, gid: Seq<char>, sid: Seq<char>) -> bool {
        rooms_member(self.rooms@, gid, sid)
    }

    /// The routing table is well formed: session ids are listed once, room
    /// names are listed once, members are listed once, and no room is empty.
    pub closed spec fn wf(&self) -> bool {
        &&& str_unique(self.peers@)
        &&& (forall|i: int, j: int|
            0 <= i < j < self.rooms@.len() ==> (#[trigger] self.rooms@[i]).0@ != (
            #[trigger] self.rooms@[j]).0@)
        &&& (forall|i: int|
            0 <= i < self.rooms@.len() ==> str_unique((#[trigger] self.rooms@[i]).1@)
                && self.rooms@[i].1@.len() > 0)
    }

    /// An empty routing table.
    pub fn new() -> (r: RelayState)
        ensures
            r.wf(),
            forall|x: Seq<char>| !r.online(x),
            forall|g: Seq<char>, x: Seq<char>| !r.member(g, x),
    {
        RelayState { peers: Vec::new(), rooms: Vec::new() }
    }

    /// Register a session id, or treat an existing one as a resumption. The
    /// routing slot is replaced; room memberships are untouched.
    pub fn connect(&mut self, sid: String) -> (resumed: bool)
        requires
            old(self).wf(),
        ensures
            final(self).wf(),
            resumed == old(self).online(sid@),
            forall|x: Seq<char>| final(self).online(x) == (old(self).online(x) || x == sid@),
            forall|g: Seq<char>, x: Seq<char>| final(self).member(g, x) == old(self).member(g, x),
    {
        let found = find_str(&self.peers, &sid);
        match found {
            Some(_) => true,
            None => {
                self.peers.push(sid);
                proof {
                    assert(forall|x: Seq<char>|
                        seq_has(self.peers@, x) == (seq_has(old(self).peers@, x) || x == sid@))
                        by {
                        assert(forall|i: int|
                            0 <= i < old(self).peers@.len() ==> self.peers@[i]
                                == old(self).peers@[i]);
                        assert(self.peers@[self.peers@.len() - 1]@ == sid@);
                    }
                }
                false
            },
        }
    }

    /// Drop a session id: it goes offline and leaves every room; rooms that
    /// become empty are collected.
    pub fn disconnect(&mut self, sid: &String)
        requires
            old(self).wf(),
        ensures
            final(self).wf(),
            forall|x: Seq<char>| final(self).online(x) == (old(self).online(x) && x != sid@),
            forall|g: Seq<char>, x: Seq<char>|
                final(self).member(g, x) == (old(self).member(g, x) && x != sid@),
    {
        let mut peers: Vec<String> = Vec::new();
        let n = self.peers.len();
        let mut i: usize = 0;
        while i < n
            invariant
                i <= n,
                n == self.peers@.len(),
                old(self).peers@ == self.peers@,
                old(self).rooms@ == self.rooms@,
                str_unique(self.peers@),
                str_unique(peers@),
                forall|x: Seq<char>|
                    seq_has(peers@, x) == (seq_has(self.peers@.take(i as int), x) && x != sid@),
            decreases n - i,
        {
            let ghost prev = peers@;
            if !(self.peers[i] == *sid) {
                let keep = clone_string(&self.peers[i]);
                peers.push(keep);
            }
            proof {
                assert forall|x: Seq<char>|
                    seq_has(peers@, x) == (seq_has(self.peers@.take(i + 1), x) && x != sid@) by {
                    lemma_seq_has_take_step(self.peers@, i as int, x);
                    if peers@.len() > prev.len() {
                        assert(seq_has(peers@, x) == (seq_has(prev, x) || peers@[peers@.len()
                            - 1]@ == x)) by {
                            lemma_seq_has_push(prev, peers@, x);
                        }
                    }
                }
                assert(str_unique(peers@)) by {
                    lemma_take_unique_step(self.peers@, peers@, prev, sid@, i as int);
                }
            }
            i = i + 1;
        }
        proof {
            assert(self.peers@.take(n as int) =~= self.peers@);
        }
        self.peers = peers;
        self.leave_all_rooms(sid);
    }

    /// Remove a session id from every room, collecting rooms that became empty.
    fn leave_all_rooms(&mut self, sid: &String)
        requires
            old(self).wf(),
        ensures
            final(self).wf(),
            final(self).peers@ == old(self).peers@,
            forall|g: Seq<char>, x: Seq<char>|
                final(self).member(g, x) == (old(self).member(g, x) && x != sid@),
    {
        let mut rooms: Vec<(String, Vec<String>)> = Vec::new();
        let n = self.rooms.len();
        let mut i: usize = 0;
        while i < n
            invariant
                i <= n,
                n == self.rooms@.len(),
                old(self).rooms@ == self.rooms@,
                old(self).peers@ == self.peers@,
                old(self).wf(),
                forall|k: int, l: int|
                    0 <= k < l < rooms@.len() ==> (#[trigger] rooms@[k]).0@ != (
                    #[trigger] rooms@[l]).0@,
                forall|k: int|
                    0 <= k < rooms@.len() ==> str_unique((#[trigger] rooms@[k]).1@)
                        && rooms@[k].1@.len() > 0,
                forall|k: int|
                    0 <= k < rooms@.len() ==> exists|m: int|
                        0 <= m < i && (#[trigger] rooms@[k]).0@ == self.rooms@[m].0@,
                forall|g: Seq<char>, x: Seq<char>|
                    rooms_member(rooms@, g, x) == (rooms_member(self.rooms@.take(i as int), g, x)
                        && x != sid@),
            decreases n - i,
        {
            let ghost prev = rooms@;
            let gid = clone_string(&self.rooms[i].0);
            let members = remove_str(&self.rooms[i].1, sid);
            if members.len() > 0 {
                rooms.push((gid, members));
            }
            proof {
                lemma_rooms_member_take_step(self.rooms@, i as int);
                if rooms@.len() > prev.len() {
                    lemma_rooms_member_push(prev, rooms@);
                }
            }
            i = i + 1;
        }
        proof {
            assert(self.rooms@.take(n as int) =~= self.rooms@);
        }
        self.rooms = rooms;
    }

    /// Add a session id to a group room, creating the room if absent.
    pub fn group_join(&mut self, sid: String, gid: String)
        requires
            old(self).wf(),
        ensures
            final(self).wf(),
            forall|x: Seq<char>| final(self).online(x) == old(self).online(x),
            forall|g: Seq<char>, x: Seq<char>|
                final(self).member(g, x) == (old(self).member(g, x) || (g == gid@ && x == sid@)),
    {
        let n = self.rooms.len();
        let mut i: usize = 0;
        while i < n
            invariant
                i <= n,
                n == self.rooms@.len(),
                old(self).rooms@ == self.rooms@,
                old(self).peers@ == self.peers@,
                old(self).wf(),
                forall|k: int| 0 <= k < i ==> (#[trigger] self.rooms@[k]).0@ != gid@,
            decreases n - i,
        {
            if self.rooms[i].0 == gid {
                let ghost old_rooms = self.rooms@;
                let room = &self.rooms[i].1;
                match find_str(room, &sid) {
                    Some(j) => {
                        proof {
                            assert(self.rooms@[i as int].1@[j as int]@ == sid@);
                            assert(seq_has(self.rooms@[i as int].1@, sid@));
                            assert(rooms_member(self.rooms@, gid@, sid@));
                            assert(old(self).member(gid@, sid@));
                            assert(forall|g: Seq<char>, x: Seq<char>|
                                self.member(g, x) == old(self).member(g, x));
                            assert forall|g: Seq<char>, x: Seq<char>|
                                self.member(g, x) == (old(self).member(g, x) || (g == gid@ && x
                                    == sid@)) by {
                                if g == gid@ && x == sid@ {
                                    assert(old(self).member(g, x));
                                }
                            }
                        }
                        return ;
                    },
                    None => {
                        let mut members = clone_strings(&self.rooms[i].1);
                        members.push(sid);
                        let gid_owned = clone_string(&gid);
                        self.rooms.set(i, (gid_owned, members));
                        proof {
                            assert(self.rooms@[i as int].0@ == gid@);
                            assert forall|g: Seq<char>, x: Seq<char>|
                                rooms_member(self.rooms@, g, x) == (rooms_member(old_rooms, g, x)
                                    || (g == gid@ && x == sid@)) by {
                                lemma_rooms_member_update(
                                    old_rooms,
                                    self.rooms@,
                                    i as int,
                                    gid@,
                                    sid@,
                                );
                            }
                            assert(forall|g: Seq<char>, x: Seq<char>|
                                self.member(g, x) == (old(self).member(g, x) || (g == gid@ && x
                                    == sid@)));
                        }
                        return ;
                    },
                }
            }
            i = i + 1;
        }
        // No such room: create it.
        let mut members: Vec<String> = Vec::new();
        members.push(sid);
        let ghost old_rooms = self.rooms@;
        self.rooms.push((gid, members));
        proof {
            let k = self.rooms@.len() - 1;
            assert(self.rooms@[k].0@ == gid@);
            assert(forall|m: int| 0 <= m < k ==> self.rooms@[m] == old_rooms[m]);
            assert forall|g: Seq<char>, x: Seq<char>|
                rooms_member(self.rooms@, g, x) == (rooms_member(old_rooms, g, x) || (g == gid@
                    && x == sid@)) by {
                lemma_rooms_member_push_new(old_rooms, self.rooms@, gid@, sid@);
            }
        }
    }

    /// Remove a session id from a group room; delete the room if it empties.
    pub fn group_leave(&mut self, sid: &String, gid: &String)
        requires
            old(self).wf(),
        ensures
            final(self).wf(),
            forall|x: Seq<char>| final(self).online(x) == old(self).online(x),
            forall|g: Seq<char>, x: Seq<char>|
                final(self).member(g, x) == (old(self).member(g, x) && !(g == gid@ && x == sid@)),
    {
        let n = self.rooms.len();
        let mut i: usize = 0;
        while i < n
            invariant
                i <= n,
                n == self.rooms@.len(),
                old(self).rooms@ == self.rooms@,
                old(self).peers@ == self.peers@,
                old(self).wf(),
                forall|k: int| 0 <= k < i ==> (#[trigger] self.rooms@[k]).0@ != gid@,
            decreases n - i,
        {
            if self.rooms[i].0 == *gid {
                let ghost old_rooms = self.rooms@;
                let members = remove_str(&self.rooms[i].1, sid);
                if members.len() > 0 {
                    let gid_owned = clone_string(gid);
                    self.rooms.set(i, (gid_owned, members));
                    proof {
                        assert forall|g: Seq<char>, x: Seq<char>|
                            rooms_member(self.rooms@, g, x) == (rooms_member(old_rooms, g, x) && !(
                            g == gid@ && x == sid@)) by {
                            lemma_rooms_member_remove(old_rooms, self.rooms@, i as int, gid@, sid@);
                        }
                    }
                } else {
                    self.rooms.remove(i);
                    proof {
                        assert forall|g: Seq<char>, x: Seq<char>|
                            rooms_member(self.rooms@, g, x) == (rooms_member(old_rooms, g, x) && !(
                            g == gid@ && x == sid@)) by {
                            lemma_rooms_member_delete(old_rooms, self.rooms@, i as int, gid@, sid@);
                        }
                    }
                }
                return ;
            }
            i = i + 1;
        }
    }

    /// All connected session ids other than the sender (blind broadcast).
    pub fn broadcast_targets(&self, sender: &String) -> (r: Vec<String>)
        requires
            self.wf(),
        ensures
            str_unique(r@),
            forall|i: int| 0 <= i < r@.len() ==> self.online((#[trigger] r@[i])@) && r@[i]@ != sender@,
            forall|x: Seq<char>| self.online(x) && x != sender@ ==> seq_has(r@, x),
    {
        remove_str(&self.peers, sender)
    }

    /// Whether a targeted frame can be forwarded.
    pub fn online_target(&self, target: &String) -> (r: bool)
        ensures
            r == self.online(target@),
    {
        match find_str(&self.peers, target) {
            Some(_) => true,
            None => false,
        }
    }

    /// The members of a room other than the sender (group fan-out).
    pub fn room_targets(&self, gid: &String, from: &String) -> (r: Vec<String>)
        requires
            self.wf(),
        ensures
            str_unique(r@),
            forall|i: int|
                0 <= i < r@.len() ==> self.member(gid@, (#[trigger] r@[i])@) && r@[i]@ != from@,
            forall|x: Seq<char>| self.member(gid@, x) && x != from@ ==> seq_has(r@, x),
    {
        let n = self.rooms.len();
        let mut i: usize = 0;
        while i < n
            invariant
                i <= n,
                n == self.rooms@.len(),
                self.wf(),
                forall|k: int| 0 <= k < i ==> (#[trigger] self.rooms@[k]).0@ != gid@,
            decreases n - i,
        {
            if self.rooms[i].0 == *gid {
                let r = remove_str(&self.rooms[i].1, from);
                proof {
                    assert forall|x: Seq<char>| self.member(gid@, x) && x != from@ implies seq_has(
                        r@,
                        x,
                    ) by {
                        let k = choose|k: int|
                            0 <= k < self.rooms@.len() && (#[trigger] self.rooms@[k]).0@ == gid@
                                && seq_has(self.rooms@[k].1@, x);
                        assert(k == i as int);
                    }
                    assert forall|k: int| 0 <= k < r@.len() implies self.member(
                        gid@,
                        (#[trigger] r@[k])@,
                    ) && r@[k]@ != from@ by {
                        assert(seq_has(self.rooms@[i as int].1@, r@[k]@));
                    }
                }
                return r;
            }
            i = i + 1;
        }
        Vec::new()
    }
}

// ---------------------------------------------------------------------------
// Small string-vector helpers
// ---------------------------------------------------------------------------

/// Copy a string.
pub fn clone_string(s: &String) -> (r: String)
    ensures
        r@ == s@,
{
    String::from_str(s.as_str())
}

/// Copy a vector of strings, preserving its contents.
fn clone_strings(v: &Vec<String>) -> (r: Vec<String>)
    ensures
        r@.len() == v@.len(),
        forall|i: int| 0 <= i < v@.len() ==> (#[trigger] r@[i])@ == v@[i]@,
{
    let mut out: Vec<String> = Vec::new();
    let mut i: usize = 0;
    while i < v.len()
        invariant
            i <= v@.len(),
            out@.len() == i,
            forall|j: int| 0 <= j < i ==> (#[trigger] out@[j])@ == v@[j]@,
        decreases v@.len() - i,
    {
        out.push(clone_string(&v[i]));
        i = i + 1;
    }
    out
}

/// The position of the first element reading as `x`, if any.
fn find_str(v: &Vec<String>, x: &String) -> (r: Option<usize>)
    ensures
        match r {
            Some(i) => i < v@.len() && v@[i as int]@ == x@,
            None => !seq_has(v@, x@),
        },
{
    let mut i: usize = 0;
    while i < v.len()
        invariant
            i <= v@.len(),
            forall|j: int| 0 <= j < i ==> (#[trigger] v@[j])@ != x@,
        decreases v@.len() - i,
    {
        if v[i] == *x {
            return Some(i);
        }
        i = i + 1;
    }
    None
}

/// Everything in `v` except the elements reading as `x`, in order.
fn remove_str(v: &Vec<String>, x: &String) -> (r: Vec<String>)
    requires
        str_unique(v@),
    ensures
        str_unique(r@),
        r@.len() <= v@.len(),
        forall|i: int| 0 <= i < r@.len() ==> seq_has(v@, (#[trigger] r@[i])@) && r@[i]@ != x@,
        forall|y: Seq<char>| seq_has(r@, y) == (seq_has(v@, y) && y != x@),
{
    let mut out: Vec<String> = Vec::new();
    let n = v.len();
    let mut i: usize = 0;
    while i < n
        invariant
            i <= n,
            n == v@.len(),
            str_unique(v@),
            str_unique(out@),
            out@.len() <= i,
            forall|k: int| 0 <= k < out@.len() ==> seq_has(v@, (#[trigger] out@[k])@) && out@[k]@ != x@,
            forall|y: Seq<char>| seq_has(out@, y) == (seq_has(v@.take(i as int), y) && y != x@),
        decreases n - i,
    {
        let ghost prev = out@;
        if !(v[i] == *x) {
            out.push(clone_string(&v[i]));
        }
        proof {
            assert forall|y: Seq<char>|
                seq_has(out@, y) == (seq_has(v@.take(i + 1), y) && y != x@) by {
                lemma_seq_has_take_step(v@, i as int, y);
                if out@.len() > prev.len() {
                    lemma_seq_has_push(prev, out@, y);
                }
            }
            assert(str_unique(out@)) by {
                lemma_take_unique_step(v@, out@, prev, x@, i as int);
            }
        }
        i = i + 1;
    }
    proof {
        assert(v@.take(n as int) =~= v@);
    }
    out
}

// ---------------------------------------------------------------------------
// Lemmas about membership under the vector operations
// ---------------------------------------------------------------------------

/// Membership in one more element of a prefix.
proof fn lemma_seq_has_take_step(v: Seq<String>, i: int, y: Seq<char>)
    requires
        0 <= i < v.len(),
    ensures
        seq_has(v.take(i + 1), y) == (seq_has(v.take(i), y) || v[i]@ == y),
{
    if seq_has(v.take(i + 1), y) {
        let k = choose|k: int| 0 <= k < v.take(i + 1).len() && (#[trigger] v.take(i + 1)[k])@ == y;
        if k < i {
            assert(v.take(i)[k]@ == y);
        }
    }
    if seq_has(v.take(i), y) {
        let k = choose|k: int| 0 <= k < v.take(i).len() && (#[trigger] v.take(i)[k])@ == y;
        assert(v.take(i + 1)[k]@ == y);
    }
    if v[i]@ == y {
        assert(v.take(i + 1)[i]@ == y);
    }
}

/// Membership after a push.
proof fn lemma_seq_has_push(prev: Seq<String>, cur: Seq<String>, y: Seq<char>)
    requires
        cur.len() == prev.len() + 1,
        forall|k: int| 0 <= k < prev.len() ==> #[trigger] cur[k] == prev[k],
    ensures
        seq_has(cur, y) == (seq_has(prev, y) || cur[cur.len() - 1]@ == y),
{
    if seq_has(cur, y) {
        let k = choose|k: int| 0 <= k < cur.len() && (#[trigger] cur[k])@ == y;
        if k < prev.len() {
            assert(prev[k]@ == y);
        }
    }
    if seq_has(prev, y) {
        let k = choose|k: int| 0 <= k < prev.len() && (#[trigger] prev[k])@ == y;
        assert(cur[k]@ == y);
    }
}

/// A filtered copy of a unique vector stays unique when one more distinct
/// element is appended.
proof fn lemma_take_unique_step(v: Seq<String>, cur: Seq<String>, prev: Seq<String>, x: Seq<char>, i: int)
    requires
        0 <= i < v.len(),
        str_unique(v),
        str_unique(prev),
        forall|y: Seq<char>| seq_has(prev, y) == (seq_has(v.take(i), y) && y != x),
        cur == prev || (cur.len() == prev.len() + 1 && (forall|k: int|
            0 <= k < prev.len() ==> #[trigger] cur[k] == prev[k]) && cur[cur.len() - 1]@ == v[i]@),
    ensures
        str_unique(cur),
{
    if cur != prev {
        assert forall|k: int, l: int| 0 <= k < l < cur.len() implies (#[trigger] cur[k])@ != (
        #[trigger] cur[l])@ by {
            if l == cur.len() - 1 {
                if cur[k]@ == v[i]@ {
                    assert(seq_has(prev, v[i]@));
                    let m = choose|m: int|
                        0 <= m < v.take(i).len() && (#[trigger] v.take(i)[m])@ == v[i]@;
                    assert(v[m]@ == v[i]@);
                }
            }
        }
    }
}

/// Room membership in one more room of a prefix.
proof fn lemma_rooms_member_take_step(rooms: Seq<(String, Vec<String>)>, i: int)
    requires
        0 <= i < rooms.len(),
    ensures
        forall|g: Seq<char>, x: Seq<char>|
            rooms_member(rooms.take(i + 1), g, x) == (rooms_member(rooms.take(i), g, x) || (
            rooms[i].0@ == g && seq_has(rooms[i].1@, x))),
{
    assert forall|g: Seq<char>, x: Seq<char>|
        rooms_member(rooms.take(i + 1), g, x) == (rooms_member(rooms.take(i), g, x) || (
        rooms[i].0@ == g && seq_has(rooms[i].1@, x))) by {
        if rooms_member(rooms.take(i + 1), g, x) {
            let k = choose|k: int|
                0 <= k < rooms.take(i + 1).len() && (#[trigger] rooms.take(i + 1)[k]).0@ == g
                    && seq_has(rooms.take(i + 1)[k].1@, x);
            if k < i {
                assert(rooms.take(i)[k].0@ == g && seq_has(rooms.take(i)[k].1@, x));
            }
        }
        if rooms_member(rooms.take(i), g, x) {
            let k = choose|k: int|
                0 <= k < rooms.take(i).len() && (#[trigger] rooms.take(i)[k]).0@ == g && seq_has(
                    rooms.take(i)[k].1@,
                    x,
                );
            assert(rooms.take(i + 1)[k].0@ == g && seq_has(rooms.take(i + 1)[k].1@, x));
        }
        if rooms[i].0@ == g && seq_has(rooms[i].1@, x) {
            assert(rooms.take(i + 1)[i].0@ == g && seq_has(rooms.take(i + 1)[i].1@, x));
        }
    }
}

/// Room membership after a push.
proof fn lemma_rooms_member_push(prev: Seq<(String, Vec<String>)>, cur: Seq<(String, Vec<String>)>)
    requires
        cur.len() == prev.len() + 1,
        forall|k: int| 0 <= k < prev.len() ==> #[trigger] cur[k] == prev[k],
    ensures
        forall|g: Seq<char>, x: Seq<char>|
            rooms_member(cur, g, x) == (rooms_member(prev, g, x) || (cur[cur.len() - 1].0@ == g
                && seq_has(cur[cur.len() - 1].1@, x))),
{
    assert forall|g: Seq<char>, x: Seq<char>|
        rooms_member(cur, g, x) == (rooms_member(prev, g, x) || (cur[cur.len() - 1].0@ == g
            && seq_has(cur[cur.len() - 1].1@, x))) by {
        if rooms_member(cur, g, x) {
            let k = choose|k: int|
                0 <= k < cur.len() && (#[trigger] cur[k]).0@ == g && seq_has(cur[k].1@, x);
            if k < prev.len() {
                assert(prev[k].0@ == g && seq_has(prev[k].1@, x));
            }
        }
        if rooms_member(prev, g, x) {
            let k = choose|k: int|
                0 <= k < prev.len() && (#[trigger] prev[k]).0@ == g && seq_has(prev[k].1@, x);
            assert(cur[k].0@ == g && seq_has(cur[k].1@, x));
        }
    }
}

/// Room membership after adding a fresh room for (gid, sid).
proof fn lemma_rooms_member_push_new(
    prev: Seq<(String, Vec<String>)>,
    cur: Seq<(String, Vec<String>)>,
    gid: Seq<char>,
    sid: Seq<char>,
)
    requires
        cur.len() == prev.len() + 1,
        forall|k: int| 0 <= k < prev.len() ==> #[trigger] cur[k] == prev[k],
        cur[cur.len() - 1].0@ == gid,
        cur[cur.len() - 1].1@.len() == 1,
        cur[cur.len() - 1].1@[0]@ == sid,
    ensures
        forall|g: Seq<char>, x: Seq<char>|
            rooms_member(cur, g, x) == (rooms_member(prev, g, x) || (g == gid && x == sid)),
{
    lemma_rooms_member_push(prev, cur);
    assert forall|g: Seq<char>, x: Seq<char>|
        rooms_member(cur, g, x) == (rooms_member(prev, g, x) || (g == gid && x == sid)) by {
        if cur[cur.len() - 1].0@ == g && seq_has(cur[cur.len() - 1].1@, x) {
            let k = choose|k: int|
                0 <= k < cur[cur.len() - 1].1@.len() && (#[trigger] cur[cur.len() - 1].1@[k])@ == x;
            assert(k == 0);
            assert(x == sid);
        }
        if g == gid && x == sid {
            assert(cur[cur.len() - 1].1@[0]@ == x);
            assert(seq_has(cur[cur.len() - 1].1@, x));
        }
    }
}

/// Room membership after appending one member to room `i`.
proof fn lemma_rooms_member_update(
    prev: Seq<(String, Vec<String>)>,
    cur: Seq<(String, Vec<String>)>,
    i: int,
    gid: Seq<char>,
    sid: Seq<char>,
)
    requires
        0 <= i < prev.len(),
        cur.len() == prev.len(),
        forall|k: int| 0 <= k < prev.len() && k != i ==> #[trigger] cur[k] == prev[k],
        prev[i].0@ == gid,
        cur[i].0@ == gid,
        forall|k: int, l: int| 0 <= k < l < prev.len() ==> (#[trigger] prev[k]).0@ != (#[trigger] prev[l]).0@,
        cur[i].1@.len() == prev[i].1@.len() + 1,
        forall|k: int| 0 <= k < prev[i].1@.len() ==> (#[trigger] cur[i].1@[k])@ == prev[i].1@[k]@,
        cur[i].1@[cur[i].1@.len() - 1]@ == sid,
    ensures
        forall|g: Seq<char>, x: Seq<char>|
            rooms_member(cur, g, x) == (rooms_member(prev, g, x) || (g == gid && x == sid)),
{
    assert forall|g: Seq<char>, x: Seq<char>|
        rooms_member(cur, g, x) == (rooms_member(prev, g, x) || (g == gid && x == sid)) by {
        if rooms_member(cur, g, x) {
            let k = choose|k: int|
                0 <= k < cur.len() && (#[trigger] cur[k]).0@ == g && seq_has(cur[k].1@, x);
            if k != i {
                assert(prev[k].0@ == g && seq_has(prev[k].1@, x));
            } else {
                let m = choose|m: int| 0 <= m < cur[i].1@.len() && (#[trigger] cur[i].1@[m])@ == x;
                if m < prev[i].1@.len() {
                    assert(prev[i].1@[m]@ == x);
                    assert(rooms_member(prev, g, x));
                }
            }
        }
        if rooms_member(prev, g, x) {
            let k = choose|k: int|
                0 <= k < prev.len() && (#[trigger] prev[k]).0@ == g && seq_has(prev[k].1@, x);
            if k != i {
                assert(cur[k].0@ == g && seq_has(cur[k].1@, x));
            } else {
                let m = choose|m: int|
                    0 <= m < prev[i].1@.len() && (#[trigger] prev[i].1@[m])@ == x;
                assert(cur[i].1@[m]@ == x);
                assert(seq_has(cur[i].1@, x));
            }
        }
        if g == gid && x == sid {
            assert(cur[i].1@[cur[i].1@.len() - 1]@ == x);
            assert(seq_has(cur[i].1@, x));
        }
    }
}

/// Room membership after filtering one member out of room `i`.
proof fn lemma_rooms_member_remove(
    prev: Seq<(String, Vec<String>)>,
    cur: Seq<(String, Vec<String>)>,
    i: int,
    gid: Seq<char>,
    sid: Seq<char>,
)
    requires
        0 <= i < prev.len(),
        cur.len() == prev.len(),
        forall|k: int| 0 <= k < prev.len() && k != i ==> #[trigger] cur[k] == prev[k],
        prev[i].0@ == gid,
        cur[i].0@ == gid,
        forall|k: int, l: int| 0 <= k < l < prev.len() ==> (#[trigger] prev[k]).0@ != (#[trigger] prev[l]).0@,
        forall|y: Seq<char>| seq_has(cur[i].1@, y) == (seq_has(prev[i].1@, y) && y != sid),
    ensures
        forall|g: Seq<char>, x: Seq<char>|
            rooms_member(cur, g, x) == (rooms_member(prev, g, x) && !(g == gid && x == sid)),
{
    assert forall|g: Seq<char>, x: Seq<char>|
        rooms_member(cur, g, x) == (rooms_member(prev, g, x) && !(g == gid && x == sid)) by {
        if rooms_member(cur, g, x) {
            let k = choose|k: int|
                0 <= k < cur.len() && (#[trigger] cur[k]).0@ == g && seq_has(cur[k].1@, x);
            if k != i {
                assert(prev[k].0@ == g && seq_has(prev[k].1@, x));
                if g == gid {
                    assert(false);
                }
            }
        }
        if rooms_member(prev, g, x) && !(g == gid && x == sid) {
            let k = choose|k: int|
                0 <= k < prev.len() && (#[trigger] prev[k]).0@ == g && seq_has(prev[k].1@, x);
            if k != i {
                assert(cur[k].0@ == g && seq_has(cur[k].1@, x));
            } else {
                assert(seq_has(cur[i].1@, x));
            }
        }
    }
}

/// Room membership after deleting room `i` entirely, whose only member was `sid`.
proof fn lemma_rooms_member_delete(
    prev: Seq<(String, Vec<String>)>,
    cur: Seq<(String, Vec<String>)>,
    i: int,
    gid: Seq<char>,
    sid: Seq<char>,
)
    requires
        0 <= i < prev.len(),
        cur == prev.remove(i),
        prev[i].0@ == gid,
        forall|k: int, l: int| 0 <= k < l < prev.len() ==> (#[trigger] prev[k]).0@ != (#[trigger] prev[l]).0@,
        forall|y: Seq<char>| seq_has(prev[i].1@, y) ==> y == sid,
    ensures
        forall|g: Seq<char>, x: Seq<char>|
            rooms_member(cur, g, x) == (rooms_member(prev, g, x) && !(g == gid && x == sid)),
{
    assert forall|g: Seq<char>, x: Seq<char>|
        rooms_member(cur, g, x) == (rooms_member(prev, g, x) && !(g == gid && x == sid)) by {
        if rooms_member(cur, g, x) {
            let k = choose|k: int|
                0 <= k < cur.len() && (#[trigger] cur[k]).0@ == g && seq_has(cur[k].1@, x);
            if k < i {
                assert(prev[k].0@ == g && seq_has(prev[k].1@, x));
                if g == gid {
                    assert(false);
                }
            } else {
                assert(cur[k] == prev[k + 1]);
                assert(prev[k + 1].0@ == g && seq_has(prev[k + 1].1@, x));
                if g == gid {
                    assert(false);
                }
            }
        }
        if rooms_member(prev, g, x) && !(g == gid && x == sid) {
            let k = choose|k: int|
                0 <= k < prev.len() && (#[trigger] prev[k]).0@ == g && seq_has(prev[k].1@, x);
            if k < i {
                assert(cur[k] == prev[k]);
                assert(cur[k].0@ == g && seq_has(cur[k].1@, x));
            } else if k == i {
                assert(x == sid && g == gid);
            } else {
                assert(cur[k - 1] == prev[k]);
                assert(cur[k - 1].0@ == g && seq_has(cur[k - 1].1@, x));
            }
        }
    }
}

/// Blind broadcast: everyone online except the sender, each exactly once.
pub open spec fn broadcast_spec(st: &RelayState, sender: Seq<char>, r: Seq<String>) -> bool {
    &&& str_unique(r)
    &&& forall|i: int| 0 <= i < r.len() ==> st.online((#[trigger] r[i])@) && r[i]@ != sender
    &&& forall|x: Seq<char>| st.online(x) && x != sender ==> seq_has(r, x)
}

/// Targeted forwarding: the target alone, and only while it is online.
pub open spec fn targeted_spec(st: &RelayState, target: Seq<char>, r: Seq<String>) -> bool {
    if st.online(target) {
        r.len() == 1 && r[0]@ == target
    } else {
        r.len() == 0
    }
}

/// The policy for frames with an optional target: targeted when the field is
/// set, blind broadcast when it is empty.
pub open spec fn forward_spec(
    st: &RelayState,
    sender: Seq<char>,
    target: Seq<char>,
    r: Seq<String>,
) -> bool {
    if target.len() == 0 {
        broadcast_spec(st, sender, r)
    } else {
        targeted_spec(st, target, r)
    }
}

/// Group fan-out: every room member except the sender, each exactly once.
pub open spec fn group_spec(st: &RelayState, from: Seq<char>, gid: Seq<char>, r: Seq<String>) -> bool {
    &&& str_unique(r)
    &&& forall|i: int| 0 <= i < r.len() ==> st.member(gid, (#[trigger] r[i])@) && r[i]@ != from
    &&& forall|x: Seq<char>| st.member(gid, x) && x != from ==> seq_has(r, x)
}

impl RelayState {
    /// The relay's per-frame routing policy. One call handles one inbound
    /// frame: register or resume on Connect (answered with an Ack to the
    /// sender alone), blind-broadcast key exchanges and audio, forward
    /// targeted traffic only to its target, maintain room membership, and fan
    /// group frames out to the room. Unknown senders get frames forwarded all
    /// the same; the payload stays opaque throughout.
    pub fn route(&mut self, sender: Option<&String>, msg: &Message) -> (r: RelayRouting)
        requires
            old(self).wf(),
        ensures
            final(self).wf(),
            match msg {
                Message::Connect { session_id } => {
                    &&& r.register is Some && r.register.unwrap()@ == session_id@
                    &&& r.resumed == old(self).online(session_id@)
                    &&& r.ack
                    &&& r.recipients@.len() == 0
                    &&& forall|x: Seq<char>|
                        final(self).online(x) == (old(self).online(x) || x == session_id@)
                    &&& forall|g: Seq<char>, x: Seq<char>|
                        final(self).member(g, x) == old(self).member(g, x)
                },
                Message::GroupJoin { session_id, group_id } => {
                    &&& r.register is None && !r.ack && r.recipients@.len() == 0
                    &&& forall|x: Seq<char>| final(self).online(x) == old(self).online(x)
                    &&& forall|g: Seq<char>, x: Seq<char>|
                        final(self).member(g, x) == (old(self).member(g, x) || (g == group_id@ && x
                            == session_id@))
                },
                Message::GroupLeave { session_id, group_id } => {
                    &&& r.register is None && !r.ack && r.recipients@.len() == 0
                    &&& forall|x: Seq<char>| final(self).online(x) == old(self).online(x)
                    &&& forall|g: Seq<char>, x: Seq<char>|
                        final(self).member(g, x) == (old(self).member(g, x) && !(g == group_id@ && x
                            == session_id@))
                },
                _ => {
                    &&& r.register is None && !r.ack
                    &&& forall|x: Seq<char>| final(self).online(x) == old(self).online(x)
                    &&& forall|g: Seq<char>, x: Seq<char>|
                        final(self).member(g, x) == old(self).member(g, x)
                    &&& match msg {
                        Message::KeyExchange { .. } | Message::AudioFrame { .. } => broadcast_spec(
                            old(self),
                            sender_name(sender),
                            r.recipients@,
                        ),
                        Message::Discover { target_session } => targeted_spec(
                            old(self),
                            target_session@,
                            r.recipients@,
                        ),
                        Message::Encrypted { target, .. } => forward_spec(
                            old(self),
                            sender_name(sender),
                            target@,
                            r.recipients@,
                        ),
                        Message::ScreenFrame { target, .. } => forward_spec(
                            old(self),
                            sender_name(sender),
                            target@,
                            r.recipients@,
                        ),
                        Message::Typing { target, .. } => forward_spec(
                            old(self),
                            sender_name(sender),
                            target@,
                            r.recipients@,
                        ),
                        Message::ReadReceipt { target, .. } => forward_spec(
                            old(self),
                            sender_name(sender),
                            target@,
                            r.recipients@,
                        ),
                        Message::GroupEncrypted { from, group_id, .. } => group_spec(
                            old(self),
                            from@,
                            group_id@,
                            r.recipients@,
                        ),
                        _ => r.recipients@.len() == 0,
                    }
                },
            },
    {
        match msg {
            Message::Connect { session_id } => {
                let sid = clone_string(session_id);
                let resumed = self.connect(sid);
                RelayRouting {
                    register: Some(clone_string(session_id)),
                    resumed,
                    ack: true,
                    recipients: Vec::new(),
                }
            },
            Message::Discover { target_session } => {
                let mut recipients: Vec<String> = Vec::new();
                if self.online_target(target_session) {
                    recipients.push(clone_string(target_session));
                }
                RelayRouting { register: None, resumed: false, ack: false, recipients }
            },
            Message::KeyExchange { .. } | Message::AudioFrame { .. } => {
                let recipients = match sender {
                    Some(sid) => self.broadcast_targets(sid),
                    None => self.broadcast_targets(&String::new()),
                };
                RelayRouting { register: None, resumed: false, ack: false, recipients }
            },
            Message::Encrypted { target, .. } | Message::ScreenFrame { target, .. } | Message::Typing { target, .. } | Message::ReadReceipt { target, .. } => {
                let recipients = if target.as_str().is_empty() {
                    match sender {
                        Some(sid) => self.broadcast_targets(sid),
                        None => self.broadcast_targets(&String::new()),
                    }
                } else {
                    let mut recipients: Vec<String> = Vec::new();
                    if self.online_target(target) {
                        recipients.push(clone_string(target));
                    }
                    recipients
                };
                RelayRouting { register: None, resumed: false, ack: false, recipients }
            },
            Message::GroupJoin { session_id, group_id } => {
                let sid = clone_string(session_id);
                let gid = clone_string(group_id);
                self.group_join(sid, gid);
                RelayRouting { register: None, resumed: false, ack: false, recipients: Vec::new() }
            },
            Message::GroupLeave { session_id, group_id } => {
                self.group_leave(session_id, group_id);
                RelayRouting { register: None, resumed: false, ack: false, recipients: Vec::new() }
            },
            Message::GroupEncrypted { from, group_id, .. } => {
                let recipients = self.room_targets(group_id, from);
                RelayRouting { register: None, resumed: false, ack: false, recipients }
            },
            Message::Ack | Message::Error { .. } => {
                RelayRouting { register: None, resumed: false, ack: false, recipients: Vec::new() }
            },
        }
    }
}

} // verus!
