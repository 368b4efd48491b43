//! The mesh room of this node: creating a room, joining one by its
//! invite link, and posting messages in it.

use vstd::prelude::*;
use vstd::string::StringExecFns;
use vstd::utf8::encode_utf8;

use crate::digest::{sha256_digest, sha256_spec};
use crate::text::{decimal, hex_byte, push_decimal, push_hex_byte, trim_start_matches, trim_start_matches_spec};

verus! {

/// A message posted in a mesh room.
pub struct ChatMessage {
    pub sender: String,
    pub text: String,
    pub timestamp: u64,
}

/// A mesh room and what it holds.
pub struct MeshRoom {
    pub room_id: String,
    pub room_name: String,
    pub peers: Vec<String>,
    pub messages: Vec<ChatMessage>,
}

/// The room this node is active in, if any.
pub struct MeshEngine {
    pub active_room: Option<MeshRoom>,
}

/// The scheme and path that invite links start with.
pub open spec fn invite_prefix() -> Seq<char> {
    "apus://room/"@
}

/// The text hashed to make a room identifier: the room name, a dash,
/// and the creation time in nanoseconds.
pub open spec fn room_seed(name: Seq<char>, now_nanos: nat) -> Seq<char> {
    name + "-"@ + decimal(now_nanos)
}

/// A room identifier made from a digest: "apus-" and the first two
/// bytes of the digest in lowercase hexadecimal.
pub open spec fn room_id_from_digest_spec(digest: Seq<u8>) -> Seq<char> {
    "apus-"@ + hex_byte(digest[0]) + hex_byte(digest[1])
}

/// The identifier of a room created under `name` at `now_nanos`.
pub open spec fn room_id_spec(name: Seq<char>, now_nanos: nat) -> Seq<char> {
    room_id_from_digest_spec(sha256_spec(encode_utf8(room_seed(name, now_nanos))))
}

/// The room identifier that an invite link names.
pub open spec fn invited_room_id(invite_link: Seq<char>) -> Seq<char> {
    trim_start_matches_spec(invite_link, invite_prefix())
}

/// Makes a room identifier from a digest of at least two bytes.
pub fn room_id_from_digest(digest: &[u8]) -> (id: String)
    requires
        digest@.len() >= 2,
    ensures
        id@ == room_id_from_digest_spec(digest@),
{
    let mut id = "apus-".to_owned();
    push_hex_byte(&mut id, digest[0]);
    push_hex_byte(&mut id, digest[1]);
    id
}

fn single(s: &str) -> (v: Vec<String>)
    ensures
        v@.len() == 1,
        v@[0]@ == s@,
{
    let mut v: Vec<String> = Vec::new();
    v.push(s.to_owned());
    v
}

impl MeshEngine {
    /// No active room.
    pub fn new() -> (e: MeshEngine)
        ensures
            e.active_room is None,
    {
        MeshEngine { active_room: None }
    }

    /// Creates a room named `name` at time `now_nanos` (nanoseconds since
    /// the Unix epoch), makes it the active room with this host as its
    /// only peer and no messages, and returns its invite link
    /// "apus://room/<id>". The identifier is "apus-" followed by the first
    /// two bytes, in hex, of the SHA-256 of "<name>-<now_nanos>".
    pub fn create_room(&mut self, name: &str, now_nanos: u128) -> (link: String)
        ensures
            final(self).active_room matches Some(r) && {
                &&& r.room_id@ == room_id_spec(name@, now_nanos as nat)
                &&& r.room_name@ == name@
                &&& r.peers@.len() == 1
                &&& r.peers@[0]@ == "LocalHost"@
                &&& r.messages@.len() == 0
            },
            link@ == invite_prefix() + room_id_spec(name@, now_nanos as nat),
    {
        let mut seed = name.to_owned();
        seed.append("-");
        push_decimal(&mut seed, now_nanos);
        let hash = sha256_digest(seed.as_str().as_bytes());
        let room_id = room_id_from_digest(hash.as_slice());
        let mut link = "apus://room/".to_owned();
        link.append(room_id.as_str());
        let room = MeshRoom {
            room_id,
            room_name: name.to_owned(),
            peers: single("LocalHost"),
            messages: Vec::new(),
        };
        self.active_room = Some(room);
        link
    }

    /// Joins the room that an invite link names (the link with every
    /// leading "apus://room/" removed): it becomes the active room, named
    /// "Joined Room (<id>)", with this host and the remote peer, and no
    /// messages.
    pub fn join_room(&mut self, invite_link: &str) -> (joined: bool)
        ensures
            joined,
            final(self).active_room matches Some(r) && {
                &&& r.room_id@ == invited_room_id(invite_link@)
                &&& r.room_name@ == "Joined Room ("@ + invited_room_id(invite_link@) + ")"@
                &&& r.peers@.len() == 2
                &&& r.peers@[0]@ == "LocalHost"@
                &&& r.peers@[1]@ == "RemotePeer"@
                &&& r.messages@.len() == 0
            },
    {
        let room_id = trim_start_matches(invite_link, "apus://room/");
        let mut room_name = "Joined Room (".to_owned();
        room_name.append(room_id.as_str());
        room_name.append(")");
        let mut peers = single("LocalHost");
        peers.push("RemotePeer".to_owned());
        let room = MeshRoom { room_id, room_name, peers, messages: Vec::new() };
        self.active_room = Some(room);
        true
    }

    /// Posts a message from `sender` at `now_secs` (seconds since the Unix
    /// epoch) in the active room; without an active room nothing happens.
    pub fn send_message(&mut self, sender: &str, text: &str, now_secs: u64)
        ensures
            old(self).active_room is None ==> final(self).active_room is None,
            old(self).active_room matches Some(before) ==> final(self).active_room matches Some(
                after,
            ) && {
                &&& after.room_id == before.room_id
                &&& after.room_name == before.room_name
                &&& after.peers == before.peers
                &&& after.messages@.len() == before.messages@.len() + 1
                &&& after.messages@.take(before.messages@.len() as int) == before.messages@
                &&& after.messages@.last().sender@ == sender@
                &&& after.messages@.last().text@ == text@
                &&& after.messages@.last().timestamp == now_secs
            },
    {
        if let Some(room) = &mut self.active_room {
            let ghost before = room.messages@;
            let msg = ChatMessage { sender: sender.to_owned(), text: text.to_owned(), timestamp: now_secs };
            room.messages.push(msg);
            assert(room.messages@.take(before.len() as int) =~= before);
        }
    }
}

/// Joining a room by the invite link that creating it returned joins that
/// very room: the invite names the identifier of the created room.
pub proof fn law_invite_link_round_trip(name: Seq<char>, now_nanos: nat)
    ensures
        invited_room_id(invite_prefix() + room_id_spec(name, now_nanos)) == room_id_spec(name, now_nanos),
{
    reveal_strlit("apus://room/");
    reveal_strlit("apus-");
    let id = room_id_spec(name, now_nanos);
    let link = invite_prefix() + id;
    assert(id.len() == 9);
    assert(link.subrange(0, 12) =~= invite_prefix());
    assert(link.subrange(12, link.len() as int) =~= id);
    assert(invite_prefix().len() == 12);
    assert(trim_start_matches_spec(id, invite_prefix()) == id);
    assert(invited_room_id(link) == trim_start_matches_spec(id, invite_prefix()));
}

} // verus!
