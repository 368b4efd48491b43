use apus_core::mesh::{room_id_from_digest, MeshEngine};
use sha2::{Digest, Sha256};

fn expected_id(name: &str, now: u128) -> String {
    let hash = Sha256::digest(format!("{}-{}", name, now).as_bytes());
    format!("apus-{:02x}{:02x}", hash[0], hash[1])
}

#[test]
fn create_room_links_to_hashed_id() {
    let mut engine = MeshEngine::new();
    assert!(engine.active_room.is_none());
    let link = engine.create_room("Team", 1_700_000_000_123_456_789);
    let id = expected_id("Team", 1_700_000_000_123_456_789);
    assert_eq!(link, format!("apus://room/{}", id));
    let room = engine.active_room.as_ref().unwrap();
    assert_eq!(room.room_id, id);
    assert_eq!(room.room_name, "Team");
    assert_eq!(room.peers, vec!["LocalHost".to_string()]);
    assert!(room.messages.is_empty());
    assert_ne!(engine.create_room("Team", 1), link);
}

#[test]
fn join_room_by_created_link() {
    let mut host = MeshEngine::new();
    let link = host.create_room("Chat", 42);
    let mut guest = MeshEngine::new();
    assert!(guest.join_room(&link));
    let room = guest.active_room.as_ref().unwrap();
    assert_eq!(room.room_id, host.active_room.as_ref().unwrap().room_id);
    assert_eq!(room.room_name, format!("Joined Room ({})", room.room_id));
    assert_eq!(room.peers, vec!["LocalHost".to_string(), "RemotePeer".to_string()]);
}

#[test]
fn join_room_strips_every_leading_prefix() {
    let mut e = MeshEngine::new();
    assert!(e.join_room("apus://room/apus://room/abc"));
    assert_eq!(e.active_room.as_ref().unwrap().room_id, "abc");
    assert!(e.join_room("plain-id"));
    assert_eq!(e.active_room.as_ref().unwrap().room_id, "plain-id");
}

#[test]
fn send_message_needs_active_room() {
    let mut e = MeshEngine::new();
    e.send_message("me", "lost", 5);
    assert!(e.active_room.is_none());
    e.create_room("R", 7);
    e.send_message("me", "hello", 9);
    e.send_message("you", "hi", 10);
    let msgs = &e.active_room.as_ref().unwrap().messages;
    assert_eq!(msgs.len(), 2);
    assert_eq!(msgs[0].sender, "me");
    assert_eq!(msgs[0].text, "hello");
    assert_eq!(msgs[0].timestamp, 9);
    assert_eq!(msgs[1].sender, "you");
}

#[test]
fn room_id_from_digest_uses_first_two_bytes() {
    assert_eq!(room_id_from_digest(&[0x0a, 0xbc, 0xff]), "apus-0abc");
    assert_eq!(room_id_from_digest(&[0, 0]), "apus-0000");
}
