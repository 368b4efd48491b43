use apus_core::corp::{
    content_disposition, dashboard_title, generate_color, merge_remote_messages, prepare_chat,
    sanitize_nickname, upload_exceeds_limit, upload_file_id, ChatMessage, ChatRejection, MeshRoom, NicknameRegistry,
};

fn msg(sender: &str, text: &str, ts: u64) -> ChatMessage {
    ChatMessage {
        sender: sender.to_string(),
        text: text.to_string(),
        timestamp: ts,
        is_e2e_encrypted: true,
        color: "#00f2fe".to_string(),
    }
}

fn keys(v: &[ChatMessage]) -> Vec<(String, u64)> {
    v.iter().map(|m| (m.sender.clone(), m.timestamp)).collect()
}

#[test]
fn sanitize_maps_latin_lookalikes() {
    assert_eq!(sanitize_nickname("Oscar"), "\u{043E}s\u{0441}\u{0430}r");
    assert_eq!(sanitize_nickname("XPEC"), "\u{0445}\u{0440}\u{0435}\u{0441}");
    assert_eq!(sanitize_nickname("bob"), "b\u{043E}b");
    assert_eq!(sanitize_nickname(""), "");
    let once = sanitize_nickname("apex");
    assert_eq!(sanitize_nickname(&once), once);
}

#[test]
fn color_is_byte_sum_mod_palette() {
    let palette = ["#00f2fe", "#2ed573", "#ff4757", "#ffa502", "#ff6b81", "#70a1ff", "#5352ed", "#eccc68"];
    for name in ["Alice", "bob", "", "\u{0418}\u{0432}\u{0430}\u{043D}", "zz"] {
        let sum: usize = name.bytes().map(|b| b as usize).sum();
        assert_eq!(generate_color(name), palette[sum % 8]);
    }
    // "A" = 65, 65 % 8 = 1
    assert_eq!(generate_color("A"), "#2ed573");
    assert_eq!(generate_color(""), "#00f2fe");
}

#[test]
fn prepare_chat_accepts_and_registers() {
    let mut users = NicknameRegistry::new();
    let m = prepare_chat(&mut users, "  Alice ", "hello".to_string(), 1234).unwrap();
    assert_eq!(m.sender, "Alice");
    assert_eq!(m.text, "hello");
    assert_eq!(m.timestamp, 1234);
    assert!(m.is_e2e_encrypted);
    assert_eq!(m.color, generate_color("Alice"));
    let key = sanitize_nickname("Alice");
    assert_eq!(users.get(&key).map(|s| s.as_str()), Some("Alice"));
    // the same name again is fine
    let m2 = prepare_chat(&mut users, "Alice", "again".to_string(), 1300).unwrap();
    assert_eq!(m2.sender, "Alice");
}

#[test]
fn prepare_chat_rejects_empty_name() {
    let mut users = NicknameRegistry::new();
    let r = prepare_chat(&mut users, "   \t", "x".to_string(), 1);
    assert_eq!(r.err(), Some(ChatRejection::EmptyName));
    assert_eq!(ChatRejection::EmptyName.message(), "Имя не может быть пустым");
}

#[test]
fn prepare_chat_rejects_lookalike() {
    let mut users = NicknameRegistry::new();
    assert!(prepare_chat(&mut users, "Oscar", "hi".to_string(), 1).is_ok());
    // Cyrillic small o and a in place of the Latin ones
    let r = prepare_chat(&mut users, "\u{043E}sc\u{0430}r", "hi".to_string(), 2);
    assert_eq!(r.err(), Some(ChatRejection::LookalikeName));
    assert_eq!(
        ChatRejection::LookalikeName.message(),
        "Этот ник визуально похож на уже существующий в сети! Выберите другой."
    );
    // the first spelling is still accepted
    assert!(prepare_chat(&mut users, "Oscar", "hi".to_string(), 3).is_ok());
}

#[test]
fn merge_appends_new_messages_only() {
    let mut local = vec![msg("a", "one", 10)];
    let mut last = 10u64;
    let remote = vec![msg("a", "dup", 10), msg("b", "two", 12), msg("c", "old", 11), msg("d", "three", 15)];
    merge_remote_messages(&mut local, remote, &mut last);
    assert_eq!(
        keys(&local),
        vec![("a".to_string(), 10), ("b".to_string(), 12), ("d".to_string(), 15)]
    );
    assert_eq!(last, 15);
}

#[test]
fn merge_same_batch_twice_changes_nothing() {
    let mut local = vec![];
    let mut last = 0u64;
    let batch = || vec![msg("a", "x", 5), msg("b", "y", 7), msg("a", "x", 5)];
    merge_remote_messages(&mut local, batch(), &mut last);
    let after_first = keys(&local);
    let last_first = last;
    merge_remote_messages(&mut local, batch(), &mut last);
    assert_eq!(keys(&local), after_first);
    assert_eq!(last, last_first);
    assert_eq!(after_first, vec![("a".to_string(), 5), ("b".to_string(), 7)]);
}

#[test]
fn merge_skips_equal_timestamp_same_sender_even_if_newer_than_last() {
    let mut local = vec![msg("a", "kept", 20)];
    let mut last = 0u64;
    merge_remote_messages(&mut local, vec![msg("a", "other", 20), msg("b", "new", 20)], &mut last);
    assert_eq!(keys(&local), vec![("a".to_string(), 20), ("b".to_string(), 20)]);
    assert_eq!(last, 20);
}

#[test]
fn room_defaults_join_and_limits() {
    let mut room = MeshRoom::global_default();
    assert_eq!(room.room_id, "global-mesh-01");
    assert_eq!(room.room_code, "APUS-8839-X");
    assert_eq!(room.invite_link, "http://localhost:9090/?room=APUS-8839-X");
    assert!(room.is_host);
    assert_eq!(room.max_file_size_mb, 32768);
    assert_eq!(room.max_upload_bytes(), 32768u64 * 1024 * 1024);
    assert!(!room.upload_too_large(32768u64 * 1024 * 1024));
    assert!(room.upload_too_large(32768u64 * 1024 * 1024 + 1));
    room.set_limit(1);
    assert!(room.upload_too_large(1_048_577));
    assert!(!room.upload_too_large(1_048_576));
    room.set_limit(0);
    assert!(!room.upload_too_large(u64::MAX));
    room.join_with_code("ROOM-42".to_string());
    assert_eq!(room.room_code, "ROOM-42");
    assert!(!room.is_host);
    assert_eq!(room.room_id, "global-mesh-01");
}

#[test]
fn dashboard_strings() {
    assert_eq!(dashboard_title(true), "APUS Mesh Network (Decentralized & E2E)");
    assert_eq!(dashboard_title(false), "APUS Corp Enterprise Dashboard (B2B/LAN)");
    assert_eq!(content_disposition("a b.bin"), "attachment; filename=\"a b.bin\"");
    assert_eq!(upload_file_id(1700000000), "file-1700000000");
    assert_eq!(upload_file_id(0), "file-0");
    assert!(upload_exceeds_limit(1, 1_048_577));
    assert!(!upload_exceeds_limit(1, 1_048_576));
    assert!(!upload_exceeds_limit(0, u64::MAX));
}

#[test]
fn lookalike_refused_after_other_messages() {
    let mut users = NicknameRegistry::new();
    assert!(prepare_chat(&mut users, "Oscar", "hi".to_string(), 1).is_ok());
    assert!(prepare_chat(&mut users, "bob", "x".to_string(), 2).is_ok());
    assert!(prepare_chat(&mut users, "  ", "x".to_string(), 3).is_err());
    assert!(prepare_chat(&mut users, "Oscar", "again".to_string(), 4).is_ok());
    assert_eq!(
        prepare_chat(&mut users, "oscar", "x".to_string(), 5).err(),
        Some(ChatRejection::LookalikeName)
    );
    assert_eq!(
        prepare_chat(&mut users, "\u{043E}sc\u{0430}r", "x".to_string(), 6).err(),
        Some(ChatRejection::LookalikeName)
    );
    assert_eq!(users.get(&sanitize_nickname("Oscar")).map(|s| s.as_str()), Some("Oscar"));
    assert_eq!(users.get(&sanitize_nickname("bob")).map(|s| s.as_str()), Some("bob"));
}
