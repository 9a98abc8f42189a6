use mc_proxy::info_messages;
use mc_proxy::whitelist::{
    decide, Player, PlayerAllowed, Whitelist, WhitelistFile, WhitelistOpen, EXPIRATION_SECONDS,
};

fn player(name: &str, uuid: Option<u128>, active: bool) -> Player {
    Player { name: name.to_string(), player_uuid: uuid, active }
}

fn denied(answer: PlayerAllowed) -> String {
    match answer {
        PlayerAllowed::False(message) => message,
        PlayerAllowed::True(_) => panic!("expected a denial"),
    }
}

fn allowed(answer: PlayerAllowed) -> Player {
    match answer {
        PlayerAllowed::True(player) => player,
        PlayerAllowed::False(message) => panic!("expected to be let in: {}", message),
    }
}

fn loaded(text: &str) -> WhitelistFile {
    let mut whitelist = WhitelistFile::new("./whitelist.json".to_string());
    whitelist.load(text, 1000);
    whitelist
}

#[test]
fn open_whitelist_allows_everyone() {
    let open = WhitelistOpen {};
    let p = allowed(open.check_player_whitelist(player("anyone", None, false)));
    assert_eq!(p.name, "anyone");
    assert_eq!(p.player_uuid, None);
    assert!(!p.active);
    let policy = Whitelist::WhitelistOpen(WhitelistOpen {});
    let p = allowed(policy.check_player_whitelist(player("bob", Some(7), true)));
    assert_eq!(p.name, "bob");
    assert_eq!(p.player_uuid, Some(7));
}

#[test]
fn same_player_compares_name_and_uuid() {
    assert!(player("a", Some(1), true).same_player(&player("a", Some(1), false)));
    assert!(!player("a", Some(1), true).same_player(&player("a", Some(2), true)));
    assert!(!player("a", Some(1), true).same_player(&player("b", Some(1), true)));
    assert!(!player("a", None, true).same_player(&player("a", Some(1), true)));
    assert!(player("a", None, true).same_player(&player("a", None, true)));
}

#[test]
fn missing_uuid_is_denied_whatever_the_file_holds() {
    for text in ["", "[]", "[{\"name\":\"a\",\"uuid\":\"1\",\"active\":true}]", "nonsense"] {
        let whitelist = loaded(text);
        assert_eq!(
            denied(whitelist.check_player_whitelist(player("a", None, true))),
            info_messages::UUID_MISSING_DISCONNECT
        );
    }
    assert_eq!(info_messages::UUID_MISSING_DISCONNECT, "Invalid UUID! (UUID Missing)");
    assert_eq!(
        denied(decide(&vec![player("a", Some(1), true)], player("a", None, true))),
        "Invalid UUID! (UUID Missing)"
    );
}

#[test]
fn whitelisted_player_is_allowed() {
    let whitelist = loaded(
        "[{\"name\":\"alice\",\"uuid\":\"00000000000000000000000000000001\",\"active\":true}]",
    );
    let p = allowed(whitelist.check_player_whitelist(player("alice", Some(1), true)));
    assert_eq!(p.name, "alice");
    assert_eq!(p.player_uuid, Some(1));
    let policy = Whitelist::WhitelistFile(whitelist);
    let p = allowed(policy.check_player_whitelist(player("alice", Some(1), true)));
    assert_eq!(p.name, "alice");
    assert_eq!(
        denied(policy.check_player_whitelist(player("mallory", Some(9), true))),
        info_messages::NOT_WHITELISTED_DISCONNECT
    );
}

#[test]
fn each_denial_has_its_message() {
    let entries = vec![
        player("alice", Some(1), true),
        player("bob", Some(2), false),
        player("carol", Some(3), true),
    ];
    assert_eq!(
        denied(decide(&entries, player("bob", Some(2), true))),
        info_messages::WHITELIST_STATUS_INACTIVE_DISCONNECT
    );
    assert_eq!(
        denied(decide(&entries, player("alice", Some(9), true))),
        info_messages::UUID_INVALID_DISCONNECT
    );
    assert_eq!(
        denied(decide(&entries, player("zed", Some(3), true))),
        info_messages::USERNAME_INVALID_DISCONNECT
    );
    assert_eq!(
        denied(decide(&entries, player("zed", Some(9), true))),
        info_messages::NOT_WHITELISTED_DISCONNECT
    );
    assert_eq!(denied(decide(&vec![], player("zed", Some(9), true))), info_messages::NOT_WHITELISTED_DISCONNECT);
    assert_eq!(info_messages::UUID_INVALID_DISCONNECT, "Invalid UUID!");
    assert!(info_messages::WHITELIST_STATUS_INACTIVE_DISCONNECT
        .starts_with("Whitelist Status Inactive!\nPlease contact"));
    assert!(info_messages::USERNAME_INVALID_DISCONNECT.starts_with("Invalid Username!\n"));
    assert!(info_messages::NOT_WHITELISTED_DISCONNECT
        .starts_with("Not whitelisted on this server.\n"));
}

#[test]
fn denial_reasons_rank() {
    let entries = vec![
        player("alice", Some(2), true),
        player("bob", Some(1), true),
        player("alice", Some(1), false),
    ];
    assert_eq!(
        denied(decide(&entries, player("alice", Some(1), true))),
        info_messages::WHITELIST_STATUS_INACTIVE_DISCONNECT
    );
    let entries = vec![player("alice", Some(2), true), player("bob", Some(1), true)];
    assert_eq!(
        denied(decide(&entries, player("alice", Some(1), true))),
        info_messages::USERNAME_INVALID_DISCONNECT
    );
    let entries = vec![
        player("alice", Some(1), false),
        player("alice", Some(1), true),
    ];
    let p = allowed(decide(&entries, player("alice", Some(1), false)));
    assert!(!p.active);
}

#[test]
fn rows_that_are_no_entries_are_skipped() {
    let whitelist = loaded(
        "[1, \"x\", null, [],
          {\"name\": 5, \"uuid\": \"a\"},
          {\"name\": \"nouuid\"},
          {\"uuid\": \"b\"},
          {\"name\": \"badhex\", \"uuid\": \"xyz\"},
          {\"name\": \"numeric\", \"uuid\": 12},
          {\"name\": \"toolong\", \"uuid\": \"100000000000000000000000000000000\"},
          {\"name\": \"dana\", \"uuid\": \"ff\"},
          {\"name\": \"erin\", \"uuid\": \"0A\", \"active\": \"yes\"},
          {\"name\": \"finn\", \"uuid\": \"ffffffffffffffffffffffffffffffff\", \"active\": true}]",
    );
    let entries = whitelist.get_whitelist();
    assert_eq!(entries.len(), 3);
    assert_eq!(entries[0].name, "dana");
    assert_eq!(entries[0].player_uuid, Some(255));
    assert!(!entries[0].active);
    assert_eq!(entries[1].name, "erin");
    assert_eq!(entries[1].player_uuid, Some(10));
    assert!(!entries[1].active);
    assert_eq!(entries[2].name, "finn");
    assert_eq!(entries[2].player_uuid, Some(u128::MAX));
    assert!(entries[2].active);
    assert_eq!(
        denied(whitelist.check_player_whitelist(player("dana", Some(255), true))),
        info_messages::WHITELIST_STATUS_INACTIVE_DISCONNECT
    );
    let p = allowed(whitelist.check_player_whitelist(player("finn", Some(u128::MAX), true)));
    assert_eq!(p.name, "finn");
}

#[test]
fn missing_or_malformed_file_gives_an_empty_list() {
    for text in ["", "{", "{\"name\":\"a\"}", "null", "\"text\"", "12"] {
        let whitelist = loaded(text);
        assert_eq!(whitelist.get_whitelist().len(), 0);
        assert_eq!(
            denied(whitelist.check_player_whitelist(player("a", Some(1), true))),
            info_messages::NOT_WHITELISTED_DISCONNECT
        );
    }
    let fresh = WhitelistFile::new("./whitelist.json".to_string());
    assert_eq!(fresh.get_whitelist().len(), 0);
    assert_eq!(fresh.file_path(), "./whitelist.json");
}

#[test]
fn whitelist_expires_after_sixty_seconds() {
    assert_eq!(EXPIRATION_SECONDS, 60);
    let mut whitelist = WhitelistFile::new("w.json".to_string());
    assert!(whitelist.is_expired(0));
    assert!(whitelist.is_expired(u64::MAX));
    whitelist.load("[]", 100);
    assert!(!whitelist.is_expired(100));
    assert!(!whitelist.is_expired(159));
    assert!(whitelist.is_expired(160));
    assert!(whitelist.is_expired(1000));
    assert!(!whitelist.is_expired(50));
    whitelist.load("[]", 160);
    assert!(!whitelist.is_expired(219));
    assert!(whitelist.is_expired(220));
}

#[test]
fn decision_depends_on_the_player_alone_while_the_document_stays() {
    let whitelist = loaded(
        "[{\"name\":\"alice\",\"uuid\":\"1\",\"active\":true},
          {\"name\":\"bob\",\"uuid\":\"2\"}]",
    );
    for _ in 0..3 {
        let p = allowed(whitelist.check_player_whitelist(player("alice", Some(1), true)));
        assert_eq!(p.name, "alice");
        assert_eq!(
            denied(whitelist.check_player_whitelist(player("bob", Some(2), true))),
            info_messages::WHITELIST_STATUS_INACTIVE_DISCONNECT
        );
        assert_eq!(
            denied(whitelist.check_player_whitelist(player("bob", Some(1), true))),
            info_messages::USERNAME_INVALID_DISCONNECT
        );
    }
}

#[test]
fn reload_replaces_the_document() {
    let mut whitelist = loaded("[{\"name\":\"alice\",\"uuid\":\"1\",\"active\":true}]");
    assert_eq!(whitelist.get_whitelist().len(), 1);
    whitelist.load("[]", 2000);
    assert_eq!(whitelist.get_whitelist().len(), 0);
    whitelist.load("not json", 3000);
    assert_eq!(whitelist.get_whitelist().len(), 0);
}

#[test]
fn uuid_texts_are_read_in_base_sixteen() {
    let whitelist = loaded(
        "[{\"name\": \"a\", \"uuid\": \"1f\"},
          {\"name\": \"b\", \"uuid\": \"+1F\"},
          {\"name\": \"c\", \"uuid\": \"-1\"},
          {\"name\": \"d\", \"uuid\": \"\"},
          {\"name\": \"e\", \"uuid\": \"+\"},
          {\"name\": \"f\", \"uuid\": \"1 \"},
          {\"name\": \"g\", \"uuid\": \"0x1\"},
          {\"name\": \"h\", \"uuid\": \"00000000000000000000000000000000000001\"},
          {\"name\": \"i\", \"uuid\": \"0ffffffffffffffffffffffffffffffff\"},
          {\"name\": \"j\", \"uuid\": \"100000000000000000000000000000000\"},
          {\"name\": \"k\", \"uuid\": \"1_0\"},
          {\"name\": \"l\", \"uuid\": \"g\"},
          {\"name\": \"m\", \"uuid\": \"++1\"},
          {\"name\": \"n\", \"uuid\": \"aBcDeF\"}]",
    );
    let entries = whitelist.get_whitelist();
    let read: Vec<(String, u128)> =
        entries.iter().map(|p| (p.name.clone(), p.player_uuid.unwrap())).collect();
    assert_eq!(
        read,
        vec![
            ("a".to_string(), 31),
            ("b".to_string(), 31),
            ("h".to_string(), 1),
            ("i".to_string(), u128::MAX),
            ("n".to_string(), 0xABCDEF),
        ]
    );
}
