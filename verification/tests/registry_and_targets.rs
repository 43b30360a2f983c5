use chat_core::error::ChatError;
use chat_core::registry::ClientRegistry;
use chat_core::session::{handle_message, register_client};
use chat_core::shared_state::{SharedClientState, SINK_CAPACITY};
use chat_core::target::{resolve_id, resolve_name, resolve_target, Target, TargetId, TargetName};

fn registry_with(names: &[(u32, &str)]) -> ClientRegistry {
    let mut registry = ClientRegistry::new();
    for (id, name) in names {
        assert!(registry.register(*id, name.to_string()));
    }
    registry
}

#[test]
fn register_fails_only_on_a_duplicate_id() {
    let mut registry = ClientRegistry::new();
    assert!(registry.register(1, "a".to_string()));
    assert!(!registry.register(1, "b".to_string()));
    assert_eq!(registry.len(), 1);
    assert_eq!(registry.get(1).unwrap().0, "a");
}

#[test]
fn valid_nicknames_are_assignable_and_retrievable() {
    // Every shape the alphabet allows: single character, the full length of
    // twenty, letters, digits and underscores mixed.
    for name in ["a", "Z", "_", "user_42", "ABCDEFGHIJKLMNOPQRST", "caf\u{e9}"] {
        let mut registry = registry_with(&[(1, "Client1"), (2, "Client2")]);
        let mut nick = "Client1".to_string();
        assert!(handle_message(1, &mut nick, &mut registry, &format!("/nick {}", name)));
        assert_eq!(nick, name);
        assert_eq!(registry.get(1).unwrap().0, name);
        let resolved = resolve_name(&registry, name).expect("renamed client must resolve");
        assert_eq!(resolved.id(), 1);
        assert_eq!(resolved.nickname(), name);
    }
}

#[test]
fn invalid_nicknames_are_rejected_with_the_exact_reason() {
    let mut registry = registry_with(&[(1, "Client1")]);
    let mut nick = "Client1".to_string();

    assert!(handle_message(1, &mut nick, &mut registry, "/nick   "));
    // An all-whitespace argument never reaches the validator: the parser
    // already sees no argument.
    assert_eq!(
        registry.drain_outbound(1).unwrap(),
        vec!["Unrecognized command: /nick   . Use /help to see available commands.\n".to_string()]
    );

    assert!(handle_message(1, &mut nick, &mut registry, "/nick abcdefghijklmnopqrstu"));
    assert_eq!(
        registry.drain_outbound(1).unwrap(),
        vec!["Error: Nickname too long (max 20 chars)\n".to_string()]
    );

    assert!(handle_message(1, &mut nick, &mut registry, "/nick bad name!"));
    assert_eq!(
        registry.drain_outbound(1).unwrap(),
        vec!["Error: Nickname can only contain letters, numbers, and underscores\n".to_string()]
    );

    assert_eq!(nick, "Client1");
    assert_eq!(registry.get(1).unwrap().0, "Client1");
}

#[test]
fn case_insensitive_duplicate_nickname_is_taken_and_leaves_the_renamer_unchanged() {
    let mut registry = registry_with(&[(1, "Alice"), (2, "Client2")]);
    let mut nick_b = "Client2".to_string();

    assert!(handle_message(2, &mut nick_b, &mut registry, "/nick ALICE"));
    assert_eq!(
        registry.drain_outbound(2).unwrap(),
        vec!["Error: Nickname 'ALICE' is already in use\n".to_string()]
    );
    assert_eq!(nick_b, "Client2");
    assert_eq!(registry.get(2).unwrap().0, "Client2");

    // Reclaiming your own nickname in another case is allowed.
    let mut nick_a = "Alice".to_string();
    assert!(handle_message(1, &mut nick_a, &mut registry, "/nick alice"));
    assert_eq!(
        registry.drain_outbound(1).unwrap(),
        vec!["Nickname changed from 'Alice' to 'alice'\n".to_string()]
    );
}

#[test]
fn resolution_tries_ids_first_and_falls_back_to_names() {
    let registry = registry_with(&[(1, "Alice"), (2, "7")]);

    let by_id = resolve_id(&registry, "1").unwrap();
    assert_eq!(by_id.id(), 1);
    assert_eq!(by_id.nickname(), "Alice");

    // A leading plus sign reads as the same id, as `str::parse` accepts it.
    assert_eq!(resolve_id(&registry, "+1").unwrap().id(), 1);

    assert!(matches!(resolve_id(&registry, "abc"), Err(ChatError::InvalidUserId(_))));
    assert!(matches!(resolve_id(&registry, "9"), Err(ChatError::UserNotFound(_))));

    let by_name = resolve_name(&registry, "alice").unwrap();
    assert_eq!(by_name.id(), 1);
    assert!(matches!(resolve_name(&registry, "carol"), Err(ChatError::UserNotFound(_))));

    // "7" is a live id (none) but a live nickname: the ambiguous resolver
    // tries the id first and then falls back to the nickname scan.
    let ambiguous = resolve_target(&registry, &Target::Both("7".to_string())).unwrap();
    assert_eq!(ambiguous.id(), 2);
    let direct = resolve_target(&registry, &Target::Both("1".to_string())).unwrap();
    assert_eq!(direct.id(), 1);
    assert!(matches!(
        resolve_target(&registry, &Target::Both("ghost".to_string())),
        Err(ChatError::UserNotFound(_))
    ));
}

#[test]
fn first_registered_match_wins_a_nickname_scan() {
    let registry = registry_with(&[(5, "Bob"), (6, "BOB")]);
    let found = registry.find_by_nickname("bob").unwrap();
    assert_eq!(found.0, 5);
    assert_eq!(found.1, "Bob");
    assert!(registry.find_by_nickname("carol").is_none());
}

#[test]
fn target_constructors_trim_and_reject_empty_arguments() {
    assert!(Target::from_args("  ").is_none());
    match Target::from_args(" Alice ") {
        Some(t) => assert_eq!(t.as_str(), "Alice"),
        None => panic!("expected a target"),
    }
    assert!(TargetId::from_args("").is_none());
    assert_eq!(TargetId::from_args(" 5 ").unwrap().0, "5");
    assert!(TargetName::from_args("\t").is_none());
    assert_eq!(TargetName::from_args(" bob ").unwrap().0, "bob");
}

#[test]
fn the_outbound_queue_is_bounded_and_reports_overflow() {
    let mut state = SharedClientState::new("x".to_string());
    for i in 0..SINK_CAPACITY {
        assert!(state.send(format!("m{}", i)).is_ok());
    }
    assert!(matches!(state.send("overflow".to_string()), Err(ChatError::MessageSendFailed)));
    let queued = state.drain();
    assert_eq!(queued.len(), SINK_CAPACITY);
    assert_eq!(queued[0], "m0");
    assert_eq!(queued[SINK_CAPACITY - 1], "m9");
    assert!(state.drain().is_empty());
}

#[test]
fn mute_and_unmute_report_state_changes() {
    let mut state = SharedClientState::new("x".to_string());
    assert!(!state.is_muted());
    assert!(state.mute());
    assert!(!state.mute());
    assert!(state.is_muted());
    assert!(state.unmute());
    assert!(!state.unmute());
    assert!(!state.is_muted());
}

#[test]
fn every_error_variant_has_its_wording() {
    assert_eq!(
        ChatError::InvalidUserId("abc".to_string()).message(),
        "Invalid user ID: abc"
    );
    assert_eq!(ChatError::UserNotFound("x".to_string()).message(), "User 'x' not found");
    assert_eq!(ChatError::NicknameEmpty.message(), "Nickname cannot be empty");
    assert_eq!(
        ChatError::NicknameTooLong { max: 20 }.message(),
        "Nickname too long (max 20 chars)"
    );
    assert_eq!(
        ChatError::NicknameInvalid("reason".to_string()).message(),
        "Invalid nickname: reason"
    );
    assert_eq!(
        ChatError::NicknameAlreadyTaken("bob".to_string()).message(),
        "Nickname 'bob' is already in use"
    );
    assert_eq!(ChatError::MessageSendFailed.message(), "Failed to send message");
    assert_eq!(
        ChatError::ValidationFailed("why".to_string()).message(),
        "Validation failed: why"
    );
    assert_eq!(ChatError::Muted.message(), "You are muted and cannot send messages");
    assert_eq!(ChatError::TargetEmpty.message(), "Target cannot be empty");
}

#[test]
fn an_empty_registry_lists_nobody() {
    let mut registry = ClientRegistry::new();
    assert!(register_client(9, "solo", &mut registry));
    let mut nick = "solo".to_string();
    assert!(handle_message(9, &mut nick, &mut registry, "/list"));
    assert_eq!(
        registry.drain_outbound(9).unwrap(),
        vec!["Connected users (1):\n  - solo (ID: 9)\n".to_string()]
    );
}
