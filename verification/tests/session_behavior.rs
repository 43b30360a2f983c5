use chat_core::registry::ClientRegistry;
use chat_core::session::{
    default_nickname, disconnect_client, handle_message, register_client,
};

fn drained(registry: &mut ClientRegistry, id: u32) -> Vec<String> {
    registry.drain_outbound(id).expect("client should be registered")
}

fn two_clients() -> (ClientRegistry, String, String) {
    let mut registry = ClientRegistry::new();
    let a = default_nickname(1);
    let b = default_nickname(2);
    assert!(register_client(1, a.as_str(), &mut registry));
    assert!(register_client(2, b.as_str(), &mut registry));
    (registry, a, b)
}

#[test]
fn default_nicknames_follow_ids() {
    assert_eq!(default_nickname(1).as_str(), "Client1");
    assert_eq!(default_nickname(42).as_str(), "Client42");
    assert_eq!(default_nickname(4294967295).as_str(), "Client4294967295");
}

#[test]
fn chat_line_reaches_all_other_clients_verbatim() {
    let (mut registry, mut a, _b) = two_clients();
    let c = default_nickname(3);
    assert!(register_client(3, c.as_str(), &mut registry));

    assert!(handle_message(1, &mut a, &mut registry, "hello world"));

    assert_eq!(drained(&mut registry, 2), vec!["Client1: hello world".to_string() + "\n"]);
    assert_eq!(drained(&mut registry, 3), vec!["Client1: hello world".to_string() + "\n"]);
    assert_eq!(drained(&mut registry, 1), Vec::<String>::new());
}

#[test]
fn muted_client_is_blocked_with_exactly_one_notice() {
    let (mut registry, mut a, _b) = two_clients();
    assert_eq!(registry.mute(1), Some(true));

    assert!(handle_message(1, &mut a, &mut registry, "hello"));

    assert_eq!(
        drained(&mut registry, 1),
        vec!["Blocked: You are muted and cannot send messages\n".to_string()]
    );
    assert_eq!(drained(&mut registry, 2), Vec::<String>::new());
}

#[test]
fn quit_stops_the_session_and_list_no_longer_enumerates_it() {
    let (mut registry, mut a, mut b) = two_clients();

    let keep_running = handle_message(1, &mut a, &mut registry, "/quit");
    assert!(!keep_running);
    assert_eq!(a, "");
    assert_eq!(drained(&mut registry, 1), vec!["Client1 has left the chat.\n".to_string()]);
    disconnect_client(1, &mut registry);
    assert!(registry.get(1).is_none());

    assert!(handle_message(2, &mut b, &mut registry, "/list"));
    assert_eq!(
        drained(&mut registry, 2),
        vec!["Connected users (1):\n  - Client2 (ID: 2)\n".to_string()]
    );
}

#[test]
fn disconnect_is_idempotent() {
    let (mut registry, _a, _b) = two_clients();
    disconnect_client(1, &mut registry);
    disconnect_client(1, &mut registry);
    assert_eq!(registry.len(), 1);
    assert!(registry.get(2).is_some());
}

#[test]
fn info_with_unknown_id_and_unknown_name_reports_user_not_found() {
    let (mut registry, mut a, _b) = two_clients();

    assert!(handle_message(1, &mut a, &mut registry, "/info 99"));
    assert_eq!(drained(&mut registry, 1), vec!["Error: User '99' not found\n".to_string()]);

    assert!(handle_message(1, &mut a, &mut registry, "/info nosuch"));
    assert_eq!(drained(&mut registry, 1), vec!["Error: User 'nosuch' not found\n".to_string()]);
}

#[test]
fn info_reports_nickname_and_mute_state() {
    let (mut registry, mut a, _b) = two_clients();
    assert!(handle_message(1, &mut a, &mut registry, "/info 2"));
    assert_eq!(
        drained(&mut registry, 1),
        vec!["Info for Client2 (ID: 2):\n  - Nickname: Client2\n  - Muted: No\n".to_string()]
    );

    registry.mute(2);
    assert!(handle_message(1, &mut a, &mut registry, "/info Client2"));
    assert_eq!(
        drained(&mut registry, 1),
        vec!["Info for Client2 (ID: 2):\n  - Nickname: Client2\n  - Muted: Yes\n".to_string()]
    );
}

#[test]
fn unknown_command_keeps_session_and_explains() {
    let (mut registry, mut a, _b) = two_clients();
    assert!(handle_message(1, &mut a, &mut registry, "/frobnicate now"));
    assert_eq!(
        drained(&mut registry, 1),
        vec!["Unrecognized command: /frobnicate now. Use /help to see available commands.\n"
            .to_string()]
    );
}

#[test]
fn help_sends_static_text_to_sender_only() {
    let (mut registry, mut a, _b) = two_clients();
    assert!(handle_message(1, &mut a, &mut registry, "/help"));
    let lines = drained(&mut registry, 1);
    assert_eq!(lines.len(), 1);
    assert!(lines[0].starts_with("Available commands:\n"));
    assert!(lines[0].contains("/quit - Disconnect from the server"));
    assert_eq!(drained(&mut registry, 2), Vec::<String>::new());
}

#[test]
fn moderation_scenario_runs_end_to_end() {
    // A (id 1) and B (id 2) connect; A renames to Alice; B mutes A; A's chat
    // line is blocked and B receives nothing of it.
    let (mut registry, mut a, mut b) = two_clients();

    assert!(handle_message(1, &mut a, &mut registry, "/nick Alice"));
    assert_eq!(a, "Alice");
    assert_eq!(
        drained(&mut registry, 1),
        vec!["Nickname changed from 'Client1' to 'Alice'\n".to_string()]
    );

    assert!(handle_message(2, &mut b, &mut registry, "/mute 1"));
    assert_eq!(
        drained(&mut registry, 1),
        vec![
            "You have been muted by a moderator. You cannot send messages.\n".to_string(),
            "Alice has been muted by a moderator.\n".to_string(),
        ]
    );
    assert_eq!(
        drained(&mut registry, 2),
        vec![
            "Alice has been muted by a moderator.\n".to_string(),
            "Muted user Alice (ID: 1)\n".to_string(),
        ]
    );

    assert!(handle_message(1, &mut a, &mut registry, "hello"));
    assert_eq!(
        drained(&mut registry, 1),
        vec!["Blocked: You are muted and cannot send messages\n".to_string()]
    );
    assert_eq!(drained(&mut registry, 2), Vec::<String>::new());

    assert!(handle_message(2, &mut b, &mut registry, "/unmute 1"));
    assert_eq!(
        drained(&mut registry, 1),
        vec![
            "You have been unmuted. You can now send messages.\n".to_string(),
            "Alice has been unmuted.\n".to_string(),
        ]
    );
    assert_eq!(
        drained(&mut registry, 2),
        vec![
            "Alice has been unmuted.\n".to_string(),
            "Unmuted user Alice (ID: 1)\n".to_string(),
        ]
    );
    assert!(handle_message(1, &mut a, &mut registry, "hello"));
    assert_eq!(drained(&mut registry, 2), vec!["Alice: hello\n".to_string()]);
}

#[test]
fn mute_with_invalid_or_unknown_id_reports_once() {
    let (mut registry, mut b, _a) = {
        let (r, a, b) = two_clients();
        (r, b, a)
    };
    assert!(handle_message(2, &mut b, &mut registry, "/mute abc"));
    assert_eq!(drained(&mut registry, 2), vec!["Error: Invalid user ID: abc\n".to_string()]);

    assert!(handle_message(2, &mut b, &mut registry, "/mute 77"));
    assert_eq!(drained(&mut registry, 2), vec!["Error: User '77' not found\n".to_string()]);
}

#[test]
fn muting_twice_is_idempotent_on_state_and_reannounces() {
    let (mut registry, _a, mut b) = two_clients();

    assert!(handle_message(2, &mut b, &mut registry, "/mute 1"));
    assert_eq!(registry.get(1).unwrap().1, true);
    let first_confirm = drained(&mut registry, 2);
    assert_eq!(first_confirm.last().unwrap(), "Muted user Client1 (ID: 1)\n");
    drained(&mut registry, 1);

    // The command does not gate on a state change: muting again succeeds,
    // keeps the flag set, and announces again.
    assert!(handle_message(2, &mut b, &mut registry, "/mute 1"));
    assert_eq!(registry.get(1).unwrap().1, true);
    let second = drained(&mut registry, 2);
    assert_eq!(
        second,
        vec![
            "Client1 has been muted by a moderator.\n".to_string(),
            "Muted user Client1 (ID: 1)\n".to_string(),
        ]
    );
    // The registry itself reports that the second mute changed nothing.
    assert_eq!(registry.mute(1), Some(false));
}

#[test]
fn broadcast_drops_lines_on_a_full_queue() {
    let (mut registry, mut a, _b) = two_clients();
    for i in 0..12 {
        let line = format!("line {}", i);
        assert!(handle_message(1, &mut a, &mut registry, line.as_str()));
    }
    let lines = drained(&mut registry, 2);
    assert_eq!(lines.len(), chat_core::shared_state::SINK_CAPACITY);
    assert_eq!(lines[0], "Client1: line 0\n");
    assert_eq!(lines[9], "Client1: line 9\n");
}
