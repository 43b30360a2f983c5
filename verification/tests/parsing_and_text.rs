use chat_core::commands::Commands;
use chat_core::target::Target;
use chat_core::text::{
    eq_ignore_case, name_char, parse_u32, str_eq, trim, trim_end, u32_string, u64_string,
};

#[test]
fn parse_recognizes_the_command_table() {
    assert!(matches!(Commands::parse("/help"), Some(Commands::Help)));
    assert!(matches!(Commands::parse("/quit"), Some(Commands::Quit)));
    assert!(matches!(Commands::parse("/list"), Some(Commands::List)));
    match Commands::parse("/nick Alice") {
        Some(Commands::Nickname(n)) => assert_eq!(n, "Alice"),
        _ => panic!("expected a nickname command"),
    }
    match Commands::parse("/nickname Bob") {
        Some(Commands::Nickname(n)) => assert_eq!(n, "Bob"),
        _ => panic!("expected a nickname command"),
    }
    match Commands::parse("/mute 7") {
        Some(Commands::Mute(t)) => assert_eq!(t.0, "7"),
        _ => panic!("expected a mute command"),
    }
    match Commands::parse("/unmute 7") {
        Some(Commands::Unmute(t)) => assert_eq!(t.0, "7"),
        _ => panic!("expected an unmute command"),
    }
    match Commands::parse("/info Alice") {
        Some(Commands::Info(Target::Both(s))) => assert_eq!(s, "Alice"),
        _ => panic!("expected an info command"),
    }
}

#[test]
fn parse_trims_and_splits_on_the_first_space() {
    assert!(matches!(Commands::parse("  /help  "), Some(Commands::Help)));
    match Commands::parse("  /nick   spaced_name  ") {
        Some(Commands::Nickname(n)) => assert_eq!(n, "spaced_name"),
        _ => panic!("expected a nickname command"),
    }
    match Commands::parse("/info two words") {
        Some(Commands::Info(Target::Both(s))) => assert_eq!(s, "two words"),
        _ => panic!("expected an info command"),
    }
}

#[test]
fn parse_rejects_unknown_and_malformed_lines() {
    assert!(Commands::parse("/frobnicate").is_none());
    assert!(Commands::parse("hello").is_none());
    assert!(Commands::parse("").is_none());
    assert!(Commands::parse("/nick").is_none());
    assert!(Commands::parse("/Help").is_none());
    assert!(Commands::parse("/HELP").is_none());
}

#[test]
fn parse_u32_reads_exact_values_and_rejects_overflow() {
    assert_eq!(parse_u32("0"), Some(0));
    assert_eq!(parse_u32("007"), Some(7));
    assert_eq!(parse_u32("+7"), Some(7));
    assert_eq!(parse_u32("+"), None);
    assert_eq!(parse_u32("++7"), None);
    assert_eq!(parse_u32("4294967295"), Some(4294967295));
    assert_eq!(parse_u32("4294967296"), None);
    assert_eq!(parse_u32("99999999999999999999"), None);
    assert_eq!(parse_u32(""), None);
    assert_eq!(parse_u32("12a"), None);
    assert_eq!(parse_u32("-1"), None);
    assert_eq!(parse_u32(" 1"), None);
}

#[test]
fn decimal_strings_are_exact() {
    assert_eq!(u32_string(0).as_str(), "0");
    assert_eq!(u32_string(10).as_str(), "10");
    assert_eq!(u32_string(305).as_str(), "305");
    assert_eq!(u32_string(4294967295).as_str(), "4294967295");
    assert_eq!(u64_string(18446744073709551615).as_str(), "18446744073709551615");
}

#[test]
fn trimming_matches_the_protocol() {
    assert_eq!(trim("  a b  "), "a b");
    assert_eq!(trim("\t\r\n x \n"), "x");
    assert_eq!(trim("   "), "");
    assert_eq!(trim_end("hello\r\n"), "hello");
    assert_eq!(trim_end("  hello  "), "  hello");
}

#[test]
fn the_nickname_alphabet_is_unicode_alphanumerics_and_underscore() {
    assert!(name_char('a'));
    assert!(name_char('Z'));
    assert!(name_char('7'));
    assert!(name_char('_'));
    assert!(name_char('\u{e9}'));
    assert!(!name_char('!'));
    assert!(!name_char(' '));
    assert!(!name_char('-'));
}

#[test]
fn case_insensitive_comparison_folds_ascii_only() {
    assert!(eq_ignore_case("Alice", "ALICE"));
    assert!(eq_ignore_case("alice_99", "Alice_99"));
    assert!(!eq_ignore_case("Alice", "Alicia"));
    assert!(!eq_ignore_case("Alice", "Alice "));
    assert!(str_eq("same", "same"));
    assert!(!str_eq("same", "Same"));
}
