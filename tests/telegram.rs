use summarize_bot::openai::GPTLenght;
use summarize_bot::queue::Command;
use summarize_bot::telegram::{
    is_whitespace, join_words, parse_u32, process_group_message, process_user_message,
    split_words, trim_username, usage, GroupAction, UserAction,
};

#[test]
fn words_split_on_any_whitespace() {
    assert_eq!(split_words("  /ask\twhy  not\u{3000}now \n"), vec!["/ask", "why", "not", "now"]);
    assert!(split_words("   ").is_empty());
    assert!(split_words("").is_empty());
    assert!(is_whitespace('\u{a0}'));
    assert!(!is_whitespace('x'));
}

#[test]
fn counts_parse_like_u32() {
    assert_eq!(parse_u32("50"), Some(50));
    assert_eq!(parse_u32("+7"), Some(7));
    assert_eq!(parse_u32("4294967295"), Some(u32::MAX));
    assert_eq!(parse_u32("4294967296"), None);
    assert_eq!(parse_u32("+"), None);
    assert_eq!(parse_u32(""), None);
    assert_eq!(parse_u32("-1"), None);
    assert_eq!(parse_u32("12a"), None);
}

#[test]
fn usernames_lose_leading_at() {
    assert_eq!(trim_username("@@ann"), "ann");
    assert_eq!(trim_username("bo@b"), "bo@b");
}

#[test]
fn words_are_joined_with_spaces() {
    let ws = vec!["a".to_string(), "b".to_string(), "c".to_string()];
    assert_eq!(join_words(&ws, 1), "b c");
    assert_eq!(join_words(&ws, 3), "");
}

#[test]
fn help_text_names_capacity() {
    let text = usage();
    assert!(text.starts_with("Usage: ./summarize <number of messages to summarize>"));
    assert!(text.contains("latest 200 message ids"));
}

#[test]
fn summarize_with_count_and_filter() {
    match process_group_message("/summarize 50 a b @ann", false, Some("bot"), None) {
        GroupAction::Summarize { message_count, gpt_length, mentione_by_user } => {
            assert_eq!(message_count, 50);
            assert_eq!(gpt_length, GPTLenght::Medium);
            assert_eq!(mentione_by_user, Some("ann".to_string()));
        }
        other => panic!("{:?}", other),
    }
}

#[test]
fn summarize_count_defaults_and_caps() {
    match process_group_message("/large", false, None, None) {
        GroupAction::Summarize { message_count, gpt_length, mentione_by_user } => {
            assert_eq!(message_count, 100);
            assert_eq!(gpt_length, GPTLenght::Long);
            assert_eq!(mentione_by_user, None);
        }
        other => panic!("{:?}", other),
    }
    match process_group_message("/small 5000", false, None, None) {
        GroupAction::Summarize { message_count, gpt_length, .. } => {
            assert_eq!(message_count, 200);
            assert_eq!(gpt_length, GPTLenght::Short);
        }
        other => panic!("{:?}", other),
    }
}

#[test]
fn summarize_reply_targets_message() {
    match process_group_message("/medium@bot", false, Some("bot"), Some(77)) {
        GroupAction::SummarizeReply { message_id, gpt_length } => {
            assert_eq!(message_id, 77);
            assert_eq!(gpt_length, GPTLenght::Medium);
        }
        other => panic!("{:?}", other),
    }
}

#[test]
fn commands_for_other_bots_are_ignored() {
    assert!(matches!(process_group_message("/summarize@other", false, Some("bot"), None), GroupAction::Ignore));
    assert!(matches!(process_group_message("/help@", false, Some("bot"), None), GroupAction::Help));
}

#[test]
fn ask_takes_rest_as_question() {
    let action = process_group_message("/ask  who  won?", false, Some("bot"), None);
    assert!(action.should_remove());
    match action.into_command(-5, 9) {
        Some(Command::Ask { chat, recipient, question, message_count, gpt_length }) => {
            assert_eq!((chat, recipient), (-5, 9));
            assert_eq!(question, "who won?");
            assert_eq!(message_count, 200);
            assert_eq!(gpt_length, GPTLenght::Medium);
        }
        other => panic!("{:?}", other),
    }
}

#[test]
fn plain_messages_are_recorded() {
    let action = process_group_message("hello all", false, Some("bot"), None);
    assert!(matches!(action, GroupAction::Record));
    assert!(!action.should_remove());
    assert!(action.into_command(1, 2).is_none());
    assert!(matches!(process_group_message("hello", true, Some("bot"), None), GroupAction::Ignore));
    assert!(matches!(process_group_message("/start", false, Some("bot"), None), GroupAction::Ignore));
    assert!(matches!(process_group_message("   ", false, Some("bot"), None), GroupAction::Ignore));
}

#[test]
fn private_messages() {
    assert_eq!(process_user_message("/start"), UserAction::Hint);
    assert_eq!(process_user_message("forwarded text"), UserAction::SummarizeMessage);
    assert_eq!(process_user_message(""), UserAction::SummarizeMessage);
}

#[test]
fn private_message_queues_its_summary() {
    match process_user_message("please read").into_command(4, 5, 6) {
        Some(Command::SummarizeMessage { chat, recipient, message_id, gpt_length }) => {
            assert_eq!((chat, recipient, message_id), (4, 5, 6));
            assert_eq!(gpt_length, GPTLenght::Medium);
        }
        other => panic!("{:?}", other),
    }
    assert!(process_user_message("/help").into_command(4, 5, 6).is_none());
}
