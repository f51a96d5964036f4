use summarize_bot::consts::TELEGRAM_MAX_MESSAGE_FETCH;
use summarize_bot::ledger::Ledger;
use summarize_bot::media::MediaText;
use summarize_bot::openai::{GPTLenght, OpenAIClient};
use summarize_bot::processor::{
    load_pages, select_messages, ChatMessage, Completion, Processor, NO_MESSAGES,
    NO_MESSAGE_FOUND, PROMPT_FAILED, UNSUPPORTED_MEDIA,
};
use summarize_bot::queue::{Command, Outcome};

fn processor() -> Processor {
    Processor::new(OpenAIClient::new("key".to_string()))
}

fn msg(user: Option<&str>, from_user: bool, text: &str) -> ChatMessage {
    ChatMessage { sender_username: user.map(|u| u.to_string()), from_user, text: text.to_string() }
}

fn prompt_texts(cmds: &[Command], recipient: i64) -> Vec<String> {
    cmds.iter()
        .map(|c| match c {
            Command::SendPrompt { recipient: r, prompt } => {
                assert_eq!(*r, recipient);
                prompt.user_message.clone()
            }
            _ => panic!("expected SendPrompt"),
        })
        .collect()
}

#[test]
fn pages_follow_fetch_limit() {
    let ids: Vec<i32> = (0..250).collect();
    let pages = load_pages(&ids);
    assert_eq!(TELEGRAM_MAX_MESSAGE_FETCH, 100);
    assert_eq!(pages.iter().map(|p| p.len()).collect::<Vec<_>>(), vec![100, 100, 50]);
    assert_eq!(pages.concat(), ids);
    assert!(load_pages(&vec![]).is_empty());
    assert_eq!(load_pages(&(0..100).collect()).len(), 1);
}

#[test]
fn missing_and_filtered_messages_are_dropped() {
    let fetched = vec![
        Some(msg(Some("ann"), true, "a")),
        None,
        Some(msg(Some("bob"), true, "b")),
        Some(msg(Some("ann"), false, "channel")),
        Some(msg(None, true, "anon")),
    ];
    let all = select_messages(fetched.clone(), &None);
    assert_eq!(all.iter().map(|m| m.text.as_str()).collect::<Vec<_>>(), vec!["a", "b", "channel", "anon"]);
    let ann = select_messages(fetched, &Some("ann".to_string()));
    assert_eq!(ann.iter().map(|m| m.text.as_str()).collect::<Vec<_>>(), vec!["a"]);
}

#[test]
fn empty_chat_gives_one_notice() {
    let ledger = Ledger::new(200);
    let ids = ledger.get_messages_id(5, 50);
    let pages = load_pages(&ids);
    assert!(pages.is_empty());
    let messages = select_messages(vec![], &None);
    let p = processor();
    let r = p.prepare_summary_prompt(9, &messages, GPTLenght::Medium);
    assert_eq!(r.notices, vec![NO_MESSAGES.to_string()]);
    assert!(r.new_commands.is_empty());
    let r = p.ask_on_summary(9, "why?", &messages, GPTLenght::Medium);
    assert_eq!(r.notices, vec!["No messages found".to_string()]);
    assert!(r.new_commands.is_empty());
}

#[test]
fn summary_sends_prompts_to_recipient() {
    let messages = vec![msg(Some("b"), true, "two"), msg(Some("a"), true, "one")];
    let r = processor().prepare_summary_prompt(42, &messages, GPTLenght::Short);
    assert!(r.notices.is_empty());
    assert_eq!(prompt_texts(&r.new_commands, 42), vec!["1. [@a]: \"one\"\n2. [@b]: \"two\"\n```".to_string()]);
}

#[test]
fn ask_sends_prompts_to_recipient() {
    let messages = vec![msg(Some("a"), true, "yes")];
    let r = processor().ask_on_summary(3, "agreed?", &messages, GPTLenght::Medium);
    assert!(r.notices.is_empty());
    assert_eq!(r.new_commands.len(), 1);
    match &r.new_commands[0] {
        Command::SendPrompt { recipient, prompt } => {
            assert_eq!(*recipient, 3);
            assert!(prompt.system_message.contains("agreed?"));
        }
        _ => panic!("expected SendPrompt"),
    }
}

#[test]
fn missing_message_is_reported() {
    let r = processor().summarize_message(1, None, MediaText::NoMedia, GPTLenght::Medium);
    assert_eq!(r.notices, vec![NO_MESSAGE_FOUND.to_string()]);
    assert!(r.new_commands.is_empty());
}

#[test]
fn empty_message_is_reported() {
    let r = processor().summarize_message(1, Some(""), MediaText::NoMedia, GPTLenght::Medium);
    assert_eq!(r.notices, vec![NO_MESSAGE_FOUND.to_string()]);
    assert!(r.new_commands.is_empty());
}

#[test]
fn unsupported_media_without_text() {
    let r = processor().summarize_message(1, Some(""), MediaText::Unsupported, GPTLenght::Medium);
    assert_eq!(r.notices, vec![UNSUPPORTED_MEDIA.to_string()]);
    assert!(r.new_commands.is_empty());
}

#[test]
fn unsupported_media_with_text_summarizes_text() {
    let r = processor().summarize_message(1, Some("Look"), MediaText::Unsupported, GPTLenght::Medium);
    assert_eq!(r.notices, vec![UNSUPPORTED_MEDIA.to_string()]);
    assert_eq!(prompt_texts(&r.new_commands, 1), vec!["1. [@]: \"Look\"\n```".to_string()]);
}

#[test]
fn failed_media_step_with_text_notifies_and_summarizes() {
    let r = processor().summarize_message(1, Some("Hi"), MediaText::Failed("Failed to transcribe audio".to_string()), GPTLenght::Medium);
    assert_eq!(r.notices, vec!["Failed to transcribe audio".to_string()]);
    assert_eq!(prompt_texts(&r.new_commands, 1), vec!["1. [@]: \"Hi\"\n```".to_string()]);
}

#[test]
fn failed_media_step_notifies_once() {
    let r = processor().summarize_message(1, Some(""), MediaText::Failed("Failed to download media".to_string()), GPTLenght::Medium);
    assert_eq!(r.notices, vec!["Failed to download media".to_string()]);
    assert!(r.new_commands.is_empty());
}

#[test]
fn transcript_then_text() {
    let r = processor().summarize_message(8, Some("caption"), MediaText::Transcript("Hello there".to_string()), GPTLenght::Medium);
    assert!(r.notices.is_empty());
    assert_eq!(
        prompt_texts(&r.new_commands, 8),
        vec!["1. [@]: \"Hello there\"\n```".to_string(), "1. [@]: \"caption\"\n```".to_string()]
    );
}

#[test]
fn answer_is_delivered() {
    let d = processor().send_prompt_result(Completion::Answer("summary".to_string()));
    assert_eq!(d.message, Some("summary".to_string()));
    assert!(matches!(d.outcome, Outcome::Done(ref f) if f.is_empty()));
}

#[test]
fn provider_failure_notifies() {
    let d = processor().send_prompt_result(Completion::Failed);
    assert_eq!(d.message, Some(PROMPT_FAILED.to_string()));
    assert!(matches!(d.outcome, Outcome::Done(ref f) if f.is_empty()));
}
