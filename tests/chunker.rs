use summarize_bot::chunker::{pack_messages, render_line};
use summarize_bot::openai::{GPTLenght, OpenAIClient, CLOSING_MARKER};
use summarize_bot::processor::ChatMessage;

fn pair(sender: &str, text: &str) -> (String, String) {
    (sender.to_string(), text.to_string())
}

#[test]
fn line_is_numbered_and_quoted() {
    assert_eq!(render_line(12, "bob", "hi"), "12. [@bob]: \"hi\"\n");
    assert_eq!(render_line(1, "", ""), "1. [@]: \"\"\n");
}

#[test]
fn three_lines_of_twenty_in_budget_fifty() {
    let msgs = vec![pair("ab", "1234567"), pair("ab", "abcdefg"), pair("ab", "ABCDEFG")];
    assert_eq!(render_line(1, "ab", "1234567").chars().count(), 20);
    let bodies = pack_messages(&msgs, "", "", 50);
    assert_eq!(bodies.len(), 2);
    assert_eq!(bodies[0], "1. [@ab]: \"1234567\"\n2. [@ab]: \"abcdefg\"\n");
    assert_eq!(bodies[1], "1. [@ab]: \"ABCDEFG\"\n");
}

#[test]
fn empty_batch_gives_no_payload() {
    let msgs: Vec<(String, String)> = vec![];
    assert!(pack_messages(&msgs, "header", "```", 100).is_empty());
}

#[test]
fn oversized_line_is_kept_alone() {
    let long = "x".repeat(80);
    let msgs = vec![pair("a", "short"), pair("a", &long), pair("a", "tail")];
    let bodies = pack_messages(&msgs, "", "", 50);
    assert_eq!(bodies.len(), 3);
    assert_eq!(bodies[1], format!("1. [@a]: \"{}\"\n", long));
    assert!(bodies[1].chars().count() > 50);
    assert_eq!(bodies[2], "1. [@a]: \"tail\"\n");
}

#[test]
fn header_and_closing_count_against_budget() {
    let msgs = vec![pair("ab", "1234567"), pair("ab", "abcdefg")];
    // 20 + 20 lines, 5 of header and 3 of closing: 48 fits in 48, not in 47.
    let together = pack_messages(&msgs, "head:", "```", 48);
    assert_eq!(together, vec!["1. [@ab]: \"1234567\"\n2. [@ab]: \"abcdefg\"\n```".to_string()]);
    let apart = pack_messages(&msgs, "head:", "```", 47);
    assert_eq!(apart.len(), 2);
    for body in &apart {
        assert!(5 + body.chars().count() <= 47);
    }
}

#[test]
fn payloads_keep_chronological_order() {
    let msgs: Vec<(String, String)> =
        (0..30).map(|i| pair("u", &format!("message number {}", i))).collect();
    let bodies = pack_messages(&msgs, "", "", 100);
    assert!(bodies.len() > 1);
    let mut texts = Vec::new();
    for body in &bodies {
        for line in body.lines() {
            let start = line.find('"').unwrap();
            texts.push(line[start + 1..line.len() - 1].to_string());
        }
    }
    let expected: Vec<String> = msgs.iter().map(|m| m.1.clone()).collect();
    assert_eq!(texts, expected);
}

#[test]
fn history_is_summarized_oldest_first() {
    let client = OpenAIClient::new("key".to_string());
    let newest = ChatMessage { sender_username: Some("ann".to_string()), from_user: true, text: "second".to_string() };
    let oldest = ChatMessage { sender_username: None, from_user: true, text: "first".to_string() };
    let prompts = client.prepare_summarize_prompts_from_messages(&vec![newest, oldest], GPTLenght::Short);
    assert_eq!(prompts.len(), 1);
    assert_eq!(prompts[0].user_message, format!("1. [@]: \"first\"\n2. [@ann]: \"second\"\n{}", CLOSING_MARKER));
    assert!(prompts[0].system_message.contains("50 words"));
    assert_eq!(prompts[0].gpt_length, GPTLenght::Short);
}

#[test]
fn text_summary_splits_sentences() {
    let client = OpenAIClient::new("key".to_string());
    let prompts = client.prepare_text_summary("Hi! How are you? Fine.", GPTLenght::Long);
    assert_eq!(prompts.len(), 1);
    assert_eq!(
        prompts[0].user_message,
        "1. [@]: \"Hi\"\n2. [@]: \" How are you\"\n3. [@]: \" Fine\"\n4. [@]: \"\"\n```"
    );
    assert!(prompts[0].system_message.contains("200 words"));
}

#[test]
fn question_is_in_the_header() {
    let client = OpenAIClient::new("key".to_string());
    let m = ChatMessage { sender_username: Some("bo".to_string()), from_user: true, text: "ok".to_string() };
    let prompts = client.prepare_question_prompt(&vec![m], "who agreed?", GPTLenght::Medium);
    assert_eq!(prompts.len(), 1);
    assert!(prompts[0].system_message.contains("The question is:\nwho agreed?\n"));
    assert_eq!(prompts[0].user_message, "1. [@bo]: \"ok\"\n```");
}

#[test]
fn length_classes() {
    assert_eq!(GPTLenght::Short.to_max_tokens(), 256);
    assert_eq!(GPTLenght::Medium.to_max_tokens(), 512);
    assert_eq!(GPTLenght::Long.to_max_tokens(), 1024);
    assert_eq!(
        GPTLenght::Medium.to_prompt_text(),
        "The prompt response shouldn't be longer than 100 words. Please maintain the clarity given that restriction."
    );
}

#[test]
fn client_keeps_its_key() {
    let client = OpenAIClient::new("sk-test".to_string());
    assert_eq!(client.api_key(), "sk-test");
}
