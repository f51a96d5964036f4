use summarize_bot::openai::{GPTLenght, Prompt};
use summarize_bot::queue::{Command, CommandQueue, LoopAction, Outcome};

fn summarize(chat: i64) -> Command {
    Command::Summarize {
        chat,
        recipient: 1,
        message_count: 10,
        gpt_length: GPTLenght::Medium,
        mentione_by_user: None,
    }
}

fn send(recipient: i64, text: &str) -> Command {
    Command::SendPrompt {
        recipient,
        prompt: Prompt {
            system_message: "s".to_string(),
            user_message: text.to_string(),
            gpt_length: GPTLenght::Short,
        },
    }
}

fn chat_of(c: &Command) -> i64 {
    match c {
        Command::Summarize { chat, .. } => *chat,
        Command::SendPrompt { recipient, .. } => *recipient,
        _ => panic!("unexpected command"),
    }
}

#[test]
fn empty_queue_idles() {
    let q = CommandQueue::new();
    assert!(q.head().is_none());
    assert_eq!(q.next_action(), LoopAction::Idle);
    assert_eq!(q.len(), 0);
}

#[test]
fn commands_run_in_enqueue_order() {
    let mut q = CommandQueue::new();
    q.enqueue(summarize(1));
    q.enqueue(summarize(2));
    assert_eq!(chat_of(q.head().unwrap()), 1);
    assert_eq!(q.finish(Outcome::Done(vec![])), LoopAction::Run);
    q.enqueue(summarize(3));
    assert_eq!(chat_of(q.head().unwrap()), 2);
    assert_eq!(q.finish(Outcome::Failed), LoopAction::Run);
    assert_eq!(chat_of(q.head().unwrap()), 3);
    assert_eq!(q.finish(Outcome::Done(vec![])), LoopAction::Idle);
    assert!(q.head().is_none());
}

#[test]
fn retry_keeps_head_in_place() {
    let mut q = CommandQueue::new();
    q.enqueue(summarize(1));
    q.enqueue(summarize(2));
    assert_eq!(q.finish(Outcome::Retry), LoopAction::Cooldown);
    q.enqueue(summarize(3));
    assert_eq!(q.finish(Outcome::Retry), LoopAction::Cooldown);
    assert_eq!(chat_of(q.head().unwrap()), 1);
    assert_eq!(q.len(), 3);
    assert_eq!(q.finish(Outcome::Done(vec![])), LoopAction::Run);
    assert_eq!(chat_of(q.head().unwrap()), 2);
}

#[test]
fn follow_ups_go_behind_waiting_commands() {
    let mut q = CommandQueue::new();
    q.enqueue(summarize(1));
    q.enqueue(summarize(2));
    q.finish(Outcome::Done(vec![send(10, "a"), send(11, "b")]));
    let mut order = Vec::new();
    while let Some(c) = q.head() {
        order.push(chat_of(c));
        q.finish(Outcome::Done(vec![]));
    }
    assert_eq!(order, vec![2, 10, 11]);
}
