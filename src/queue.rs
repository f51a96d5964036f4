use vstd::prelude::*;

use crate::openai::{GPTLenght, Prompt};

verus! {

/// One job of the scheduler. Chats and recipients are named by their ids.
#[derive(Clone, Debug)]
pub enum Command {
    /// Summarize the latest `message_count` messages of `chat`, optionally only
    /// those written by one username.
    Summarize {
        chat: i64,
        recipient: i64,
        message_count: u32,
        gpt_length: GPTLenght,
        mentione_by_user: Option<String>,
    },
    /// Summarize one message: its text and any audio or video it carries.
    SummarizeMessage { chat: i64, recipient: i64, message_id: i32, gpt_length: GPTLenght },
    /// Send one prompt to the completion provider and deliver the answer.
    SendPrompt { recipient: i64, prompt: Prompt },
    /// Answer `question` from the latest `message_count` messages of `chat`.
    Ask { chat: i64, recipient: i64, question: String, message_count: u32, gpt_length: GPTLenght },
}

/// How the processor ended one attempt at the head command.
pub enum Outcome {
    /// Success, with the follow-up commands to queue.
    Done(Vec<Command>),
    /// A transient provider failure: the same command is tried again after a
    /// cooldown.
    Retry,
    /// A failure that retrying cannot mend: the command is dropped.
    Failed,
}

/// What the scheduler loop does next.
#[derive(Clone, Copy, Debug, PartialEq, Eq, Structural)]
pub enum LoopAction {
    /// Hand the head command to the processor.
    Run,
    /// The queue is empty: wait for the idle interval.
    Idle,
    /// Wait for the cooldown, then run the same head again.
    Cooldown,
}

/// The queue once its head has completed, with `follow_ups` appended.
pub open spec fn finished(q: Seq<Command>, follow_ups: Seq<Command>) -> Seq<Command> {
    q.drop_first() + follow_ups
}

/// The queue after one attempt at its head ended with `o`.
pub open spec fn after_outcome(q: Seq<Command>, o: Outcome) -> Seq<Command> {
    match o {
        Outcome::Done(f) => finished(q, f@),
        Outcome::Retry => q,
        Outcome::Failed => finished(q, Seq::empty()),
    }
}

/// What the loop does on a queue in state `q`.
pub open spec fn action_for(q: Seq<Command>) -> LoopAction {
    if q.len() == 0 {
        LoopAction::Idle
    } else {
        LoopAction::Run
    }
}

/// The commands enqueued by a run of steps (`Some` enqueues, `None` does not).
pub open spec fn enqueued(steps: Seq<Option<Command>>) -> Seq<Command>
    decreases steps.len(),
{
    if steps.len() == 0 {
        Seq::empty()
    } else {
        match steps.last() {
            Some(c) => enqueued(steps.drop_last()).push(c),
            None => enqueued(steps.drop_last()),
        }
    }
}

/// The queue after a run of steps in which each `Some(c)` enqueues `c` and
/// each `None` completes the head, if any, with no follow-ups.
pub open spec fn drained(q: Seq<Command>, steps: Seq<Option<Command>>) -> Seq<Command>
    decreases steps.len(),
{
    if steps.len() == 0 {
        q
    } else {
        let p = drained(q, steps.drop_last());
        match steps.last() {
            Some(c) => p.push(c),
            None => if p.len() == 0 {
                p
            } else {
                finished(p, Seq::empty())
            },
        }
    }
}

/// The commands that the same run of steps completed, in completion order.
pub open spec fn completed(q: Seq<Command>, steps: Seq<Option<Command>>) -> Seq<Command>
    decreases steps.len(),
{
    if steps.len() == 0 {
        Seq::empty()
    } else {
        let p = drained(q, steps.drop_last());
        let done = completed(q, steps.drop_last());
        match steps.last() {
            Some(c) => done,
            None => if p.len() == 0 {
                done
            } else {
                done.push(p[0])
            },
        }
    }
}

/// The queue after a run of steps in which each `Some(c)` enqueues `c` and
/// each `None` is a transient failure of the head.
pub open spec fn retried(q: Seq<Command>, steps: Seq<Option<Command>>) -> Seq<Command>
    decreases steps.len(),
{
    if steps.len() == 0 {
        q
    } else {
        let p = retried(q, steps.drop_last());
        match steps.last() {
            Some(c) => p.push(c),
            None => after_outcome(p, Outcome::Retry),
        }
    }
}

/// A success with no follow-up, and a failure that is not retried, both just
/// remove the head: they are the `None` steps of `drained` and `completed`.
pub proof fn lemma_terminal_without_follow_ups(q: Seq<Command>, o: Outcome)
    requires
        o is Failed || (o matches Outcome::Done(f) && f@.len() == 0),
    ensures
        after_outcome(q, o) == finished(q, Seq::empty()),
{
    if let Outcome::Done(f) = o {
        assert(f@ =~= Seq::<Command>::empty());
    }
}

/// FIFO: with no retries, commands complete in the order they were queued.
/// Whatever the interleaving of enqueues and completions, what has completed
/// followed by what still waits is the initial queue followed by everything
/// enqueued, so the completed commands are a prefix of that order.
pub proof fn lemma_fifo(q: Seq<Command>, steps: Seq<Option<Command>>)
    ensures
        completed(q, steps) + drained(q, steps) == q + enqueued(steps),
        completed(q, steps) == (q + enqueued(steps)).take(completed(q, steps).len() as int),
    decreases steps.len(),
{
    if steps.len() > 0 {
        lemma_fifo(q, steps.drop_last());
        let p = drained(q, steps.drop_last());
        let done = completed(q, steps.drop_last());
        match steps.last() {
            Some(c) => {
                assert(done + p.push(c) =~= (done + p).push(c));
            },
            None => {
                if p.len() > 0 {
                    assert(done.push(p[0]) + finished(p, Seq::empty()) =~= done + p);
                }
            },
        }
    }
    let all = q + enqueued(steps);
    assert(all.take(completed(q, steps).len() as int) =~= completed(q, steps));
}

/// Retry: while the head keeps failing transiently it stays at the head, and
/// commands enqueued meanwhile wait behind it in arrival order.
pub proof fn lemma_retry_keeps_head(q: Seq<Command>, steps: Seq<Option<Command>>)
    requires
        q.len() > 0,
    ensures
        retried(q, steps) == q + enqueued(steps),
        retried(q, steps)[0] == q[0],
        action_for(retried(q, steps)) == LoopAction::Run,
    decreases steps.len(),
{
    if steps.len() > 0 {
        lemma_retry_keeps_head(q, steps.drop_last());
        let p = retried(q, steps.drop_last());
        match steps.last() {
            Some(c) => {
                assert(p.push(c) =~= q + enqueued(steps));
            },
            None => {},
        }
    } else {
        assert(q + Seq::<Command>::empty() =~= q);
    }
}

/// The pending commands, oldest first.
pub struct CommandQueue {
    items: Vec<Command>,
}

impl CommandQueue {
    /// The pending commands, oldest first.
    pub closed spec fn items(&self) -> Seq<Command> {
        self.items@
    }

    pub fn new() -> (r: Self)
        ensures
            r.items() == Seq::<Command>::empty(),
    {
        CommandQueue { items: Vec::new() }
    }

    pub fn len(&self) -> (r: usize)
        ensures
            r == self.items().len(),
    {
        self.items.len()
    }

    /// Appends an arriving command at the tail.
    pub fn enqueue(&mut self, command: Command)
        ensures
            final(self).items() == old(self).items().push(command),
    {
        self.items.push(command);
    }

    /// The command to run next: the oldest one, left in place.
    pub fn head(&self) -> (r: Option<&Command>)
        ensures
            r is None <==> self.items().len() == 0,
            r matches Some(c) ==> *c == self.items()[0],
    {
        if self.items.len() == 0 {
            None
        } else {
            Some(&self.items[0])
        }
    }

    /// What the loop does next: run the head, or wait while the queue is empty.
    pub fn next_action(&self) -> (r: LoopAction)
        ensures
            r == action_for(self.items()),
    {
        if self.items.len() == 0 {
            LoopAction::Idle
        } else {
            LoopAction::Run
        }
    }

    /// Records how the attempt at the head ended. Success appends the
    /// follow-ups and then removes the head; a transient failure keeps it for
    /// a retry after the cooldown; another failure removes it.
    pub fn finish(&mut self, outcome: Outcome) -> (r: LoopAction)
        requires
            old(self).items().len() > 0,
        ensures
            final(self).items() == after_outcome(old(self).items(), outcome),
            r == match outcome {
                Outcome::Retry => LoopAction::Cooldown,
                _ => action_for(final(self).items()),
            },
    {
        match outcome {
            Outcome::Done(follow_ups) => {
                let ghost f = follow_ups@;
                let mut follow_ups = follow_ups;
                self.items.append(&mut follow_ups);
                self.items.remove(0);
                assert(self.items@ =~= finished(old(self).items@, f));
                self.next_action()
            },
            Outcome::Retry => LoopAction::Cooldown,
            Outcome::Failed => {
                self.items.remove(0);
                assert(self.items@ =~= finished(old(self).items@, Seq::empty()));
                self.next_action()
            },
        }
    }
}

} // verus!
