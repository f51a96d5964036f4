use vstd::prelude::*;

use crate::chunker::{entries_of, packed_bodies};
use crate::consts::TELEGRAM_MAX_MESSAGE_FETCH;
use crate::openai::{
    prompts_for, question_header, sentence_entries, summary_header, GPTLenght, OpenAIClient,
    Prompt,
};
use crate::ledger::{most_recent_first, Ledger};
use crate::media::MediaText;
use crate::queue::{Command, Outcome};

verus! {

/// A chat message as fetched from the chat gateway: the sender's username,
/// whether the sender is a user (not a group or channel), and the text.
#[derive(Clone, Debug)]
pub struct ChatMessage {
    pub sender_username: Option<String>,
    pub from_user: bool,
    pub text: String,
}

/// The label a message is shown under in a prompt: its sender's username, or
/// nothing when the sender has none.
pub open spec fn label_of(m: ChatMessage) -> Seq<char> {
    match m.sender_username {
        Some(u) => u@,
        None => Seq::empty(),
    }
}

/// History fetched most recent first, as the chunker's chronological input.
pub open spec fn history_entries(msgs: Seq<ChatMessage>) -> Seq<(Seq<char>, Seq<char>)> {
    Seq::new(
        msgs.len(),
        |i: int| (label_of(msgs[msgs.len() - 1 - i]), msgs[msgs.len() - 1 - i].text@),
    )
}

/// Turns history fetched most recent first into chronological
/// `(sender, text)` pairs.
pub fn chronological_batch(messages: &Vec<ChatMessage>) -> (r: Vec<(String, String)>)
    ensures
        entries_of(r@) == history_entries(messages@),
{
    let mut batch: Vec<(String, String)> = Vec::new();
    let mut k: usize = messages.len();
    while k > 0
        invariant
            k <= messages.len(),
            entries_of(batch@) =~= history_entries(messages@).take(messages.len() - k),
        decreases k,
    {
        k = k - 1;
        let m = &messages[k];
        let label = match &m.sender_username {
            Some(u) => u.clone(),
            None => String::new(),
        };
        let text = m.text.clone();
        let ghost prev = batch@;
        let ghost h = history_entries(messages@);
        batch.push((label, text));
        proof {
            assert(label@ == label_of(messages@[k as int]));
            assert(entries_of(batch@) =~= entries_of(prev).push((label@, text@)));
            assert(h.take(messages.len() - k) =~= h.take(messages.len() - k - 1).push(
                h[messages.len() - k - 1],
            ));
        }
    }
    proof {
        assert(history_entries(messages@).take(messages.len() as int) =~= history_entries(
            messages@,
        ));
    }
    batch
}

/// The pages in which a list of ids is fetched: non-empty, in order, each
/// but the last holding exactly `size` ids and the last at most `size`.
pub open spec fn is_paging(pages: Seq<Seq<i32>>, ids: Seq<i32>, size: nat) -> bool {
    &&& pages.flatten_alt() == ids
    &&& forall|i: int|
        0 <= i < pages.len() ==> {
            &&& 1 <= (#[trigger] pages[i]).len() <= size
            &&& i < pages.len() - 1 ==> pages[i].len() == size
        }
}

/// Cuts the ids to load into pages no larger than the gateway's fetch limit.
pub fn load_pages(ids: &Vec<i32>) -> (r: Vec<Vec<i32>>)
    ensures
        is_paging(r@.map_values(|p: Vec<i32>| p@), ids@, TELEGRAM_MAX_MESSAGE_FETCH as nat),
{
    let size = TELEGRAM_MAX_MESSAGE_FETCH;
    let mut pages: Vec<Vec<i32>> = Vec::new();
    let mut page: Vec<i32> = Vec::new();
    let mut i: usize = 0;
    while i < ids.len()
        invariant
            i <= ids.len(),
            size == TELEGRAM_MAX_MESSAGE_FETCH,
            page@.len() < size,
            page@.len() == 0 <==> (i == 0 || pages@.len() > 0 && page@.len() == 0),
            pages@.map_values(|p: Vec<i32>| p@).flatten_alt() + page@ == ids@.take(i as int),
            forall|j: int| 0 <= j < pages@.len() ==> (#[trigger] pages@[j])@.len() == size,
        decreases ids.len() - i,
    {
        let ghost before = pages@.map_values(|p: Vec<i32>| p@);
        page.push(ids[i]);
        proof {
            assert(ids@.take(i + 1) =~= ids@.take(i as int).push(ids@[i as int]));
        }
        if page.len() == size {
            let full = page;
            pages.push(full);
            page = Vec::new();
            proof {
                let after = pages@.map_values(|p: Vec<i32>| p@);
                assert(after.drop_last() =~= before);
                assert(after.flatten_alt() == after.drop_last().flatten_alt() + after.last());
                assert(after.flatten_alt() + page@ =~= ids@.take(i + 1));
            }
        }
        i = i + 1;
    }
    let ghost full_pages = pages@.map_values(|p: Vec<i32>| p@);
    if page.len() > 0 {
        pages.push(page);
        proof {
            let after = pages@.map_values(|p: Vec<i32>| p@);
            assert(after.drop_last() =~= full_pages);
            assert(after.flatten_alt() == after.drop_last().flatten_alt() + after.last());
        }
    } else {
        assert(full_pages.flatten_alt() + page@ =~= full_pages.flatten_alt());
    }
    assert(ids@.take(ids@.len() as int) =~= ids@);
    pages
}

/// Whether a fetched message passes the optional sender filter: with a
/// filter, only messages of a user with exactly that username pass.
pub open spec fn passes_filter(m: ChatMessage, filter: Option<Seq<char>>) -> bool {
    match filter {
        None => true,
        Some(name) => m.from_user && (m.sender_username matches Some(u) && u@ == name),
    }
}

/// The messages a fetch yields: those the gateway found, that pass the filter,
/// in the order fetched.
pub open spec fn selected(fetched: Seq<Option<ChatMessage>>, filter: Option<Seq<char>>) -> Seq<
    ChatMessage,
>
    decreases fetched.len(),
{
    if fetched.len() == 0 {
        Seq::empty()
    } else {
        let prev = selected(fetched.drop_last(), filter);
        match fetched.last() {
            Some(m) => if passes_filter(m, filter) {
                prev.push(m)
            } else {
                prev
            },
            None => prev,
        }
    }
}

/// The view of an optional username filter.
pub open spec fn filter_view(filter: Option<String>) -> Option<Seq<char>> {
    match filter {
        Some(f) => Some(f@),
        None => None,
    }
}

/// Drops the ids the gateway reports missing and, with a filter, the messages
/// of other senders.
pub fn select_messages(fetched: Vec<Option<ChatMessage>>, filter: &Option<String>) -> (r: Vec<
    ChatMessage,
>)
    ensures
        r@ == selected(fetched@, filter_view(*filter)),
{
    let ghost all = fetched@;
    let mut rest = fetched;
    let mut kept: Vec<ChatMessage> = Vec::new();
    let mut i: usize = 0;
    let n = rest.len();
    while rest.len() > 0
        invariant
            n == all.len(),
            i + rest@.len() == n,
            rest@ == all.skip(i as int),
            kept@ == selected(all.take(i as int), filter_view(*filter)),
        decreases rest@.len(),
    {
        let item = rest.remove(0);
        assert(item == all[i as int]);
        proof {
            assert(all.take(i + 1).drop_last() =~= all.take(i as int));
            assert(all.take(i + 1).last() == all[i as int]);
        }
        match item {
            Some(m) => {
                let keep = match filter {
                    None => true,
                    Some(name) => m.from_user && match &m.sender_username {
                        Some(u) => u.eq(name),
                        None => false,
                    },
                };
                assert(keep == passes_filter(m, filter_view(*filter)));
                if keep {
                    kept.push(m);
                }
            },
            None => {},
        }
        i = i + 1;
        assert(rest@ =~= all.skip(i as int));
    }
    assert(all.take(n as int) =~= all);
    kept
}

/// The prompt a command sends, for a `SendPrompt`.
pub open spec fn prompt_of(c: Command) -> Prompt {
    match c {
        Command::SendPrompt { prompt, .. } => prompt,
        _ => arbitrary(),
    }
}

/// `cmds` are `SendPrompt`s to `recipient`.
pub open spec fn all_sent_to(cmds: Seq<Command>, recipient: i64) -> bool {
    forall|i: int|
        0 <= i < cmds.len() ==> (#[trigger] cmds[i] matches Command::SendPrompt { recipient: r, .. }
            && r == recipient)
}

/// What processing one command yields: notices for its recipient and the
/// follow-up commands to queue.
pub struct CommandResult {
    pub notices: Vec<String>,
    pub new_commands: Vec<Command>,
}

pub const NO_MESSAGES: &'static str = "No messages found";

pub const NO_MESSAGE_FOUND: &'static str = "No messages found. Please be aware that messages from bots are not available.";

pub const UNSUPPORTED_MEDIA: &'static str = "Unsupported media type";

pub const PROMPT_FAILED: &'static str = "Failed to summarize the chat. Try again later";

/// Wraps each prompt in a `SendPrompt` to `recipient`, in order.
fn send_commands(recipient: i64, prompts: Vec<Prompt>) -> (r: Vec<Command>)
    ensures
        all_sent_to(r@, recipient),
        r@.map_values(|c: Command| prompt_of(c)) == prompts@,
{
    let ghost all = prompts@;
    let mut rest = prompts;
    let mut cmds: Vec<Command> = Vec::new();
    while rest.len() > 0
        invariant
            cmds@.len() + rest@.len() == all.len(),
            rest@ == all.skip(cmds@.len() as int),
            all_sent_to(cmds@, recipient),
            cmds@.map_values(|c: Command| prompt_of(c)) == all.take(cmds@.len() as int),
        decreases rest@.len(),
    {
        let ghost i = cmds@.len() as int;
        let ghost before = cmds@;
        let prompt = rest.remove(0);
        assert(prompt == all[i]);
        cmds.push(Command::SendPrompt { recipient, prompt });
        assert(rest@ =~= all.skip(i + 1));
        assert(cmds@.map_values(|c: Command| prompt_of(c)) =~= before.map_values(
            |c: Command| prompt_of(c),
        ).push(all[i]));
        assert(all.take(i + 1) =~= all.take(i).push(all[i]));
    }
    assert(all.take(all.len() as int) =~= all);
    cmds
}

/// A single notice.
fn one_notice(text: &str) -> (r: Vec<String>)
    ensures
        r@.map_values(|s: String| s@) == seq![text@],
{
    let mut notices: Vec<String> = Vec::new();
    notices.push(String::from_str(text));
    assert(notices@.map_values(|s: String| s@) =~= seq![text@]);
    notices
}

/// The result of a command over chat history: a single notice when the
/// history is empty, and otherwise the prompts under `header` as `SendPrompt`s.
pub open spec fn history_result(
    r: CommandResult,
    recipient: i64,
    header: Seq<char>,
    messages: Seq<ChatMessage>,
    l: GPTLenght,
) -> bool {
    if messages.len() == 0 {
        &&& r.notices@.map_values(|s: String| s@) == seq![NO_MESSAGES@]
        &&& r.new_commands@.len() == 0
    } else {
        &&& r.notices@.len() == 0
        &&& all_sent_to(r.new_commands@, recipient)
        &&& prompts_for(
            r.new_commands@.map_values(|c: Command| prompt_of(c)),
            header,
            history_entries(messages),
            l,
        )
    }
}

/// How many prompts the summary of a free text takes.
pub open spec fn text_prompt_count(text: Seq<char>, l: GPTLenght) -> nat {
    packed_bodies(
        sentence_entries(text),
        summary_header(l),
        crate::openai::CLOSING_MARKER@,
        crate::consts::SYMBOL_PER_OPENAI_MESSAGE as nat,
    ).len()
}

/// The result of `SummarizeMessage` on a message with text `text` (`None`
/// when the gateway did not find it) whose attachment gave `media`. The
/// transcript's prompts come first, then those of the text, each text cut
/// into sentences. A failed media step gives its notice, and an attachment
/// that is not audio or video gives the "unsupported" notice, whether or not
/// the text is summarized; otherwise, with no prompt, there is one "no
/// messages found" notice.
pub open spec fn message_result(
    r: CommandResult,
    recipient: i64,
    text: Option<Seq<char>>,
    media: MediaText,
    l: GPTLenght,
) -> bool {
    let notices = r.notices@.map_values(|s: String| s@);
    let prompts = r.new_commands@.map_values(|c: Command| prompt_of(c));
    match text {
        None => {
            &&& notices == seq![NO_MESSAGE_FOUND@]
            &&& r.new_commands@.len() == 0
        },
        Some(x) => {
            let tp = match media {
                MediaText::Transcript(t) => text_prompt_count(t@, l),
                _ => 0,
            };
            &&& all_sent_to(r.new_commands@, recipient)
            &&& prompts.len() >= tp
            &&& (media matches MediaText::Transcript(t) ==> prompts_for(
                prompts.take(tp as int),
                summary_header(l),
                sentence_entries(t@),
                l,
            ))
            &&& (x.len() > 0 ==> prompts_for(
                prompts.skip(tp as int),
                summary_header(l),
                sentence_entries(x),
                l,
            ))
            &&& (x.len() == 0 ==> prompts.len() == tp)
            &&& notices == match media {
                MediaText::Failed(n) => seq![n@],
                MediaText::Unsupported => seq![UNSUPPORTED_MEDIA@],
                _ => if prompts.len() > 0 {
                    Seq::empty()
                } else {
                    seq![NO_MESSAGE_FOUND@]
                },
            }
        },
    }
}

/// The provider's reply to one prompt.
pub enum Completion {
    /// The answer text.
    Answer(String),
    /// The provider gave no answer, whatever the reason.
    Failed,
}

/// What to deliver to a `SendPrompt`'s recipient, and how the command ends.
pub struct Delivery {
    pub message: Option<String>,
    pub outcome: Outcome,
}

/// Empty input: for a chat whose ledger holds no id there is no page to
/// fetch, and a `Summarize` or `Ask` over the resulting empty history yields
/// exactly one "no messages found" notice and no follow-up command.
pub proof fn lemma_empty_chat(
    ledger: Ledger,
    chat: i64,
    count: nat,
    pages: Seq<Seq<i32>>,
    filter: Option<Seq<char>>,
    r: CommandResult,
    recipient: i64,
    header: Seq<char>,
    l: GPTLenght,
)
    requires
        ledger.log(chat).len() == 0,
        is_paging(
            pages,
            most_recent_first(ledger.log(chat), count),
            TELEGRAM_MAX_MESSAGE_FETCH as nat,
        ),
        history_result(r, recipient, header, selected(Seq::empty(), filter), l),
    ensures
        pages.len() == 0,
        r.notices@.map_values(|s: String| s@) == seq![NO_MESSAGES@],
        r.new_commands@.len() == 0,
{
    if pages.len() > 0 {
        pages.lemma_flatten_length_ge_single_element_length(0);
        assert(pages[0].len() >= 1);
    }
}

/// Makes the decisions of the command processor. Fetching, transcoding and
/// sending happen outside; the results come in as plain values.
pub struct Processor {
    openai: OpenAIClient,
}

impl Processor {
    pub fn new(openai: OpenAIClient) -> (r: Self)
        ensures
            r.client() == openai,
    {
        Processor { openai }
    }

    /// The provider client of this processor.
    pub closed spec fn client(&self) -> OpenAIClient {
        self.openai
    }

    /// The provider client, for the calls that happen outside.
    pub fn openai(&self) -> (r: &OpenAIClient)
        ensures
            *r == self.client(),
    {
        &self.openai
    }

    /// `Summarize`: `messages` is the selected history, most recent first.
    pub fn prepare_summary_prompt(
        &self,
        recipient: i64,
        messages: &Vec<ChatMessage>,
        gpt_length: GPTLenght,
    ) -> (r: CommandResult)
        ensures
            history_result(r, recipient, summary_header(gpt_length), messages@, gpt_length),
    {
        if messages.len() == 0 {
            return CommandResult { notices: one_notice(NO_MESSAGES), new_commands: Vec::new() };
        }
        let prompts = self.openai.prepare_summarize_prompts_from_messages(messages, gpt_length);
        CommandResult { notices: Vec::new(), new_commands: send_commands(recipient, prompts) }
    }

    /// `Ask`: `messages` is the history, most recent first.
    pub fn ask_on_summary(
        &self,
        recipient: i64,
        question: &str,
        messages: &Vec<ChatMessage>,
        gpt_length: GPTLenght,
    ) -> (r: CommandResult)
        ensures
            history_result(
                r,
                recipient,
                question_header(question@, gpt_length),
                messages@,
                gpt_length,
            ),
    {
        if messages.len() == 0 {
            return CommandResult { notices: one_notice(NO_MESSAGES), new_commands: Vec::new() };
        }
        let prompts = self.openai.prepare_question_prompt(messages, question, gpt_length);
        CommandResult { notices: Vec::new(), new_commands: send_commands(recipient, prompts) }
    }

    /// `SummarizeMessage`: `message_text` is the message's text, `None` when
    /// the gateway did not find it; `media` is how its attachment went.
    pub fn summarize_message(
        &self,
        recipient: i64,
        message_text: Option<&str>,
        media: MediaText,
        gpt_length: GPTLenght,
    ) -> (r: CommandResult)
        ensures
            message_result(
                r,
                recipient,
                match message_text {
                    Some(t) => Some(t@),
                    None => None,
                },
                media,
                gpt_length,
            ),
    {
        let text = match message_text {
            None => {
                return CommandResult {
                    notices: one_notice(NO_MESSAGE_FOUND),
                    new_commands: Vec::new(),
                };
            },
            Some(t) => t,
        };
        let ghost media_in = media;
        let mut cmds: Vec<Command> = Vec::new();
        let mut notices: Vec<String> = Vec::new();
        match media {
            MediaText::Transcript(t) => {
                let prompts = self.openai.prepare_text_summary(t.as_str(), gpt_length);
                cmds = send_commands(recipient, prompts);
            },
            MediaText::Failed(n) => {
                notices.push(n);
            },
            MediaText::Unsupported => {
                notices = one_notice(UNSUPPORTED_MEDIA);
            },
            MediaText::NoMedia => {},
        }
        let ghost tp = cmds@.len();
        let ghost first = cmds@;
        if !text.is_empty() {
            let prompts = self.openai.prepare_text_summary(text, gpt_length);
            let mut more = send_commands(recipient, prompts);
            let ghost second = more@;
            cmds.append(&mut more);
            proof {
                let f = |c: Command| prompt_of(c);
                assert(cmds@.map_values(f).take(tp as int) =~= first.map_values(f));
                assert(cmds@.map_values(f).skip(tp as int) =~= second.map_values(f));
                assert forall|i: int| 0 <= i < cmds@.len() implies (#[trigger] cmds@[i] matches Command::SendPrompt { recipient: r, .. } && r == recipient) by {
                    if i >= tp {
                        assert(cmds@[i] == second[i - tp]);
                    }
                }
            }
        } else {
            proof {
                let f = |c: Command| prompt_of(c);
                assert(cmds@.map_values(f).take(tp as int) =~= cmds@.map_values(f));
            }
        }
        if notices.len() == 0 && cmds.len() == 0 {
            notices = one_notice(NO_MESSAGE_FOUND);
        } else {
            proof {
                if notices@.len() == 1 {
                    assert(notices@.map_values(|s: String| s@) =~= seq![notices@[0]@]);
                } else {
                    assert(notices@.map_values(|s: String| s@) =~= Seq::<Seq<char>>::empty());
                }
            }
        }
        CommandResult { notices, new_commands: cmds }
    }

    /// `SendPrompt`: an answer is delivered and ends the command; a failure
    /// tells the recipient and ends the command too. A delivery failure is
    /// never retried behind the user's back.
    pub fn send_prompt_result(&self, reply: Completion) -> (r: Delivery)
        ensures
            match reply {
                Completion::Answer(a) => r.message == Some(a) && (r.outcome matches Outcome::Done(f)
                    && f@.len() == 0),
                Completion::Failed => (r.message matches Some(m) && m@ == PROMPT_FAILED@) && (
                r.outcome matches Outcome::Done(f) && f@.len() == 0),
            },
    {
        match reply {
            Completion::Answer(a) => Delivery { message: Some(a), outcome: Outcome::Done(Vec::new()) },
            Completion::Failed => Delivery {
                message: Some(String::from_str(PROMPT_FAILED)),
                outcome: Outcome::Done(Vec::new()),
            },
        }
    }
}

} // verus!
