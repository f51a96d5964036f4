use vstd::prelude::*;
use vstd::string::*;

use crate::consts::{DEFAULT_SUMMARY_LENGTH, MESSAGE_TO_STORE};
use crate::openai::GPTLenght;
use crate::queue::Command;
use crate::text::{decimal, decimal_of, split_on, split_on_spec};

verus! {

/// Unicode's White_Space characters, which separate the words of a command.
pub open spec fn is_space(c: char) -> bool {
    ('\u{9}' <= c && c <= '\u{d}') || c == ' ' || c == '\u{85}' || c == '\u{a0}' || c == '\u{1680}'
        || ('\u{2000}' <= c && c <= '\u{200a}') || c == '\u{2028}' || c == '\u{2029}' || c
        == '\u{202f}' || c == '\u{205f}' || c == '\u{3000}'
}

/// Whether `c` is one of Unicode's White_Space characters.
pub fn is_whitespace(c: char) -> (r: bool)
    ensures
        r == is_space(c),
{
    ('\u{9}' <= c && c <= '\u{d}') || c == ' ' || c == '\u{85}' || c == '\u{a0}' || c == '\u{1680}'
        || ('\u{2000}' <= c && c <= '\u{200a}') || c == '\u{2028}' || c == '\u{2029}' || c
        == '\u{202f}' || c == '\u{205f}' || c == '\u{3000}'
}

/// The words of `s`: its maximal runs of non-space characters, in order.
pub open spec fn words(s: Seq<char>) -> Seq<Seq<char>>
    decreases s.len(),
{
    if s.len() == 0 {
        Seq::empty()
    } else {
        let p = words(s.drop_last());
        if is_space(s.last()) {
            p
        } else if s.len() >= 2 && !is_space(s[s.len() - 2]) {
            p.update(p.len() - 1, p.last().push(s.last()))
        } else {
            p.push(seq![s.last()])
        }
    }
}

/// The characters of the text, in order.
fn chars_of(s: &str) -> (r: Vec<char>)
    ensures
        r@ == s@,
{
    let n = s.unicode_len();
    let mut out: Vec<char> = Vec::new();
    let mut i: usize = 0;
    while i < n
        invariant
            n == s@.len(),
            i <= n,
            out@ == s@.take(i as int),
        decreases n - i,
    {
        out.push(s.get_char(i));
        assert(s@.take(i + 1) =~= s@.take(i as int).push(s@[i as int]));
        i = i + 1;
    }
    assert(s@.take(n as int) =~= s@);
    out
}

/// Splits `s` into its words.
pub fn split_words(s: &str) -> (r: Vec<String>)
    ensures
        r@.map_values(|w: String| w@) == words(s@),
{
    let chars = chars_of(s);
    let n = chars.len();
    let mut out: Vec<String> = Vec::new();
    let mut start: usize = 0;
    let mut in_word = false;
    let mut i: usize = 0;
    while i < n
        invariant
            n == chars@.len(),
            chars@ == s@,
            i <= n,
            start <= i,
            in_word <==> (i > 0 && !is_space(s@[i - 1])),
            in_word ==> ({
                let ws = words(s@.take(i as int));
                &&& ws.len() == out@.len() + 1
                &&& ws.last() == s@.subrange(start as int, i as int)
                &&& forall|j: int| 0 <= j < out@.len() ==> #[trigger] out@[j]@ == ws[j]
            }),
            !in_word ==> out@.map_values(|w: String| w@) == words(s@.take(i as int)),
        decreases n - i,
    {
        let c = chars[i];
        let ghost before = s@.take(i as int);
        let ghost ws = words(before);
        proof {
            assert(s@.take(i + 1).drop_last() =~= before);
            assert(s@.take(i + 1).last() == c);
        }
        if is_whitespace(c) {
            if in_word {
                let word = String::from_str(s.substring_char(start, i));
                out.push(word);
                assert(out@.map_values(|w: String| w@) =~= ws);
            }
            in_word = false;
        } else {
            if !in_word {
                assert(out@.map_values(|w: String| w@) =~= ws);
                start = i;
                assert(s@.subrange(i as int, i + 1) =~= seq![c]);
            } else {
                assert(s@.take(i + 1)[i - 1] == s@[i - 1]);
                assert(s@.subrange(start as int, i + 1) =~= s@.subrange(start as int, i as int).push(c));
            }
            in_word = true;
        }
        i = i + 1;
    }
    if in_word {
        let word = String::from_str(s.substring_char(start, n));
        out.push(word);
    }
    proof {
        assert(s@.take(n as int) =~= s@);
        if in_word {
            assert(out@.map_values(|w: String| w@) =~= words(s@));
        }
    }
    out
}

/// Whether every character of `d` is an ASCII digit.
pub open spec fn all_digits(d: Seq<char>) -> bool {
    forall|i: int| 0 <= i < d.len() ==> '0' <= #[trigger] d[i] && d[i] <= '9'
}

/// The number that a string of ASCII digits writes in decimal.
pub open spec fn digits_value(d: Seq<char>) -> nat
    decreases d.len(),
{
    if d.len() == 0 {
        0
    } else {
        digits_value(d.drop_last()) * 10 + ((d.last() as u32) - ('0' as u32)) as nat
    }
}

/// What `u32`'s `FromStr` reads from a text: an optional `+`, then one or
/// more ASCII digits whose value fits in a `u32`; anything else is refused.
pub open spec fn parse_u32_spec(s: Seq<char>) -> Option<u32> {
    let d = if s.len() > 0 && s[0] == '+' {
        s.drop_first()
    } else {
        s
    };
    if d.len() > 0 && all_digits(d) && digits_value(d) <= u32::MAX {
        Some(digits_value(d) as u32)
    } else {
        None
    }
}

/// Reads a decimal `u32` as `u32`'s `FromStr` does.
pub fn parse_u32(s: &str) -> (r: Option<u32>)
    ensures
        r == parse_u32_spec(s@),
{
    let chars = chars_of(s);
    let n = chars.len();
    let mut start: usize = 0;
    if n > 0 && chars[0] == '+' {
        start = 1;
    }
    if start >= n {
        return None;
    }
    let ghost d = s@.subrange(start as int, n as int);
    proof {
        if start == 1 {
            assert(s@[0] == '+');
            assert(d =~= s@.drop_first());
        } else {
            assert(!(s@.len() > 0 && s@[0] == '+'));
            assert(d =~= s@);
        }
        assert(d == (if s@.len() > 0 && s@[0] == '+' {
            s@.drop_first()
        } else {
            s@
        }));
    }
    let mut value: u64 = 0;
    let mut too_big = false;
    let mut i: usize = start;
    while i < n
        invariant
            chars@ == s@,
            n == s@.len(),
            start <= i <= n,
            d == s@.subrange(start as int, n as int),
            d == (if s@.len() > 0 && s@[0] == '+' {
                s@.drop_first()
            } else {
                s@
            }),
            all_digits(s@.subrange(start as int, i as int)),
            too_big <==> digits_value(s@.subrange(start as int, i as int)) > u32::MAX,
            !too_big ==> value == digits_value(s@.subrange(start as int, i as int)),
        decreases n - i,
    {
        let c = chars[i];
        let ghost prefix = s@.subrange(start as int, i as int);
        let ghost grown = s@.subrange(start as int, i + 1);
        assert(grown.drop_last() =~= prefix);
        if c < '0' || c > '9' {
            proof {
                let k = i - start;
                assert(d[k] == c);
                assert(!('0' <= d[k] && d[k] <= '9'));
                assert(!all_digits(d));
                assert(parse_u32_spec(s@) is None);
            }
            return None;
        }
        let digit = (c as u32 - '0' as u32) as u64;
        proof {
            assert(digits_value(grown) == digits_value(prefix) * 10 + digit);
            assert(digits_value(grown) >= digits_value(prefix)) by (nonlinear_arith)
                requires
                    digits_value(grown) == digits_value(prefix) * 10 + digit,
            ;
        }
        if !too_big {
            value = value * 10 + digit;
            if value > 4294967295 {
                too_big = true;
            }
        }
        i = i + 1;
    }
    if too_big {
        None
    } else {
        Some(value as u32)
    }
}

/// `w` with its leading `@` signs removed.
pub open spec fn trim_at_signs(w: Seq<char>) -> Seq<char>
    decreases w.len(),
{
    if w.len() > 0 && w[0] == '@' {
        trim_at_signs(w.drop_first())
    } else {
        w
    }
}

/// Removes the leading `@` signs of a username.
pub fn trim_username(w: &str) -> (r: String)
    ensures
        r@ == trim_at_signs(w@),
{
    let chars = chars_of(w);
    let n = chars.len();
    let mut i: usize = 0;
    assert(w@.skip(0) =~= w@);
    while i < n && chars[i] == '@'
        invariant
            chars@ == w@,
            n == w@.len(),
            i <= n,
            trim_at_signs(w@) == trim_at_signs(w@.skip(i as int)),
        decreases n - i,
    {
        assert(w@.skip(i as int).drop_first() =~= w@.skip(i + 1));
        i = i + 1;
    }
    assert(w@.subrange(i as int, n as int) =~= w@.skip(i as int));
    String::from_str(w.substring_char(i, n))
}

/// Words joined by single spaces.
pub open spec fn joined(ws: Seq<Seq<char>>) -> Seq<char>
    decreases ws.len(),
{
    if ws.len() == 0 {
        Seq::empty()
    } else if ws.len() == 1 {
        ws[0]
    } else {
        joined(ws.drop_last()) + seq![' '] + ws.last()
    }
}

/// Joins the words from `from` on with single spaces.
pub fn join_words(ws: &Vec<String>, from: usize) -> (r: String)
    requires
        from <= ws@.len(),
    ensures
        r@ == joined(ws@.skip(from as int).map_values(|w: String| w@)),
{
    let mut out = String::new();
    let mut i: usize = from;
    while i < ws.len()
        invariant
            from <= i <= ws@.len(),
            out@ == joined(ws@.subrange(from as int, i as int).map_values(|w: String| w@)),
        decreases ws.len() - i,
    {
        let ghost before = ws@.subrange(from as int, i as int).map_values(|w: String| w@);
        let ghost after = ws@.subrange(from as int, i + 1).map_values(|w: String| w@);
        assert(after.drop_last() =~= before);
        if i > from {
            out.append(" ");
            proof {
                reveal_strlit(" ");
            }
        } else {
            assert(before.len() == 0);
        }
        out.append(ws[i].as_str());
        assert(out@ =~= joined(after));
        i = i + 1;
    }
    assert(ws@.subrange(from as int, ws@.len() as int) =~= ws@.skip(from as int));
    out
}

/// Whether `s` is the text `lit`.
fn is_text(s: &String, lit: &str) -> (r: bool)
    ensures
        r == (s@ == lit@),
{
    s.eq(&String::from_str(lit))
}

pub const USAGE_HEAD: &'static str = "Usage: ./summarize <number of messages to summarize>

We don't store your messages. We store only latest ";

pub const USAGE_TAIL: &'static str = " message ids that will be used to fetch messages and discard them after summarization.";

/// The help text: how to ask for a summary, and what is stored.
pub open spec fn usage_text() -> Seq<char> {
    USAGE_HEAD@ + decimal_of(MESSAGE_TO_STORE as nat) + USAGE_TAIL@
}

/// The help text of the bot.
pub fn usage() -> (r: String)
    ensures
        r@ == usage_text(),
{
    let mut text = String::from_str(USAGE_HEAD);
    let count = decimal(MESSAGE_TO_STORE as usize);
    text.append(count.as_str());
    text.append(USAGE_TAIL);
    text
}

pub const HELP: &'static str = "/help";

pub const SUMMARIZE: &'static str = "/summarize";

pub const SMALL: &'static str = "/small";

pub const MEDIUM: &'static str = "/medium";

pub const LARGE: &'static str = "/large";

pub const ASK: &'static str = "/ask";

/// How many messages an `/ask` looks back over.
pub const ASK_MESSAGE_COUNT: u32 = 200;

/// The length class that a summary command asks for, if it is one.
pub open spec fn summary_length(cmd: Seq<char>) -> Option<GPTLenght> {
    if cmd == SUMMARIZE@ || cmd == MEDIUM@ {
        Some(GPTLenght::Medium)
    } else if cmd == SMALL@ {
        Some(GPTLenght::Short)
    } else if cmd == LARGE@ {
        Some(GPTLenght::Long)
    } else {
        None
    }
}

/// What the bot does with a message in a group.
#[derive(Debug)]
pub enum GroupAction {
    /// Not for this bot: nothing.
    Ignore,
    /// An ordinary message: record its id in the ledger.
    Record,
    /// Post the help text.
    Help,
    /// Summarize the latest messages, optionally those of one username.
    Summarize { message_count: u32, gpt_length: GPTLenght, mentione_by_user: Option<String> },
    /// Summarize the message that the command replies to.
    SummarizeReply { message_id: i32, gpt_length: GPTLenght },
    /// Answer a question from the latest messages.
    Ask { question: String },
}

impl GroupAction {
    /// Whether the triggering message is deleted afterwards: it is for the
    /// bot's commands.
    pub open spec fn removes_trigger(self) -> bool {
        !(self is Ignore || self is Record)
    }

    /// Whether the triggering message is deleted afterwards.
    pub fn should_remove(&self) -> (r: bool)
        ensures
            r == self.removes_trigger(),
    {
        match self {
            GroupAction::Ignore | GroupAction::Record => false,
            _ => true,
        }
    }
}

/// How many messages `/summarize` covers: the number after the command,
/// else the default, and never more than the ledger keeps.
pub open spec fn summary_count(ws: Seq<Seq<char>>) -> u32 {
    let asked = if ws.len() > 1 && parse_u32_spec(ws[1]) is Some {
        parse_u32_spec(ws[1])->0
    } else {
        DEFAULT_SUMMARY_LENGTH
    };
    if asked < MESSAGE_TO_STORE {
        asked
    } else {
        MESSAGE_TO_STORE
    }
}

/// The action for a group message with text `text`. The first word is the
/// command, with an optional `@bot` suffix that must name this bot (`me`) when
/// it is not empty. `/help` posts help; `/summarize`, `/small`, `/medium` and
/// `/large` summarize (the replied-to message, if any, else the latest
/// messages: how many is the second word, and the fifth word, without leading
/// `@`, picks one sender); `/ask` asks the rest of the text as a question.
/// Other commands and messages of bots are ignored; any other message is
/// recorded.
pub open spec fn group_action_matches(
    r: GroupAction,
    text: Seq<char>,
    sender_is_bot: bool,
    me: Option<Seq<char>>,
    reply_to: Option<i32>,
) -> bool {
    let ws = words(text);
    if ws.len() == 0 {
        r is Ignore
    } else {
        let parts = split_on_spec(ws[0], seq!['@']);
        let cmd = parts[0];
        if parts.len() > 1 && parts[1].len() > 0 && Some(parts[1]) != me {
            r is Ignore
        } else if cmd == HELP@ {
            r is Help
        } else if summary_length(cmd) is Some {
            let l = summary_length(cmd)->0;
            match reply_to {
                Some(id) => r == GroupAction::SummarizeReply { message_id: id, gpt_length: l },
                None => r matches GroupAction::Summarize {
                    message_count,
                    gpt_length,
                    mentione_by_user,
                } && message_count == summary_count(ws) && gpt_length == l && (if ws.len() > 4 {
                    mentione_by_user matches Some(u) && u@ == trim_at_signs(ws[4])
                } else {
                    mentione_by_user is None
                }),
            }
        } else if cmd == ASK@ {
            r matches GroupAction::Ask { question } && question@ == joined(ws.skip(1))
        } else if (cmd.len() > 0 && cmd[0] == '/') || sender_is_bot {
            r is Ignore
        } else {
            r is Record
        }
    }
}

/// Decides what to do with a message posted in a group. `bot_username` is
/// this bot's username; `reply_to` the id of the message replied to.
pub fn process_group_message(
    text: &str,
    sender_is_bot: bool,
    bot_username: Option<&str>,
    reply_to: Option<i32>,
) -> (r: GroupAction)
    ensures
        group_action_matches(
            r,
            text@,
            sender_is_bot,
            match bot_username {
                Some(b) => Some(b@),
                None => None,
            },
            reply_to,
        ),
{
    let ws = split_words(text);
    let ghost wv = ws@.map_values(|w: String| w@);
    if ws.len() == 0 {
        return GroupAction::Ignore;
    }
    let at: [char; 1] = ['@'];
    assert(at@ =~= seq!['@']);
    let parts = split_on(ws[0].as_str(), at.as_slice());
    let ghost pv = parts@.map_values(|p: String| p@);
    proof {
        lemma_split_nonempty(wv[0], seq!['@']);
    }
    let cmd = &parts[0];
    if parts.len() > 1 && parts[1].unicode_len() > 0 {
        let named_me = match bot_username {
            Some(b) => is_text(&parts[1], b),
            None => false,
        };
        if !named_me {
            return GroupAction::Ignore;
        }
    }
    if is_text(cmd, HELP) {
        return GroupAction::Help;
    }
    let length = if is_text(cmd, SUMMARIZE) || is_text(cmd, MEDIUM) {
        Some(GPTLenght::Medium)
    } else if is_text(cmd, SMALL) {
        Some(GPTLenght::Short)
    } else if is_text(cmd, LARGE) {
        Some(GPTLenght::Long)
    } else {
        None
    };
    if let Some(gpt_length) = length {
        return match reply_to {
            Some(id) => GroupAction::SummarizeReply { message_id: id, gpt_length },
            None => {
                let asked = if ws.len() > 1 {
                    match parse_u32(ws[1].as_str()) {
                        Some(v) => v,
                        None => DEFAULT_SUMMARY_LENGTH,
                    }
                } else {
                    DEFAULT_SUMMARY_LENGTH
                };
                let message_count = if asked < MESSAGE_TO_STORE {
                    asked
                } else {
                    MESSAGE_TO_STORE
                };
                let mentione_by_user = if ws.len() > 4 {
                    Some(trim_username(ws[4].as_str()))
                } else {
                    None
                };
                GroupAction::Summarize { message_count, gpt_length, mentione_by_user }
            },
        };
    }
    if is_text(cmd, ASK) {
        let question = join_words(&ws, 1);
        assert(ws@.skip(1).map_values(|w: String| w@) =~= wv.skip(1));
        return GroupAction::Ask { question };
    }
    let slash = cmd.as_str().unicode_len() > 0 && cmd.as_str().get_char(0) == '/';
    if slash || sender_is_bot {
        GroupAction::Ignore
    } else {
        GroupAction::Record
    }
}

/// Splitting gives at least one piece.
pub proof fn lemma_split_nonempty(s: Seq<char>, marks: Seq<char>)
    ensures
        split_on_spec(s, marks).len() >= 1,
    decreases s.len(),
{
    if s.len() > 0 {
        lemma_split_nonempty(s.drop_last(), marks);
    }
}

impl GroupAction {
    /// The command that the action queues for `chat`, answering to
    /// `recipient`: the summaries and the question; none for the others.
    pub fn into_command(self, chat: i64, recipient: i64) -> (r: Option<Command>)
        ensures
            match self {
                GroupAction::Summarize { message_count, gpt_length, mentione_by_user } => r
                    == Some(
                    Command::Summarize {
                        chat,
                        recipient,
                        message_count,
                        gpt_length,
                        mentione_by_user,
                    },
                ),
                GroupAction::SummarizeReply { message_id, gpt_length } => r == Some(
                    Command::SummarizeMessage { chat, recipient, message_id, gpt_length },
                ),
                GroupAction::Ask { question } => r == Some(
                    Command::Ask {
                        chat,
                        recipient,
                        question,
                        message_count: ASK_MESSAGE_COUNT,
                        gpt_length: GPTLenght::Medium,
                    },
                ),
                _ => r is None,
            },
    {
        match self {
            GroupAction::Summarize { message_count, gpt_length, mentione_by_user } => Some(
                Command::Summarize { chat, recipient, message_count, gpt_length, mentione_by_user },
            ),
            GroupAction::SummarizeReply { message_id, gpt_length } => Some(
                Command::SummarizeMessage { chat, recipient, message_id, gpt_length },
            ),
            GroupAction::Ask { question } => Some(
                Command::Ask {
                    chat,
                    recipient,
                    question,
                    message_count: ASK_MESSAGE_COUNT,
                    gpt_length: GPTLenght::Medium,
                },
            ),
            _ => None,
        }
    }
}

/// The answer to a private command.
pub const PRIVATE_HINT: &'static str = "Write/Forward text or audio you want to get summary on";

/// What the bot does with a message sent to it privately.
#[derive(Debug, PartialEq, Eq, Structural)]
pub enum UserAction {
    /// A command: answer with a hint.
    Hint,
    /// Anything else: summarize the message itself.
    SummarizeMessage,
}

/// Decides what to do with a private message: a command gets a hint, any
/// other message is summarized.
pub fn process_user_message(text: &str) -> (r: UserAction)
    ensures
        r == (if text@.len() > 0 && text@[0] == '/' {
            UserAction::Hint
        } else {
            UserAction::SummarizeMessage
        }),
{
    if text.unicode_len() > 0 && text.get_char(0) == '/' {
        UserAction::Hint
    } else {
        UserAction::SummarizeMessage
    }
}

impl UserAction {
    /// The command a private message queues: a summary of that message, in
    /// the medium length, answered to its sender; none for a hint.
    pub fn into_command(self, chat: i64, recipient: i64, message_id: i32) -> (r: Option<Command>)
        ensures
            match self {
                UserAction::Hint => r is None,
                UserAction::SummarizeMessage => r == Some(
                    Command::SummarizeMessage {
                        chat,
                        recipient,
                        message_id,
                        gpt_length: GPTLenght::Medium,
                    },
                ),
            },
    {
        match self {
            UserAction::Hint => None,
            UserAction::SummarizeMessage => Some(
                Command::SummarizeMessage {
                    chat,
                    recipient,
                    message_id,
                    gpt_length: GPTLenght::Medium,
                },
            ),
        }
    }
}

/// Sent to a requester before the work starts.
pub const WORKING: &'static str = "Working on your request... Please, wait.";

/// Posted in the group when the requester cannot be messaged.
pub const CANNOT_MESSAGE: &'static str = "Couldn't send you a message. Please, start a conversation with me first.";

/// Posted in the group when the requester is not known.
pub const UNKNOWN_SENDER: &'static str = "Sender is unknown. Check your privacy settings.";

} // verus!
