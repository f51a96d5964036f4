use vstd::prelude::*;

verus! {

/// How many message ids the ledger keeps for each chat.
pub const MESSAGE_TO_STORE: u32 = 200;

/// How many messages `/summarize` covers when no count is given.
pub const DEFAULT_SUMMARY_LENGTH: u32 = 100;

/// Size budget, in characters, of one prompt sent to the completion provider.
pub const SYMBOL_PER_OPENAI_MESSAGE: usize = 12000;

/// How many messages the chat gateway hands out in one fetch.
pub const TELEGRAM_MAX_MESSAGE_FETCH: usize = 100;

/// How long, in seconds, the scheduler waits before looking at an empty
/// queue again.
pub const IDLE_POLL_SECS: u64 = 1;

/// How long, in seconds, the scheduler waits before retrying a command that
/// failed transiently.
pub const RETRY_COOLDOWN_SECS: u64 = 60;

/// Where downloaded media and transcoded audio are kept while in use.
pub const MEDIA_DIR: &'static str = "./media";

} // verus!
