//! Core of a chat-digest bot: a bounded per-chat ledger of message ids, a
//! chunker that packs chat history into size-bounded prompts, a FIFO command
//! queue with retry, and the decisions that turn one command into notices and
//! follow-up commands.

pub mod consts;
pub mod text;
pub mod chunker;
pub mod openai;
pub mod processor;
pub mod ledger;
pub mod queue;
pub mod media;
pub mod telegram;
