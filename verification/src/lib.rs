//! A gateway between OpenAI-style chat completions and an upstream bot
//! service: the rules that translate requests, events and replies, with
//! their contracts.
//!
//! Text is modelled as `Seq<char>`, and every data type has a model
//! (`deep_view`) in which the contracts are stated.

pub mod attachments;
pub mod cache;
pub mod chat;
pub mod content;
pub mod context;
pub mod decimal;
pub mod errors;
pub mod events;
pub mod http;
pub mod json;
pub mod ledger;
pub mod media;
pub mod models;
pub mod openai;
pub mod placeholders;
pub mod record;
pub mod request;
pub mod split;
pub mod store;
pub mod stream;
pub mod stream_proofs;
pub mod text;
pub mod thinking;
pub mod thinking_proofs;
pub mod tokens;
pub mod tools;
pub mod truncate;
pub mod upstream;
