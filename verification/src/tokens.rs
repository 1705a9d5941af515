//! Token counting with the `o200k_base` encoding.

use vstd::prelude::*;

verus! {

/// The number of tokens that the `o200k_base` encoder of `tiktoken_rs`
/// makes of a text, special tokens allowed; nothing where the encoder
/// reports an error.
pub uninterp spec fn o200k_token_count(text: Seq<char>) -> Option<nat>;

/// `CoreBPE::encode` of `tiktoken_rs` on the `o200k_base` encoder, with
/// every special token allowed. The count of the tokens depends on the
/// text alone; the contract gives it the name `o200k_token_count`.
#[verifier::external_body]
fn o200k_count(text: &str) -> (r: Option<usize>)
    ensures
        match r {
            Some(n) => o200k_token_count(text@) == Some(n as nat),
            None => o200k_token_count(text@) is None,
        },
{
    let bpe = tiktoken_rs::o200k_base_singleton();
    match bpe.encode(text, &bpe.special_tokens()) {
        Ok((tokens, _)) => Some(tokens.len()),
        Err(_) => None,
    }
}

/// The token count as the usage accounting reports it: capped at
/// `u32::MAX`, and 0 where the encoder fails.
pub open spec fn token_count(text: Seq<char>) -> u32 {
    match o200k_token_count(text) {
        Some(n) => if n > u32::MAX {
            u32::MAX
        } else {
            n as u32
        },
        None => 0,
    }
}

/// The token count for a count that the encoder returned.
pub fn token_count_of(counted: Option<usize>) -> (r: u32)
    ensures
        r == match counted {
            Some(n) => if n > u32::MAX {
                u32::MAX
            } else {
                n as u32
            },
            None => 0u32,
        },
{
    match counted {
        Some(n) => if n > u32::MAX as usize {
            u32::MAX
        } else {
            n as u32
        },
        None => 0,
    }
}

/// The number of tokens of `text`.
pub fn count_tokens(text: &str) -> (r: u32)
    ensures
        r == token_count(text@),
{
    token_count_of(o200k_count(text))
}

/// The number of tokens of a completion.
pub fn count_completion_tokens(completion: &str) -> (r: u32)
    ensures
        r == token_count(completion@),
{
    count_tokens(completion)
}

} // verus!
