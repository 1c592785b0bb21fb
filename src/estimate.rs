use vstd::prelude::*;

use crate::limiter::AzureOpenAIRateLimiter;
use crate::text::{chars_of, starts_with, starts_with_str};

verus! {

/// The byte-pair encodings that token estimates use.
#[derive(Debug, Clone, Copy, PartialEq, Eq, Structural)]
pub enum TokenEncoding {
    /// For GPT-4o, GPT-4.1, GPT-5 and the `o1`/`o3` reasoning models.
    O200kBase,
    /// For older models.
    Cl100kBase,
}

/// The encoding that a model name calls for.
pub open spec fn encoding_of(model: Seq<char>) -> TokenEncoding {
    if starts_with(model, "gpt-4o"@) || starts_with(model, "gpt-4.1"@) || starts_with(model, "o1"@)
        || starts_with(model, "o3"@) || starts_with(model, "gpt-5"@) {
        TokenEncoding::O200kBase
    } else {
        TokenEncoding::Cl100kBase
    }
}

/// How many tokens `tiktoken_rs::o200k_base` encodes a text into, special tokens
/// included; `None` when the encoding cannot be loaded or fails on the text.
pub uninterp spec fn o200k_token_count(s: Seq<char>) -> Option<nat>;

/// How many tokens `tiktoken_rs::cl100k_base` encodes a text into, special tokens
/// included; `None` when the encoding cannot be loaded or fails on the text.
pub uninterp spec fn cl100k_token_count(s: Seq<char>) -> Option<nat>;

/// Counts tokens under `o200k_base`.
///
/// Relies on `tiktoken_rs::o200k_base` and `CoreBPE::encode` with all special tokens
/// allowed, which reports a regex failure as an error instead of panicking.
#[verifier::external_body]
fn count_o200k(text: &str) -> (r: Option<usize>)
    ensures
        match r {
            Some(n) => o200k_token_count(text@) == Some(n as nat),
            None => o200k_token_count(text@) is None,
        },
{
    tiktoken_rs::o200k_base().ok().and_then(
        |enc| enc.encode(text, &enc.special_tokens()).ok().map(|(tokens, _)| tokens.len()),
    )
}

/// Counts tokens under `cl100k_base`.
///
/// Relies on `tiktoken_rs::cl100k_base` and `CoreBPE::encode` with all special tokens
/// allowed, which reports a regex failure as an error instead of panicking.
#[verifier::external_body]
fn count_cl100k(text: &str) -> (r: Option<usize>)
    ensures
        match r {
            Some(n) => cl100k_token_count(text@) == Some(n as nat),
            None => cl100k_token_count(text@) is None,
        },
{
    tiktoken_rs::cl100k_base().ok().and_then(
        |enc| enc.encode(text, &enc.special_tokens()).ok().map(|(tokens, _)| tokens.len()),
    )
}

/// The token estimate from the counts of the model's encoding and of the fallback
/// `cl100k_base`: the model's count, else the fallback's, else zero; held at the
/// largest `u32`.
pub open spec fn estimate_from_counts(
    encoding: TokenEncoding,
    o200k: Option<nat>,
    cl100k: Option<nat>,
) -> u32 {
    let n = match (encoding, o200k, cl100k) {
        (TokenEncoding::O200kBase, Some(n), _) => n,
        (_, _, Some(n)) => n,
        _ => 0,
    };
    if n <= u32::MAX {
        n as u32
    } else {
        u32::MAX
    }
}

impl AzureOpenAIRateLimiter {
    /// The encoding that `model` calls for (see `encoding_of`).
    pub fn encoding_for_model(model: &str) -> (r: TokenEncoding)
        ensures
            r == encoding_of(model@),
    {
        let m = chars_of(model);
        if starts_with_str(&m, "gpt-4o") || starts_with_str(&m, "gpt-4.1") || starts_with_str(
            &m,
            "o1",
        ) || starts_with_str(&m, "o3") || starts_with_str(&m, "gpt-5") {
            TokenEncoding::O200kBase
        } else {
            TokenEncoding::Cl100kBase
        }
    }

    /// Estimates the tokens of `text` for `model`, special tokens included, to stay
    /// conservative.
    pub fn estimate_tokens_for_model(model: &str, text: &str) -> (r: u32)
        ensures
            r == estimate_from_counts(
                encoding_of(model@),
                o200k_token_count(text@),
                cl100k_token_count(text@),
            ),
    {
        let encoding = Self::encoding_for_model(model);
        let count: Option<usize> = match encoding {
            TokenEncoding::O200kBase => match count_o200k(text) {
                Some(n) => Some(n),
                None => count_cl100k(text),
            },
            TokenEncoding::Cl100kBase => count_cl100k(text),
        };
        let n: usize = match count {
            Some(n) => n,
            None => 0,
        };
        if n as u64 <= u32::MAX as u64 {
            n as u32
        } else {
            u32::MAX
        }
    }
}

} // verus!
