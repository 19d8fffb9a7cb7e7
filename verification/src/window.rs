//! Context-window truncation of an encoded prompt.

use vstd::prelude::*;

verus! {

/// Number of token positions kept free for generation.
pub const GENERATION_MARGIN: i32 = 32;

/// The longest prompt, in tokens, that a window of `n_ctx` positions admits:
/// the window less the generation margin, and never less than one token.
pub open spec fn prompt_limit(n_ctx: int) -> int {
    if n_ctx - GENERATION_MARGIN >= 1 {
        n_ctx - GENERATION_MARGIN
    } else {
        1
    }
}

/// What remains of a prompt in a window of `n_ctx` positions: the whole
/// prompt while it fits under the limit, else its newest
/// `prompt_limit(n_ctx)` tokens.
pub open spec fn windowed(tokens: Seq<i32>, n_ctx: int) -> Seq<i32> {
    if tokens.len() <= prompt_limit(n_ctx) {
        tokens
    } else {
        tokens.subrange(tokens.len() - prompt_limit(n_ctx), tokens.len() as int)
    }
}

/// Computes `prompt_limit` for a window size.
pub fn prompt_limit_of(n_ctx: i32) -> (limit: usize)
    ensures
        limit == prompt_limit(n_ctx as int),
{
    if n_ctx > GENERATION_MARGIN {
        (n_ctx - GENERATION_MARGIN) as usize
    } else {
        1
    }
}

/// Drops the oldest tokens of a prompt that would not leave the generation
/// margin free in a window of `n_ctx` positions.
pub fn truncate_to_window(tokens: Vec<i32>, n_ctx: i32) -> (kept: Vec<i32>)
    ensures
        kept@ == windowed(tokens@, n_ctx as int),
{
    let limit: usize = prompt_limit_of(n_ctx);
    let mut tokens = tokens;
    if tokens.len() > limit {
        let dropped: usize = tokens.len() - limit;
        let kept = tokens.split_off(dropped);
        kept
    } else {
        tokens
    }
}

/// A prompt no longer than the limit passes through the window untouched.
pub proof fn lemma_short_prompt_untouched(tokens: Seq<i32>, n_ctx: int)
    requires
        tokens.len() <= prompt_limit(n_ctx),
    ensures
        windowed(tokens, n_ctx) == tokens,
{
}

/// A prompt longer than the limit loses exactly its oldest tokens: what is
/// kept has the limit's length, is the prompt's tail in order, and, in a
/// window wider than the margin, leaves the margin free.
pub proof fn lemma_long_prompt_keeps_newest(tokens: Seq<i32>, n_ctx: int)
    requires
        tokens.len() > prompt_limit(n_ctx),
    ensures
        windowed(tokens, n_ctx).len() == prompt_limit(n_ctx),
        forall|i: int|
            0 <= i < prompt_limit(n_ctx) ==> windowed(tokens, n_ctx)[i] == tokens[tokens.len()
                - prompt_limit(n_ctx) + i],
        n_ctx > GENERATION_MARGIN ==> n_ctx - windowed(tokens, n_ctx).len() == GENERATION_MARGIN,
        n_ctx <= GENERATION_MARGIN ==> windowed(tokens, n_ctx).len() == 1,
{
}

} // verus!
