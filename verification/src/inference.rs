//! One inference, as a state machine: the prompt is checked and encoded,
//! cut to the context window and ingested in adaptive chunks; then the
//! generation loop runs under its stop rules.
//!
//! The machine decides; whoever owns the native execution context performs
//! each request and reports what came of it.

use crate::error::EngineError;
use crate::text::{blank, ends_in_newline, has_nul, line_count, shape_of};
use crate::tokenizer::{
    begin_encode, continue_encode, encode_first, encode_next, keep_reported, EncodeStep,
    TOKEN_LIMIT,
};
use crate::window::{prompt_limit, prompt_limit_of, truncate_to_window, windowed};
use vstd::prelude::*;
use vstd::utf8::encode_utf8;

verus! {

/// Largest number of prompt tokens submitted in one evaluation call.
pub const PROMPT_CHUNK: usize = 256;

/// One token of an evaluation batch.
#[derive(PartialEq, Eq, Structural, Clone, Copy, Debug)]
pub struct BatchEntry {
    /// The token to evaluate.
    pub token: i32,
    /// Its position in the sequence.
    pub position: i32,
    /// The logical sequence it belongs to.
    pub sequence: i32,
    /// Whether output scores are computed after this token.
    pub wants_scores: bool,
}

/// Why generation ended without an error.
#[derive(PartialEq, Eq, Structural, Clone, Copy, Debug)]
pub enum StopReason {
    /// The model produced its end-of-sequence token.
    EosReached,
    /// The token budget is used up.
    BudgetExhausted,
    /// The output ends in a line feed and has at least two lines.
    DoubleNewline,
    /// Evaluation failed after output had been produced.
    DecodeFailed,
}

/// Where an inference stands.
#[derive(PartialEq, Eq, Structural, Clone, Copy, Debug)]
pub enum Phase {
    /// The memory that the model keeps between calls is to be cleared.
    Clearing,
    /// The prompt is being encoded, with a buffer of this many tokens.
    Encoding(usize),
    /// Prompt chunks are being evaluated.
    Ingesting,
    /// The next token is to be sampled from the latest scores.
    Sampling,
    /// The sampled token is to be turned into text.
    Detokenizing(i32),
    /// The sampled token is to be evaluated.
    Decoding(i32),
    /// Generation ended; the output is final.
    Stopped(StopReason),
    /// The inference failed.
    Failed(EngineError),
}

/// What the machine asks of the native layer next.
#[derive(Debug)]
pub enum Request {
    /// Clear the memory that the model keeps between calls.
    ClearMemory,
    /// Encode the prompt into a buffer of this many tokens, and report the
    /// tokenizer's count with the buffer.
    Tokenize(usize),
    /// Evaluate this batch and report whether it was accepted.
    Decode(Vec<BatchEntry>),
    /// Sample the next token and report it.
    Sample,
    /// Turn this token into its text fragment and report it.
    Detokenize(i32),
    /// Nothing more: collect the outcome.
    Done,
}

/// The mathematical content of a `Request`.
pub enum RequestView {
    /// Clear the memory that the model keeps between calls.
    ClearMemory,
    /// Encode the prompt into a buffer of this many tokens.
    Tokenize(usize),
    /// Evaluate this batch.
    Decode(Seq<BatchEntry>),
    /// Sample the next token.
    Sample,
    /// Turn this token into its text fragment.
    Detokenize(i32),
    /// Nothing more.
    Done,
}

impl View for Request {
    type V = RequestView;

    open spec fn view(&self) -> RequestView {
        match self {
            Request::ClearMemory => RequestView::ClearMemory,
            Request::Tokenize(capacity) => RequestView::Tokenize(*capacity),
            Request::Decode(batch) => RequestView::Decode(batch@),
            Request::Sample => RequestView::Sample,
            Request::Detokenize(token) => RequestView::Detokenize(*token),
            Request::Done => RequestView::Done,
        }
    }
}

/// The mathematical content of an `Inference`.
pub struct InferenceState {
    /// The size of the context window.
    pub n_ctx: int,
    /// The length of the prompt text in bytes.
    pub text_len: nat,
    /// The encoded prompt after context-window truncation.
    pub prompt: Seq<i32>,
    /// The current chunk size of prompt ingestion.
    pub chunk: nat,
    /// How many tokens the execution context has accepted so far.
    pub position: int,
    /// How many generation steps are complete.
    pub steps: nat,
    /// How many generation steps are allowed.
    pub budget: nat,
    /// The end-of-sequence token.
    pub eos: i32,
    /// The text generated so far.
    pub output: Seq<char>,
    /// Where the inference stands.
    pub phase: Phase,
}

/// The phase in which generation goes on after `steps` of `budget` steps.
pub open spec fn resume_phase(steps: nat, budget: nat) -> Phase {
    if steps >= budget {
        Phase::Stopped(StopReason::BudgetExhausted)
    } else {
        Phase::Sampling
    }
}

/// The budget of an inference: the tokens asked for, cut to what the
/// position counter can still count behind the longest prompt.
pub open spec fn budget_for(n_ctx: int, max_tokens: nat) -> nat {
    if max_tokens <= TOKEN_LIMIT - prompt_limit(n_ctx) {
        max_tokens
    } else {
        (TOKEN_LIMIT - prompt_limit(n_ctx)) as nat
    }
}

/// The state in which an inference begins: failed if the prompt holds a NUL
/// character, and else about to clear the model's memory.
pub open spec fn initial_state(text: Seq<char>, n_ctx: int, max_tokens: nat, eos: i32)
    -> InferenceState {
    InferenceState {
        n_ctx,
        text_len: encode_utf8(text).len() as usize as nat,
        prompt: Seq::empty(),
        chunk: PROMPT_CHUNK as nat,
        position: 0,
        steps: 0,
        budget: budget_for(n_ctx, max_tokens),
        eos,
        output: Seq::empty(),
        phase: if has_nul(text) {
            Phase::Failed(EngineError::InvalidPrompt)
        } else {
            Phase::Clearing
        },
    }
}

/// The phase that a step of encoding leads to.
pub open spec fn encoding_phase(step: EncodeStep) -> Phase {
    match step {
        EncodeStep::Attempt(capacity) => Phase::Encoding(capacity),
        _ => Phase::Failed(EngineError::TokenizationOverflow),
    }
}

/// The state after the model's memory was cleared: encoding begins.
pub open spec fn after_clear(s: InferenceState) -> InferenceState {
    match s.phase {
        Phase::Clearing => InferenceState { phase: encoding_phase(encode_first(s.text_len)), ..s },
        _ => s,
    }
}

/// The tokens of a buffer that the tokenizer's count covers.
pub open spec fn reported_tokens(buffer: Seq<i32>, count: int) -> Seq<i32> {
    if 0 <= count <= buffer.len() {
        buffer.take(count)
    } else {
        buffer
    }
}

/// The state after the tokenizer reported on an attempt: on success the
/// tokens are cut to the context window and ingestion begins (or generation,
/// where no token is left to ingest); else the next attempt follows with
/// twice the buffer, unless that overflows.
pub open spec fn after_tokenize(s: InferenceState, reported: i32, buffer: Seq<i32>)
    -> InferenceState {
    match s.phase {
        Phase::Encoding(capacity) => match encode_next(capacity as nat, reported as int) {
            EncodeStep::Done(count) => {
                let prompt = windowed(reported_tokens(buffer, count as int), s.n_ctx);
                InferenceState {
                    prompt,
                    phase: if prompt.len() == 0 {
                        resume_phase(0, s.budget)
                    } else {
                        Phase::Ingesting
                    },
                    ..s
                }
            },
            step => InferenceState { phase: encoding_phase(step), ..s },
        },
        _ => s,
    }
}

/// How many prompt tokens the next ingestion batch holds.
pub open spec fn chunk_len(s: InferenceState) -> int {
    if s.prompt.len() - s.position < s.chunk {
        s.prompt.len() - s.position
    } else {
        s.chunk as int
    }
}

/// The batch of `count` prompt tokens from index `start`, for a prompt whose
/// first token stands at position `first`: each token at its own position,
/// in sequence 0, and scores wanted after the prompt's last token only.
pub open spec fn prompt_batch(prompt: Seq<i32>, first: int, start: int, count: int) -> Seq<
    BatchEntry,
> {
    Seq::new(
        count as nat,
        |i: int|
            BatchEntry {
                token: prompt[start + i],
                position: (first + start + i) as i32,
                sequence: 0,
                wants_scores: start + i + 1 == prompt.len(),
            },
    )
}

/// The batch that evaluates one generated token at `position`.
pub open spec fn step_batch(token: i32, position: int) -> Seq<BatchEntry> {
    seq![BatchEntry { token, position: position as i32, sequence: 0, wants_scores: true }]
}

/// Whether the double-newline rule ends generation on this output: the
/// output is not blank, ends in a line feed and has at least two lines.
pub open spec fn double_newline(output: Seq<char>) -> bool {
    !blank(output) && ends_in_newline(output) && line_count(output) >= 2
}

/// What the machine asks for in a state.
pub open spec fn requested(s: InferenceState) -> RequestView {
    match s.phase {
        Phase::Clearing => RequestView::ClearMemory,
        Phase::Encoding(capacity) => RequestView::Tokenize(capacity),
        Phase::Ingesting => RequestView::Decode(
            prompt_batch(s.prompt, 0, s.position, chunk_len(s)),
        ),
        Phase::Sampling => RequestView::Sample,
        Phase::Detokenizing(token) => RequestView::Detokenize(token),
        Phase::Decoding(token) => RequestView::Decode(step_batch(token, s.position)),
        Phase::Stopped(_) | Phase::Failed(_) => RequestView::Done,
    }
}

/// The state after the native layer reported on an evaluation call.
///
/// While ingesting, an accepted chunk advances the position by its length,
/// and a rejected one halves the chunk size, or fails the inference at chunk
/// size 1. While generating, an accepted token completes a step, and a
/// rejected one ends generation: with an error if the output is still empty,
/// else with the output so far.
pub open spec fn after_decode(s: InferenceState, accepted: bool) -> InferenceState {
    match s.phase {
        Phase::Ingesting => if accepted {
            let position = s.position + chunk_len(s);
            InferenceState {
                position,
                phase: if position >= s.prompt.len() {
                    resume_phase(0, s.budget)
                } else {
                    Phase::Ingesting
                },
                ..s
            }
        } else if s.chunk > 1 {
            InferenceState { chunk: s.chunk / 2, ..s }
        } else {
            InferenceState { phase: Phase::Failed(EngineError::PromptDecodeFailure), ..s }
        },
        Phase::Decoding(_) => if accepted {
            let steps = s.steps + 1;
            InferenceState {
                position: s.position + 1,
                steps: steps as nat,
                phase: if double_newline(s.output) {
                    Phase::Stopped(StopReason::DoubleNewline)
                } else {
                    resume_phase(steps as nat, s.budget)
                },
                ..s
            }
        } else if s.output.len() == 0 {
            InferenceState { phase: Phase::Failed(EngineError::GenerationDecodeFailure), ..s }
        } else {
            InferenceState { phase: Phase::Stopped(StopReason::DecodeFailed), ..s }
        },
        _ => s,
    }
}

/// The state after a token was sampled: the end-of-sequence token stops
/// generation and leaves the output as it is; any other token is next turned
/// into text.
pub open spec fn after_sample(s: InferenceState, token: i32) -> InferenceState {
    match s.phase {
        Phase::Sampling => if token == s.eos {
            InferenceState { phase: Phase::Stopped(StopReason::EosReached), ..s }
        } else {
            InferenceState { phase: Phase::Detokenizing(token), ..s }
        },
        _ => s,
    }
}

/// The state after the sampled token's text arrived: the text is appended to
/// the output, and the token is next evaluated.
pub open spec fn after_fragment(s: InferenceState, fragment: Seq<char>) -> InferenceState {
    match s.phase {
        Phase::Detokenizing(token) => InferenceState {
            output: s.output + fragment,
            phase: Phase::Decoding(token),
            ..s
        },
        _ => s,
    }
}

/// What an inference in this state hands to the caller: the error if it
/// failed, else the output so far.
pub open spec fn outcome(s: InferenceState) -> Result<Seq<char>, EngineError> {
    match s.phase {
        Phase::Failed(e) => Err(e),
        _ => Ok(s.output),
    }
}

/// The states an inference can be in: the position counter is in lockstep
/// with what was submitted and accepted, and the budget is respected.
pub open spec fn well_formed(s: InferenceState) -> bool {
    &&& 1 <= s.chunk <= PROMPT_CHUNK
    &&& s.prompt.len() <= prompt_limit(s.n_ctx) <= TOKEN_LIMIT
    &&& prompt_limit(s.n_ctx) + s.budget <= TOKEN_LIMIT
    &&& s.steps <= s.budget
    &&& match s.phase {
        Phase::Clearing => s.steps == 0 && s.position == 0 && s.prompt.len() == 0,
        Phase::Encoding(capacity) => s.steps == 0 && s.position == 0 && s.prompt.len() == 0 && 1
            <= capacity <= TOKEN_LIMIT,
        Phase::Ingesting => s.steps == 0 && 0 <= s.position < s.prompt.len(),
        Phase::Sampling | Phase::Detokenizing(_) | Phase::Decoding(_) => s.steps < s.budget
            && s.position == s.prompt.len() + s.steps,
        Phase::Stopped(_) | Phase::Failed(_) => 0 <= s.position <= s.prompt.len() + s.steps,
    }
}

/// Whether an inference still asks for work.
pub open spec fn active(s: InferenceState) -> bool {
    !(s.phase is Stopped) && !(s.phase is Failed)
}

/// An upper bound on the reports an inference still takes before it ends.
pub open spec fn remaining_work(s: InferenceState) -> int {
    match s.phase {
        Phase::Clearing => TOKEN_LIMIT + prompt_limit(s.n_ctx) + 3 * s.budget + 260,
        Phase::Encoding(capacity) => (TOKEN_LIMIT - capacity) + prompt_limit(s.n_ctx) + 3
            * s.budget + 259,
        Phase::Ingesting => (s.prompt.len() - s.position) + s.chunk + 3 * s.budget + 1,
        Phase::Sampling => 3 * (s.budget - s.steps),
        Phase::Detokenizing(_) => 3 * (s.budget - s.steps) - 1,
        Phase::Decoding(_) => 3 * (s.budget - s.steps) - 2,
        Phase::Stopped(_) | Phase::Failed(_) => 0,
    }
}

/// A prompt with a NUL character fails the inference before anything is
/// asked of the native layer, and no other prompt does.
pub proof fn lemma_nul_prompt_is_rejected(text: Seq<char>, n_ctx: int, max_tokens: nat, eos: i32)
    ensures
        has_nul(text) <==> outcome(initial_state(text, n_ctx, max_tokens, eos)) == Err::<
            Seq<char>,
            EngineError,
        >(EngineError::InvalidPrompt),
        has_nul(text) ==> requested(initial_state(text, n_ctx, max_tokens, eos)) is Done,
        !has_nul(text) ==> requested(initial_state(text, n_ctx, max_tokens, eos)) is ClearMemory,
{
}

/// What is ingested is the windowed prompt: a successful encoding of no more
/// tokens than the limit is ingested whole, and a longer one without its
/// oldest tokens.
pub proof fn lemma_ingests_windowed_prompt(s: InferenceState, count: int, buffer: Seq<i32>)
    requires
        s.phase is Encoding,
        0 <= count <= buffer.len(),
        count <= i32::MAX,
    ensures
        after_tokenize(s, count as i32, buffer).prompt == windowed(buffer.take(count), s.n_ctx),
        count <= prompt_limit(s.n_ctx) ==> after_tokenize(s, count as i32, buffer).prompt
            == buffer.take(count),
{
}

/// The end-of-sequence token stops generation and is not appended: the
/// output, and with it the outcome, is what it was before the token.
pub proof fn lemma_eos_stops_without_output(s: InferenceState, token: i32)
    requires
        s.phase == Phase::Sampling,
        token == s.eos,
    ensures
        after_sample(s, token).phase == Phase::Stopped(StopReason::EosReached),
        after_sample(s, token).output == s.output,
        outcome(after_sample(s, token)) == Ok::<Seq<char>, EngineError>(s.output),
{
}

/// While the output is blank the double-newline rule is not applied: an
/// accepted step goes on to the next sample, or ends on the budget.
pub proof fn lemma_blank_output_goes_on(s: InferenceState)
    requires
        well_formed(s),
        s.phase is Decoding,
        blank(s.output),
    ensures
        after_decode(s, true).phase == (if s.steps + 1 < s.budget {
            Phase::Sampling
        } else {
            Phase::Stopped(StopReason::BudgetExhausted)
        }),
{
}

/// An evaluation failure after output was produced ends generation
/// gracefully: the outcome is the text produced so far, white space
/// included, and not an error.
pub proof fn lemma_decode_failure_keeps_output(s: InferenceState)
    requires
        s.phase is Decoding,
        s.output.len() > 0,
    ensures
        after_decode(s, false).phase == Phase::Stopped(StopReason::DecodeFailed),
        outcome(after_decode(s, false)) == Ok::<Seq<char>, EngineError>(s.output),
{
}

/// An evaluation failure before any output was produced is an error.
pub proof fn lemma_decode_failure_without_output(s: InferenceState)
    requires
        s.phase is Decoding,
        s.output.len() == 0,
    ensures
        outcome(after_decode(s, false)) == Err::<Seq<char>, EngineError>(
            EngineError::GenerationDecodeFailure,
        ),
{
}

/// A report on an evaluation call during generation fails the inference
/// exactly when the call was rejected and the output is empty.
pub proof fn lemma_generation_fails_only_without_output(s: InferenceState, accepted: bool)
    requires
        s.phase is Decoding,
    ensures
        outcome(after_decode(s, accepted)) is Err <==> !accepted && s.output.len() == 0,
{
}

/// Once output has been produced the outcome is never an error, whatever
/// is reported afterwards.
pub proof fn lemma_output_never_fails(
    s: InferenceState,
    accepted: bool,
    token: i32,
    fragment: Seq<char>,
)
    requires
        s.phase is Sampling || s.phase is Detokenizing || s.phase is Decoding
            || s.phase is Stopped,
        s.output.len() > 0,
    ensures
        outcome(after_decode(s, accepted)) == Ok::<Seq<char>, EngineError>(s.output),
        outcome(after_sample(s, token)) == Ok::<Seq<char>, EngineError>(s.output),
        outcome(after_fragment(s, fragment)) is Ok,
{
}

/// Prompt ingestion fails only when a single token is rejected; a larger
/// chunk that is rejected is tried again in smaller chunks from the same
/// position.
pub proof fn lemma_ingestion_fails_at_chunk_one(s: InferenceState, accepted: bool)
    requires
        well_formed(s),
        s.phase == Phase::Ingesting,
    ensures
        after_decode(s, accepted).phase is Failed <==> !accepted && s.chunk == 1,
        !accepted && s.chunk > 1 ==> after_decode(s, accepted).position == s.position
            && after_decode(s, accepted).chunk < s.chunk && after_decode(s, accepted).phase
            == Phase::Ingesting,
{
}

/// The position counter stays in lockstep with the execution context: an
/// accepted batch advances it by the number of tokens submitted, a rejected
/// one leaves it, and the positions in a batch go on from the counter.
pub proof fn lemma_position_lockstep(s: InferenceState, accepted: bool)
    requires
        well_formed(s),
        requested(s) is Decode,
    ensures
        requested(s)->Decode_0.len() >= 1,
        forall|i: int|
            0 <= i < requested(s)->Decode_0.len() ==> (#[trigger] requested(s)->Decode_0[i]).position
                == s.position + i,
        forall|i: int|
            0 <= i < requested(s)->Decode_0.len() ==> (#[trigger] requested(s)->Decode_0[i]).sequence
                == 0,
        accepted ==> after_decode(s, accepted).position == s.position + requested(
            s,
        )->Decode_0.len(),
        !accepted ==> after_decode(s, accepted).position == s.position,
{
}

/// Scores are computed after the last token of a batch at most, and during
/// ingestion only after the last token of the whole prompt.
pub proof fn lemma_scores_after_last_token(s: InferenceState)
    requires
        well_formed(s),
        requested(s) is Decode,
    ensures
        forall|i: int|
            0 <= i < requested(s)->Decode_0.len() - 1 ==> !(#[trigger] requested(
                s,
            )->Decode_0[i]).wants_scores,
        requested(s)->Decode_0.last().wants_scores <==> s.position + requested(s)->Decode_0.len()
            >= s.prompt.len(),
{
}

/// Every report keeps the state well formed.
pub proof fn lemma_reports_keep_well_formed(
    s: InferenceState,
    accepted: bool,
    token: i32,
    fragment: Seq<char>,
    reported: i32,
    buffer: Seq<i32>,
)
    requires
        well_formed(s),
    ensures
        well_formed(after_clear(s)),
        well_formed(after_tokenize(s, reported, buffer)),
        well_formed(after_decode(s, accepted)),
        well_formed(after_sample(s, token)),
        well_formed(after_fragment(s, fragment)),
{
}

/// The state in which an inference begins is well formed.
pub proof fn lemma_initial_state_well_formed(
    text: Seq<char>,
    n_ctx: int,
    max_tokens: nat,
    eos: i32,
)
    requires
        n_ctx <= i32::MAX,
    ensures
        well_formed(initial_state(text, n_ctx, max_tokens, eos)),
{
}

/// Every inference ends: the report that answers the request of an active
/// state strictly lowers the work that remains, which is never negative.
pub proof fn lemma_reports_make_progress(
    s: InferenceState,
    accepted: bool,
    token: i32,
    fragment: Seq<char>,
    reported: i32,
    buffer: Seq<i32>,
)
    requires
        well_formed(s),
        active(s),
    ensures
        remaining_work(s) > 0,
        requested(s) is ClearMemory ==> 0 <= remaining_work(after_clear(s)) < remaining_work(s),
        requested(s) is Tokenize ==> 0 <= remaining_work(after_tokenize(s, reported, buffer))
            < remaining_work(s),
        requested(s) is Decode ==> 0 <= remaining_work(after_decode(s, accepted)) < remaining_work(
            s,
        ),
        requested(s) is Sample ==> 0 <= remaining_work(after_sample(s, token)) < remaining_work(s),
        requested(s) is Detokenize ==> 0 <= remaining_work(after_fragment(s, fragment))
            < remaining_work(s),
{
}

/// An inference that is not active asks for nothing more.
pub proof fn lemma_done_when_inactive(s: InferenceState)
    ensures
        requested(s) is Done <==> !active(s),
{
}

/// An inference in progress.
#[derive(Debug)]
pub struct Inference {
    n_ctx: i32,
    text_len: usize,
    prompt: Vec<i32>,
    chunk: usize,
    position: i32,
    steps: usize,
    budget: usize,
    eos: i32,
    output: String,
    phase: Phase,
}

impl View for Inference {
    type V = InferenceState;

    closed spec fn view(&self) -> InferenceState {
        InferenceState {
            n_ctx: self.n_ctx as int,
            text_len: self.text_len as nat,
            prompt: self.prompt@,
            chunk: self.chunk as nat,
            position: self.position as int,
            steps: self.steps as nat,
            budget: self.budget as nat,
            eos: self.eos,
            output: self.output@,
            phase: self.phase,
        }
    }
}

/// Builds the batch of `count` prompt tokens from index `start`, for a
/// prompt whose first token stands at position `first`.
pub fn build_prompt_batch(prompt: &Vec<i32>, first: i32, start: usize, count: usize) -> (batch:
    Vec<BatchEntry>)
    requires
        start + count <= prompt.len(),
        0 <= first,
        first + prompt.len() <= i32::MAX,
    ensures
        batch@ == prompt_batch(prompt@, first as int, start as int, count as int),
{
    let mut batch: Vec<BatchEntry> = Vec::with_capacity(count);
    let mut i: usize = 0;
    while i < count
        invariant
            i <= count,
            start + count <= prompt.len(),
            0 <= first,
            first + prompt.len() <= i32::MAX,
            batch@ == prompt_batch(prompt@, first as int, start as int, i as int),
        decreases count - i,
    {
        let index: usize = start + i;
        batch.push(
            BatchEntry {
                token: prompt[index],
                position: first + index as i32,
                sequence: 0,
                wants_scores: index + 1 == prompt.len(),
            },
        );
        i += 1;
        assert(batch@ == prompt_batch(prompt@, first as int, start as int, i as int));
    }
    batch
}

impl Inference {
    #[verifier::type_invariant]
    spec fn lockstep(self) -> bool {
        well_formed(self@)
    }

    /// Begins an inference on a prompt in a window of `n_ctx` positions, with
    /// a budget of `max_tokens` generated tokens.
    pub fn start(prompt: &str, n_ctx: i32, max_tokens: usize, eos: i32) -> (inference: Self)
        ensures
            inference@ == initial_state(prompt@, n_ctx as int, max_tokens as nat, eos),
            well_formed(inference@),
    {
        let limit: usize = prompt_limit_of(n_ctx);
        let room: usize = TOKEN_LIMIT - limit;
        let budget: usize = if max_tokens <= room {
            max_tokens
        } else {
            room
        };
        let phase = if shape_of(prompt).has_nul {
            Phase::Failed(EngineError::InvalidPrompt)
        } else {
            Phase::Clearing
        };
        Inference {
            n_ctx,
            text_len: prompt.len(),
            prompt: Vec::new(),
            chunk: PROMPT_CHUNK,
            position: 0,
            steps: 0,
            budget,
            eos,
            output: String::new(),
            phase,
        }
    }

    /// Where the inference stands.
    pub fn phase(&self) -> (phase: Phase)
        ensures
            phase == self@.phase,
    {
        self.phase
    }

    /// How many tokens the execution context has accepted so far.
    pub fn position(&self) -> (position: i32)
        ensures
            position == self@.position,
    {
        self.position
    }

    /// The text generated so far.
    pub fn output(&self) -> (text: &str)
        ensures
            text@ == self@.output,
    {
        self.output.as_str()
    }

    /// What the native layer is to do next.
    pub fn request(&self) -> (request: Request)
        ensures
            request@ == requested(self@),
            well_formed(self@),
    {
        proof {
            use_type_invariant(self);
        }
        match self.phase {
            Phase::Clearing => Request::ClearMemory,
            Phase::Encoding(capacity) => Request::Tokenize(capacity),
            Phase::Ingesting => {
                let left: usize = self.prompt.len() - self.position as usize;
                let count: usize = if left < self.chunk {
                    left
                } else {
                    self.chunk
                };
                Request::Decode(build_prompt_batch(&self.prompt, 0, self.position as usize, count))
            },
            Phase::Sampling => Request::Sample,
            Phase::Detokenizing(token) => Request::Detokenize(token),
            Phase::Decoding(token) => {
                let mut batch: Vec<BatchEntry> = Vec::with_capacity(1);
                batch.push(
                    BatchEntry { token, position: self.position, sequence: 0, wants_scores: true },
                );
                assert(batch@ == step_batch(token, self.position as int));
                Request::Decode(batch)
            },
            Phase::Stopped(_) => Request::Done,
            Phase::Failed(_) => Request::Done,
        }
    }

    /// Puts a phase in place of the current one.
    fn with_phase(self, phase: Phase) -> (next: Self)
        requires
            well_formed(InferenceState { phase, ..self@ }),
        ensures
            next@ == (InferenceState { phase, ..self@ }),
    {
        Inference {
            n_ctx: self.n_ctx,
            text_len: self.text_len,
            prompt: self.prompt,
            chunk: self.chunk,
            position: self.position,
            steps: self.steps,
            budget: self.budget,
            eos: self.eos,
            output: self.output,
            phase,
        }
    }

    /// Takes the report that the model's memory was cleared.
    pub fn cleared(self) -> (next: Self)
        ensures
            next@ == after_clear(self@),
            well_formed(next@),
    {
        proof {
            use_type_invariant(&self);
        }
        match self.phase {
            Phase::Clearing => match begin_encode(self.text_len) {
                EncodeStep::Attempt(capacity) => self.with_phase(Phase::Encoding(capacity)),
                _ => self.with_phase(Phase::Failed(EngineError::TokenizationOverflow)),
            },
            _ => self,
        }
    }

    /// Takes the tokenizer's report on an attempt, with the buffer it filled.
    pub fn tokenized(self, reported: i32, buffer: Vec<i32>) -> (next: Self)
        ensures
            next@ == after_tokenize(self@, reported, buffer@),
            well_formed(next@),
    {
        proof {
            use_type_invariant(&self);
        }
        match self.phase {
            Phase::Encoding(capacity) => match continue_encode(capacity, reported) {
                EncodeStep::Done(count) => {
                    let prompt = truncate_to_window(keep_reported(buffer, count), self.n_ctx);
                    let phase = if prompt.len() == 0 {
                        if self.budget == 0 {
                            Phase::Stopped(StopReason::BudgetExhausted)
                        } else {
                            Phase::Sampling
                        }
                    } else {
                        Phase::Ingesting
                    };
                    Inference {
                        n_ctx: self.n_ctx,
                        text_len: self.text_len,
                        prompt,
                        chunk: self.chunk,
                        position: self.position,
                        steps: self.steps,
                        budget: self.budget,
                        eos: self.eos,
                        output: self.output,
                        phase,
                    }
                },
                EncodeStep::Attempt(capacity) => self.with_phase(Phase::Encoding(capacity)),
                EncodeStep::Overflow => self.with_phase(
                    Phase::Failed(EngineError::TokenizationOverflow),
                ),
            },
            _ => self,
        }
    }

    /// Takes the report on an evaluation call.
    pub fn decoded(self, accepted: bool) -> (next: Self)
        ensures
            next@ == after_decode(self@, accepted),
            well_formed(next@),
    {
        proof {
            use_type_invariant(&self);
        }
        match self.phase {
            Phase::Ingesting => {
                if accepted {
                    let left: usize = self.prompt.len() - self.position as usize;
                    let count: usize = if left < self.chunk {
                        left
                    } else {
                        self.chunk
                    };
                    let position: i32 = self.position + count as i32;
                    let phase = if position as usize >= self.prompt.len() {
                        if self.budget == 0 {
                            Phase::Stopped(StopReason::BudgetExhausted)
                        } else {
                            Phase::Sampling
                        }
                    } else {
                        Phase::Ingesting
                    };
                    Inference {
                        n_ctx: self.n_ctx,
                        text_len: self.text_len,
                        prompt: self.prompt,
                        chunk: self.chunk,
                        position,
                        steps: self.steps,
                        budget: self.budget,
                        eos: self.eos,
                        output: self.output,
                        phase,
                    }
                } else if self.chunk > 1 {
                    Inference {
                        n_ctx: self.n_ctx,
                        text_len: self.text_len,
                        prompt: self.prompt,
                        chunk: self.chunk / 2,
                        position: self.position,
                        steps: self.steps,
                        budget: self.budget,
                        eos: self.eos,
                        output: self.output,
                        phase: self.phase,
                    }
                } else {
                    self.with_phase(Phase::Failed(EngineError::PromptDecodeFailure))
                }
            },
            Phase::Decoding(_) => {
                if accepted {
                    let shape = shape_of(self.output.as_str());
                    let steps: usize = self.steps + 1;
                    let phase = if !shape.blank && shape.ends_in_newline && shape.newlines >= 2 {
                        Phase::Stopped(StopReason::DoubleNewline)
                    } else if steps >= self.budget {
                        Phase::Stopped(StopReason::BudgetExhausted)
                    } else {
                        Phase::Sampling
                    };
                    Inference {
                        n_ctx: self.n_ctx,
                        text_len: self.text_len,
                        prompt: self.prompt,
                        chunk: self.chunk,
                        position: self.position + 1,
                        steps,
                        budget: self.budget,
                        eos: self.eos,
                        output: self.output,
                        phase,
                    }
                } else if self.output.as_str().is_empty() {
                    self.with_phase(Phase::Failed(EngineError::GenerationDecodeFailure))
                } else {
                    self.with_phase(Phase::Stopped(StopReason::DecodeFailed))
                }
            },
            _ => self,
        }
    }

    /// Takes the sampled token.
    pub fn sampled(self, token: i32) -> (next: Self)
        ensures
            next@ == after_sample(self@, token),
            well_formed(next@),
    {
        proof {
            use_type_invariant(&self);
        }
        match self.phase {
            Phase::Sampling => if token == self.eos {
                self.with_phase(Phase::Stopped(StopReason::EosReached))
            } else {
                self.with_phase(Phase::Detokenizing(token))
            },
            _ => self,
        }
    }

    /// Takes the text of the sampled token.
    pub fn detokenized(self, fragment: &str) -> (next: Self)
        ensures
            next@ == after_fragment(self@, fragment@),
            well_formed(next@),
    {
        proof {
            use_type_invariant(&self);
        }
        match self.phase {
            Phase::Detokenizing(token) => {
                let mut output = self.output;
                output.append(fragment);
                Inference {
                    n_ctx: self.n_ctx,
                    text_len: self.text_len,
                    prompt: self.prompt,
                    chunk: self.chunk,
                    position: self.position,
                    steps: self.steps,
                    budget: self.budget,
                    eos: self.eos,
                    output,
                    phase: Phase::Decoding(token),
                }
            },
            _ => self,
        }
    }

    /// Ends the inference: the error if it failed, else the text generated.
    pub fn finish(self) -> (result: Result<String, EngineError>)
        ensures
            match outcome(self@) {
                Ok(text) => result matches Ok(s) && s@ == text,
                Err(e) => result == Err::<String, EngineError>(e),
            },
    {
        match self.phase {
            Phase::Failed(e) => Err(e),
            _ => Ok(self.output),
        }
    }
}

} // verus!
