//! The session: how it is opened stage by stage, what it releases when a
//! stage fails or when it is dropped, and how its execution context is
//! sized.

use crate::error::{EngineError, LoadFailure};
use crate::inference::{initial_state, well_formed, Inference};
use crate::text::{has_nul, shape_of};
use vstd::prelude::*;

verus! {

/// The thread count used where the host does not tell its parallelism.
pub const DEFAULT_THREADS: i32 = 4;

/// The number of sequences an execution context serves at a time.
pub const MAX_SEQUENCES: u32 = 1;

/// The level from which messages of the native layer are reported.
pub const ERROR_LOG_LEVEL: u32 = 4;

/// A native resource that a session holds.
#[derive(PartialEq, Eq, Structural, Clone, Copy, Debug)]
pub enum Resource {
    /// The execution context.
    Context,
    /// The loaded model.
    Model,
    /// The process-wide backend.
    Backend,
}

/// A stage of opening a session whose success the native layer reports.
#[derive(PartialEq, Eq, Structural, Clone, Copy, Debug)]
pub enum OpenStage {
    /// The backend is up; the weights file is being loaded.
    LoadModel,
    /// The model is loaded; its vocabulary is being resolved.
    ResolveVocabulary,
    /// The vocabulary is known; the execution context is being created.
    CreateContext,
}

/// How an execution context is sized.
#[derive(PartialEq, Eq, Structural, Clone, Copy, Debug)]
pub struct ContextParams {
    /// The size of the context window in tokens.
    pub n_ctx: u32,
    /// The largest batch submitted while the prompt is ingested.
    pub n_batch: u32,
    /// The largest batch evaluated at once.
    pub n_ubatch: u32,
    /// The number of sequences served at a time.
    pub n_seq_max: u32,
    /// The threads used for generation.
    pub n_threads: i32,
    /// The threads used for prompt ingestion.
    pub n_threads_batch: i32,
}

/// The order in which a session releases what it holds.
pub open spec fn teardown_order() -> Seq<Resource> {
    seq![Resource::Context, Resource::Model, Resource::Backend]
}

/// What is held while a stage is attempted, in the order of its release.
pub open spec fn held_at(stage: OpenStage) -> Seq<Resource> {
    match stage {
        OpenStage::LoadModel => seq![Resource::Backend],
        OpenStage::ResolveVocabulary => seq![Resource::Model, Resource::Backend],
        OpenStage::CreateContext => seq![Resource::Model, Resource::Backend],
    }
}

/// The error with which a stage fails.
pub open spec fn failure_of(stage: OpenStage) -> EngineError {
    match stage {
        OpenStage::LoadModel => EngineError::ModelLoad(LoadFailure::Rejected),
        OpenStage::ResolveVocabulary => EngineError::VocabularyResolution,
        OpenStage::CreateContext => EngineError::ContextCreation,
    }
}

/// What follows a stage: the next stage after a success, none after the
/// last; the stage's error after a failure.
pub open spec fn stage_after(stage: OpenStage, succeeded: bool) -> Result<
    Option<OpenStage>,
    EngineError,
> {
    if !succeeded {
        Err(failure_of(stage))
    } else {
        match stage {
            OpenStage::LoadModel => Ok(Some(OpenStage::ResolveVocabulary)),
            OpenStage::ResolveVocabulary => Ok(Some(OpenStage::CreateContext)),
            OpenStage::CreateContext => Ok(None),
        }
    }
}

/// What a check of the model path finds: a missing file, a path that is not
/// UTF-8 (it has no text), a path with a NUL character, or nothing amiss.
pub open spec fn path_check(exists: bool, path: Option<Seq<char>>) -> Result<(), EngineError> {
    if !exists {
        Err(EngineError::ModelLoad(LoadFailure::FileMissing))
    } else {
        match path {
            None => Err(EngineError::ModelLoad(LoadFailure::PathNotUtf8)),
            Some(text) => if has_nul(text) {
                Err(EngineError::ModelLoad(LoadFailure::PathHasNul))
            } else {
                Ok(())
            },
        }
    }
}

/// The threads to use on a host of the given parallelism: as many as the
/// host has, at least 1, at most what the counter holds; the default where
/// the host does not tell.
pub open spec fn thread_count(parallelism: Option<usize>) -> int {
    match parallelism {
        None => DEFAULT_THREADS as int,
        Some(n) => if n < 1 {
            1
        } else if n > i32::MAX {
            i32::MAX as int
        } else {
            n as int
        },
    }
}

/// The sizing of the execution context for a window of `n_ctx` tokens: the
/// window serves prompt and generation batches alike, for one sequence.
pub open spec fn params_for(n_ctx: i32, parallelism: Option<usize>) -> ContextParams {
    ContextParams {
        n_ctx: n_ctx as u32,
        n_batch: n_ctx as u32,
        n_ubatch: n_ctx as u32,
        n_seq_max: MAX_SEQUENCES,
        n_threads: thread_count(parallelism) as i32,
        n_threads_batch: thread_count(parallelism) as i32,
    }
}

/// On every failure what is released is what is held, in teardown order:
/// the end of that order, down to the backend, with nothing released twice.
pub proof fn lemma_release_follows_teardown_order(stage: OpenStage)
    ensures
        1 <= held_at(stage).len() <= teardown_order().len(),
        held_at(stage) == teardown_order().subrange(
            teardown_order().len() - held_at(stage).len(),
            teardown_order().len() as int,
        ),
        held_at(stage).last() == Resource::Backend,
        forall|i: int, j: int| 0 <= i < j < held_at(stage).len() ==> held_at(stage)[i] != held_at(stage)[j],
{
    assert(held_at(stage) =~= teardown_order().subrange(
        teardown_order().len() - held_at(stage).len(),
        teardown_order().len() as int,
    ));
}

/// A stage that succeeds adds what it acquired to what is held, so that a
/// later failure releases it; a session that is ready holds all three.
pub proof fn lemma_nothing_leaks(stage: OpenStage)
    ensures
        stage_after(stage, true) matches Ok(Some(next)) ==> forall|i: int|
            0 <= i < held_at(stage).len() ==> held_at(next).contains(#[trigger] held_at(stage)[i]),
        stage_after(stage, true) matches Ok(None) ==> forall|i: int|
            0 <= i < held_at(stage).len() ==> teardown_order().contains(#[trigger] held_at(stage)[i]),
        stage_after(stage, false) is Err,
{
    match stage {
        OpenStage::LoadModel => {
            assert(held_at(OpenStage::ResolveVocabulary)[1] == Resource::Backend);
        },
        OpenStage::ResolveVocabulary => {
            assert(held_at(OpenStage::CreateContext)[0] == Resource::Model);
            assert(held_at(OpenStage::CreateContext)[1] == Resource::Backend);
        },
        OpenStage::CreateContext => {
            assert(teardown_order()[1] == Resource::Model);
            assert(teardown_order()[2] == Resource::Backend);
        },
    }
}

/// Checks the model path before anything native is touched.
pub fn check_model_path(exists: bool, path: Option<&str>) -> (result: Result<(), EngineError>)
    ensures
        result == path_check(
            exists,
            match path {
                Some(text) => Some(text@),
                None => None,
            },
        ),
{
    if !exists {
        return Err(EngineError::ModelLoad(LoadFailure::FileMissing));
    }
    match path {
        None => Err(EngineError::ModelLoad(LoadFailure::PathNotUtf8)),
        Some(text) => if shape_of(text).has_nul {
            Err(EngineError::ModelLoad(LoadFailure::PathHasNul))
        } else {
            Ok(())
        },
    }
}

/// The stage with which opening begins, once the backend is up.
pub fn first_stage() -> (stage: OpenStage)
    ensures
        stage == OpenStage::LoadModel,
{
    OpenStage::LoadModel
}

/// Decides what follows a stage.
pub fn next_stage(stage: OpenStage, succeeded: bool) -> (result: Result<
    Option<OpenStage>,
    EngineError,
>)
    ensures
        result == stage_after(stage, succeeded),
{
    if !succeeded {
        match stage {
            OpenStage::LoadModel => Err(EngineError::ModelLoad(LoadFailure::Rejected)),
            OpenStage::ResolveVocabulary => Err(EngineError::VocabularyResolution),
            OpenStage::CreateContext => Err(EngineError::ContextCreation),
        }
    } else {
        match stage {
            OpenStage::LoadModel => Ok(Some(OpenStage::ResolveVocabulary)),
            OpenStage::ResolveVocabulary => Ok(Some(OpenStage::CreateContext)),
            OpenStage::CreateContext => Ok(None),
        }
    }
}

/// Lists what to release, in order, when a stage has failed.
pub fn release_after_failure(stage: OpenStage) -> (release: Vec<Resource>)
    ensures
        release@ == held_at(stage),
{
    let mut release: Vec<Resource> = Vec::new();
    match stage {
        OpenStage::LoadModel => {},
        OpenStage::ResolveVocabulary => {
            release.push(Resource::Model);
        },
        OpenStage::CreateContext => {
            release.push(Resource::Model);
        },
    }
    release.push(Resource::Backend);
    assert(release@ =~= held_at(stage));
    release
}

/// Lists what a session releases, in order, when it is dropped.
pub fn release_on_drop() -> (release: Vec<Resource>)
    ensures
        release@ == teardown_order(),
{
    let mut release: Vec<Resource> = Vec::new();
    release.push(Resource::Context);
    release.push(Resource::Model);
    release.push(Resource::Backend);
    assert(release@ =~= teardown_order());
    release
}

/// Whether a message of the native layer at this level is reported.
pub fn reports_log_level(level: u32) -> (reported: bool)
    ensures
        reported == (level >= ERROR_LOG_LEVEL),
{
    level >= ERROR_LOG_LEVEL
}

/// Computes `thread_count`.
pub fn thread_count_of(parallelism: Option<usize>) -> (threads: i32)
    ensures
        threads == thread_count(parallelism),
        threads >= 1,
{
    match parallelism {
        None => DEFAULT_THREADS,
        Some(n) => if n < 1 {
            1
        } else if n > 0x7fff_ffff {
            0x7fff_ffff
        } else {
            n as i32
        },
    }
}

/// The settings of a session: the window it was opened with and the sizing
/// of its execution context.
#[derive(Debug)]
pub struct LlamaSession {
    n_ctx: i32,
    params: ContextParams,
}

impl LlamaSession {
    /// The size of the session's context window.
    pub closed spec fn window(&self) -> i32 {
        self.n_ctx
    }

    /// The sizing of the session's execution context.
    pub closed spec fn sizing(&self) -> ContextParams {
        self.params
    }

    #[verifier::type_invariant]
    spec fn sized_to_window(self) -> bool {
        self.n_ctx > 0 && self.params.n_ctx == self.n_ctx
    }

    /// Settles the sizing of a session for a window of `n_ctx` tokens on a
    /// host of the given parallelism. A window without room for a token has
    /// no execution context.
    pub fn new(n_ctx: i32, parallelism: Option<usize>) -> (result: Result<Self, EngineError>)
        ensures
            n_ctx < 1 <==> result is Err,
            result matches Err(e) ==> e == EngineError::ContextCreation,
            result matches Ok(session) ==> session.window() == n_ctx && session.sizing()
                == params_for(n_ctx, parallelism),
    {
        if n_ctx < 1 {
            return Err(EngineError::ContextCreation);
        }
        let threads = thread_count_of(parallelism);
        Ok(
            LlamaSession {
                n_ctx,
                params: ContextParams {
                    n_ctx: n_ctx as u32,
                    n_batch: n_ctx as u32,
                    n_ubatch: n_ctx as u32,
                    n_seq_max: MAX_SEQUENCES,
                    n_threads: threads,
                    n_threads_batch: threads,
                },
            },
        )
    }

    /// The size of the session's context window.
    pub fn n_ctx(&self) -> (n_ctx: i32)
        ensures
            n_ctx == self.window(),
            n_ctx > 0,
    {
        proof {
            use_type_invariant(self);
        }
        self.n_ctx
    }

    /// The sizing of the session's execution context.
    pub fn params(&self) -> (params: ContextParams)
        ensures
            params == self.sizing(),
            params.n_ctx == self.window(),
    {
        proof {
            use_type_invariant(self);
        }
        self.params
    }

    /// Begins an inference on a prompt in this session's window, with a
    /// budget of `max_tokens` generated tokens and the vocabulary's
    /// end-of-sequence token.
    pub fn infer(&self, prompt: &str, max_tokens: usize, eos: i32) -> (inference: Inference)
        ensures
            inference@ == initial_state(prompt@, self.window() as int, max_tokens as nat, eos),
            well_formed(inference@),
    {
        Inference::start(prompt, self.n_ctx, max_tokens, eos)
    }
}

} // verus!
