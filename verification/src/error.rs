//! The engine's error taxonomy.

use vstd::prelude::*;

verus! {

/// Why a weights file could not be turned into a loaded model.
#[derive(PartialEq, Eq, Structural, Clone, Copy, Debug)]
pub enum LoadFailure {
    /// No file exists at the given path.
    FileMissing,
    /// The path is not valid UTF-8.
    PathNotUtf8,
    /// The path holds a NUL byte.
    PathHasNul,
    /// The native loader could not parse or load the file.
    Rejected,
}

/// Every way in which opening a session or running an inference can fail.
#[derive(PartialEq, Eq, Structural, Clone, Copy, Debug)]
pub enum EngineError {
    /// The weights could not be loaded.
    ModelLoad(LoadFailure),
    /// The loaded model has no vocabulary.
    VocabularyResolution,
    /// The execution context could not be allocated.
    ContextCreation,
    /// The prompt holds a NUL character.
    InvalidPrompt,
    /// The prompt needs more tokens than the signed 32-bit range holds.
    TokenizationOverflow,
    /// Evaluating the prompt failed even one token at a time.
    PromptDecodeFailure,
    /// Evaluation failed during generation before any output.
    GenerationDecodeFailure,
}

/// The text that describes an error to the caller.
pub open spec fn error_text(e: EngineError) -> Seq<char> {
    match e {
        EngineError::ModelLoad(LoadFailure::FileMissing) => "Model file not found"@,
        EngineError::ModelLoad(LoadFailure::PathNotUtf8) =>
            "Model path contains invalid UTF-8 characters"@,
        EngineError::ModelLoad(LoadFailure::PathHasNul) =>
            "Model path contains interior null bytes"@,
        EngineError::ModelLoad(LoadFailure::Rejected) => "Failed to load GGUF model"@,
        EngineError::VocabularyResolution => "Failed to resolve model vocabulary"@,
        EngineError::ContextCreation => "Failed to create llama.cpp context"@,
        EngineError::InvalidPrompt =>
            "Prompt contains interior null bytes which cannot be processed"@,
        EngineError::TokenizationOverflow => "Prompt too long for llama.cpp tokenizer"@,
        EngineError::PromptDecodeFailure => "Model evaluation failed during prompt ingestion"@,
        EngineError::GenerationDecodeFailure => "Model evaluation failed during generation"@,
    }
}

impl EngineError {
    /// The text that describes this error to the caller.
    pub fn message(&self) -> (text: &'static str)
        ensures
            text@ == error_text(*self),
    {
        match self {
            EngineError::ModelLoad(LoadFailure::FileMissing) => "Model file not found",
            EngineError::ModelLoad(LoadFailure::PathNotUtf8) =>
                "Model path contains invalid UTF-8 characters",
            EngineError::ModelLoad(LoadFailure::PathHasNul) =>
                "Model path contains interior null bytes",
            EngineError::ModelLoad(LoadFailure::Rejected) => "Failed to load GGUF model",
            EngineError::VocabularyResolution => "Failed to resolve model vocabulary",
            EngineError::ContextCreation => "Failed to create llama.cpp context",
            EngineError::InvalidPrompt =>
                "Prompt contains interior null bytes which cannot be processed",
            EngineError::TokenizationOverflow => "Prompt too long for llama.cpp tokenizer",
            EngineError::PromptDecodeFailure => "Model evaluation failed during prompt ingestion",
            EngineError::GenerationDecodeFailure => "Model evaluation failed during generation",
        }
    }
}

} // verus!
