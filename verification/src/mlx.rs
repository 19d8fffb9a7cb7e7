//! The MLX backend. This library carries no native MLX bridge: both entry
//! points report that, and nothing else.

use vstd::prelude::*;

verus! {

/// An error of the MLX backend.
#[derive(Debug, Clone)]
pub struct MlxError {
    message: String,
}

/// What the entry points report.
pub open spec fn unavailable_text() -> Seq<char> {
    "The crate was built without the `mlx` feature. Rebuild with `--features mlx` to enable native MLX support."@
}

impl MlxError {
    /// The text of the error.
    pub closed spec fn text(&self) -> Seq<char> {
        self.message@
    }

    /// An error with the given text.
    pub fn new(message: &str) -> (error: Self)
        ensures
            error.text() == message@,
    {
        MlxError { message: message.to_owned() }
    }

    /// The text of the error.
    pub fn message(&self) -> (text: &str)
        ensures
            text@ == self.text(),
    {
        self.message.as_str()
    }

    /// The text of the error, as an owned string.
    pub fn to_string(&self) -> (text: String)
        ensures
            text@ == self.text(),
    {
        self.message.clone()
    }
}

/// Loads the MLX model at a path. Without a native bridge this fails for
/// every path.
pub fn initialize(model_path: &str) -> (result: Result<(), MlxError>)
    ensures
        result matches Err(error) && error.text() == unavailable_text(),
{
    Err(
        MlxError::new(
            "The crate was built without the `mlx` feature. Rebuild with `--features mlx` to enable native MLX support.",
        ),
    )
}

/// Generates a commit message for a diff with the MLX model. Without a
/// native bridge this fails for every diff.
pub fn generate(diff: &str) -> (result: Result<String, MlxError>)
    ensures
        result matches Err(error) && error.text() == unavailable_text(),
{
    Err(
        MlxError::new(
            "The crate was built without the `mlx` feature. Rebuild with `--features mlx` to enable native MLX support.",
        ),
    )
}

} // verus!
