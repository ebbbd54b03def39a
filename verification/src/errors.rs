use vstd::prelude::*;

verus! {

/// The closed set of failures the embedding pipeline reports.
///
/// `LoadFailure` is fatal to the startup load attempt; every other kind is
/// recovered at the request boundary and surfaced to the caller as a value.
#[derive(Clone, Copy, Debug, PartialEq, Eq, Structural)]
pub enum EmbedError {
    /// A request arrived before the readiness cell was published.
    NotInitialized,
    /// An artifact was missing or malformed at startup.
    LoadFailure,
    /// A second publish attempt on the readiness cell.
    AlreadyInitialized,
    /// The tokenizer rejected a chunk of the batch.
    TokenizationFailure,
    /// A tensor shape invariant was violated.
    ShapeMismatch,
    /// The model failed during execution.
    InferenceFailure,
}

impl EmbedError {
    /// The description `message` returns, as a sequence of characters.
    pub open spec fn message_spec(self) -> Seq<char> {
        match self {
            EmbedError::NotInitialized => "ML state not initialized"@,
            EmbedError::LoadFailure => "failed to load model artifacts"@,
            EmbedError::AlreadyInitialized => "ML state already initialized"@,
            EmbedError::TokenizationFailure => "tokenization failed"@,
            EmbedError::ShapeMismatch => "unexpected tensor shape"@,
            EmbedError::InferenceFailure => "model execution failed"@,
        }
    }

    /// A short, stable description of the error for display to the caller.
    pub fn message(&self) -> (r: &'static str)
        ensures
            r@ == self.message_spec(),
    {
        match self {
            EmbedError::NotInitialized => "ML state not initialized",
            EmbedError::LoadFailure => "failed to load model artifacts",
            EmbedError::AlreadyInitialized => "ML state already initialized",
            EmbedError::TokenizationFailure => "tokenization failed",
            EmbedError::ShapeMismatch => "unexpected tensor shape",
            EmbedError::InferenceFailure => "model execution failed",
        }
    }
}

} // verus!
