//! The provider for a local model. The model is not wired in: every
//! request fails.

use crate::error::LettaError;
use crate::provider::{Completion, CompletionRequest, LlmProvider};
use vstd::prelude::*;

verus! {

/// A local model, by the path of its file.
#[derive(Debug)]
pub struct LlamaProvider {
    pub model_path: String,
    pub context_size: usize,
    pub n_threads: usize,
}

/// The message of the failure of every request.
pub open spec fn llama_missing_message() -> Seq<char> {
    "Llama provider not yet implemented. Use 'toy' provider for testing."@
}

impl LlamaProvider {
    /// A provider for the model at `model_path`.
    pub fn new(model_path: String, context_size: usize, n_threads: usize) -> (p: LlamaProvider)
        ensures
            p.model_path == model_path,
            p.context_size == context_size,
            p.n_threads == n_threads,
    {
        LlamaProvider { model_path, context_size, n_threads }
    }
}

impl LlmProvider for LlamaProvider {
    /// The provider fails on every request.
    open spec fn answers(
        &self,
        request: CompletionRequest,
        r: Result<Completion, LettaError>,
    ) -> bool {
        r matches Err(LettaError::Provider(m)) && m@ == llama_missing_message()
    }

    fn complete(&self, request: CompletionRequest) -> (r: Result<Completion, LettaError>)
    {
        Err(
            LettaError::Provider(
                "Llama provider not yet implemented. Use 'toy' provider for testing.".to_owned(),
            ),
        )
    }

    fn name(&self) -> (r: &str)
        ensures
            r@ == "llama"@,
    {
        "llama"
    }

    fn max_tokens(&self) -> (r: usize)
        ensures
            r == self.context_size,
    {
        self.context_size
    }
}

} // verus!
