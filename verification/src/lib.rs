//! An embeddable runtime for stateful conversational agents with persistent
//! memory.

use vstd::prelude::*;

pub mod af;
pub mod agent;
pub mod clock;
pub mod context;
pub mod document;
pub mod error;
pub mod host;
pub mod json;
pub mod memory;
pub mod message;
pub mod number;
pub mod provider;
pub mod providers;
pub mod replies;
pub mod storage;
pub mod sync;
pub mod template;
pub mod text;
pub mod tool;

pub use crate::af::{AgentFile, AgentFileV1};
pub use crate::agent::{Agent, AgentConfig, AgentState};
pub use crate::context::ContextManager;
pub use crate::error::LettaError;
pub use crate::memory::{Memory, MemoryBlock, MemoryType};
pub use crate::message::{Message, MessageRole};
pub use crate::provider::{Completion, CompletionRequest, LlmProvider};
pub use crate::tool::{Tool, ToolCall, ToolExecutor, ToolResult};

verus! {

/// The version of the library.
pub const VERSION: &'static str = "0.1.0";

/// Default size of the context window, in tokens.
pub const DEFAULT_MAX_CONTEXT: usize = 8192;

/// Default number of messages that a buffer keeps.
pub const DEFAULT_MESSAGE_BUFFER: usize = 100;

} // verus!
