//! The closed set of failures that the runtime reports.

use crate::text::{concat2, decimal, push_decimal};
use vstd::prelude::*;
use vstd::string::*;

verus! {

/// A failure of the relational store.
#[derive(Debug)]
pub enum StorageError {
    /// A query failed.
    Database(String),
    /// No connection could be had from the pool.
    Pool(String),
    Serialization(String),
    NotFound(String),
    AlreadyExists(String),
    Migration(String),
    InvalidData(String),
    Io(String),
}

impl StorageError {
    /// The human-readable message.
    pub open spec fn message(&self) -> Seq<char> {
        match self {
            StorageError::Database(m) => "Database error: "@ + m@,
            StorageError::Pool(m) => "Connection pool error: "@ + m@,
            StorageError::Serialization(m) => "Serialization error: "@ + m@,
            StorageError::NotFound(m) => "Not found: "@ + m@,
            StorageError::AlreadyExists(m) => "Already exists: "@ + m@,
            StorageError::Migration(m) => "Migration error: "@ + m@,
            StorageError::InvalidData(m) => "Invalid data: "@ + m@,
            StorageError::Io(m) => "IO error: "@ + m@,
        }
    }

    /// The human-readable message.
    pub fn to_string(&self) -> (r: String)
        ensures
            r@ == self.message(),
    {
        match self {
            StorageError::Database(m) => concat2("Database error: ", m.as_str()),
            StorageError::Pool(m) => concat2("Connection pool error: ", m.as_str()),
            StorageError::Serialization(m) => concat2("Serialization error: ", m.as_str()),
            StorageError::NotFound(m) => concat2("Not found: ", m.as_str()),
            StorageError::AlreadyExists(m) => concat2("Already exists: ", m.as_str()),
            StorageError::Migration(m) => concat2("Migration error: ", m.as_str()),
            StorageError::InvalidData(m) => concat2("Invalid data: ", m.as_str()),
            StorageError::Io(m) => concat2("IO error: ", m.as_str()),
        }
    }
}

/// A failure of the agent runtime.
#[derive(Debug)]
pub enum LettaError {
    /// Database, connection-pool or IO failure of the store.
    Storage(StorageError),
    /// A document could not be parsed or written.
    Serialization(String),
    /// The completion backend failed or is not there.
    Provider(String),
    /// Unknown tool, missing or ill-typed argument, or too many iterations.
    ToolExecution(String),
    /// Oversize block, missing block on append, or template failure.
    Memory(String),
    /// The prompt exceeds the token budget.
    ContextOverflow { current: usize, max: usize },
    AgentNotFound(String),
    InvalidConfig(String),
    Sync(String),
    Io(String),
    Unknown(String),
}

impl LettaError {
    /// The human-readable message.
    pub open spec fn message(&self) -> Seq<char> {
        match self {
            LettaError::Storage(e) => "Storage error: "@ + e.message(),
            LettaError::Serialization(m) => "Serialization error: "@ + m@,
            LettaError::Provider(m) => "Provider error: "@ + m@,
            LettaError::ToolExecution(m) => "Tool execution error: "@ + m@,
            LettaError::Memory(m) => "Memory error: "@ + m@,
            LettaError::ContextOverflow { current, max } => "Context overflow: current "@ + decimal(
                *current as nat,
            ) + ", max "@ + decimal(*max as nat),
            LettaError::AgentNotFound(m) => "Agent not found: "@ + m@,
            LettaError::InvalidConfig(m) => "Invalid configuration: "@ + m@,
            LettaError::Sync(m) => "Sync error: "@ + m@,
            LettaError::Io(m) => "IO error: "@ + m@,
            LettaError::Unknown(m) => "Unknown error: "@ + m@,
        }
    }

    /// The human-readable message.
    pub fn to_string(&self) -> (r: String)
        ensures
            r@ == self.message(),
    {
        match self {
            LettaError::Storage(e) => {
                let inner = e.to_string();
                concat2("Storage error: ", inner.as_str())
            },
            LettaError::Serialization(m) => concat2("Serialization error: ", m.as_str()),
            LettaError::Provider(m) => concat2("Provider error: ", m.as_str()),
            LettaError::ToolExecution(m) => concat2("Tool execution error: ", m.as_str()),
            LettaError::Memory(m) => concat2("Memory error: ", m.as_str()),
            LettaError::ContextOverflow { current, max } => {
                let mut out = "Context overflow: current ".to_owned();
                push_decimal(&mut out, *current);
                out.append(", max ");
                push_decimal(&mut out, *max);
                out
            },
            LettaError::AgentNotFound(m) => concat2("Agent not found: ", m.as_str()),
            LettaError::InvalidConfig(m) => concat2("Invalid configuration: ", m.as_str()),
            LettaError::Sync(m) => concat2("Sync error: ", m.as_str()),
            LettaError::Io(m) => concat2("IO error: ", m.as_str()),
            LettaError::Unknown(m) => concat2("Unknown error: ", m.as_str()),
        }
    }
}

} // verus!
