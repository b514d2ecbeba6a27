//! What a tool tells its host.

use vstd::prelude::*;

verus! {

/// What a tool needs of its host.
#[derive(Debug, Clone, Copy, PartialEq, Eq, Structural)]
pub enum ToolCapability {
    /// It calls out over the network.
    Network,
}

/// Whether the user is asked before the tool runs.
#[derive(Debug, Clone, Copy, PartialEq, Eq, Structural)]
pub enum ApprovalRequirement {
    /// The user is asked, except where the session runs without approvals.
    Suggest,
}

/// Why a tool did not do what it was asked to.
#[derive(Debug)]
pub enum ToolError {
    /// The input is not one the tool takes.
    InvalidInput(String),
    /// The tool cannot do this here, or no longer.
    NotAvailable(String),
    /// The tool tried and failed.
    ExecutionFailed(String),
}

/// A `ToolError` with its message as a sequence of characters.
pub enum ErrorView {
    InvalidInput(Seq<char>),
    NotAvailable(Seq<char>),
    ExecutionFailed(Seq<char>),
}

impl View for ToolError {
    type V = ErrorView;

    open spec fn view(&self) -> ErrorView {
        match self {
            ToolError::InvalidInput(message) => ErrorView::InvalidInput(message@),
            ToolError::NotAvailable(message) => ErrorView::NotAvailable(message@),
            ToolError::ExecutionFailed(message) => ErrorView::ExecutionFailed(message@),
        }
    }
}

impl ToolError {
    /// The input is not one the tool takes.
    pub fn invalid_input(message: &str) -> (error: Self)
        ensures
            error@ == ErrorView::InvalidInput(message@),
    {
        ToolError::InvalidInput(message.to_owned())
    }

    /// The tool cannot do this here, or no longer.
    pub fn not_available(message: &str) -> (error: Self)
        ensures
            error@ == ErrorView::NotAvailable(message@),
    {
        ToolError::NotAvailable(message.to_owned())
    }

    /// The tool tried and failed.
    pub fn execution_failed(message: &str) -> (error: Self)
        ensures
            error@ == ErrorView::ExecutionFailed(message@),
    {
        ToolError::ExecutionFailed(message.to_owned())
    }
}

// ---- laws ----

/// An error is seen as what it is, with its whole message.
pub proof fn errors_are_seen_whole(message: String)
    ensures
        ToolError::InvalidInput(message)@ == ErrorView::InvalidInput(message@),
        ToolError::NotAvailable(message)@ == ErrorView::NotAvailable(message@),
        ToolError::ExecutionFailed(message)@ == ErrorView::ExecutionFailed(message@),
{
}

} // verus!
