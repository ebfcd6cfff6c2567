//! What a generation reports when it cannot go on.

use vstd::prelude::*;
use vstd::string::*;

use crate::text::{decimal, push_decimal};

verus! {

/// Why a request failed.
#[derive(Debug, PartialEq, Eq)]
pub enum ProviderError {
    /// The prompt, or what was generated from it, does not fit the window.
    ContextLengthExceeded(String),
    /// An engine operation failed.
    ExecutionError(String),
}

/// A failure with its message as a sequence of characters.
#[verifier::ext_equal]
pub enum ErrorView {
    ContextLengthExceeded(Seq<char>),
    ExecutionError(Seq<char>),
}

impl View for ProviderError {
    type V = ErrorView;

    open spec fn view(&self) -> ErrorView {
        match self {
            ProviderError::ContextLengthExceeded(m) => ErrorView::ContextLengthExceeded(m@),
            ProviderError::ExecutionError(m) => ErrorView::ExecutionError(m@),
        }
    }
}

/// An execution failure whose message is `what` followed by `detail`.
pub fn execution_error(what: &str, detail: &str) -> (e: ProviderError)
    ensures
        e@ == ErrorView::ExecutionError(what@ + detail@),
{
    let mut message = what.to_owned();
    message.append(detail);
    ProviderError::ExecutionError(message)
}

/// What is reported of a window that the engine cannot be asked for.
pub open spec fn context_size_error(effective_ctx: nat) -> ErrorView {
    ErrorView::ExecutionError("Context size "@ + decimal(effective_ctx) + " exceeds u32 range"@)
}

/// What is reported of a window that the engine cannot be asked for.
pub fn report_context_size(effective_ctx: usize) -> (e: ProviderError)
    ensures
        e@ == context_size_error(effective_ctx as nat),
{
    let mut message = "Context size ".to_owned();
    push_decimal(&mut message, effective_ctx as u64);
    message.append(" exceeds u32 range");
    ProviderError::ExecutionError(message)
}

/// A failure is seen as it is, and one over a window that is out of range names it.
pub proof fn a_failure_is_seen_as_it_is(m: String, effective_ctx: nat)
    ensures
        ProviderError::ContextLengthExceeded(m)@ == ErrorView::ContextLengthExceeded(m@),
        ProviderError::ExecutionError(m)@ == ErrorView::ExecutionError(m@),
        context_size_error(effective_ctx) == ErrorView::ExecutionError(
            "Context size "@ + decimal(effective_ctx) + " exceeds u32 range"@,
        ),
{
}

} // verus!
