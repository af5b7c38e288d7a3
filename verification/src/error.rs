//! Failures of a tool call, as the router reports them and as the
//! coordinator hands them on.

use vstd::prelude::*;
use crate::response::{ResponseInputItem, ResponseInputItemView};

verus! {

/// A failure that the router reports for a dispatched call. Either way it
/// carries the text that is to be shown.
#[derive(Debug, PartialEq, Eq)]
pub enum FunctionCallError {
    /// The failure ends the turn.
    Fatal(String),
    /// Any other failure.
    Other(String),
}

pub enum FunctionCallErrorView {
    Fatal(Seq<char>),
    Other(Seq<char>),
}

impl View for FunctionCallError {
    type V = FunctionCallErrorView;

    open spec fn view(&self) -> FunctionCallErrorView {
        match self {
            FunctionCallError::Fatal(message) => FunctionCallErrorView::Fatal(message@),
            FunctionCallError::Other(message) => FunctionCallErrorView::Other(message@),
        }
    }
}

impl Clone for FunctionCallError {
    fn clone(&self) -> (copy: Self)
        ensures
            copy@ == self@,
    {
        match self {
            FunctionCallError::Fatal(message) => FunctionCallError::Fatal(message.clone()),
            FunctionCallError::Other(message) => FunctionCallError::Other(message.clone()),
        }
    }
}

/// A failure that the coordinator's caller sees. The coordinator knows one
/// kind: the call cannot be answered.
#[derive(Debug, PartialEq, Eq)]
pub enum CodexErr {
    Fatal(String),
}

pub enum CodexErrView {
    Fatal(Seq<char>),
}

impl View for CodexErr {
    type V = CodexErrView;

    open spec fn view(&self) -> CodexErrView {
        match self {
            CodexErr::Fatal(message) => CodexErrView::Fatal(message@),
        }
    }
}

/// What a call came to: its result, or the router's failure.
pub open spec fn outcome_view(outcome: Result<ResponseInputItem, FunctionCallError>) -> Result<
    ResponseInputItemView,
    FunctionCallErrorView,
> {
    match outcome {
        Ok(response) => Ok(response@),
        Err(error) => Err(error@),
    }
}

/// Every failure of the router reaches the caller as a fatal error with the
/// router's text.
pub open spec fn fatal(error: FunctionCallErrorView) -> CodexErrView {
    match error {
        FunctionCallErrorView::Fatal(message) => CodexErrView::Fatal(message),
        FunctionCallErrorView::Other(message) => CodexErrView::Fatal(message),
    }
}

pub fn fatal_from_tool_error(error: FunctionCallError) -> (wrapped: CodexErr)
    ensures
        wrapped@ == fatal(error@),
{
    match error {
        FunctionCallError::Fatal(message) => CodexErr::Fatal(message),
        FunctionCallError::Other(message) => CodexErr::Fatal(message),
    }
}

/// The failure to report when the task that ran a call did not hand over an
/// outcome; `reason` says what happened to the task.
pub open spec fn task_failure(reason: Seq<char>) -> CodexErrView {
    CodexErrView::Fatal("tool task failed to receive: "@ + reason)
}

pub fn fatal_from_task_failure(reason: &str) -> (wrapped: CodexErr)
    ensures
        wrapped@ == task_failure(reason@),
{
    let mut message = "tool task failed to receive: ".to_owned();
    message.append(reason);
    CodexErr::Fatal(message)
}

/// What the caller of a call gets, given what the task that ran the call
/// handed over: the result as it is, a fatal error for a failure of the
/// router, and a fatal error where the task handed over nothing.
pub open spec fn resolved(
    joined: Result<Result<ResponseInputItemView, FunctionCallErrorView>, Seq<char>>,
) -> Result<ResponseInputItemView, CodexErrView> {
    match joined {
        Ok(Ok(response)) => Ok(response),
        Ok(Err(error)) => Err(fatal(error)),
        Err(reason) => Err(task_failure(reason)),
    }
}

pub fn resolve_task_outcome(
    joined: Result<Result<ResponseInputItem, FunctionCallError>, String>,
) -> (answer: Result<ResponseInputItem, CodexErr>)
    ensures
        match answer {
            Ok(response) => resolved(
                match joined {
                    Ok(outcome) => Ok(outcome_view(outcome)),
                    Err(reason) => Err(reason@),
                },
            ) == Ok::<ResponseInputItemView, CodexErrView>(response@),
            Err(error) => resolved(
                match joined {
                    Ok(outcome) => Ok(outcome_view(outcome)),
                    Err(reason) => Err(reason@),
                },
            ) == Err::<ResponseInputItemView, CodexErrView>(error@),
        },
{
    match joined {
        Ok(Ok(response)) => Ok(response),
        Ok(Err(error)) => Err(fatal_from_tool_error(error)),
        Err(reason) => Err(fatal_from_task_failure(reason.as_str())),
    }
}

} // verus!
