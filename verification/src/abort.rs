//! The answer that a cancelled call resolves to.

use vstd::prelude::*;
use crate::call::{ToolCall, ToolCallView, ToolPayload, ToolPayloadView};
use crate::response::{
    call_id_of, FunctionCallOutputBody, FunctionCallOutputBodyView, FunctionCallOutputPayload,
    FunctionCallOutputPayloadView, ResponseInputItem, ResponseInputItemView,
};

verus! {

/// The tools that run a process: their abort message reports the wall time
/// in the form that their ordinary output uses.
pub open spec fn runs_process(tool_name: Seq<char>) -> bool {
    ||| tool_name == "shell"@
    ||| tool_name == "container.exec"@
    ||| tool_name == "local_shell"@
    ||| tool_name == "shell_command"@
    ||| tool_name == "unified_exec"@
}

/// The message of an aborted call of `tool_name`; `elapsed` is the time the
/// call had been running, in seconds, as it is to be shown.
pub open spec fn abort_text(tool_name: Seq<char>, elapsed: Seq<char>) -> Seq<char> {
    if runs_process(tool_name) {
        "Wall time: "@ + elapsed + " seconds\naborted by user"@
    } else {
        "aborted by user after "@ + elapsed + "s"@
    }
}

pub fn abort_message(call: &ToolCall, elapsed: &str) -> (message: String)
    ensures
        message@ == abort_text(call@.tool_name, elapsed@),
{
    let name = call.tool_name.as_str();
    if name.eq("shell") || name.eq("container.exec") || name.eq("local_shell") || name.eq(
        "shell_command",
    ) || name.eq("unified_exec") {
        let mut message = "Wall time: ".to_owned();
        message.append(elapsed);
        message.append(" seconds\naborted by user");
        message
    } else {
        let mut message = "aborted by user after ".to_owned();
        message.append(elapsed);
        message.append("s");
        message
    }
}

/// The answer to a cancelled call: it has the shape that the call's payload
/// asks for, names the call, and carries the abort message. For an MCP call
/// it is an error outcome.
pub open spec fn aborted(call: ToolCallView, elapsed: Seq<char>) -> ResponseInputItemView {
    let message = abort_text(call.tool_name, elapsed);
    match call.payload {
        ToolPayloadView::Custom { .. } => ResponseInputItemView::CustomToolCallOutput {
            call_id: call.call_id,
            output: message,
        },
        ToolPayloadView::Mcp { .. } => ResponseInputItemView::McpToolCallOutput {
            call_id: call.call_id,
            result: Err(message),
        },
        _ => ResponseInputItemView::FunctionCallOutput {
            call_id: call.call_id,
            output: FunctionCallOutputPayloadView {
                body: FunctionCallOutputBodyView::Text(message),
                success: None,
            },
        },
    }
}

pub fn aborted_response(call: &ToolCall, elapsed: &str) -> (response: ResponseInputItem)
    ensures
        response@ == aborted(call@, elapsed@),
{
    let message = abort_message(call, elapsed);
    match &call.payload {
        ToolPayload::Custom { .. } => ResponseInputItem::CustomToolCallOutput {
            call_id: call.call_id.clone(),
            output: message,
        },
        ToolPayload::Mcp { .. } => ResponseInputItem::McpToolCallOutput {
            call_id: call.call_id.clone(),
            result: Err(message),
        },
        _ => ResponseInputItem::FunctionCallOutput {
            call_id: call.call_id.clone(),
            output: FunctionCallOutputPayload {
                body: FunctionCallOutputBody::Text(message),
                success: None,
            },
        },
    }
}

/// The answer to a cancelled call always names that call.
pub proof fn lemma_aborted_names_the_call(call: ToolCallView, elapsed: Seq<char>)
    ensures
        call_id_of(aborted(call, elapsed)) == Some(call.call_id),
{
}

} // verus!
