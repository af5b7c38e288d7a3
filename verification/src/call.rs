//! A tool invocation as the agent requests it.

use vstd::prelude::*;
use crate::text::texts;

verus! {

/// Parameters of a command to run in the local shell.
#[derive(Debug, PartialEq, Eq)]
pub struct ShellToolCallParams {
    pub command: Vec<String>,
    pub workdir: Option<String>,
    pub timeout_ms: Option<u64>,
}

pub struct ShellToolCallParamsView {
    pub command: Seq<Seq<char>>,
    pub workdir: Option<Seq<char>>,
    pub timeout_ms: Option<u64>,
}

impl View for ShellToolCallParams {
    type V = ShellToolCallParamsView;

    open spec fn view(&self) -> ShellToolCallParamsView {
        ShellToolCallParamsView {
            command: texts(self.command@),
            workdir: match self.workdir {
                Some(dir) => Some(dir@),
                None => None,
            },
            timeout_ms: self.timeout_ms,
        }
    }
}

impl Clone for ShellToolCallParams {
    fn clone(&self) -> (copy: Self)
        ensures
            copy@ == self@,
    {
        let command = self.command.clone();
        assert(texts(command@) =~= texts(self.command@));
        let workdir = match &self.workdir {
            Some(dir) => Some(dir.clone()),
            None => None,
        };
        ShellToolCallParams { command, workdir, timeout_ms: self.timeout_ms }
    }
}

/// What a tool is called with. The variant is part of a call's identity:
/// two payloads of different variants never stand for the same work.
#[derive(Debug, PartialEq, Eq)]
pub enum ToolPayload {
    Function { arguments: String },
    Custom { input: String },
    LocalShell { params: ShellToolCallParams },
    Mcp { server: String, tool: String, raw_arguments: String },
}

pub enum ToolPayloadView {
    Function { arguments: Seq<char> },
    Custom { input: Seq<char> },
    LocalShell { params: ShellToolCallParamsView },
    Mcp { server: Seq<char>, tool: Seq<char>, raw_arguments: Seq<char> },
}

impl View for ToolPayload {
    type V = ToolPayloadView;

    open spec fn view(&self) -> ToolPayloadView {
        match self {
            ToolPayload::Function { arguments } => ToolPayloadView::Function {
                arguments: arguments@,
            },
            ToolPayload::Custom { input } => ToolPayloadView::Custom { input: input@ },
            ToolPayload::LocalShell { params } => ToolPayloadView::LocalShell { params: params@ },
            ToolPayload::Mcp { server, tool, raw_arguments } => ToolPayloadView::Mcp {
                server: server@,
                tool: tool@,
                raw_arguments: raw_arguments@,
            },
        }
    }
}

impl Clone for ToolPayload {
    fn clone(&self) -> (copy: Self)
        ensures
            copy@ == self@,
    {
        match self {
            ToolPayload::Function { arguments } => ToolPayload::Function {
                arguments: arguments.clone(),
            },
            ToolPayload::Custom { input } => ToolPayload::Custom { input: input.clone() },
            ToolPayload::LocalShell { params } => ToolPayload::LocalShell {
                params: params.clone(),
            },
            ToolPayload::Mcp { server, tool, raw_arguments } => ToolPayload::Mcp {
                server: server.clone(),
                tool: tool.clone(),
                raw_arguments: raw_arguments.clone(),
            },
        }
    }
}

/// One requested tool invocation. `call_id` names this request and nothing
/// else: it never takes part in deciding whether two calls do the same work.
#[derive(Debug, PartialEq, Eq)]
pub struct ToolCall {
    pub tool_name: String,
    pub call_id: String,
    pub payload: ToolPayload,
}

pub struct ToolCallView {
    pub tool_name: Seq<char>,
    pub call_id: Seq<char>,
    pub payload: ToolPayloadView,
}

impl View for ToolCall {
    type V = ToolCallView;

    open spec fn view(&self) -> ToolCallView {
        ToolCallView { tool_name: self.tool_name@, call_id: self.call_id@, payload: self.payload@ }
    }
}

impl Clone for ToolCall {
    fn clone(&self) -> (copy: Self)
        ensures
            copy@ == self@,
    {
        ToolCall {
            tool_name: self.tool_name.clone(),
            call_id: self.call_id.clone(),
            payload: self.payload.clone(),
        }
    }
}

} // verus!
