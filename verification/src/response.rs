//! The results that a tool call can resolve to, and the rules that depend
//! only on a result's shape.

use vstd::prelude::*;
use crate::text::texts;

verus! {

/// Body of a function tool's output.
#[derive(Debug, PartialEq, Eq)]
pub enum FunctionCallOutputBody {
    Text(String),
    ContentItems(Vec<String>),
}

pub enum FunctionCallOutputBodyView {
    Text(Seq<char>),
    ContentItems(Seq<Seq<char>>),
}

impl View for FunctionCallOutputBody {
    type V = FunctionCallOutputBodyView;

    open spec fn view(&self) -> FunctionCallOutputBodyView {
        match self {
            FunctionCallOutputBody::Text(text) => FunctionCallOutputBodyView::Text(text@),
            FunctionCallOutputBody::ContentItems(items) => FunctionCallOutputBodyView::ContentItems(
                texts(items@),
            ),
        }
    }
}

impl Clone for FunctionCallOutputBody {
    fn clone(&self) -> (copy: Self)
        ensures
            copy@ == self@,
    {
        match self {
            FunctionCallOutputBody::Text(text) => FunctionCallOutputBody::Text(text.clone()),
            FunctionCallOutputBody::ContentItems(items) => {
                let copy = items.clone();
                assert(texts(copy@) =~= texts(items@));
                FunctionCallOutputBody::ContentItems(copy)
            },
        }
    }
}

/// Output of a function tool: its body, and whether the tool reported
/// success (`None` where it did not say).
#[derive(Debug, PartialEq, Eq)]
pub struct FunctionCallOutputPayload {
    pub body: FunctionCallOutputBody,
    pub success: Option<bool>,
}

pub struct FunctionCallOutputPayloadView {
    pub body: FunctionCallOutputBodyView,
    pub success: Option<bool>,
}

impl View for FunctionCallOutputPayload {
    type V = FunctionCallOutputPayloadView;

    open spec fn view(&self) -> FunctionCallOutputPayloadView {
        FunctionCallOutputPayloadView { body: self.body@, success: self.success }
    }
}

impl Clone for FunctionCallOutputPayload {
    fn clone(&self) -> (copy: Self)
        ensures
            copy@ == self@,
    {
        FunctionCallOutputPayload { body: self.body.clone(), success: self.success }
    }
}

impl Default for FunctionCallOutputPayload {
    /// An empty text body with no success flag.
    fn default() -> (payload: Self)
        ensures
            payload@ == (FunctionCallOutputPayloadView {
                body: FunctionCallOutputBodyView::Text(Seq::empty()),
                success: None,
            }),
    {
        FunctionCallOutputPayload { body: FunctionCallOutputBody::Text(String::new()), success: None }
    }
}

/// What a tool call resolves to. Every variant but `Message` answers the
/// request named by its `call_id`.
#[derive(Debug, PartialEq, Eq)]
#[allow(inconsistent_fields)]
pub enum ResponseInputItem {
    Message { role: String, content: Vec<String> },
    FunctionCallOutput { call_id: String, output: FunctionCallOutputPayload },
    McpToolCallOutput { call_id: String, result: Result<String, String> },
    CustomToolCallOutput { call_id: String, output: String },
}

#[allow(inconsistent_fields)]
pub enum ResponseInputItemView {
    Message { role: Seq<char>, content: Seq<Seq<char>> },
    FunctionCallOutput { call_id: Seq<char>, output: FunctionCallOutputPayloadView },
    McpToolCallOutput { call_id: Seq<char>, result: Result<Seq<char>, Seq<char>> },
    CustomToolCallOutput { call_id: Seq<char>, output: Seq<char> },
}

impl View for ResponseInputItem {
    type V = ResponseInputItemView;

    open spec fn view(&self) -> ResponseInputItemView {
        match self {
            ResponseInputItem::Message { role, content } => ResponseInputItemView::Message {
                role: role@,
                content: texts(content@),
            },
            ResponseInputItem::FunctionCallOutput {
                call_id,
                output,
            } => ResponseInputItemView::FunctionCallOutput { call_id: call_id@, output: output@ },
            ResponseInputItem::McpToolCallOutput {
                call_id,
                result,
            } => ResponseInputItemView::McpToolCallOutput {
                call_id: call_id@,
                result: match result {
                    Ok(value) => Ok(value@),
                    Err(message) => Err(message@),
                },
            },
            ResponseInputItem::CustomToolCallOutput {
                call_id,
                output,
            } => ResponseInputItemView::CustomToolCallOutput { call_id: call_id@, output: output@ },
        }
    }
}

impl Clone for ResponseInputItem {
    fn clone(&self) -> (copy: Self)
        ensures
            copy@ == self@,
    {
        match self {
            ResponseInputItem::Message { role, content } => {
                let copy = content.clone();
                assert(texts(copy@) =~= texts(content@));
                ResponseInputItem::Message { role: role.clone(), content: copy }
            },
            ResponseInputItem::FunctionCallOutput {
                call_id,
                output,
            } => ResponseInputItem::FunctionCallOutput {
                call_id: call_id.clone(),
                output: output.clone(),
            },
            ResponseInputItem::McpToolCallOutput {
                call_id,
                result,
            } => ResponseInputItem::McpToolCallOutput {
                call_id: call_id.clone(),
                result: match result {
                    Ok(value) => Ok(value.clone()),
                    Err(message) => Err(message.clone()),
                },
            },
            ResponseInputItem::CustomToolCallOutput {
                call_id,
                output,
            } => ResponseInputItem::CustomToolCallOutput {
                call_id: call_id.clone(),
                output: output.clone(),
            },
        }
    }
}

/// A result may be reused for a later identical call unless the tool said it
/// failed: a function output whose success flag is `false`, an MCP outcome
/// that carries an error, or a message, which answers no call at all.
pub open spec fn cache_eligible(response: ResponseInputItemView) -> bool {
    match response {
        ResponseInputItemView::FunctionCallOutput { output, .. } => output.success != Some(false),
        ResponseInputItemView::McpToolCallOutput { result, .. } => result is Ok,
        ResponseInputItemView::CustomToolCallOutput { .. } => true,
        ResponseInputItemView::Message { .. } => false,
    }
}

pub fn should_cache_tool_response(response: &ResponseInputItem) -> (eligible: bool)
    ensures
        eligible == cache_eligible(response@),
{
    match response {
        ResponseInputItem::FunctionCallOutput { output, .. } => match output.success {
            Some(flag) => flag,
            None => true,
        },
        ResponseInputItem::McpToolCallOutput { result, .. } => result.is_ok(),
        ResponseInputItem::CustomToolCallOutput { .. } => true,
        ResponseInputItem::Message { .. } => false,
    }
}

/// The same result, addressed to the request `call_id`. A message names no
/// request and stays as it is.
pub open spec fn with_call_id(
    response: ResponseInputItemView,
    call_id: Seq<char>,
) -> ResponseInputItemView {
    match response {
        ResponseInputItemView::FunctionCallOutput {
            output,
            ..
        } => ResponseInputItemView::FunctionCallOutput { call_id, output },
        ResponseInputItemView::McpToolCallOutput {
            result,
            ..
        } => ResponseInputItemView::McpToolCallOutput { call_id, result },
        ResponseInputItemView::CustomToolCallOutput {
            output,
            ..
        } => ResponseInputItemView::CustomToolCallOutput { call_id, output },
        ResponseInputItemView::Message { .. } => response,
    }
}

/// The request that a result answers, if it answers one.
pub open spec fn call_id_of(response: ResponseInputItemView) -> Option<Seq<char>> {
    match response {
        ResponseInputItemView::FunctionCallOutput { call_id, .. } => Some(call_id),
        ResponseInputItemView::McpToolCallOutput { call_id, .. } => Some(call_id),
        ResponseInputItemView::CustomToolCallOutput { call_id, .. } => Some(call_id),
        ResponseInputItemView::Message { .. } => None,
    }
}

pub fn remap_response_call_id(response: ResponseInputItem, call_id: &str) -> (remapped:
    ResponseInputItem)
    ensures
        remapped@ == with_call_id(response@, call_id@),
{
    match response {
        ResponseInputItem::FunctionCallOutput {
            output,
            ..
        } => ResponseInputItem::FunctionCallOutput { call_id: call_id.to_owned(), output },
        ResponseInputItem::McpToolCallOutput {
            result,
            ..
        } => ResponseInputItem::McpToolCallOutput { call_id: call_id.to_owned(), result },
        ResponseInputItem::CustomToolCallOutput {
            output,
            ..
        } => ResponseInputItem::CustomToolCallOutput { call_id: call_id.to_owned(), output },
        ResponseInputItem::Message { role, content } => ResponseInputItem::Message {
            role,
            content,
        },
    }
}

/// A result read back for another requester carries that requester's id and
/// no trace of the id it was stored under; nothing else about it changes.
pub proof fn lemma_remap_carries_requester_id(
    response: ResponseInputItemView,
    call_id: Seq<char>,
)
    ensures
        !(response is Message) ==> call_id_of(with_call_id(response, call_id)) == Some(call_id),
        response is Message ==> with_call_id(response, call_id) == response,
        cache_eligible(with_call_id(response, call_id)) == cache_eligible(response),
        forall|other: Seq<char>|
            with_call_id(with_call_id(response, other), call_id) == with_call_id(
                response,
                call_id,
            ),
{
}

} // verus!
