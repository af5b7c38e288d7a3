//! The key under which a call's result is cached and under which identical
//! calls in flight find each other.

use vstd::prelude::*;
use crate::call::{ToolCall, ToolCallView, ToolPayload, ToolPayloadView};
use crate::json::JsonModel;
use crate::json_laws::same_data;
use crate::json_text::{
    canonical_json_or_raw, canonical_text_or_raw, lemma_key_material_ignores_member_order,
    parsed_json,
};
use crate::text::{append_decimal, decimal, join, joined, trim, trimmed};

verus! {

/// What the JSON arguments of a payload contribute to the key; nothing for a
/// payload that carries none.
pub open spec fn key_arguments(payload: ToolPayloadView) -> Seq<char> {
    match payload {
        ToolPayloadView::Function { arguments } => canonical_text_or_raw(arguments),
        ToolPayloadView::Mcp { raw_arguments, .. } => canonical_text_or_raw(raw_arguments),
        _ => Seq::empty(),
    }
}

/// The key of a call whose JSON arguments contribute `arguments`: the tool's
/// name, a tag for the payload's variant, and the payload's content, with
/// `|` between them. The call's id takes no part.
pub open spec fn cache_key_with(call: ToolCallView, arguments: Seq<char>) -> Seq<char> {
    match call.payload {
        ToolPayloadView::Function { .. } => call.tool_name + "|fn|"@ + arguments,
        ToolPayloadView::Custom { input } => call.tool_name + "|custom|"@ + trimmed(input),
        ToolPayloadView::LocalShell { params } => call.tool_name + "|local_shell|"@ + joined(
            params.command,
            "\u{1f}"@,
        ) + "|"@ + (match params.workdir {
            Some(dir) => dir,
            None => Seq::empty(),
        }) + "|"@ + decimal(
            match params.timeout_ms {
                Some(limit) => limit as nat,
                None => 0,
            },
        ),
        ToolPayloadView::Mcp { server, tool, .. } => call.tool_name + "|mcp|"@ + server + "|"@
            + tool + "|"@ + arguments,
    }
}

/// The key of a call.
pub open spec fn cache_key(call: ToolCallView) -> Seq<char> {
    cache_key_with(call, key_arguments(call.payload))
}

/// The key of `call`, given what its JSON arguments contribute.
pub fn cache_key_from_parts(call: &ToolCall, arguments: &str) -> (key: String)
    ensures
        key@ == cache_key_with(call@, arguments@),
{
    let mut key = call.tool_name.clone();
    match &call.payload {
        ToolPayload::Function { .. } => {
            key.append("|fn|");
            key.append(arguments);
        },
        ToolPayload::Custom { input } => {
            key.append("|custom|");
            key.append(trim(input.as_str()));
        },
        ToolPayload::LocalShell { params } => {
            key.append("|local_shell|");
            let command = join(&params.command, "\u{1f}");
            key.append(command.as_str());
            key.append("|");
            match &params.workdir {
                Some(dir) => {
                    key.append(dir.as_str());
                },
                None => {
                    assert(key@ + Seq::<char>::empty() =~= key@);
                },
            }
            key.append("|");
            append_decimal(
                &mut key,
                match params.timeout_ms {
                    Some(limit) => limit,
                    None => 0,
                },
            );
        },
        ToolPayload::Mcp { server, tool, .. } => {
            key.append("|mcp|");
            key.append(server.as_str());
            key.append("|");
            key.append(tool.as_str());
            key.append("|");
            key.append(arguments);
        },
    }
    key
}

/// The key of `call`.
pub fn tool_call_cache_key(call: &ToolCall) -> (key: String)
    ensures
        key@ == cache_key(call@),
{
    match &call.payload {
        ToolPayload::Function { arguments } => {
            let canonical = canonical_json_or_raw(arguments.as_str());
            cache_key_from_parts(call, canonical.as_str())
        },
        ToolPayload::Mcp { raw_arguments, .. } => {
            let canonical = canonical_json_or_raw(raw_arguments.as_str());
            cache_key_from_parts(call, canonical.as_str())
        },
        _ => cache_key_from_parts(call, ""),
    }
}

/// The same call for another request.
pub open spec fn requested_as(call: ToolCallView, call_id: Seq<char>) -> ToolCallView {
    ToolCallView { call_id, ..call }
}

/// A call's id never reaches its key.
pub proof fn lemma_key_ignores_call_id(call: ToolCallView, call_id: Seq<char>)
    ensures
        cache_key(requested_as(call, call_id)) == cache_key(call),
{
}

/// The arguments of two calls hold the same JSON data.
pub open spec fn same_arguments(first: Seq<char>, second: Seq<char>) -> bool {
    exists|a: JsonModel, b: JsonModel|
        parsed_json(first) == Some(a) && parsed_json(second) == Some(b) && #[trigger] same_data(
            a,
            b,
        )
}

/// Two calls that differ only in their ids and in the order in which the
/// objects of their JSON arguments list their members have the same key.
pub proof fn lemma_key_ignores_member_order(first: ToolCallView, second: ToolCallView)
    requires
        first.tool_name == second.tool_name,
        match (first.payload, second.payload) {
            (
                ToolPayloadView::Function { arguments: a },
                ToolPayloadView::Function { arguments: b },
            ) => same_arguments(a, b),
            (
                ToolPayloadView::Mcp { server: s1, tool: t1, raw_arguments: a },
                ToolPayloadView::Mcp { server: s2, tool: t2, raw_arguments: b },
            ) => s1 == s2 && t1 == t2 && same_arguments(a, b),
            _ => false,
        },
    ensures
        cache_key(first) == cache_key(second),
{
    let (left, right) = match (first.payload, second.payload) {
        (
            ToolPayloadView::Function { arguments: a },
            ToolPayloadView::Function { arguments: b },
        ) => (a, b),
        (
            ToolPayloadView::Mcp { raw_arguments: a, .. },
            ToolPayloadView::Mcp { raw_arguments: b, .. },
        ) => (a, b),
        _ => (Seq::empty(), Seq::empty()),
    };
    let (a, b) = choose|a: JsonModel, b: JsonModel|
        parsed_json(left) == Some(a) && parsed_json(right) == Some(b) && #[trigger] same_data(a, b);
    lemma_key_material_ignores_member_order(left, right, a, b);
}

/// The tag that a payload's variant puts into the key.
pub open spec fn variant_tag(payload: ToolPayloadView) -> Seq<char> {
    match payload {
        ToolPayloadView::Function { .. } => "|fn|"@,
        ToolPayloadView::Custom { .. } => "|custom|"@,
        ToolPayloadView::LocalShell { .. } => "|local_shell|"@,
        ToolPayloadView::Mcp { .. } => "|mcp|"@,
    }
}

/// Two payloads are of the same variant.
pub open spec fn same_variant(first: ToolPayloadView, second: ToolPayloadView) -> bool {
    ||| first is Function && second is Function
    ||| first is Custom && second is Custom
    ||| first is LocalShell && second is LocalShell
    ||| first is Mcp && second is Mcp
}

/// Calls of one tool whose payloads are of different variants never share a
/// key, whatever text the payloads hold.
pub proof fn lemma_variants_never_collide(first: ToolCallView, second: ToolCallView)
    requires
        first.tool_name == second.tool_name,
        !same_variant(first.payload, second.payload),
    ensures
        cache_key(first) != cache_key(second),
{
    reveal_strlit("|fn|");
    reveal_strlit("|custom|");
    reveal_strlit("|local_shell|");
    reveal_strlit("|mcp|");
    let at = first.tool_name.len() as int + 1;
    assert(cache_key(first)[at] == variant_tag(first.payload)[1]);
    assert(cache_key(second)[at] == variant_tag(second.payload)[1]);
}

} // verus!
