//! Which tools may have their results cached, and in which tier.

use vstd::prelude::*;

verus! {

/// Query-like tools: their results are valid beyond the turn that produced
/// them, so they qualify for the session tier (and with it the turn tier).
pub open spec fn session_cacheable(tool_name: Seq<char>) -> bool {
    ||| tool_name == "search_query"@
    ||| tool_name == "image_query"@
    ||| tool_name == "weather"@
    ||| tool_name == "sports"@
    ||| tool_name == "finance"@
    ||| tool_name == "time"@
    ||| tool_name == "list_mcp_resources"@
    ||| tool_name == "list_mcp_resource_templates"@
    ||| tool_name == "read_mcp_resource"@
    ||| tool_name == "search_tool_bm25"@
}

/// Tools whose results may be reused within one turn: every session-tier
/// tool, and the tools that inspect the workspace.
pub open spec fn turn_cacheable(tool_name: Seq<char>) -> bool {
    ||| session_cacheable(tool_name)
    ||| tool_name == "read_file"@
    ||| tool_name == "list_dir"@
    ||| tool_name == "grep_files"@
    ||| tool_name == "view_image"@
}

pub fn tool_supports_session_cache(tool_name: &str) -> (supported: bool)
    ensures
        supported == session_cacheable(tool_name@),
{
    tool_name.eq("search_query") || tool_name.eq("image_query") || tool_name.eq("weather")
        || tool_name.eq("sports") || tool_name.eq("finance") || tool_name.eq("time")
        || tool_name.eq("list_mcp_resources") || tool_name.eq("list_mcp_resource_templates")
        || tool_name.eq("read_mcp_resource") || tool_name.eq("search_tool_bm25")
}

pub fn tool_supports_turn_cache(tool_name: &str) -> (supported: bool)
    ensures
        supported == turn_cacheable(tool_name@),
{
    tool_supports_session_cache(tool_name) || tool_name.eq("read_file") || tool_name.eq(
        "list_dir",
    ) || tool_name.eq("grep_files") || tool_name.eq("view_image")
}

/// The session tier is a subset of the turn tier.
pub proof fn lemma_session_tier_within_turn_tier(tool_name: Seq<char>)
    ensures
        session_cacheable(tool_name) ==> turn_cacheable(tool_name),
{
}

} // verus!
