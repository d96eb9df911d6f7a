//! The name, version and tools of the service.

use crate::types::responses::StatusResponse;
use vstd::prelude::*;

verus! {

/// The number of the build; it goes up with each build.
pub const BUILD_NUMBER: u32 = 2;

/// The number of tools.
pub const TOOL_COUNT: usize = 8;

/// The names of the tools, in the order in which they are listed.
pub open spec fn tool_names() -> Seq<Seq<char>> {
    seq![
        "ucm_now"@,
        "ucm_parse"@,
        "ucm_diff"@,
        "ucm_add"@,
        "ucm_convert"@,
        "ucm_info"@,
        "ucm_status"@,
        "ucm_instructions"@,
    ]
}

/// The version of the service.
pub open spec fn version_text() -> Seq<char> {
    "0.1.0"@
}

/// What the service is, in a sentence or two.
pub open spec fn description_text() -> Seq<char> {
    "MCP server providing date/time calculations. Takes over temporal reasoning and date arithmetic for callers that cannot do them reliably."@
}

/// The names of the tools, in the order in which they are listed.
pub fn tool_name_list() -> (names: Vec<String>)
    ensures
        names@.len() == TOOL_COUNT,
        names@.len() == tool_names().len(),
        forall|i: int| 0 <= i < names@.len() ==> (#[trigger] names@[i])@ == tool_names()[i],
{
    let mut names: Vec<String> = Vec::new();
    names.push("ucm_now".to_string());
    names.push("ucm_parse".to_string());
    names.push("ucm_diff".to_string());
    names.push("ucm_add".to_string());
    names.push("ucm_convert".to_string());
    names.push("ucm_info".to_string());
    names.push("ucm_status".to_string());
    names.push("ucm_instructions".to_string());
    names
}

/// The name of the service, its version and build, what it is, and the tools
/// that it offers.
pub fn ucm_status() -> (r: StatusResponse)
    ensures
        r.name@ == "UCM - Universal Calendar Manager"@,
        r.version@ == version_text(),
        r.build == BUILD_NUMBER,
        r.description@ == description_text(),
        r.tools_available@.len() == TOOL_COUNT,
        forall|i: int|
            0 <= i < r.tools_available@.len() ==> (#[trigger] r.tools_available@[i])@
                == tool_names()[i],
{
    StatusResponse {
        name: "UCM - Universal Calendar Manager".to_string(),
        version: "0.1.0".to_string(),
        build: BUILD_NUMBER,
        description: "MCP server providing date/time calculations. Takes over temporal reasoning and date arithmetic for callers that cannot do them reliably.".to_string(),
        tools_available: tool_name_list(),
    }
}

} // verus!
