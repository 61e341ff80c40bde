//! The MCP endpoint's rules: which methods it answers, which tools it exposes
//! (read-only ones only), and the errors it answers everything else with. The
//! transport, authentication and the tools' work are the caller's.
use vstd::prelude::*;
use crate::chat::{check_call, guard_of, json_value, names_of, ToolSpec};
use crate::text::{chars_of, str_eq, string_of};

verus! {

/// The protocol version this endpoint answers with.
pub const PROTOCOL_VERSION: &'static str = "2025-06-18";

/// JSON-RPC's "method not found".
pub const METHOD_NOT_FOUND: i64 = -32601;

/// The tools exposed over MCP: the read-only ones. Running SQL and writing
/// memories are not.
pub open spec fn exposed(name: Seq<char>) -> bool {
    name == "search_chunks"@ || name == "search_docs"@ || name == "find_entities"@ || name
        == "changes"@ || name == "entity_facts"@
}

pub fn is_exposed(name: &str) -> (r: bool)
    ensures
        r == exposed(name@),
{
    str_eq(name, "search_chunks") || str_eq(name, "search_docs") || str_eq(name, "find_entities")
        || str_eq(name, "changes") || str_eq(name, "entity_facts")
}

/// What a request is answered with.
#[derive(Clone, Copy, Debug, PartialEq, Eq, Structural)]
pub enum Method {
    Initialize,
    /// A notification: answered with an empty result and no id.
    Notification,
    Ping,
    ToolsList,
    ToolsCall,
    /// Anything else: `Unknown method: ...`.
    Unknown,
}

pub open spec fn method_of(name: Seq<char>) -> Method {
    if name == "initialize"@ {
        Method::Initialize
    } else if name == "notifications/initialized"@ || name == "notifications/cancelled"@ {
        Method::Notification
    } else if name == "ping"@ {
        Method::Ping
    } else if name == "tools/list"@ {
        Method::ToolsList
    } else if name == "tools/call"@ {
        Method::ToolsCall
    } else {
        Method::Unknown
    }
}

/// Each method the server handles routes to its own answer and never to the
/// unknown-method error: `initialize`, the two notifications, `ping`,
/// `tools/list` and `tools/call`; and a method that routes to one of these is
/// that one's own name, so only those names do.
pub proof fn law_each_method_routes_to_its_own(name: Seq<char>)
    ensures
        method_of("initialize"@) == Method::Initialize,
        method_of("notifications/initialized"@) == Method::Notification,
        method_of("notifications/cancelled"@) == Method::Notification,
        method_of("ping"@) == Method::Ping,
        method_of("tools/list"@) == Method::ToolsList,
        method_of("tools/call"@) == Method::ToolsCall,
        method_of(name) == Method::Initialize ==> name == "initialize"@,
        method_of(name) == Method::Ping ==> name == "ping"@,
        method_of(name) == Method::ToolsList ==> name == "tools/list"@,
        method_of(name) == Method::ToolsCall ==> name == "tools/call"@,
        method_of(name) == Method::Notification ==> name == "notifications/initialized"@ || name
            == "notifications/cancelled"@,
{
    reveal_strlit("initialize");
    reveal_strlit("notifications/initialized");
    reveal_strlit("notifications/cancelled");
    reveal_strlit("ping");
    reveal_strlit("tools/list");
    reveal_strlit("tools/call");
    assert("tools/list"@[6] != "tools/call"@[6]);
    assert("initialize"@[0] != "tools/list"@[0]);
    assert("initialize"@[0] != "tools/call"@[0]);
    assert("ping"@.len() != "initialize"@.len());
    assert("ping"@.len() != "tools/list"@.len());
    assert("ping"@.len() != "notifications/initialized"@.len());
    assert("ping"@.len() != "notifications/cancelled"@.len());
    assert("tools/list"@.len() != "notifications/initialized"@.len());
    assert("tools/list"@.len() != "notifications/cancelled"@.len());
    assert("initialize"@.len() != "notifications/initialized"@.len());
    assert("initialize"@.len() != "notifications/cancelled"@.len());
    assert("notifications/initialized"@.len() != "notifications/cancelled"@.len());
}

pub fn route(method: &str) -> (r: Method)
    ensures
        r == method_of(method@),
{
    if str_eq(method, "initialize") {
        Method::Initialize
    } else if str_eq(method, "notifications/initialized") || str_eq(
        method,
        "notifications/cancelled",
    ) {
        Method::Notification
    } else if str_eq(method, "ping") {
        Method::Ping
    } else if str_eq(method, "tools/list") {
        Method::ToolsList
    } else if str_eq(method, "tools/call") {
        Method::ToolsCall
    } else {
        Method::Unknown
    }
}

fn joined(parts: &Vec<&str>) -> (r: String)
    ensures
        r@ == crate::chat::concat_spec(parts@.map_values(|p: &str| p@)),
{
    let mut out: Vec<char> = Vec::new();
    let mut i: usize = 0;
    while i < parts.len()
        invariant
            i <= parts@.len(),
            out@ == crate::chat::concat_spec(parts@.map_values(|p: &str| p@).take(i as int)),
        decreases parts.len() - i,
    {
        let mut v = chars_of(parts[i]);
        let ghost a = out@;
        let ghost b = v@;
        out.append(&mut v);
        proof {
            let all = parts@.map_values(|p: &str| p@);
            assert(all.take(i + 1).drop_last() =~= all.take(i as int));
            assert(out@ =~= a + b);
        }
        i = i + 1;
    }
    proof {
        let all = parts@.map_values(|p: &str| p@);
        assert(all.take(parts@.len() as int) =~= all);
    }
    string_of(&out)
}

/// The message of an unknown method.
pub fn unknown_method_message(method: &str) -> (r: String)
    ensures
        r@ == "Unknown method: "@ + method@,
{
    let parts: Vec<&str> = vec!["Unknown method: ", method];
    let r = joined(&parts);
    proof {
        assert(parts@.map_values(|p: &str| p@) =~= seq!["Unknown method: "@, method@]);
        reveal_with_fuel(crate::chat::concat_spec, 3);
    }
    r
}

/// The message of a call to a tool that is not exposed.
pub fn not_exposed_message(tool: &str) -> (r: String)
    ensures
        r@ == "Tool '"@ + tool@ + "' is not exposed over MCP in this version"@,
{
    let parts: Vec<&str> = vec!["Tool '", tool, "' is not exposed over MCP in this version"];
    let r = joined(&parts);
    proof {
        assert(parts@.map_values(|p: &str| p@) =~= seq![
            "Tool '"@,
            tool@,
            "' is not exposed over MCP in this version"@,
        ]);
        reveal_with_fuel(crate::chat::concat_spec, 4);
    }
    r
}

/// The tools a client is told about: those of the chat table that are exposed,
/// in the table's order.
pub open spec fn listed(tools: Seq<ToolSpec>) -> Seq<Seq<char>>
    decreases tools.len(),
{
    if tools.len() == 0 {
        Seq::empty()
    } else {
        let rest = listed(tools.drop_last());
        if exposed(tools.last().name@) {
            rest.push(tools.last().name@)
        } else {
            rest
        }
    }
}

/// The positions in `tools` of the exposed tools, in order.
pub fn exposed_tools(tools: &Vec<ToolSpec>) -> (r: Vec<usize>)
    ensures
        r@.map_values(|i: usize| tools@[i as int].name@) == listed(tools@),
        forall|k: int| 0 <= k < r@.len() ==> #[trigger] r@[k] < tools@.len(),
{
    let mut out: Vec<usize> = Vec::new();
    let mut i: usize = 0;
    proof {
        assert(tools@.take(0) =~= Seq::<ToolSpec>::empty());
    }
    while i < tools.len()
        invariant
            i <= tools@.len(),
            out@.map_values(|j: usize| tools@[j as int].name@) == listed(tools@.take(i as int)),
            forall|k: int| 0 <= k < out@.len() ==> #[trigger] out@[k] < i,
        decreases tools.len() - i,
    {
        let ghost before = out@;
        proof {
            assert(tools@.take(i + 1).drop_last() =~= tools@.take(i as int));
            assert(tools@.take(i + 1).last() == tools@[i as int]);
        }
        if is_exposed(tools[i].name) {
            out.push(i);
            proof {
                assert(out@.map_values(|j: usize| tools@[j as int].name@) =~= before.map_values(
                    |j: usize| tools@[j as int].name@,
                ).push(tools@[i as int].name@));
            }
        }
        i = i + 1;
    }
    proof {
        assert(tools@.take(tools@.len() as int) =~= tools@);
    }
    out
}

/// Nothing that writes is reachable over MCP: neither running SQL nor
/// recording a memory is an exposed tool.
pub proof fn law_mcp_is_read_only()
    ensures
        !exposed("query_data"@),
        !exposed("remember"@),
{
    reveal_strlit("query_data");
    reveal_strlit("remember");
    reveal_strlit("search_chunks");
    reveal_strlit("search_docs");
    reveal_strlit("find_entities");
    reveal_strlit("changes");
    reveal_strlit("entity_facts");
    assert("query_data"@.len() != "search_chunks"@.len());
    assert("query_data"@[0] != "search_docs"@[0]);
    assert("query_data"@[0] != "find_entities"@[0]);
    assert("query_data"@.len() != "changes"@.len());
    assert("query_data"@[0] != "entity_facts"@[0]);
    assert("remember"@.len() != "search_chunks"@.len());
    assert("remember"@[0] != "search_docs"@[0]);
    assert("remember"@[0] != "find_entities"@[0]);
    assert("remember"@.len() != "changes"@.len());
    assert("remember"@[0] != "entity_facts"@[0]);
}

/// What a `tools/call` request leads to.
#[derive(Debug, PartialEq)]
pub enum McpCall {
    /// Refused as a JSON-RPC error with the code and message: no tool runs and
    /// nothing is audited.
    Refuse(i64, String),
    /// Answered with `isError: true` and this text, no structured content:
    /// the call guard turned the arguments away. The call is audited.
    Invalid(String),
    /// Run as the chat runs the tool, with these arguments, but read-only and
    /// with no data source mounted, whatever the token's scope: the scope is
    /// an upper bound, and this version's bound is the exposed set. The call
    /// is audited, and the answer's `isError` is the tool's own.
    Run(serde_json::Value),
}

/// Whether a call leaves an audit row: every call that reached a tool's guard.
pub fn audited(c: &McpCall) -> (r: bool)
    ensures
        r == !(c is Refuse),
{
    match c {
        McpCall::Refuse(_, _) => false,
        _ => true,
    }
}

/// A call of a tool that is not exposed (a missing name reads as empty) is
/// refused with `-32601`, saying it is not exposed rather than unknown, so a
/// client does not retry. An exposed one passes the same guard as a chat
/// call: arguments that are not JSON or miss a required parameter are
/// answered as an error, the rest run read-only with the arguments as they
/// came.
pub fn tools_call(tools: &Vec<ToolSpec>, name: Option<&str>, raw_args: &str) -> (r: McpCall)
    ensures
        ({
            let n = match name {
                Some(x) => x@,
                None => Seq::<char>::empty(),
            };
            if exposed(n) {
                match guard_of(tools@, n, raw_args@) {
                    Ok(()) => r matches McpCall::Run(v) && json_value(raw_args@) == Some(v),
                    Err((m, _)) => r matches McpCall::Invalid(t) && t@ == m,
                }
            } else {
                r matches McpCall::Refuse(c, m) && c == -32601 && m@ == "Tool '"@ + n
                    + "' is not exposed over MCP in this version"@
            }
        }),
{
    let n: &str = match name {
        Some(x) => x,
        None => "",
    };
    proof {
        reveal_strlit("");
        assert(""@ =~= Seq::<char>::empty());
        assert(n@ == match name {
            Some(x) => x@,
            None => Seq::<char>::empty(),
        });
    }
    if !is_exposed(n) {
        return McpCall::Refuse(-32601, not_exposed_message(n));
    }
    match check_call(tools, n, raw_args) {
        Ok(v) => McpCall::Run(v),
        Err(refusal) => McpCall::Invalid(refusal.message),
    }
}

} // verus!
