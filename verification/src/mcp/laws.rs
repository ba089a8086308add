//! What holds of the tools, of their calls and of the replies.
use crate::client::{
    bare, hitl_request_view, meta_request_view, resolve_request_view, run_request_view,
    sessions_request_view, text_request, RequestView, Verb,
};
use crate::json::laws::{holds, members_of};
use crate::json::{json_pretty, json_texts, text_member, JsonView};
use crate::mcp::{
    call_arguments, call_reply_json, call_text, content_json, count_arg, error_json, fault_code,
    flag_arg, hitl_call, hook_call, initialize_json, kind_json, line_step, map_arg, meta_call,
    must_be, needed_text, one_call, params_json, request_step, resolve_call, result_json, run_call,
    schema_members, sessions_call, small_count_arg, text_arg, text_members, tool_call, tool_json,
    tool_list, tools_call, tools_json, unknown_tool, McpView, ParamKind, RpcFault, ToolView,
};
use crate::number::decimal;
use crate::policy_sync::{failure_text, ResponseView};
use crate::strmap::{lookup, put_spec};
use crate::text::{blank, trim_by, CharSet};
use vstd::prelude::*;

verus! {

// ---------------------------------------------------------------- tools

/// Every tool is listed with its name, what it does and what it takes.
pub proof fn tools_are_described(tool: ToolView, i: int)
    ensures
        tools_json().len() == tool_list().len(),
        0 <= i < tool_list().len() ==> tools_json()[i] == tool_json(tool_list()[i]),
        holds(tool_json(tool), "name"@, JsonView::Text(tool.name)),
        holds(tool_json(tool), "description"@, JsonView::Text(tool.description)),
        holds(tool_json(tool), "inputSchema"@, JsonView::Object(schema_members(tool))),
{
    let members = members_of(tool_json(tool));
    assert(members[0].0 == "description"@);
    assert(members[1].0 == "inputSchema"@);
    assert(members[2].0 == "name"@);
}

/// The schema of a tool is that of an object which takes no other arguments; arguments
/// and needs are named where there are any.
pub proof fn schemas_name_arguments(tool: ToolView, i: int)
    ensures
        ({
            let schema = JsonView::Object(schema_members(tool));
            &&& holds(schema, "type"@, JsonView::Text("object"@))
            &&& holds(schema, "additionalProperties"@, JsonView::Bool(false))
            &&& tool.params.len() > 0 ==> holds(
                schema,
                "properties"@,
                JsonView::Object(params_json(tool.params)),
            )
            &&& tool.required.len() > 0 ==> holds(
                schema,
                "required"@,
                JsonView::Array(json_texts(tool.required)),
            )
            &&& tool.params.len() == 0 && tool.required.len() == 0 ==> members_of(schema).len()
                == 2
        }),
        params_json(tool.params).len() == tool.params.len(),
        0 <= i < tool.params.len() ==> params_json(tool.params)[i] == (
            tool.params[i].0,
            kind_json(tool.params[i].1),
        ),
{
    let members = members_of(JsonView::Object(schema_members(tool)));
    assert(members[0].0 == "additionalProperties"@);
    if tool.params.len() > 0 {
        assert(members[1].0 == "properties"@);
        if tool.required.len() > 0 {
            assert(members[2].0 == "required"@);
        }
    } else if tool.required.len() > 0 {
        assert(members[1].0 == "required"@);
    }
    assert(members[members.len() - 1].0 == "type"@);
}

/// Each kind of argument has its type.
pub proof fn kinds_have_types()
    ensures
        holds(kind_json(ParamKind::Text), "type"@, JsonView::Text("string"@)),
        holds(kind_json(ParamKind::Flag), "type"@, JsonView::Text("boolean"@)),
        holds(kind_json(ParamKind::Count), "type"@, JsonView::Text("integer"@)),
        holds(kind_json(ParamKind::Count), "minimum"@, JsonView::Number(Some(1), decimal(1))),
        holds(kind_json(ParamKind::TextMap), "type"@, JsonView::Text("object"@)),
        holds(
            kind_json(ParamKind::TextMap),
            "additionalProperties"@,
            kind_json(ParamKind::Text),
        ),
{
    assert(members_of(kind_json(ParamKind::Text))[0].0 == "type"@);
    assert(members_of(kind_json(ParamKind::Flag))[0].0 == "type"@);
    assert(members_of(kind_json(ParamKind::Count))[0].0 == "minimum"@);
    assert(members_of(kind_json(ParamKind::Count))[1].0 == "type"@);
    assert(members_of(kind_json(ParamKind::TextMap))[0].0 == "additionalProperties"@);
    assert(members_of(kind_json(ParamKind::TextMap))[1].0 == "type"@);
}

/// Whether a tool needs an argument of a kind.
pub open spec fn takes(tool: ToolView, name: Seq<char>, kind: ParamKind) -> bool {
    exists|i: int|
        0 <= i < tool.params.len() && (#[trigger] tool.params[i]).0 == name && tool.params[i].1
            == kind
}

/// What a tool needs it takes, as a text.
pub proof fn needed_arguments_are_taken(i: int, k: int)
    requires
        0 <= i < tool_list().len(),
        0 <= k < tool_list()[i].required.len(),
    ensures
        takes(tool_list()[i], tool_list()[i].required[k], ParamKind::Text),
{
    let tool = tool_list()[i];
    if i == 11 {
        assert(tool.params[0].0 == "decision"@);
        assert(tool.params[1].0 == "id"@);
    } else {
        assert(tool.params[0].0 == tool.required[0]);
    }
}

// ---------------------------------------------------------------- arguments

/// An argument that is missing or null is none, one of another kind is told, and one of
/// its kind is taken.
pub proof fn arguments_have_kinds(
    args: JsonView,
    key: Seq<char>,
    t: Seq<char>,
    n: u64,
    b: bool,
)
    ensures
        args.member(key) is None || args.member(key) == Some(JsonView::Null) ==> text_arg(args, key)
            == Ok::<Option<Seq<char>>, Seq<char>>(None) && count_arg(args, key) == Ok::<
            Option<u64>,
            Seq<char>,
        >(None) && flag_arg(args, key) == Ok::<Option<bool>, Seq<char>>(None) && (map_arg(args, key)
            matches Ok(vars) && vars.len() == 0) && needed_text(args, key) == Err::<
            Seq<char>,
            Seq<char>,
        >("tool argument '"@ + key + "' is required"@),
        args.member(key) == Some(JsonView::Text(t)) ==> text_arg(args, key) == Ok::<
            Option<Seq<char>>,
            Seq<char>,
        >(Some(t)) && needed_text(args, key) == Ok::<Seq<char>, Seq<char>>(t) && count_arg(
            args,
            key,
        ) == Err::<Option<u64>, Seq<char>>(must_be(key, "non-negative integer"@)) && flag_arg(
            args,
            key,
        ) == Err::<Option<bool>, Seq<char>>(must_be(key, "boolean"@)) && map_arg(args, key)
            == Err::<Seq<(Seq<char>, Seq<char>)>, Seq<char>>(must_be(key, "object"@)),
        args.member(key) == Some(JsonView::Number(Some(n), t)) ==> count_arg(args, key) == Ok::<
            Option<u64>,
            Seq<char>,
        >(Some(n)) && text_arg(args, key) == Err::<Option<Seq<char>>, Seq<char>>(
            must_be(key, "string"@),
        ) && (n <= u32::MAX ==> small_count_arg(args, key) == Ok::<Option<u32>, Seq<char>>(
            Some(n as u32),
        )) && (n > u32::MAX ==> small_count_arg(args, key) == Err::<Option<u32>, Seq<char>>(
            "tool argument '"@ + key + "' is too large for u32"@,
        )),
        args.member(key) == Some(JsonView::Number(None, t)) ==> count_arg(args, key) == Err::<
            Option<u64>,
            Seq<char>,
        >(must_be(key, "non-negative integer"@)),
        args.member(key) == Some(JsonView::Bool(b)) ==> flag_arg(args, key) == Ok::<
            Option<bool>,
            Seq<char>,
        >(Some(b)),
        must_be(key, t) == "tool argument '"@ + key + "' must be "@ + t,
{
}

/// The members of an argument are texts, each of which is found under its name; the
/// first that is none is told.
pub proof fn map_members_are_texts(
    key: Seq<char>,
    members: Seq<(Seq<char>, JsonView)>,
    member: (Seq<char>, JsonView),
    other: Seq<char>,
)
    ensures
        text_members(key, Seq::empty()) matches Ok(vars) && vars.len() == 0,
        text_members(key, members) is Err ==> text_members(key, members.push(member))
            == text_members(key, members),
        text_members(key, members) matches Ok(vars) ==> {
            &&& !(member.1 is Text) ==> text_members(key, members.push(member)) == Err::<
                Seq<(Seq<char>, Seq<char>)>,
                Seq<char>,
            >(
                "tool argument '"@ + key + "' values must be strings (key '"@ + member.0 + "')"@,
            )
            &&& member.1 is Text ==> {
                let all = text_members(key, members.push(member));
                &&& all is Ok
                &&& lookup(all->Ok_0, member.0) == Some(member.1->Text_0)
                &&& other != member.0 ==> lookup(all->Ok_0, other) == lookup(vars, other)
            }
        },
{
    assert(members.push(member).drop_last() =~= members);
    if let Ok(vars) = text_members(key, members) {
        if let JsonView::Text(t) = member.1 {
            put_spec(vars, member.0, t);
        }
    }
}

// ---------------------------------------------------------------- calls

/// Tools that ask about one thing ask for it by its path.
pub proof fn tools_ask_by_path(daemon: Seq<char>, args: JsonView, value: Seq<char>)
    requires
        needed_text(args, "id"@) == Ok::<Seq<char>, Seq<char>>(value),
        needed_text(args, "name"@) == Ok::<Seq<char>, Seq<char>>(value),
    ensures
        one_call(Verb::Get, daemon, args, "name"@, "/workflow/"@, "/check"@) == Ok::<
            RequestView,
            Seq<char>,
        >(bare(Verb::Get, daemon, "/workflow/"@ + value + "/check"@)),
        one_call(Verb::Get, daemon, args, "id"@, "/workflow/"@, "/logs"@) == Ok::<
            RequestView,
            Seq<char>,
        >(bare(Verb::Get, daemon, "/workflow/"@ + value + "/logs"@)),
        one_call(Verb::Delete, daemon, args, "id"@, "/workflow/"@, Seq::empty()) == Ok::<
            RequestView,
            Seq<char>,
        >(bare(Verb::Delete, daemon, "/workflow/"@ + value)),
        hook_call(daemon, args) == Ok::<RequestView, Seq<char>>(
            bare(Verb::Post, daemon, "/hook/"@ + trim_by(value, CharSet::Only('/'))),
        ),
{
    assert("/workflow/"@ + value + Seq::<char>::empty() =~= "/workflow/"@ + value);
}

/// Each tool does what its name says.
#[verifier::rlimit(40)]
pub proof fn names_choose_tools(daemon: Seq<char>, args: JsonView)
    ensures
        tool_call(daemon, "list_flows"@, args) == Ok::<RequestView, Seq<char>>(
            bare(Verb::Get, daemon, "/workflows"@),
        ),
        tool_call(daemon, "list_flows_meta"@, args) == meta_call(daemon, args),
        tool_call(daemon, "run_flow"@, args) == run_call(daemon, args),
        tool_call(daemon, "can_run_flow"@, args) == one_call(
            Verb::Get,
            daemon,
            args,
            "name"@,
            "/workflow/"@,
            "/check"@,
        ),
        tool_call(daemon, "session_status"@, args) == one_call(
            Verb::Get,
            daemon,
            args,
            "id"@,
            "/workflow/"@,
            Seq::empty(),
        ),
        tool_call(daemon, "tail_logs"@, args) == one_call(
            Verb::Get,
            daemon,
            args,
            "id"@,
            "/workflow/"@,
            "/logs"@,
        ),
        tool_call(daemon, "stop_flow"@, args) == one_call(
            Verb::Delete,
            daemon,
            args,
            "id"@,
            "/workflow/"@,
            Seq::empty(),
        ),
        tool_call(daemon, "list_sessions"@, args) == sessions_call(daemon, args),
        tool_call(daemon, "stats"@, args) == Ok::<RequestView, Seq<char>>(
            bare(Verb::Get, daemon, "/stats"@),
        ),
        tool_call(daemon, "trigger_hook"@, args) == hook_call(daemon, args),
        tool_call(daemon, "list_hitl"@, args) == hitl_call(daemon, args),
        tool_call(daemon, "resolve_hitl"@, args) == resolve_call(daemon, args),
{
    reveal_strlit("list_flows");
    reveal_strlit("list_flows_meta");
    reveal_strlit("run_flow");
    reveal_strlit("can_run_flow");
    reveal_strlit("session_status");
    reveal_strlit("tail_logs");
    reveal_strlit("stop_flow");
    reveal_strlit("list_sessions");
    reveal_strlit("stats");
    reveal_strlit("trigger_hook");
    reveal_strlit("list_hitl");
    reveal_strlit("resolve_hitl");
    assert("list_flows"@.len() == 10 && "list_flows_meta"@.len() == 15);
    assert("run_flow"@.len() == 8 && "session_status"@.len() == 14);
    assert("list_sessions"@.len() == 13 && "stats"@.len() == 5);
    assert("tail_logs"@.len() == 9 && "stop_flow"@.len() == 9 && "list_hitl"@.len() == 9);
    assert("tail_logs"@[0] == 't' && "stop_flow"@[0] == 's' && "list_hitl"@[0] == 'l');
    assert("can_run_flow"@.len() == 12 && "trigger_hook"@.len() == 12 && "resolve_hitl"@.len()
        == 12);
    assert("can_run_flow"@[0] == 'c' && "trigger_hook"@[0] == 't' && "resolve_hitl"@[0] == 'r');
}

/// Lists are asked for with the filters that are given.
pub proof fn lists_take_filters(
    daemon: Seq<char>,
    args: JsonView,
    status: Option<Seq<char>>,
    owner: Option<Seq<char>>,
    workflow: Option<Seq<char>>,
    session_id: Option<Seq<char>>,
    tag: Option<Seq<char>>,
    capability: Option<Seq<char>>,
    available: Option<bool>,
    limit: Option<u64>,
)
    requires
        text_arg(args, "status"@) == Ok::<Option<Seq<char>>, Seq<char>>(status),
        text_arg(args, "owner"@) == Ok::<Option<Seq<char>>, Seq<char>>(owner),
        text_arg(args, "workflow"@) == Ok::<Option<Seq<char>>, Seq<char>>(workflow),
        text_arg(args, "session_id"@) == Ok::<Option<Seq<char>>, Seq<char>>(session_id),
        text_arg(args, "tag"@) == Ok::<Option<Seq<char>>, Seq<char>>(tag),
        text_arg(args, "capability"@) == Ok::<Option<Seq<char>>, Seq<char>>(capability),
        flag_arg(args, "available"@) == Ok::<Option<bool>, Seq<char>>(available),
        count_arg(args, "limit"@) == Ok::<Option<u64>, Seq<char>>(limit),
    ensures
        meta_call(daemon, args) == Ok::<RequestView, Seq<char>>(
            meta_request_view(daemon, tag, owner, capability, available, limit),
        ),
        sessions_call(daemon, args) == Ok::<RequestView, Seq<char>>(
            sessions_request_view(daemon, status, owner, workflow, limit),
        ),
        hitl_call(daemon, args) == Ok::<RequestView, Seq<char>>(
            hitl_request_view(daemon, status, session_id, workflow, limit),
        ),
{
}

/// A flow is run by its name, else as it comes along, and then without variables and
/// limit.
pub proof fn runs_need_a_flow(
    daemon: Seq<char>,
    args: JsonView,
    name: Option<Seq<char>>,
    yaml: Option<Seq<char>>,
    vars: Seq<(Seq<char>, Seq<char>)>,
    max_iterations: Option<u32>,
)
    requires
        text_arg(args, "name"@) == Ok::<Option<Seq<char>>, Seq<char>>(name),
        text_arg(args, "workflow_yaml"@) == Ok::<Option<Seq<char>>, Seq<char>>(yaml),
        map_arg(args, "vars"@) == Ok::<Seq<(Seq<char>, Seq<char>)>, Seq<char>>(vars),
        small_count_arg(args, "max_iterations"@) == Ok::<Option<u32>, Seq<char>>(max_iterations),
    ensures
        name is Some ==> run_call(daemon, args) == Ok::<RequestView, Seq<char>>(
            run_request_view(daemon, name->0, vars, max_iterations),
        ),
        name is None && yaml is Some && vars.len() == 0 && max_iterations is None ==> run_call(
            daemon,
            args,
        ) == Ok::<RequestView, Seq<char>>(text_request(daemon, "/workflow"@, yaml->0)),
        name is None && yaml is Some && (vars.len() > 0 || max_iterations is Some) ==> run_call(
            daemon,
            args,
        ) is Err,
        name is None && yaml is None ==> run_call(daemon, args) == Err::<RequestView, Seq<char>>(
            "run_flow requires either 'name' or 'workflow_yaml'"@,
        ),
{
}

/// A decision is settled with its id; what is missing is told.
pub proof fn decisions_need_an_id(daemon: Seq<char>, args: JsonView)
    ensures
        needed_text(args, "id"@) matches Err(why) ==> resolve_call(daemon, args) == Err::<
            RequestView,
            Seq<char>,
        >(why),
        needed_text(args, "id"@) matches Ok(id) ==> (needed_text(args, "decision"@) matches Ok(
            decision,
        ) ==> resolve_call(daemon, args) == Ok::<RequestView, Seq<char>>(
            resolve_request_view(daemon, id, decision),
        )),
        needed_text(args, "id"@) is Ok ==> (needed_text(args, "decision"@) matches Err(why)
            ==> resolve_call(daemon, args) == Err::<RequestView, Seq<char>>(why)),
{
}

/// A call names its tool and its arguments, which may be left out.
pub proof fn calls_name_a_tool(daemon: Seq<char>, params: JsonView)
    ensures
        text_member(params, "name"@) is None ==> tools_call(daemon, params) == Err::<
            RequestView,
            Seq<char>,
        >("tools/call missing params.name"@),
        text_member(params, "name"@) matches Some(name) ==> {
            &&& params.member("arguments"@) matches Some(args) ==> tools_call(daemon, params)
                == tool_call(daemon, name, args)
            &&& params.member("arguments"@) is None ==> tools_call(daemon, params) == tool_call(
                daemon,
                name,
                JsonView::Object(Seq::empty()),
            )
        },
        call_arguments(params) is Object || params.member("arguments"@) is Some,
{
}

/// A call gives back the value of the answer, else its body; a failure is told.
pub proof fn calls_give_back_answers(response: ResponseView, value: JsonView, message: Seq<char>)
    ensures
        200 <= response.status < 300 ==> call_text(response, Ok(value)) == Ok::<
            Seq<char>,
            Seq<char>,
        >(json_pretty(value)) && call_text(response, Err(message)) == Ok::<Seq<char>, Seq<char>>(
            response.body,
        ),
        !(200 <= response.status < 300) ==> call_text(response, Ok(value)) == Err::<
            Seq<char>,
            Seq<char>,
        >(failure_text("daemon request"@, response)),
{
}

// ---------------------------------------------------------------- replies

/// A reply bears the id of its message, and a result or an error.
pub proof fn replies_bear_the_id(
    id: JsonView,
    result: JsonView,
    fault: RpcFault,
    message: Seq<char>,
)
    ensures
        holds(result_json(id, result), "id"@, id),
        holds(result_json(id, result), "jsonrpc"@, JsonView::Text("2.0"@)),
        holds(result_json(id, result), "result"@, result),
        holds(error_json(id, fault, message), "id"@, id),
        holds(error_json(id, fault, message), "jsonrpc"@, JsonView::Text("2.0"@)),
        ({
            let error = members_of(error_json(id, fault, message))[0];
            &&& error.0 == "error"@
            &&& holds(error.1, "code"@, JsonView::Number(None, fault_code(fault)))
            &&& holds(error.1, "message"@, JsonView::Text(message))
        }),
        fault_code(RpcFault::ParseError) == "-32700"@,
        fault_code(RpcFault::InvalidRequest) == "-32600"@,
        fault_code(RpcFault::MethodNotFound) == "-32601"@,
{
    let good = members_of(result_json(id, result));
    assert(good[0].0 == "id"@);
    assert(good[1].0 == "jsonrpc"@);
    assert(good[2].0 == "result"@);
    let bad = members_of(error_json(id, fault, message));
    assert(bad[1].0 == "id"@);
    assert(bad[2].0 == "jsonrpc"@);
    assert(members_of(bad[0].1)[0].0 == "code"@);
    assert(members_of(bad[0].1)[1].0 == "message"@);
}

/// The reply to a call holds its text, and says where it is an error.
pub proof fn failed_calls_are_marked(id: JsonView, text: Seq<char>)
    ensures
        content_json(text) is Array,
        content_json(text)->Array_0.len() == 1,
        holds(content_json(text)->Array_0[0], "text"@, JsonView::Text(text)),
        holds(content_json(text)->Array_0[0], "type"@, JsonView::Text("text"@)),
        call_reply_json(id, Ok(text)) == result_json(
            id,
            JsonView::Object(seq![("content"@, content_json(text))]),
        ),
        call_reply_json(id, Err(text)) == result_json(
            id,
            JsonView::Object(
                seq![("content"@, content_json(text)), ("isError"@, JsonView::Bool(true))],
            ),
        ),
{
    assert(members_of(content_json(text)->Array_0[0])[0].0 == "text"@);
    assert(members_of(content_json(text)->Array_0[0])[1].0 == "type"@);
}

/// A client is told the protocol, that there are tools, and the version.
pub proof fn starts_tell_the_protocol(version: Seq<char>)
    ensures
        holds(
            initialize_json(version),
            "protocolVersion"@,
            JsonView::Text("2024-11-05"@),
        ),
        ({
            let server = members_of(initialize_json(version))[2];
            &&& server.0 == "serverInfo"@
            &&& holds(server.1, "name"@, JsonView::Text("anna-rs"@))
            &&& holds(server.1, "version"@, JsonView::Text(version))
        }),
        ({
            let can = members_of(initialize_json(version))[0];
            can.0 == "capabilities"@ && holds(can.1, "tools"@, JsonView::Object(Seq::empty()))
        }),
{
    let told = members_of(initialize_json(version));
    assert(told[1].0 == "protocolVersion"@);
    assert(members_of(told[2].1)[0].0 == "name"@);
    assert(members_of(told[2].1)[1].0 == "version"@);
    assert(members_of(told[0].1)[0].0 == "tools"@);
}

/// A line that is blank is passed over, and one that is no JSON is an error.
pub proof fn blank_lines_are_passed_over(
    daemon: Seq<char>,
    version: Seq<char>,
    line: Seq<char>,
    request: JsonView,
    message: Seq<char>,
)
    ensures
        blank(line) ==> line_step(daemon, version, line, Ok(request)) is Silent,
        !blank(line) ==> line_step(daemon, version, line, Ok(request)) == request_step(
            daemon,
            version,
            request,
        ),
        !blank(line) ==> line_step(daemon, version, line, Err(message)) == McpView::Reply(
            error_json(JsonView::Null, RpcFault::ParseError, "parse error: "@ + message),
        ),
{
}

/// Each method is answered in its way; a message without one, and a method that is not
/// known, are errors.
#[verifier::rlimit(40)]
pub proof fn methods_are_answered(
    daemon: Seq<char>,
    version: Seq<char>,
    request: JsonView,
    id: JsonView,
    params: JsonView,
)
    requires
        request.member("id"@) == Some(id),
        request.member("params"@) == Some(params),
    ensures
        ({
            let method = text_member(request, "method"@);
            let step = request_step(daemon, version, request);
            let nothing = JsonView::Object(Seq::empty());
            &&& method is None ==> step == McpView::Reply(
                error_json(id, RpcFault::InvalidRequest, "invalid request: missing method"@),
            )
            &&& method == Some("initialize"@) ==> step == McpView::Reply(
                result_json(id, initialize_json(version)),
            )
            &&& method == Some("ping"@) ==> step == McpView::Reply(result_json(id, nothing))
            &&& method == Some("initialized"@) ==> step == McpView::Reply(result_json(id, nothing))
            &&& method == Some("tools/list"@) ==> step == McpView::Reply(
                result_json(id, JsonView::Object(seq![("tools"@, JsonView::Array(tools_json()))])),
            )
            &&& method == Some("tools/call"@) && tools_call(daemon, params) is Ok ==> step
                == McpView::Call(id, tools_call(daemon, params)->Ok_0)
            &&& method == Some("tools/call"@) && tools_call(daemon, params) is Err ==> step
                == McpView::Reply(call_reply_json(id, Err(tools_call(daemon, params)->Err_0)))
            &&& method is Some && method->0 != "initialize"@ && method->0 != "initialized"@
                && method->0 != "ping"@ && method->0 != "tools/list"@ && method->0
                != "tools/call"@ ==> step == McpView::Reply(
                error_json(id, RpcFault::MethodNotFound, "method not found: "@ + method->0),
            )
        }),
{
    reveal_strlit("initialize");
    reveal_strlit("initialized");
    reveal_strlit("ping");
    reveal_strlit("tools/list");
    reveal_strlit("tools/call");
    assert("tools/list"@[6] == 'l' && "tools/call"@[6] == 'c');
    assert("tools/list"@[0] == 't' && "tools/call"@[0] == 't' && "initialize"@[0] == 'i');
}

/// A note without an id that all is set up is not answered.
pub proof fn notes_are_not_answered(daemon: Seq<char>, version: Seq<char>, request: JsonView)
    requires
        request.member("id"@) is None,
        text_member(request, "method"@) == Some("initialized"@),
    ensures
        request_step(daemon, version, request) is Silent,
{
    reveal_strlit("initialize");
    reveal_strlit("initialized");
}

/// A tool that is not known, and arguments that do not go together, are told.
pub proof fn bad_calls_are_told(
    daemon: Seq<char>,
    args: JsonView,
    name: Seq<char>,
    yaml: Seq<char>,
    vars: Seq<(Seq<char>, Seq<char>)>,
    max_iterations: Option<u32>,
)
    ensures
        unknown_tool(name) == "unknown tool '"@ + name + "'"@,
        text_arg(args, "name"@) == Ok::<Option<Seq<char>>, Seq<char>>(None) && text_arg(
            args,
            "workflow_yaml"@,
        ) == Ok::<Option<Seq<char>>, Seq<char>>(Some(yaml)) && map_arg(args, "vars"@) == Ok::<
            Seq<(Seq<char>, Seq<char>)>,
            Seq<char>,
        >(vars) && small_count_arg(args, "max_iterations"@) == Ok::<Option<u32>, Seq<char>>(
            max_iterations,
        ) && (vars.len() > 0 || max_iterations is Some) ==> run_call(daemon, args) == Err::<
            RequestView,
            Seq<char>,
        >(
            "run_flow with workflow_yaml does not support 'vars' or 'max_iterations'; use named flow"@,
        ),
{
}

} // verus!
