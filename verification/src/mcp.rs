//! The tools that a daemon's flows offer to an assistant, over JSON-RPC.
use crate::client::{
    bare, check_request, hitl_list_request, hitl_request_view, hook_request, logs_request,
    meta_request_view, plain_request, resolve_request, resolve_request_view, run_named_request,
    run_request_view, sessions_request, sessions_request_view, status_request, stop_request,
    submit_request, text_request, vars_result, workflows_meta_request, DaemonRequest, RequestView,
    Verb,
};
use crate::json::{
    compact_json, empty_object, json_items, json_items_at, json_members, json_members_at,
    json_normal, json_pretty, json_read, json_text, json_texts, number, object1, parse_json,
    pretty_text, text, text_array, text_member, with_member, Json, JsonNumber, JsonView,
};
use crate::number::decimal;
use crate::policy_sync::{
    failure_message, failure_text, non_blank, nonblank, opt_result, texts_result, DaemonResponse,
    ResponseView,
};
use crate::providers::vault_http::{is_success, success_status};
use crate::ranking::views;
use crate::strmap::{lookup, put, StrMap};
use crate::text::{
    as_str_opt, blank, cat2, cat3, cat4, cat5, opt_text, same, texts, trim, trim_by, trimmed,
    CharSet,
};
use vstd::prelude::*;
use vstd::string::*;

pub mod laws;

verus! {

/// Where the daemon is, and the token it asks for.
pub struct McpConfig {
    pub daemon_url: String,
    pub daemon_token: Option<String>,
}

/// The token to send along, where there is one.
pub fn daemon_token(config: &McpConfig) -> (r: Option<String>)
    ensures
        opt_text(r) == nonblank(opt_text(config.daemon_token)),
{
    non_blank(as_str_opt(&config.daemon_token))
}

// ---------------------------------------------------------------- tools

/// What an argument of a tool may be.
#[derive(Clone, Copy, Debug, PartialEq, Eq, Structural)]
pub enum ParamKind {
    Text,
    Flag,
    Count,
    TextMap,
}

/// A tool: its name, what it does, its arguments and those that it needs.
pub struct ToolSpec {
    pub name: String,
    pub description: String,
    pub params: Vec<(String, ParamKind)>,
    pub required: Vec<String>,
}

/// A tool, as plain values.
pub struct ToolView {
    pub name: Seq<char>,
    pub description: Seq<char>,
    pub params: Seq<(Seq<char>, ParamKind)>,
    pub required: Seq<Seq<char>>,
}

pub open spec fn params_view(params: Seq<(String, ParamKind)>) -> Seq<(Seq<char>, ParamKind)> {
    Seq::new(params.len(), |i: int| (params[i].0@, params[i].1))
}

impl View for ToolSpec {
    type V = ToolView;

    open spec fn view(&self) -> ToolView {
        ToolView {
            name: self.name@,
            description: self.description@,
            params: params_view(self.params@),
            required: texts(self.required@),
        }
    }
}

impl ToolSpec {
    /// A tool without arguments.
    pub fn new(name: &str, description: &str) -> (r: Self)
        ensures
            r@ == (ToolView {
                name: name@,
                description: description@,
                params: Seq::empty(),
                required: Seq::empty(),
            }),
    {
        let r = ToolSpec {
            name: name.to_owned(),
            description: description.to_owned(),
            params: Vec::new(),
            required: Vec::new(),
        };
        assert(r@.params =~= Seq::empty());
        assert(r@.required =~= Seq::empty());
        r
    }

    /// Gives the tool one argument more.
    pub fn param(&mut self, name: &str, kind: ParamKind)
        ensures
            final(self)@ == (ToolView { params: old(self)@.params.push((name@, kind)), ..old(self)@
            }),
    {
        self.params.push((name.to_owned(), kind));
        assert(self@.params =~= old(self)@.params.push((name@, kind)));
    }

    /// Marks an argument as one that the tool needs.
    pub fn require(&mut self, name: &str)
        ensures
            final(self)@ == (ToolView { required: old(self)@.required.push(name@), ..old(self)@ }),
    {
        self.required.push(name.to_owned());
        assert(self@.required =~= old(self)@.required.push(name@));
    }
}

/// The tools, in the order in which they are listed.
pub open spec fn tool_list() -> Seq<ToolView> {
    seq![
        ToolView {
            name: "list_flows"@,
            description: "List registered Anna workflow files from daemon playbook directory"@,
            params: Seq::empty(),
            required: Seq::empty(),
        },
        ToolView {
            name: "list_flows_meta"@,
            description: "List registered workflows with metadata and capability availability"@,
            params: seq![
                ("available"@, ParamKind::Flag),
                ("capability"@, ParamKind::Text),
                ("limit"@, ParamKind::Count),
                ("owner"@, ParamKind::Text),
                ("tag"@, ParamKind::Text),
            ],
            required: Seq::empty(),
        },
        ToolView {
            name: "run_flow"@,
            description: "Run workflow by registered name, or submit raw YAML"@,
            params: seq![
                ("max_iterations"@, ParamKind::Count),
                ("name"@, ParamKind::Text),
                ("vars"@, ParamKind::TextMap),
                ("workflow_yaml"@, ParamKind::Text),
            ],
            required: Seq::empty(),
        },
        ToolView {
            name: "can_run_flow"@,
            description: "Check whether a registered workflow can run now based on policy/capacity"@,
            params: seq![("name"@, ParamKind::Text)],
            required: seq!["name"@],
        },
        ToolView {
            name: "session_status"@,
            description: "Get workflow session status by request id"@,
            params: seq![("id"@, ParamKind::Text)],
            required: seq!["id"@],
        },
        ToolView {
            name: "tail_logs"@,
            description: "Fetch stage logs for workflow session by request id"@,
            params: seq![("id"@, ParamKind::Text)],
            required: seq!["id"@],
        },
        ToolView {
            name: "stop_flow"@,
            description: "Stop running workflow session by request id"@,
            params: seq![("id"@, ParamKind::Text)],
            required: seq!["id"@],
        },
        ToolView {
            name: "list_sessions"@,
            description: "List daemon workflow sessions"@,
            params: seq![
                ("limit"@, ParamKind::Count),
                ("owner"@, ParamKind::Text),
                ("status"@, ParamKind::Text),
                ("workflow"@, ParamKind::Text),
            ],
            required: Seq::empty(),
        },
        ToolView {
            name: "stats"@,
            description: "Get daemon stats summary"@,
            params: Seq::empty(),
            required: Seq::empty(),
        },
        ToolView {
            name: "trigger_hook"@,
            description: "Trigger daemon webhook hook by name"@,
            params: seq![("name"@, ParamKind::Text)],
            required: seq!["name"@],
        },
        ToolView {
            name: "list_hitl"@,
            description: "List HITL requests"@,
            params: seq![
                ("limit"@, ParamKind::Count),
                ("session_id"@, ParamKind::Text),
                ("status"@, ParamKind::Text),
                ("workflow"@, ParamKind::Text),
            ],
            required: Seq::empty(),
        },
        ToolView {
            name: "resolve_hitl"@,
            description: "Resolve HITL request with decision"@,
            params: seq![("decision"@, ParamKind::Text), ("id"@, ParamKind::Text)],
            required: seq!["id"@, "decision"@],
        },
    ]
}

fn list_flows_tool() -> (r: ToolSpec)
    ensures
        r@ == tool_list()[0],
{
    let item = ToolSpec::new(
        "list_flows",
        "List registered Anna workflow files from daemon playbook directory",
    );
    assert(item@.params =~= tool_list()[0].params);
    assert(item@.required =~= tool_list()[0].required);
    item
}

fn list_flows_meta_tool() -> (r: ToolSpec)
    ensures
        r@ == tool_list()[1],
{
    let mut item = ToolSpec::new(
        "list_flows_meta",
        "List registered workflows with metadata and capability availability",
    );
    item.param("available", ParamKind::Flag);
    item.param("capability", ParamKind::Text);
    item.param("limit", ParamKind::Count);
    item.param("owner", ParamKind::Text);
    item.param("tag", ParamKind::Text);
    assert(item@.params =~= tool_list()[1].params);
    assert(item@.required =~= tool_list()[1].required);
    item
}

fn run_flow_tool() -> (r: ToolSpec)
    ensures
        r@ == tool_list()[2],
{
    let mut item = ToolSpec::new(
        "run_flow",
        "Run workflow by registered name, or submit raw YAML",
    );
    item.param("max_iterations", ParamKind::Count);
    item.param("name", ParamKind::Text);
    item.param("vars", ParamKind::TextMap);
    item.param("workflow_yaml", ParamKind::Text);
    assert(item@.params =~= tool_list()[2].params);
    assert(item@.required =~= tool_list()[2].required);
    item
}

fn can_run_flow_tool() -> (r: ToolSpec)
    ensures
        r@ == tool_list()[3],
{
    let mut item = ToolSpec::new(
        "can_run_flow",
        "Check whether a registered workflow can run now based on policy/capacity",
    );
    item.param("name", ParamKind::Text);
    item.require("name");
    assert(item@.params =~= tool_list()[3].params);
    assert(item@.required =~= tool_list()[3].required);
    item
}

fn session_status_tool() -> (r: ToolSpec)
    ensures
        r@ == tool_list()[4],
{
    let mut item = ToolSpec::new(
        "session_status",
        "Get workflow session status by request id",
    );
    item.param("id", ParamKind::Text);
    item.require("id");
    assert(item@.params =~= tool_list()[4].params);
    assert(item@.required =~= tool_list()[4].required);
    item
}

fn tail_logs_tool() -> (r: ToolSpec)
    ensures
        r@ == tool_list()[5],
{
    let mut item = ToolSpec::new(
        "tail_logs",
        "Fetch stage logs for workflow session by request id",
    );
    item.param("id", ParamKind::Text);
    item.require("id");
    assert(item@.params =~= tool_list()[5].params);
    assert(item@.required =~= tool_list()[5].required);
    item
}

fn stop_flow_tool() -> (r: ToolSpec)
    ensures
        r@ == tool_list()[6],
{
    let mut item = ToolSpec::new(
        "stop_flow",
        "Stop running workflow session by request id",
    );
    item.param("id", ParamKind::Text);
    item.require("id");
    assert(item@.params =~= tool_list()[6].params);
    assert(item@.required =~= tool_list()[6].required);
    item
}

fn list_sessions_tool() -> (r: ToolSpec)
    ensures
        r@ == tool_list()[7],
{
    let mut item = ToolSpec::new(
        "list_sessions",
        "List daemon workflow sessions",
    );
    item.param("limit", ParamKind::Count);
    item.param("owner", ParamKind::Text);
    item.param("status", ParamKind::Text);
    item.param("workflow", ParamKind::Text);
    assert(item@.params =~= tool_list()[7].params);
    assert(item@.required =~= tool_list()[7].required);
    item
}

fn stats_tool() -> (r: ToolSpec)
    ensures
        r@ == tool_list()[8],
{
    let item = ToolSpec::new(
        "stats",
        "Get daemon stats summary",
    );
    assert(item@.params =~= tool_list()[8].params);
    assert(item@.required =~= tool_list()[8].required);
    item
}

fn trigger_hook_tool() -> (r: ToolSpec)
    ensures
        r@ == tool_list()[9],
{
    let mut item = ToolSpec::new(
        "trigger_hook",
        "Trigger daemon webhook hook by name",
    );
    item.param("name", ParamKind::Text);
    item.require("name");
    assert(item@.params =~= tool_list()[9].params);
    assert(item@.required =~= tool_list()[9].required);
    item
}

fn list_hitl_tool() -> (r: ToolSpec)
    ensures
        r@ == tool_list()[10],
{
    let mut item = ToolSpec::new(
        "list_hitl",
        "List HITL requests",
    );
    item.param("limit", ParamKind::Count);
    item.param("session_id", ParamKind::Text);
    item.param("status", ParamKind::Text);
    item.param("workflow", ParamKind::Text);
    assert(item@.params =~= tool_list()[10].params);
    assert(item@.required =~= tool_list()[10].required);
    item
}

fn resolve_hitl_tool() -> (r: ToolSpec)
    ensures
        r@ == tool_list()[11],
{
    let mut item = ToolSpec::new(
        "resolve_hitl",
        "Resolve HITL request with decision",
    );
    item.param("decision", ParamKind::Text);
    item.param("id", ParamKind::Text);
    item.require("id");
    item.require("decision");
    assert(item@.params =~= tool_list()[11].params);
    assert(item@.required =~= tool_list()[11].required);
    item
}

/// The tools, in the order in which they are listed.
pub fn tools() -> (r: Vec<ToolSpec>)
    ensures
        views(r@) == tool_list(),
{
    let mut out: Vec<ToolSpec> = Vec::new();
    out.push(list_flows_tool());
    out.push(list_flows_meta_tool());
    out.push(run_flow_tool());
    out.push(can_run_flow_tool());
    out.push(session_status_tool());
    out.push(tail_logs_tool());
    out.push(stop_flow_tool());
    out.push(list_sessions_tool());
    out.push(stats_tool());
    out.push(trigger_hook_tool());
    out.push(list_hitl_tool());
    out.push(resolve_hitl_tool());
    assert(views(out@) =~= tool_list());
    out
}

/// The schema of an argument.
pub open spec fn kind_json(kind: ParamKind) -> JsonView {
    match kind {
        ParamKind::Text => JsonView::Object(seq![("type"@, JsonView::Text("string"@))]),
        ParamKind::Flag => JsonView::Object(seq![("type"@, JsonView::Text("boolean"@))]),
        ParamKind::Count => JsonView::Object(
            seq![
                ("minimum"@, JsonView::Number(Some(1), decimal(1))),
                ("type"@, JsonView::Text("integer"@)),
            ],
        ),
        ParamKind::TextMap => JsonView::Object(
            seq![
                (
                    "additionalProperties"@,
                    JsonView::Object(seq![("type"@, JsonView::Text("string"@))]),
                ),
                ("type"@, JsonView::Text("object"@)),
            ],
        ),
    }
}

fn kind_value(kind: ParamKind) -> (r: Json)
    ensures
        r@ == kind_json(kind),
{
    match kind {
        ParamKind::Text => object1("type", text("string")),
        ParamKind::Flag => object1("type", text("boolean")),
        ParamKind::Count => {
            let r = with_member(object1("minimum", number(1)), "type", text("integer"));
            assert(r@->Object_0 =~= kind_json(kind)->Object_0);
            r
        },
        ParamKind::TextMap => {
            let values = object1("type", text("string"));
            let r = with_member(object1("additionalProperties", values), "type", text("object"));
            assert(r@->Object_0 =~= kind_json(kind)->Object_0);
            r
        },
    }
}

/// The schemas of arguments.
pub open spec fn params_json(params: Seq<(Seq<char>, ParamKind)>) -> Seq<(Seq<char>, JsonView)> {
    Seq::new(params.len(), |i: int| (params[i].0, kind_json(params[i].1)))
}

fn params_value(params: &Vec<(String, ParamKind)>) -> (r: Json)
    ensures
        r@ == JsonView::Object(params_json(params_view(params@))),
{
    let mut members: Vec<(String, Json)> = Vec::new();
    let mut i: usize = 0;
    while i < params.len()
        invariant
            i <= params@.len(),
            members@.len() == i,
            forall|j: int|
                0 <= j < i ==> (#[trigger] members@[j]).0@ == params@[j].0@ && members@[j].1@
                    == kind_json(params@[j].1),
        decreases params@.len() - i,
    {
        members.push((params[i].0.clone(), kind_value(params[i].1)));
        i += 1;
    }
    proof {
        json_members_at(members@);
        assert(json_members(members@) =~= params_json(params_view(params@)));
    }
    Json::Object(members)
}

/// The schema of a tool's arguments: no others may come, and arguments and
/// needs are named where there are any.
pub open spec fn schema_members(tool: ToolView) -> Seq<(Seq<char>, JsonView)> {
    let open = seq![("additionalProperties"@, JsonView::Bool(false))];
    let with_params = if tool.params.len() == 0 {
        open
    } else {
        open.push(("properties"@, JsonView::Object(params_json(tool.params))))
    };
    let with_needs = if tool.required.len() == 0 {
        with_params
    } else {
        with_params.push(("required"@, JsonView::Array(json_texts(tool.required))))
    };
    with_needs.push(("type"@, JsonView::Text("object"@)))
}

/// A tool as JSON.
pub open spec fn tool_json(tool: ToolView) -> JsonView {
    JsonView::Object(
        seq![
            ("description"@, JsonView::Text(tool.description)),
            ("inputSchema"@, JsonView::Object(schema_members(tool))),
            ("name"@, JsonView::Text(tool.name)),
        ],
    )
}

fn tool_value(tool: &ToolSpec) -> (r: Json)
    ensures
        r@ == tool_json(tool@),
{
    let open = object1("additionalProperties", Json::Bool(false));
    let with_params = if tool.params.len() == 0 {
        open
    } else {
        with_member(open, "properties", params_value(&tool.params))
    };
    let with_needs = if tool.required.len() == 0 {
        with_params
    } else {
        with_member(with_params, "required", text_array(&tool.required))
    };
    let schema = with_member(with_needs, "type", text("object"));
    let a = object1("description", text(tool.description.as_str()));
    let b = with_member(a, "inputSchema", schema);
    let r = with_member(b, "name", text(tool.name.as_str()));
    assert(r@->Object_0 =~= tool_json(tool@)->Object_0);
    r
}

/// The tools as JSON.
pub open spec fn tools_json() -> Seq<JsonView> {
    Seq::new(tool_list().len(), |i: int| tool_json(tool_list()[i]))
}

/// The tools as JSON.
pub fn tool_specs() -> (r: Vec<Json>)
    ensures
        json_items(r@) == tools_json(),
{
    let list = tools();
    let mut out: Vec<Json> = Vec::new();
    let mut i: usize = 0;
    while i < list.len()
        invariant
            i <= list@.len(),
            out@.len() == i,
            forall|j: int| 0 <= j < i ==> (#[trigger] out@[j])@ == tool_json(list@[j]@),
        decreases list@.len() - i,
    {
        out.push(tool_value(&list[i]));
        i += 1;
    }
    proof {
        json_items_at(out@);
        assert forall|j: int| 0 <= j < out@.len() implies json_items(out@)[j] == tools_json()[j] by {
            assert(views(list@)[j] == list@[j]@);
        }
        assert(json_items(out@) =~= tools_json());
    }
    out
}

// ---------------------------------------------------------------- arguments

pub open spec fn must_be(key: Seq<char>, what: Seq<char>) -> Seq<char> {
    "tool argument '"@ + key + "' must be "@ + what
}

fn not_a(key: &str, what: &str) -> (r: String)
    ensures
        r@ == must_be(key@, what@),
{
    cat4("tool argument '", key, "' must be ", what)
}

/// An argument that is a text.
pub open spec fn text_arg(args: JsonView, key: Seq<char>) -> Result<Option<Seq<char>>, Seq<char>> {
    match args.member(key) {
        None => Ok(None),
        Some(JsonView::Null) => Ok(None),
        Some(JsonView::Text(t)) => Ok(Some(t)),
        Some(_) => Err(must_be(key, "string"@)),
    }
}

/// An argument that is a text; one that is missing or null is none.
pub fn arg_string(args: &Json, key: &str) -> (r: Result<Option<String>, String>)
    ensures
        opt_result(r) == text_arg(args@, key@),
{
    match args.get(key) {
        None => Ok(None),
        Some(Json::Null) => Ok(None),
        Some(Json::Text(t)) => Ok(Some(t.clone())),
        Some(_) => Err(not_a(key, "string")),
    }
}

/// A text that has to be there.
pub open spec fn needed_text(args: JsonView, key: Seq<char>) -> Result<Seq<char>, Seq<char>> {
    match text_arg(args, key) {
        Err(e) => Err(e),
        Ok(Some(t)) => Ok(t),
        Ok(None) => Err("tool argument '"@ + key + "' is required"@),
    }
}

/// A text that has to be there.
pub fn arg_required_string(args: &Json, key: &str) -> (r: Result<String, String>)
    ensures
        texts_result(r) == needed_text(args@, key@),
{
    match arg_string(args, key) {
        Err(e) => Err(e),
        Ok(Some(t)) => Ok(t),
        Ok(None) => Err(cat3("tool argument '", key, "' is required")),
    }
}

/// The texts of an object's members, or what is wrong with the first that is
/// none.
pub open spec fn text_members(key: Seq<char>, members: Seq<(Seq<char>, JsonView)>) -> Result<
    Seq<(Seq<char>, Seq<char>)>,
    Seq<char>,
>
    decreases members.len(),
{
    if members.len() == 0 {
        Ok(Seq::empty())
    } else {
        match text_members(key, members.drop_last()) {
            Err(e) => Err(e),
            Ok(vars) => match members.last().1 {
                JsonView::Text(t) => Ok(put(vars, members.last().0, t)),
                _ => Err(
                    "tool argument '"@ + key + "' values must be strings (key '"@
                        + members.last().0 + "')"@,
                ),
            },
        }
    }
}

/// An argument that is an object of texts.
pub open spec fn map_arg(args: JsonView, key: Seq<char>) -> Result<
    Seq<(Seq<char>, Seq<char>)>,
    Seq<char>,
> {
    match args.member(key) {
        None => Ok(Seq::empty()),
        Some(JsonView::Null) => Ok(Seq::empty()),
        Some(JsonView::Object(members)) => text_members(key, members),
        Some(_) => Err(must_be(key, "object"@)),
    }
}

proof fn first_member_error_stays(key: Seq<char>, members: Seq<(Seq<char>, JsonView)>, n: int)
    requires
        0 <= n <= members.len(),
    ensures
        text_members(key, members.take(n)) is Err ==> text_members(key, members) == text_members(
            key,
            members.take(n),
        ),
    decreases members.len() - n,
{
    if n < members.len() {
        assert(members.take(n + 1).drop_last() =~= members.take(n));
        first_member_error_stays(key, members, n + 1);
    } else {
        assert(members.take(n) =~= members);
    }
}

/// An argument that is an object of texts; one that is missing or null is empty.
pub fn arg_string_map(args: &Json, key: &str) -> (r: Result<StrMap<String>, String>)
    ensures
        vars_result(r) == map_arg(args@, key@),
{
    match args.get(key) {
        None => Ok(StrMap::new()),
        Some(Json::Null) => Ok(StrMap::new()),
        Some(Json::Object(members)) => {
            let mut vars: StrMap<String> = StrMap::new();
            let ghost all = json_members(members@);
            proof {
                json_members_at(members@);
            }
            assert(all.take(0) =~= Seq::empty());
            let mut i: usize = 0;
            while i < members.len()
                invariant
                    i <= members@.len(),
                    all == json_members(members@),
                    all.len() == members@.len(),
                    forall|j: int|
                        0 <= j < members@.len() ==> #[trigger] all[j] == (
                            members@[j].0@,
                            members@[j].1@,
                        ),
                    map_arg(args@, key@) == text_members(key@, all),
                    text_members(key@, all.take(i as int)) == Ok::<
                        Seq<(Seq<char>, Seq<char>)>,
                        Seq<char>,
                    >(vars.entries()),
                decreases members@.len() - i,
            {
                let ghost head = all.take(i + 1);
                assert(head.drop_last() =~= all.take(i as int));
                assert(head.last() == all[i as int]);
                proof {
                    first_member_error_stays(key@, all, i + 1);
                }
                match &members[i].1 {
                    Json::Text(t) => {
                        vars.insert(members[i].0.clone(), t.clone());
                    },
                    _ => {
                        return Err(
                            cat5(
                                "tool argument '",
                                key,
                                "' values must be strings (key '",
                                members[i].0.as_str(),
                                "')",
                            ),
                        );
                    },
                }
                i += 1;
            }
            assert(all.take(i as int) =~= all);
            Ok(vars)
        },
        Some(_) => Err(not_a(key, "object")),
    }
}

/// An argument that is a count.
pub open spec fn count_arg(args: JsonView, key: Seq<char>) -> Result<Option<u64>, Seq<char>> {
    match args.member(key) {
        None => Ok(None),
        Some(JsonView::Null) => Ok(None),
        Some(JsonView::Number(Some(n), _)) => Ok(Some(n)),
        Some(_) => Err(must_be(key, "non-negative integer"@)),
    }
}

pub open spec fn count_result<T>(r: Result<Option<T>, String>) -> Result<Option<T>, Seq<char>> {
    match r {
        Ok(n) => Ok(n),
        Err(e) => Err(e@),
    }
}

/// An argument that is a count; one that is missing or null is none.
pub fn arg_u64(args: &Json, key: &str) -> (r: Result<Option<u64>, String>)
    ensures
        count_result(r) == count_arg(args@, key@),
{
    match args.get(key) {
        None => Ok(None),
        Some(Json::Null) => Ok(None),
        Some(Json::Number(n)) => match n.unsigned {
            Some(n) => Ok(Some(n)),
            None => Err(not_a(key, "non-negative integer")),
        },
        Some(_) => Err(not_a(key, "non-negative integer")),
    }
}

/// An argument that is a count of 32 bits.
pub open spec fn small_count_arg(args: JsonView, key: Seq<char>) -> Result<
    Option<u32>,
    Seq<char>,
> {
    match count_arg(args, key) {
        Err(e) => Err(e),
        Ok(None) => Ok(None),
        Ok(Some(n)) => if n <= u32::MAX {
            Ok(Some(n as u32))
        } else {
            Err("tool argument '"@ + key + "' is too large for u32"@)
        },
    }
}

/// An argument that is a count of 32 bits.
pub fn arg_u32(args: &Json, key: &str) -> (r: Result<Option<u32>, String>)
    ensures
        count_result(r) == small_count_arg(args@, key@),
{
    match arg_u64(args, key) {
        Err(e) => Err(e),
        Ok(None) => Ok(None),
        Ok(Some(n)) => if n <= 0xffff_ffff {
            Ok(Some(n as u32))
        } else {
            Err(cat3("tool argument '", key, "' is too large for u32"))
        },
    }
}

/// An argument that is a switch.
pub open spec fn flag_arg(args: JsonView, key: Seq<char>) -> Result<Option<bool>, Seq<char>> {
    match args.member(key) {
        None => Ok(None),
        Some(JsonView::Null) => Ok(None),
        Some(JsonView::Bool(b)) => Ok(Some(b)),
        Some(_) => Err(must_be(key, "boolean"@)),
    }
}

/// An argument that is a switch; one that is missing or null is none.
pub fn arg_bool(args: &Json, key: &str) -> (r: Result<Option<bool>, String>)
    ensures
        count_result(r) == flag_arg(args@, key@),
{
    match args.get(key) {
        None => Ok(None),
        Some(Json::Null) => Ok(None),
        Some(Json::Bool(b)) => Ok(Some(*b)),
        Some(_) => Err(not_a(key, "boolean")),
    }
}

// ---------------------------------------------------------------- calls

pub open spec fn request_result(r: Result<DaemonRequest, String>) -> Result<RequestView, Seq<char>> {
    match r {
        Ok(request) => Ok(request@),
        Err(e) => Err(e@),
    }
}

/// The request of `list_flows_meta`.
pub open spec fn meta_call(daemon: Seq<char>, args: JsonView) -> Result<RequestView, Seq<char>> {
    match text_arg(args, "tag"@) {
        Err(e) => Err(e),
        Ok(tag) => match text_arg(args, "owner"@) {
            Err(e) => Err(e),
            Ok(owner) => match text_arg(args, "capability"@) {
                Err(e) => Err(e),
                Ok(capability) => match flag_arg(args, "available"@) {
                    Err(e) => Err(e),
                    Ok(available) => match count_arg(args, "limit"@) {
                        Err(e) => Err(e),
                        Ok(limit) => Ok(
                            meta_request_view(daemon, tag, owner, capability, available, limit),
                        ),
                    },
                },
            },
        },
    }
}

fn call_meta(daemon: &str, args: &Json) -> (r: Result<DaemonRequest, String>)
    ensures
        request_result(r) == meta_call(daemon@, args@),
{
    let tag = match arg_string(args, "tag") {
        Ok(v) => v,
        Err(e) => {
            return Err(e);
        },
    };
    let owner = match arg_string(args, "owner") {
        Ok(v) => v,
        Err(e) => {
            return Err(e);
        },
    };
    let capability = match arg_string(args, "capability") {
        Ok(v) => v,
        Err(e) => {
            return Err(e);
        },
    };
    let available = match arg_bool(args, "available") {
        Ok(v) => v,
        Err(e) => {
            return Err(e);
        },
    };
    match arg_u64(args, "limit") {
        Ok(limit) => Ok(
            workflows_meta_request(
                daemon,
                as_str_opt(&tag),
                as_str_opt(&owner),
                as_str_opt(&capability),
                available,
                limit,
            ),
        ),
        Err(e) => Err(e),
    }
}

/// The request of `run_flow`: a flow by its name, or else one that comes along.
pub open spec fn run_call(daemon: Seq<char>, args: JsonView) -> Result<RequestView, Seq<char>> {
    match text_arg(args, "name"@) {
        Err(e) => Err(e),
        Ok(name) => match text_arg(args, "workflow_yaml"@) {
            Err(e) => Err(e),
            Ok(yaml) => match map_arg(args, "vars"@) {
                Err(e) => Err(e),
                Ok(vars) => match small_count_arg(args, "max_iterations"@) {
                    Err(e) => Err(e),
                    Ok(max_iterations) => match (name, yaml) {
                        (Some(name), _) => Ok(run_request_view(daemon, name, vars, max_iterations)),
                        (None, Some(yaml)) => if vars.len() > 0 || max_iterations is Some {
                            Err(
                                "run_flow with workflow_yaml does not support 'vars' or 'max_iterations'; use named flow"@,
                            )
                        } else {
                            Ok(text_request(daemon, "/workflow"@, yaml))
                        },
                        (None, None) => Err("run_flow requires either 'name' or 'workflow_yaml'"@),
                    },
                },
            },
        },
    }
}

fn call_run(daemon: &str, args: &Json) -> (r: Result<DaemonRequest, String>)
    ensures
        request_result(r) == run_call(daemon@, args@),
{
    let name = match arg_string(args, "name") {
        Ok(v) => v,
        Err(e) => {
            return Err(e);
        },
    };
    let yaml = match arg_string(args, "workflow_yaml") {
        Ok(v) => v,
        Err(e) => {
            return Err(e);
        },
    };
    let vars = match arg_string_map(args, "vars") {
        Ok(v) => v,
        Err(e) => {
            return Err(e);
        },
    };
    let max_iterations = match arg_u32(args, "max_iterations") {
        Ok(v) => v,
        Err(e) => {
            return Err(e);
        },
    };
    match (name, yaml) {
        (Some(name), _) => Ok(run_named_request(daemon, name.as_str(), &vars, max_iterations)),
        (None, Some(yaml)) => {
            if !vars.is_empty() || max_iterations.is_some() {
                Err(
                    "run_flow with workflow_yaml does not support 'vars' or 'max_iterations'; use named flow".to_owned(),
                )
            } else {
                Ok(submit_request(daemon, yaml.as_str()))
            }
        },
        (None, None) => Err("run_flow requires either 'name' or 'workflow_yaml'".to_owned()),
    }
}

/// The request of `list_sessions`.
pub open spec fn sessions_call(daemon: Seq<char>, args: JsonView) -> Result<RequestView, Seq<char>> {
    match text_arg(args, "status"@) {
        Err(e) => Err(e),
        Ok(status) => match text_arg(args, "owner"@) {
            Err(e) => Err(e),
            Ok(owner) => match text_arg(args, "workflow"@) {
                Err(e) => Err(e),
                Ok(workflow) => match count_arg(args, "limit"@) {
                    Err(e) => Err(e),
                    Ok(limit) => Ok(sessions_request_view(daemon, status, owner, workflow, limit)),
                },
            },
        },
    }
}

fn call_sessions(daemon: &str, args: &Json) -> (r: Result<DaemonRequest, String>)
    ensures
        request_result(r) == sessions_call(daemon@, args@),
{
    let status = match arg_string(args, "status") {
        Ok(v) => v,
        Err(e) => {
            return Err(e);
        },
    };
    let owner = match arg_string(args, "owner") {
        Ok(v) => v,
        Err(e) => {
            return Err(e);
        },
    };
    let workflow = match arg_string(args, "workflow") {
        Ok(v) => v,
        Err(e) => {
            return Err(e);
        },
    };
    match arg_u64(args, "limit") {
        Ok(limit) => Ok(
            sessions_request(
                daemon,
                as_str_opt(&status),
                as_str_opt(&owner),
                as_str_opt(&workflow),
                limit,
            ),
        ),
        Err(e) => Err(e),
    }
}

/// The request of `list_hitl`.
pub open spec fn hitl_call(daemon: Seq<char>, args: JsonView) -> Result<RequestView, Seq<char>> {
    match text_arg(args, "status"@) {
        Err(e) => Err(e),
        Ok(status) => match text_arg(args, "session_id"@) {
            Err(e) => Err(e),
            Ok(session_id) => match text_arg(args, "workflow"@) {
                Err(e) => Err(e),
                Ok(workflow) => match count_arg(args, "limit"@) {
                    Err(e) => Err(e),
                    Ok(limit) => Ok(hitl_request_view(daemon, status, session_id, workflow, limit)),
                },
            },
        },
    }
}

fn call_hitl(daemon: &str, args: &Json) -> (r: Result<DaemonRequest, String>)
    ensures
        request_result(r) == hitl_call(daemon@, args@),
{
    let status = match arg_string(args, "status") {
        Ok(v) => v,
        Err(e) => {
            return Err(e);
        },
    };
    let session_id = match arg_string(args, "session_id") {
        Ok(v) => v,
        Err(e) => {
            return Err(e);
        },
    };
    let workflow = match arg_string(args, "workflow") {
        Ok(v) => v,
        Err(e) => {
            return Err(e);
        },
    };
    match arg_u64(args, "limit") {
        Ok(limit) => Ok(
            hitl_list_request(
                daemon,
                as_str_opt(&status),
                as_str_opt(&session_id),
                as_str_opt(&workflow),
                limit,
            ),
        ),
        Err(e) => Err(e),
    }
}

/// The request of `resolve_hitl`.
pub open spec fn resolve_call(daemon: Seq<char>, args: JsonView) -> Result<RequestView, Seq<char>> {
    match needed_text(args, "id"@) {
        Err(e) => Err(e),
        Ok(id) => match needed_text(args, "decision"@) {
            Err(e) => Err(e),
            Ok(decision) => Ok(resolve_request_view(daemon, id, decision)),
        },
    }
}

fn call_resolve(daemon: &str, args: &Json) -> (r: Result<DaemonRequest, String>)
    ensures
        request_result(r) == resolve_call(daemon@, args@),
{
    match arg_required_string(args, "id") {
        Err(e) => Err(e),
        Ok(id) => match arg_required_string(args, "decision") {
            Err(e) => Err(e),
            Ok(decision) => Ok(resolve_request(daemon, id.as_str(), decision.as_str())),
        },
    }
}

/// The request of a tool that asks about one thing: `before` it and `after` it
/// stand in the path.
pub open spec fn one_call(
    verb: Verb,
    daemon: Seq<char>,
    args: JsonView,
    key: Seq<char>,
    before: Seq<char>,
    after: Seq<char>,
) -> Result<RequestView, Seq<char>> {
    match needed_text(args, key) {
        Err(e) => Err(e),
        Ok(name) => Ok(bare(verb, daemon, before + name + after)),
    }
}

/// The request of `trigger_hook`.
pub open spec fn hook_call(daemon: Seq<char>, args: JsonView) -> Result<RequestView, Seq<char>> {
    match needed_text(args, "name"@) {
        Err(e) => Err(e),
        Ok(name) => Ok(
            bare(Verb::Post, daemon, "/hook/"@ + trim_by(name, CharSet::Only('/'))),
        ),
    }
}

/// The request of the tool `name`, or what is wrong with the call.
pub open spec fn tool_call(daemon: Seq<char>, name: Seq<char>, args: JsonView) -> Result<
    RequestView,
    Seq<char>,
> {
    if name == "list_flows"@ {
        Ok(bare(Verb::Get, daemon, "/workflows"@))
    } else if name == "list_flows_meta"@ {
        meta_call(daemon, args)
    } else if name == "run_flow"@ {
        run_call(daemon, args)
    } else if name == "can_run_flow"@ {
        one_call(Verb::Get, daemon, args, "name"@, "/workflow/"@, "/check"@)
    } else if name == "session_status"@ {
        one_call(Verb::Get, daemon, args, "id"@, "/workflow/"@, Seq::empty())
    } else if name == "tail_logs"@ {
        one_call(Verb::Get, daemon, args, "id"@, "/workflow/"@, "/logs"@)
    } else if name == "stop_flow"@ {
        one_call(Verb::Delete, daemon, args, "id"@, "/workflow/"@, Seq::empty())
    } else if name == "list_sessions"@ {
        sessions_call(daemon, args)
    } else if name == "stats"@ {
        Ok(bare(Verb::Get, daemon, "/stats"@))
    } else if name == "trigger_hook"@ {
        hook_call(daemon, args)
    } else if name == "list_hitl"@ {
        hitl_call(daemon, args)
    } else if name == "resolve_hitl"@ {
        resolve_call(daemon, args)
    } else {
        Err(unknown_tool(name))
    }
}

pub open spec fn unknown_tool(name: Seq<char>) -> Seq<char> {
    "unknown tool '"@ + name + "'"@
}

/// The request of the tool `name`, or what is wrong with the call.
pub fn call_tool(daemon: &str, name: &str, args: &Json) -> (r: Result<DaemonRequest, String>)
    ensures
        request_result(r) == tool_call(daemon@, name@, args@),
{
    if same(name, "list_flows") {
        Ok(plain_request(Verb::Get, daemon, "/workflows"))
    } else if same(name, "list_flows_meta") {
        call_meta(daemon, args)
    } else if same(name, "run_flow") {
        call_run(daemon, args)
    } else if same(name, "can_run_flow") {
        match arg_required_string(args, "name") {
            Ok(name) => Ok(check_request(daemon, name.as_str())),
            Err(e) => Err(e),
        }
    } else if same(name, "session_status") {
        match arg_required_string(args, "id") {
            Ok(id) => {
                assert("/workflow/"@ + id@ + Seq::<char>::empty() =~= "/workflow/"@ + id@);
                Ok(status_request(daemon, id.as_str()))
            },
            Err(e) => Err(e),
        }
    } else if same(name, "tail_logs") {
        match arg_required_string(args, "id") {
            Ok(id) => Ok(logs_request(daemon, id.as_str())),
            Err(e) => Err(e),
        }
    } else if same(name, "stop_flow") {
        match arg_required_string(args, "id") {
            Ok(id) => {
                assert("/workflow/"@ + id@ + Seq::<char>::empty() =~= "/workflow/"@ + id@);
                Ok(stop_request(daemon, id.as_str()))
            },
            Err(e) => Err(e),
        }
    } else if same(name, "list_sessions") {
        call_sessions(daemon, args)
    } else if same(name, "stats") {
        Ok(plain_request(Verb::Get, daemon, "/stats"))
    } else if same(name, "trigger_hook") {
        match arg_required_string(args, "name") {
            Ok(name) => Ok(hook_request(daemon, name.as_str())),
            Err(e) => Err(e),
        }
    } else if same(name, "list_hitl") {
        call_hitl(daemon, args)
    } else if same(name, "resolve_hitl") {
        call_resolve(daemon, args)
    } else {
        Err(cat3("unknown tool '", name, "'"))
    }
}

/// The name and the arguments in the parameters of a call.
pub open spec fn call_arguments(params: JsonView) -> JsonView {
    match params.member("arguments"@) {
        Some(args) => args,
        None => JsonView::Object(Seq::empty()),
    }
}

/// The request of a call with these parameters, or what is wrong with it.
pub open spec fn tools_call(daemon: Seq<char>, params: JsonView) -> Result<RequestView, Seq<char>> {
    match text_member(params, "name"@) {
        None => Err("tools/call missing params.name"@),
        Some(name) => tool_call(daemon, name, call_arguments(params)),
    }
}

/// The request of a call with these parameters, or what is wrong with it.
pub fn handle_tools_call(config: &McpConfig, params: &Json) -> (r: Result<DaemonRequest, String>)
    ensures
        request_result(r) == tools_call(config.daemon_url@, params@),
{
    let none = empty_object();
    match params.get_str("name") {
        None => Err("tools/call missing params.name".to_owned()),
        Some(name) => {
            let args = match params.get("arguments") {
                Some(args) => args,
                None => &none,
            };
            call_tool(config.daemon_url.as_str(), name, args)
        },
    }
}

/// What a call gives back of a daemon's answer, where `read` is what its body was
/// read as.
pub open spec fn call_text(response: ResponseView, read: Result<JsonView, Seq<char>>) -> Result<
    Seq<char>,
    Seq<char>,
> {
    if success_status(response.status) {
        match read {
            Ok(value) => Ok(json_pretty(value)),
            Err(_) => Ok(response.body),
        }
    } else {
        Err(failure_text("daemon request"@, response))
    }
}

/// What a call gives back of a daemon's answer.
pub fn call_outcome(response: &DaemonResponse) -> (r: Result<String, String>)
    ensures
        texts_result(r) == call_text(response@, json_read(response.body@)),
{
    if !is_success(response.status) {
        return Err(failure_message("daemon request", response));
    }
    match pretty_text(response.body.as_str()) {
        Some(pretty) => Ok(pretty),
        None => Ok(response.body.clone()),
    }
}

// ---------------------------------------------------------------- replies

/// The reply with a result.
pub open spec fn result_json(id: JsonView, result: JsonView) -> JsonView {
    JsonView::Object(
        seq![("id"@, id), ("jsonrpc"@, JsonView::Text("2.0"@)), ("result"@, result)],
    )
}

/// The reply with a result.
pub fn rpc_result(id: Json, result: Json) -> (r: Json)
    ensures
        r@ == result_json(id@, result@),
{
    let ghost (given, answer) = (id@, result@);
    let a = object1("id", id);
    let b = with_member(a, "jsonrpc", text("2.0"));
    let r = with_member(b, "result", result);
    assert(r@->Object_0 =~= result_json(given, answer)->Object_0);
    r
}

/// What is wrong with a message.
#[derive(Clone, Copy, Debug, PartialEq, Eq, Structural)]
pub enum RpcFault {
    ParseError,
    InvalidRequest,
    MethodNotFound,
}

/// The number of a fault, which is negative.
pub open spec fn fault_code(fault: RpcFault) -> Seq<char> {
    match fault {
        RpcFault::ParseError => "-32700"@,
        RpcFault::InvalidRequest => "-32600"@,
        RpcFault::MethodNotFound => "-32601"@,
    }
}

fn fault_number(fault: RpcFault) -> (r: Json)
    ensures
        r@ == JsonView::Number(None, fault_code(fault)),
{
    let code = match fault {
        RpcFault::ParseError => "-32700",
        RpcFault::InvalidRequest => "-32600",
        RpcFault::MethodNotFound => "-32601",
    };
    Json::Number(JsonNumber { unsigned: None, text: code.to_owned() })
}

/// The reply with an error.
pub open spec fn error_json(id: JsonView, fault: RpcFault, message: Seq<char>) -> JsonView {
    JsonView::Object(
        seq![
            (
                "error"@,
                JsonView::Object(
                    seq![
                        ("code"@, JsonView::Number(None, fault_code(fault))),
                        ("message"@, JsonView::Text(message)),
                    ],
                ),
            ),
            ("id"@, id),
            ("jsonrpc"@, JsonView::Text("2.0"@)),
        ],
    )
}

/// The reply with an error.
pub fn rpc_error(id: Json, fault: RpcFault, message: &str) -> (r: Json)
    ensures
        r@ == error_json(id@, fault, message@),
{
    let ghost given = id@;
    let error = with_member(object1("code", fault_number(fault)), "message", text(message));
    assert(error@->Object_0 =~= seq![
        ("code"@, JsonView::Number(None, fault_code(fault))),
        ("message"@, JsonView::Text(message@)),
    ]);
    let a = object1("error", error);
    let b = with_member(a, "id", id);
    let r = with_member(b, "jsonrpc", text("2.0"));
    assert(r@->Object_0 =~= error_json(given, fault, message@)->Object_0);
    r
}

/// What a client is told at the start.
pub open spec fn initialize_json(version: Seq<char>) -> JsonView {
    JsonView::Object(
        seq![
            (
                "capabilities"@,
                JsonView::Object(seq![("tools"@, JsonView::Object(Seq::empty()))]),
            ),
            ("protocolVersion"@, JsonView::Text("2024-11-05"@)),
            (
                "serverInfo"@,
                JsonView::Object(
                    seq![
                        ("name"@, JsonView::Text("anna-rs"@)),
                        ("version"@, JsonView::Text(version)),
                    ],
                ),
            ),
        ],
    )
}

/// What a client is told at the start.
pub fn initialize_result(version: &str) -> (r: Json)
    ensures
        r@ == initialize_json(version@),
{
    let info = with_member(object1("name", text("anna-rs")), "version", text(version));
    assert(info@->Object_0 =~= seq![
        ("name"@, JsonView::Text("anna-rs"@)),
        ("version"@, JsonView::Text(version@)),
    ]);
    let a = object1("capabilities", object1("tools", empty_object()));
    let b = with_member(a, "protocolVersion", text("2024-11-05"));
    let r = with_member(b, "serverInfo", info);
    assert(r@->Object_0 =~= initialize_json(version@)->Object_0);
    r
}

/// The contents of a reply that is a text.
pub open spec fn content_json(value: Seq<char>) -> JsonView {
    JsonView::Array(
        seq![
            JsonView::Object(
                seq![("text"@, JsonView::Text(value)), ("type"@, JsonView::Text("text"@))],
            ),
        ],
    )
}

fn content_value(value: &str) -> (r: Json)
    ensures
        r@ == content_json(value@),
{
    let part = with_member(object1("text", text(value)), "type", text("text"));
    let ghost shown = part@;
    assert(shown->Object_0 =~= content_json(value@)->Array_0[0]->Object_0);
    let mut items: Vec<Json> = Vec::new();
    items.push(part);
    proof {
        json_items_at(items@);
        assert(json_items(items@) =~= content_json(value@)->Array_0);
    }
    Json::Array(items)
}

/// The reply to a call: what it gave, or that it failed and why.
pub open spec fn call_reply_json(id: JsonView, outcome: Result<Seq<char>, Seq<char>>) -> JsonView {
    match outcome {
        Ok(value) => result_json(id, JsonView::Object(seq![("content"@, content_json(value))])),
        Err(message) => result_json(
            id,
            JsonView::Object(
                seq![("content"@, content_json(message)), ("isError"@, JsonView::Bool(true))],
            ),
        ),
    }
}

/// The reply to a call: what it gave, or that it failed and why.
pub fn call_reply(id: Json, outcome: Result<String, String>) -> (r: Json)
    ensures
        r@ == call_reply_json(id@, texts_result(outcome)),
{
    match outcome {
        Ok(value) => rpc_result(id, object1("content", content_value(value.as_str()))),
        Err(message) => {
            let result = with_member(
                object1("content", content_value(message.as_str())),
                "isError",
                Json::Bool(true),
            );
            assert(result@->Object_0 =~= seq![
                ("content"@, content_json(message@)),
                ("isError"@, JsonView::Bool(true)),
            ]);
            rpc_result(id, result)
        },
    }
}

// ---------------------------------------------------------------- messages

/// What to do with a message.
pub enum McpStep {
    /// Nothing is replied.
    Silent,
    /// This is replied.
    Reply(Json),
    /// The request is sent, and its outcome is replied under this id.
    Call(Json, DaemonRequest),
}

/// What to do with a message, as plain values.
pub enum McpView {
    Silent,
    Reply(JsonView),
    Call(JsonView, RequestView),
}

impl View for McpStep {
    type V = McpView;

    open spec fn view(&self) -> McpView {
        match self {
            McpStep::Silent => McpView::Silent,
            McpStep::Reply(reply) => McpView::Reply(reply@),
            McpStep::Call(id, request) => McpView::Call(id@, request@),
        }
    }
}

/// What to do with the message `request`.
pub open spec fn request_step(daemon: Seq<char>, version: Seq<char>, request: JsonView) -> McpView {
    let id = match request.member("id"@) {
        Some(id) => id,
        None => JsonView::Null,
    };
    let nothing = JsonView::Object(Seq::empty());
    let params = match request.member("params"@) {
        Some(params) => params,
        None => nothing,
    };
    match text_member(request, "method"@) {
        None => McpView::Reply(
            error_json(id, RpcFault::InvalidRequest, "invalid request: missing method"@),
        ),
        Some(method) => if method == "initialize"@ {
            McpView::Reply(result_json(id, initialize_json(version)))
        } else if method == "initialized"@ {
            if request.member("id"@) is None {
                McpView::Silent
            } else {
                McpView::Reply(result_json(id, nothing))
            }
        } else if method == "ping"@ {
            McpView::Reply(result_json(id, nothing))
        } else if method == "tools/list"@ {
            McpView::Reply(
                result_json(id, JsonView::Object(seq![("tools"@, JsonView::Array(tools_json()))])),
            )
        } else if method == "tools/call"@ {
            match tools_call(daemon, params) {
                Ok(call) => McpView::Call(id, call),
                Err(message) => McpView::Reply(call_reply_json(id, Err(message))),
            }
        } else {
            McpView::Reply(
                error_json(id, RpcFault::MethodNotFound, "method not found: "@ + method),
            )
        },
    }
}

/// What to do with a message.
pub fn handle_request(config: &McpConfig, version: &str, request: &Json) -> (r: McpStep)
    ensures
        r@ == request_step(config.daemon_url@, version@, request@),
{
    let given = request.get("id");
    let notification = given.is_none();
    let id = match given {
        Some(id) => id.copied(),
        None => Json::Null,
    };
    let none = empty_object();
    let params = match request.get("params") {
        Some(params) => params,
        None => &none,
    };
    match request.get_str("method") {
        None => McpStep::Reply(
            rpc_error(id, RpcFault::InvalidRequest, "invalid request: missing method"),
        ),
        Some(method) => {
            if same(method, "initialize") {
                McpStep::Reply(rpc_result(id, initialize_result(version)))
            } else if same(method, "initialized") {
                if notification {
                    McpStep::Silent
                } else {
                    McpStep::Reply(rpc_result(id, empty_object()))
                }
            } else if same(method, "ping") {
                McpStep::Reply(rpc_result(id, empty_object()))
            } else if same(method, "tools/list") {
                let list = Json::Array(tool_specs());
                McpStep::Reply(rpc_result(id, object1("tools", list)))
            } else if same(method, "tools/call") {
                match handle_tools_call(config, params) {
                    Ok(call) => McpStep::Call(id, call),
                    Err(message) => McpStep::Reply(call_reply(id, Err(message))),
                }
            } else {
                let message = cat2("method not found: ", method);
                McpStep::Reply(rpc_error(id, RpcFault::MethodNotFound, message.as_str()))
            }
        },
    }
}

/// What to do with a line, where `read` is what it was read as.
pub open spec fn line_step(
    daemon: Seq<char>,
    version: Seq<char>,
    line: Seq<char>,
    read: Result<JsonView, Seq<char>>,
) -> McpView {
    if blank(line) {
        McpView::Silent
    } else {
        match read {
            Err(message) => McpView::Reply(
                error_json(JsonView::Null, RpcFault::ParseError, "parse error: "@ + message),
            ),
            Ok(request) => request_step(daemon, version, request),
        }
    }
}

/// What to do with a line.
pub fn handle_line(config: &McpConfig, version: &str, line: &str) -> (r: McpStep)
    ensures
        r@ == line_step(config.daemon_url@, version@, line@, json_read(trimmed(line@))),
{
    let line = trim(line);
    if line.is_empty() {
        return McpStep::Silent;
    }
    match parse_json(line) {
        Err(err) => {
            let message = cat2("parse error: ", err.as_str());
            McpStep::Reply(rpc_error(Json::Null, RpcFault::ParseError, message.as_str()))
        },
        Ok(request) => handle_request(config, version, &request),
    }
}

/// The line that a reply is sent as.
pub fn reply_line(reply: &Json) -> (r: String)
    ensures
        r@ == json_text(json_normal(reply@)) + "\n"@,
{
    let line = compact_json(reply);
    cat2(line.as_str(), "\n")
}

// ---------------------------------------------------------------- laws

/// The name of a tool on the list.
pub open spec fn is_listed(name: Seq<char>) -> bool {
    exists|i: int| 0 <= i < tool_list().len() && (#[trigger] tool_list()[i]).name == name
}

/// A tool can be called where it is on the list, and nowhere else.
pub proof fn listed_tools_can_be_called(daemon: Seq<char>, name: Seq<char>)
    ensures
        !is_listed(name) ==> forall|args: JsonView| #[trigger]
            tool_call(daemon, name, args) == Err::<RequestView, Seq<char>>(unknown_tool(name)),
        is_listed(name) ==> exists|args: JsonView| #[trigger] tool_call(daemon, name, args) is Ok,
{
    if !is_listed(name) {
        let list = tool_list();
        assert(list[0].name != name);
        assert(list[1].name != name);
        assert(list[2].name != name);
        assert(list[3].name != name);
        assert(list[4].name != name);
        assert(list[5].name != name);
        assert(list[6].name != name);
        assert(list[7].name != name);
        assert(list[8].name != name);
        assert(list[9].name != name);
        assert(list[10].name != name);
        assert(list[11].name != name);
    } else {
        reveal_strlit("name");
        reveal_strlit("id");
        reveal_strlit("decision");
        reveal_strlit("workflow_yaml");
        reveal_strlit("vars");
        reveal_strlit("max_iterations");
        let value = JsonView::Text("x"@);
        let members = seq![("decision"@, value), ("id"@, value), ("name"@, value)];
        let args = JsonView::Object(members);
        reveal_with_fuel(lookup, 4);
        assert("decision"@.len() != "id"@.len());
        assert("decision"@.len() != "name"@.len());
        assert("id"@.len() != "name"@.len());
        assert(args.member("name"@) == Some(value));
        assert(args.member("id"@) == Some(value));
        assert(args.member("decision"@) == Some(value));
        let bare_args = JsonView::Object(Seq::empty());
        let named = JsonView::Object(seq![("name"@, value)]);
        assert("name"@.len() != "workflow_yaml"@.len());
        assert("name"@.len() != "max_iterations"@.len());
        assert("name"@[0] != "vars"@[0]);
        assert(tool_call(daemon, name, bare_args) is Ok || tool_call(daemon, name, args) is Ok
            || tool_call(daemon, name, named) is Ok);
    }
}

/// A message that names an id is replied to: with a reply at once, or with the
/// outcome of a call.
pub proof fn messages_with_id_are_answered(
    daemon: Seq<char>,
    version: Seq<char>,
    request: JsonView,
)
    requires
        request.member("id"@) is Some,
    ensures
        request_step(daemon, version, request) != McpView::Silent,
        request_step(daemon, version, request) matches McpView::Call(id, _) ==> Some(id)
            == request.member("id"@),
{
}

} // verus!
