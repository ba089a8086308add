//! What a client asks a daemon, and what it makes of the answers.
use crate::daemon::access::{etag_of, etag_value, freshness_of, own_etag_matches, Freshness};
use crate::json::{
    json_members, json_members_at, json_pretty, json_read, number_or_null, object1, opt_number,
    parse_and_show, pretty_text, text, text_member, text_pairs, wide, widened, with_member, Json,
    JsonView,
};
use crate::number::{decimal, u64_text};
use crate::policy_sync::{
    ensure_http_success, failure_message, failure_text, non_blank, nonblank, opt_result,
    texts_result, unit_result, DaemonResponse, ResponseView,
};
use crate::providers::vault_http::{is_success, success_status};
use crate::strmap::{lookup, put, put_spec, StrMap};
use crate::text::{
    as_str_opt, blank, cat2, cat3, cat5, group_texts, is_blank, lowered, opt_str, opt_text, same,
    split_at_first, split_once, texts, to_lower, trim, trim_by, trim_end_by, trim_text_by,
    trim_text_end_by, trimmed, CharSet,
};
use vstd::prelude::*;

pub mod laws;

verus! {

// ---------------------------------------------------------------- requests

#[derive(Clone, Copy, Debug, PartialEq, Eq, Structural)]
pub enum Verb {
    Get,
    Post,
    Delete,
}

/// What a request carries.
pub enum RequestBody {
    Nothing,
    Json(Json),
    Text(String),
}

/// What a request carries, as plain values.
pub enum BodyView {
    Nothing,
    Json(JsonView),
    Text(Seq<char>),
}

impl View for RequestBody {
    type V = BodyView;

    open spec fn view(&self) -> BodyView {
        match self {
            RequestBody::Nothing => BodyView::Nothing,
            RequestBody::Json(value) => BodyView::Json(value@),
            RequestBody::Text(t) => BodyView::Text(t@),
        }
    }
}

/// A request to a daemon.
pub struct DaemonRequest {
    pub verb: Verb,
    pub url: String,
    pub query: Vec<(String, String)>,
    pub headers: Vec<(String, String)>,
    pub body: RequestBody,
}

/// A request, as plain values.
pub struct RequestView {
    pub verb: Verb,
    pub url: Seq<char>,
    pub query: Seq<(Seq<char>, Seq<char>)>,
    pub headers: Seq<(Seq<char>, Seq<char>)>,
    pub body: BodyView,
}

impl View for DaemonRequest {
    type V = RequestView;

    open spec fn view(&self) -> RequestView {
        RequestView {
            verb: self.verb,
            url: self.url@,
            query: text_pairs(self.query@),
            headers: text_pairs(self.headers@),
            body: self.body@,
        }
    }
}

/// A daemon's address without slashes at its end.
pub fn normalize_daemon_url(url: &str) -> (r: String)
    ensures
        r@ == trim_end_by(url@, CharSet::Only('/')),
{
    trim_text_end_by(url, CharSet::Only('/')).to_owned()
}

/// The address of `path` at a daemon.
pub open spec fn at_daemon(daemon: Seq<char>, path: Seq<char>) -> Seq<char> {
    trim_end_by(daemon, CharSet::Only('/')) + path
}

/// A request without a query, headers or a body.
pub open spec fn bare(verb: Verb, daemon: Seq<char>, path: Seq<char>) -> RequestView {
    RequestView {
        verb,
        url: at_daemon(daemon, path),
        query: Seq::empty(),
        headers: Seq::empty(),
        body: BodyView::Nothing,
    }
}

/// A request for `path` at a daemon.
pub fn plain_request(verb: Verb, daemon: &str, path: &str) -> (r: DaemonRequest)
    ensures
        r@ == bare(verb, daemon@, path@),
{
    let base = normalize_daemon_url(daemon);
    let query: Vec<(String, String)> = Vec::new();
    let headers: Vec<(String, String)> = Vec::new();
    assert(text_pairs(query@) =~= Seq::empty());
    DaemonRequest {
        verb,
        url: cat2(base.as_str(), path),
        query,
        headers,
        body: RequestBody::Nothing,
    }
}

/// A query parameter, where it is given.
pub open spec fn with_param(
    query: Seq<(Seq<char>, Seq<char>)>,
    key: Seq<char>,
    value: Option<Seq<char>>,
) -> Seq<(Seq<char>, Seq<char>)> {
    match value {
        Some(value) => query.push((key, value)),
        None => query,
    }
}

fn push_pair(items: &mut Vec<(String, String)>, key: &str, value: &str)
    ensures
        text_pairs(final(items)@) == text_pairs(old(items)@).push((key@, value@)),
{
    items.push((key.to_owned(), value.to_owned()));
    assert(text_pairs(items@) =~= text_pairs(old(items)@).push((key@, value@)));
}

fn push_param(query: &mut Vec<(String, String)>, key: &str, value: Option<&str>)
    ensures
        text_pairs(final(query)@) == with_param(text_pairs(old(query)@), key@, opt_str(value)),
{
    match value {
        Some(value) => push_pair(query, key, value),
        None => {},
    }
}

/// The text of a number in a query.
pub open spec fn number_param(value: Option<u64>) -> Option<Seq<char>> {
    match value {
        Some(n) => Some(decimal(n as nat)),
        None => None,
    }
}

fn push_number(query: &mut Vec<(String, String)>, key: &str, value: Option<u64>)
    ensures
        text_pairs(final(query)@) == with_param(text_pairs(old(query)@), key@, number_param(value)),
{
    match value {
        Some(n) => {
            let t = u64_text(n);
            push_pair(query, key, t.as_str());
        },
        None => {},
    }
}

/// The text of a switch in a query.
pub open spec fn bool_param(value: Option<bool>) -> Option<Seq<char>> {
    match value {
        Some(true) => Some("true"@),
        Some(false) => Some("false"@),
        None => None,
    }
}

fn push_bool(query: &mut Vec<(String, String)>, key: &str, value: Option<bool>)
    ensures
        text_pairs(final(query)@) == with_param(text_pairs(old(query)@), key@, bool_param(value)),
{
    match value {
        Some(true) => push_pair(query, key, "true"),
        Some(false) => push_pair(query, key, "false"),
        None => {},
    }
}

/// The request for flows with their data, as far as the filters let through.
pub open spec fn meta_request_view(
    daemon: Seq<char>,
    tag: Option<Seq<char>>,
    owner: Option<Seq<char>>,
    capability: Option<Seq<char>>,
    available: Option<bool>,
    limit: Option<u64>,
) -> RequestView {
    RequestView {
        query: with_param(
            with_param(
                with_param(
                    with_param(with_param(Seq::empty(), "tag"@, tag), "owner"@, owner),
                    "capability"@,
                    capability,
                ),
                "available"@,
                bool_param(available),
            ),
            "limit"@,
            number_param(limit),
        ),
        ..bare(Verb::Get, daemon, "/workflows/meta"@)
    }
}

/// The request for flows with their data, as far as the filters let through.
pub fn workflows_meta_request(
    daemon: &str,
    tag: Option<&str>,
    owner: Option<&str>,
    capability: Option<&str>,
    available: Option<bool>,
    limit: Option<u64>,
) -> (r: DaemonRequest)
    ensures
        r@ == meta_request_view(
            daemon@,
            opt_str(tag),
            opt_str(owner),
            opt_str(capability),
            available,
            limit,
        ),
{
    let mut request = plain_request(Verb::Get, daemon, "/workflows/meta");
    push_param(&mut request.query, "tag", tag);
    push_param(&mut request.query, "owner", owner);
    push_param(&mut request.query, "capability", capability);
    push_bool(&mut request.query, "available", available);
    push_number(&mut request.query, "limit", limit);
    request
}

/// The request for sessions, as far as the filters let through.
pub open spec fn sessions_request_view(
    daemon: Seq<char>,
    status: Option<Seq<char>>,
    owner: Option<Seq<char>>,
    workflow: Option<Seq<char>>,
    limit: Option<u64>,
) -> RequestView {
    RequestView {
        query: with_param(
            with_param(
                with_param(with_param(Seq::empty(), "status"@, status), "owner"@, owner),
                "workflow"@,
                workflow,
            ),
            "limit"@,
            number_param(limit),
        ),
        ..bare(Verb::Get, daemon, "/sessions"@)
    }
}

/// The request for sessions, as far as the filters let through.
pub fn sessions_request(
    daemon: &str,
    status: Option<&str>,
    owner: Option<&str>,
    workflow: Option<&str>,
    limit: Option<u64>,
) -> (r: DaemonRequest)
    ensures
        r@ == sessions_request_view(
            daemon@,
            opt_str(status),
            opt_str(owner),
            opt_str(workflow),
            limit,
        ),
{
    let mut request = plain_request(Verb::Get, daemon, "/sessions");
    push_param(&mut request.query, "status", status);
    push_param(&mut request.query, "owner", owner);
    push_param(&mut request.query, "workflow", workflow);
    push_number(&mut request.query, "limit", limit);
    request
}

/// The request for decisions that people are asked for.
pub open spec fn hitl_request_view(
    daemon: Seq<char>,
    status: Option<Seq<char>>,
    session_id: Option<Seq<char>>,
    workflow: Option<Seq<char>>,
    limit: Option<u64>,
) -> RequestView {
    RequestView {
        query: with_param(
            with_param(
                with_param(with_param(Seq::empty(), "status"@, status), "session_id"@, session_id),
                "workflow"@,
                workflow,
            ),
            "limit"@,
            number_param(limit),
        ),
        ..bare(Verb::Get, daemon, "/hitl"@)
    }
}

/// The request for decisions that people are asked for.
pub fn hitl_list_request(
    daemon: &str,
    status: Option<&str>,
    session_id: Option<&str>,
    workflow: Option<&str>,
    limit: Option<u64>,
) -> (r: DaemonRequest)
    ensures
        r@ == hitl_request_view(
            daemon@,
            opt_str(status),
            opt_str(session_id),
            opt_str(workflow),
            limit,
        ),
{
    let mut request = plain_request(Verb::Get, daemon, "/hitl");
    push_param(&mut request.query, "status", status);
    push_param(&mut request.query, "session_id", session_id);
    push_param(&mut request.query, "workflow", workflow);
    push_number(&mut request.query, "limit", limit);
    request
}

/// Variables as members of a JSON object.
pub open spec fn vars_json(entries: Seq<(Seq<char>, Seq<char>)>) -> JsonView {
    JsonView::Object(Seq::new(entries.len(), |i: int| (entries[i].0, JsonView::Text(entries[i].1))))
}

fn vars_value(vars: &StrMap<String>) -> (r: Json)
    ensures
        r@ == vars_json(vars.entries()),
{
    let mut members: Vec<(String, Json)> = Vec::new();
    let n: usize = vars.len();
    let mut i: usize = 0;
    while i < n
        invariant
            i <= n,
            n == vars.entries().len(),
            members@.len() == i,
            forall|j: int|
                0 <= j < i ==> (#[trigger] members@[j]).0@ == vars.entries()[j].0
                    && members@[j].1@ == JsonView::Text(vars.entries()[j].1),
        decreases n - i,
    {
        members.push((vars.key_at(i).to_owned(), text(vars.value_at(i).as_str())));
        i += 1;
    }
    proof {
        json_members_at(members@);
        assert(json_members(members@) =~= vars_json(vars.entries())->Object_0);
    }
    Json::Object(members)
}

/// What a run is asked for, where there is anything to ask.
pub open spec fn run_body(
    vars: Seq<(Seq<char>, Seq<char>)>,
    max_iterations: Option<u32>,
) -> BodyView {
    if vars.len() == 0 && max_iterations is None {
        BodyView::Nothing
    } else {
        BodyView::Json(
            JsonView::Object(
                seq![
                    ("max_iterations"@, number_or_null(wide(max_iterations))),
                    ("vars"@, vars_json(vars)),
                ],
            ),
        )
    }
}

/// The request to run the flow `name`.
pub open spec fn run_request_view(
    daemon: Seq<char>,
    name: Seq<char>,
    vars: Seq<(Seq<char>, Seq<char>)>,
    max_iterations: Option<u32>,
) -> RequestView {
    RequestView {
        body: run_body(vars, max_iterations),
        ..bare(Verb::Post, daemon, "/workflow/"@ + name + "/run"@)
    }
}

/// The request to run the flow `name`.
pub fn run_named_request(
    daemon: &str,
    name: &str,
    vars: &StrMap<String>,
    max_iterations: Option<u32>,
) -> (r: DaemonRequest)
    ensures
        r@ == run_request_view(daemon@, name@, vars.entries(), max_iterations),
{
    let path = cat3("/workflow/", name, "/run");
    let mut request = plain_request(Verb::Post, daemon, path.as_str());
    if !vars.is_empty() || max_iterations.is_some() {
        let head = object1("max_iterations", opt_number(widened(max_iterations)));
        let body = with_member(head, "vars", vars_value(vars));
        assert(body@->Object_0 =~= run_body(vars.entries(), max_iterations)->Json_0->Object_0);
        request.body = RequestBody::Json(body);
    }
    request
}

/// The request with the text `body`.
pub open spec fn text_request(daemon: Seq<char>, path: Seq<char>, body: Seq<char>) -> RequestView {
    RequestView { body: BodyView::Text(body), ..bare(Verb::Post, daemon, path) }
}

/// The request to run a flow that is sent along.
pub fn submit_request(daemon: &str, workflow_yaml: &str) -> (r: DaemonRequest)
    ensures
        r@ == text_request(daemon@, "/workflow"@, workflow_yaml@),
{
    let mut request = plain_request(Verb::Post, daemon, "/workflow");
    request.body = RequestBody::Text(workflow_yaml.to_owned());
    request
}

/// The request whether a flow that is sent along could run.
pub fn check_yaml_request(daemon: &str, workflow_yaml: &str) -> (r: DaemonRequest)
    ensures
        r@ == text_request(daemon@, "/workflow/check"@, workflow_yaml@),
{
    let mut request = plain_request(Verb::Post, daemon, "/workflow/check");
    request.body = RequestBody::Text(workflow_yaml.to_owned());
    request
}

/// The request whether the flow `name` could run.
pub fn check_request(daemon: &str, name: &str) -> (r: DaemonRequest)
    ensures
        r@ == bare(Verb::Get, daemon@, "/workflow/"@ + name@ + "/check"@),
{
    let path = cat3("/workflow/", name, "/check");
    plain_request(Verb::Get, daemon, path.as_str())
}

/// The request for the session `id`.
pub fn status_request(daemon: &str, id: &str) -> (r: DaemonRequest)
    ensures
        r@ == bare(Verb::Get, daemon@, "/workflow/"@ + id@),
{
    let path = cat2("/workflow/", id);
    plain_request(Verb::Get, daemon, path.as_str())
}

/// The request for the logs of the session `id`.
pub fn logs_request(daemon: &str, id: &str) -> (r: DaemonRequest)
    ensures
        r@ == bare(Verb::Get, daemon@, "/workflow/"@ + id@ + "/logs"@),
{
    let path = cat3("/workflow/", id, "/logs");
    plain_request(Verb::Get, daemon, path.as_str())
}

/// The request to stop the session `id`.
pub fn stop_request(daemon: &str, id: &str) -> (r: DaemonRequest)
    ensures
        r@ == bare(Verb::Delete, daemon@, "/workflow/"@ + id@),
{
    let path = cat2("/workflow/", id);
    plain_request(Verb::Delete, daemon, path.as_str())
}

/// The request to call the hook `name`.
pub fn hook_request(daemon: &str, name: &str) -> (r: DaemonRequest)
    ensures
        r@ == bare(Verb::Post, daemon@, "/hook/"@ + trim_by(name@, CharSet::Only('/'))),
{
    let path = cat2("/hook/", trim_text_by(name, CharSet::Only('/')));
    plain_request(Verb::Post, daemon, path.as_str())
}

/// The request that settles the decision `id`.
pub open spec fn resolve_request_view(
    daemon: Seq<char>,
    id: Seq<char>,
    decision: Seq<char>,
) -> RequestView {
    RequestView {
        body: BodyView::Json(JsonView::Object(seq![("decision"@, JsonView::Text(decision))])),
        ..bare(Verb::Post, daemon, "/hitl/"@ + id + "/resolve"@)
    }
}

/// The request that settles the decision `id`.
pub fn resolve_request(daemon: &str, id: &str, decision: &str) -> (r: DaemonRequest)
    ensures
        r@ == resolve_request_view(daemon@, id@, decision@),
{
    let path = cat3("/hitl/", id, "/resolve");
    let mut request = plain_request(Verb::Post, daemon, path.as_str());
    request.body = RequestBody::Json(object1("decision", text(decision)));
    request
}

/// A request in the name of a caller, where one is given.
pub open spec fn with_caller(request: RequestView, caller: Option<Seq<char>>) -> RequestView {
    RequestView {
        headers: with_param(request.headers, "x-anna-caller"@, nonblank(caller)),
        ..request
    }
}

/// Names the caller of a request, where one is given.
pub fn with_optional_caller(request: DaemonRequest, caller: Option<&str>) -> (r: DaemonRequest)
    ensures
        r@ == with_caller(request@, opt_str(caller)),
{
    let mut request = request;
    let caller = non_blank(caller);
    push_param(&mut request.headers, "x-anna-caller", as_str_opt(&caller));
    request
}

/// The request whether a chat intent could run.
pub fn check_chat_request(
    daemon: &str,
    intent: &str,
    max_iterations: Option<u32>,
    caller: Option<&str>,
) -> (r: DaemonRequest)
    ensures
        r@ == with_caller(
            (RequestView {
                query: with_param(
                    Seq::empty(),
                    "max_iterations"@,
                    number_param(wide(max_iterations)),
                ),
                ..bare(Verb::Get, daemon@, "/chat/"@ + intent@ + "/check"@)
            }),
            opt_str(caller),
        ),
{
    let path = cat3("/chat/", intent, "/check");
    let mut request = plain_request(Verb::Get, daemon, path.as_str());
    push_number(&mut request.query, "max_iterations", widened(max_iterations));
    with_optional_caller(request, caller)
}

/// What a chat run is asked for.
pub open spec fn chat_body(
    intent: Seq<char>,
    vars: Seq<(Seq<char>, Seq<char>)>,
    max_iterations: Option<u32>,
) -> JsonView {
    JsonView::Object(
        seq![
            ("intent"@, JsonView::Text(intent)),
            ("max_iterations"@, number_or_null(wide(max_iterations))),
            ("vars"@, vars_json(vars)),
        ],
    )
}

/// The request to run a chat intent.
pub fn chat_request(
    daemon: &str,
    intent: &str,
    vars: &StrMap<String>,
    max_iterations: Option<u32>,
    caller: Option<&str>,
) -> (r: DaemonRequest)
    ensures
        r@ == with_caller(
            (RequestView {
                body: BodyView::Json(chat_body(intent@, vars.entries(), max_iterations)),
                ..bare(Verb::Post, daemon@, "/chat/run"@)
            }),
            opt_str(caller),
        ),
{
    let mut request = plain_request(Verb::Post, daemon, "/chat/run");
    let a = object1("intent", text(intent));
    let b = with_member(a, "max_iterations", opt_number(widened(max_iterations)));
    let body = with_member(b, "vars", vars_value(vars));
    assert(body@->Object_0 =~= chat_body(intent@, vars.entries(), max_iterations)->Object_0);
    request.body = RequestBody::Json(body);
    with_optional_caller(request, caller)
}

/// The request for `path`, on conditions on the revision that the daemon has.
pub open spec fn conditional(
    daemon: Seq<char>,
    path: Seq<char>,
    if_match: Option<Seq<char>>,
    if_none_match: Option<Seq<char>>,
) -> RequestView {
    RequestView {
        headers: with_param(
            with_param(Seq::empty(), "if-match"@, nonblank(if_match)),
            "if-none-match"@,
            nonblank(if_none_match),
        ),
        ..bare(Verb::Get, daemon, path)
    }
}

/// The request for `path`, on conditions on the revision that the daemon has.
pub fn conditional_request(
    daemon: &str,
    path: &str,
    if_match: Option<&str>,
    if_none_match: Option<&str>,
) -> (r: DaemonRequest)
    ensures
        r@ == conditional(daemon@, path@, opt_str(if_match), opt_str(if_none_match)),
{
    let mut request = plain_request(Verb::Get, daemon, path);
    let if_match = non_blank(if_match);
    let if_none_match = non_blank(if_none_match);
    push_param(&mut request.headers, "if-match", as_str_opt(&if_match));
    push_param(&mut request.headers, "if-none-match", as_str_opt(&if_none_match));
    request
}

/// The etag of a revision that is not blank.
pub open spec fn tag_of(revision: Option<Seq<char>>) -> Option<Seq<char>> {
    match revision {
        Some(revision) => if blank(revision) {
            None
        } else {
            Some(etag_of(revision))
        },
        None => None,
    }
}

fn etag_for(revision: Option<&str>) -> (r: Option<String>)
    ensures
        opt_text(r) == tag_of(opt_str(revision)),
{
    match revision {
        Some(revision) => if is_blank(revision) {
            None
        } else {
            Some(etag_value(revision))
        },
        None => None,
    }
}

/// The question for the revision of the daemon's policy, unless it is `previous`.
pub open spec fn revision_query(daemon: Seq<char>, previous: Option<Seq<char>>) -> RequestView {
    RequestView {
        headers: with_param(Seq::empty(), "if-none-match"@, tag_of(previous)),
        ..bare(Verb::Get, daemon, "/policy/revision"@)
    }
}

pub fn revision_request(daemon: &str, previous: Option<&str>) -> (r: DaemonRequest)
    ensures
        r@ == revision_query(daemon@, opt_str(previous)),
{
    let mut request = plain_request(Verb::Get, daemon, "/policy/revision");
    let tag = etag_for(previous);
    push_param(&mut request.headers, "if-none-match", as_str_opt(&tag));
    request
}

/// The question for the daemon's policy, as long as it is at `revision`.
pub open spec fn snapshot_query(daemon: Seq<char>, revision: Seq<char>) -> RequestView {
    RequestView {
        headers: with_param(Seq::empty(), "if-match"@, tag_of(Some(revision))),
        ..bare(Verb::Get, daemon, "/policy/snapshot"@)
    }
}

pub fn snapshot_request(daemon: &str, revision: &str) -> (r: DaemonRequest)
    ensures
        r@ == snapshot_query(daemon@, revision@),
{
    let mut request = plain_request(Verb::Get, daemon, "/policy/snapshot");
    let tag = etag_for(Some(revision));
    push_param(&mut request.headers, "if-match", as_str_opt(&tag));
    request
}

/// What a daemon at `revision` answers a request for its policy.
pub open spec fn policy_freshness(request: RequestView, revision: Seq<char>) -> Freshness {
    freshness_of(
        lookup(request.headers, "if-match"@),
        lookup(request.headers, "if-none-match"@),
        revision,
    )
}

/// A daemon that is still at the revision it has named hands its policy out.
pub proof fn snapshot_is_handed_out(daemon: Seq<char>, revision: Seq<char>)
    requires
        !blank(revision),
        !revision.contains(','),
    ensures
        policy_freshness(snapshot_query(daemon, revision), revision) == Freshness::Answer,
{
    reveal_strlit("if-match");
    reveal_strlit("if-none-match");
    own_etag_matches(revision);
    let headers = snapshot_query(daemon, revision).headers;
    assert(headers =~= seq![("if-match"@, etag_of(revision))]);
    assert("if-match"@.len() != "if-none-match"@.len());
    reveal_with_fuel(lookup, 2);
}

/// A daemon that is still at the revision that the caller has says so.
pub proof fn known_revision_is_not_modified(daemon: Seq<char>, revision: Seq<char>)
    requires
        !blank(revision),
        !revision.contains(','),
    ensures
        policy_freshness(revision_query(daemon, Some(revision)), revision)
            == Freshness::NotModified,
{
    reveal_strlit("if-match");
    reveal_strlit("if-none-match");
    own_etag_matches(revision);
    let headers = revision_query(daemon, Some(revision)).headers;
    assert(headers =~= seq![("if-none-match"@, etag_of(revision))]);
    assert("if-match"@.len() != "if-none-match"@.len());
    reveal_with_fuel(lookup, 2);
}

// ---------------------------------------------------------------- arguments

/// The variables that arguments set, or what is wrong with the first bad one.
pub open spec fn overrides(raw: Seq<Seq<char>>) -> Result<Seq<(Seq<char>, Seq<char>)>, Seq<char>>
    decreases raw.len(),
{
    if raw.len() == 0 {
        Ok(Seq::empty())
    } else {
        match overrides(raw.drop_last()) {
            Err(e) => Err(e),
            Ok(vars) => match split_at_first(raw.last(), "="@) {
                None => Err("invalid --var '"@ + raw.last() + "', expected KEY=VALUE"@),
                Some((key, value)) => if blank(key) {
                    Err("invalid --var '"@ + raw.last() + "': empty key"@)
                } else {
                    Ok(put(vars, key, value))
                },
            },
        }
    }
}

pub open spec fn vars_result(r: Result<StrMap<String>, String>) -> Result<
    Seq<(Seq<char>, Seq<char>)>,
    Seq<char>,
> {
    match r {
        Ok(vars) => Ok(vars.entries()),
        Err(e) => Err(e@),
    }
}

/// Reads `KEY=VALUE` arguments; of two for one key the later counts.
pub fn parse_var_overrides(raw: &Vec<String>) -> (r: Result<StrMap<String>, String>)
    ensures
        vars_result(r) == overrides(texts(raw@)),
{
    broadcast use group_texts;

    let mut vars: StrMap<String> = StrMap::new();
    let ghost all = texts(raw@);
    assert(all.take(0) =~= Seq::empty());
    let mut i: usize = 0;
    while i < raw.len()
        invariant
            i <= raw.len(),
            all == texts(raw@),
            overrides(all.take(i as int)) == Ok::<Seq<(Seq<char>, Seq<char>)>, Seq<char>>(
                vars.entries(),
            ),
        decreases raw.len() - i,
    {
        let pair = raw[i].as_str();
        let ghost head = all.take(i + 1);
        assert(head.drop_last() =~= all.take(i as int));
        assert(head.last() == pair@);
        proof {
            first_error_stays(all, i + 1);
        }
        match split_once(pair, "=") {
            None => {
                return Err(cat3("invalid --var '", pair, "', expected KEY=VALUE"));
            },
            Some((key, value)) => {
                if is_blank(key) {
                    return Err(cat3("invalid --var '", pair, "': empty key"));
                }
                vars.insert(key.to_owned(), value.to_owned());
            },
        }
        i += 1;
    }
    assert(all.take(i as int) =~= all);
    Ok(vars)
}

proof fn first_error_stays(raw: Seq<Seq<char>>, n: int)
    requires
        0 <= n <= raw.len(),
    ensures
        overrides(raw.take(n)) is Err ==> overrides(raw) == overrides(raw.take(n)),
    decreases raw.len() - n,
{
    if n < raw.len() {
        assert(raw.take(n + 1).drop_last() =~= raw.take(n));
        first_error_stays(raw, n + 1);
    } else {
        assert(raw.take(n) =~= raw);
    }
}

/// A variable that is set last has the value that it is set to.
pub proof fn last_override_counts(raw: Seq<Seq<char>>, key: Seq<char>, value: Seq<char>)
    requires
        raw.len() > 0,
        overrides(raw) is Ok,
        split_at_first(raw.last(), "="@) == Some((key, value)),
    ensures
        lookup(overrides(raw)->Ok_0, key) == Some(value),
{
    put_spec(overrides(raw.drop_last())->Ok_0, key, value);
}

/// The key that is given, or else the one in a file of which the path and the
/// contents are given.
pub open spec fn key_from(
    inline: Option<Seq<char>>,
    file: Option<(Seq<char>, Seq<char>)>,
) -> Result<Option<Seq<char>>, Seq<char>> {
    match nonblank(inline) {
        Some(key) => Ok(Some(key)),
        None => match file {
            None => Ok(None),
            Some((path, contents)) => if blank(contents) {
                Err("verification key file '"@ + path + "' is empty"@)
            } else {
                Ok(Some(trimmed(contents)))
            },
        },
    }
}

pub open spec fn opt_pair(pair: Option<(&str, &str)>) -> Option<(Seq<char>, Seq<char>)> {
    match pair {
        Some((a, b)) => Some((a@, b@)),
        None => None,
    }
}

/// The key that is given, or else the one in a file of which the path and the
/// contents are given.
pub fn resolve_inline_or_file_key(inline: Option<&str>, key_file: Option<(&str, &str)>) -> (r:
    Result<Option<String>, String>)
    ensures
        opt_result(r) == key_from(opt_str(inline), opt_pair(key_file)),
{
    match non_blank(inline) {
        Some(key) => Ok(Some(key)),
        None => match key_file {
            None => Ok(None),
            Some((path, contents)) => {
                let key = trim(contents);
                if key.is_empty() {
                    Err(cat3("verification key file '", path, "' is empty"))
                } else {
                    Ok(Some(key.to_owned()))
                }
            },
        },
    }
}

// ---------------------------------------------------------------- answers

/// What a person is shown of an answer, where `read` is what its body was read
/// as.
pub open spec fn shown(response: ResponseView, read: Result<JsonView, Seq<char>>) -> Result<
    Seq<char>,
    Seq<char>,
> {
    if response.status == 304 {
        Ok(response.status_text)
    } else if success_status(response.status) {
        match read {
            Ok(value) => Ok(json_pretty(value)),
            Err(_) => if blank(response.body) {
                Ok(response.status_text)
            } else {
                Ok(response.body)
            },
        }
    } else {
        Err(failure_text("request"@, response))
    }
}

/// What a person is shown of an answer.
pub fn response_text(response: &DaemonResponse) -> (r: Result<String, String>)
    ensures
        texts_result(r) == shown(response@, json_read(response.body@)),
{
    if response.status == 304 {
        return Ok(response.status_text.clone());
    }
    if !is_success(response.status) {
        return Err(failure_message("request", response));
    }
    match pretty_text(response.body.as_str()) {
        Some(pretty) => Ok(pretty),
        None => if is_blank(response.body.as_str()) {
            Ok(response.status_text.clone())
        } else {
            Ok(response.body.clone())
        },
    }
}

/// Why a run is not asked for after all: what is shown, and what is said.
pub struct PrecheckFailure {
    pub shown: Option<String>,
    pub message: String,
}

/// Why a run is not asked for, as plain values.
pub struct PrecheckView {
    pub shown: Option<Seq<char>>,
    pub message: Seq<char>,
}

impl View for PrecheckFailure {
    type V = PrecheckView;

    open spec fn view(&self) -> PrecheckView {
        PrecheckView { shown: opt_text(self.shown), message: self.message@ }
    }
}

pub open spec fn precheck_result(r: Result<(), PrecheckFailure>) -> Result<(), PrecheckView> {
    match r {
        Ok(()) => Ok(()),
        Err(e) => Err(e@),
    }
}

/// Whether a check lets the flow `name` run; where it does not, its text is shown.
pub open spec fn payload_verdict(name: Seq<char>, payload: JsonView, shown: Seq<char>) -> Result<
    (),
    PrecheckView,
> {
    if payload.member("can_run"@) == Some(JsonView::Bool(true)) {
        Ok(())
    } else {
        Err(
            PrecheckView {
                shown: Some(shown),
                message: "precheck blocked workflow '"@ + name + "'"@,
            },
        )
    }
}

/// Whether the answer to a check lets the flow `name` run, where `read` is what
/// its body was read as.
pub open spec fn precheck_verdict(
    name: Seq<char>,
    response: ResponseView,
    read: Result<JsonView, Seq<char>>,
) -> Result<(), PrecheckView> {
    if !success_status(response.status) {
        let head = "precheck request failed with status "@ + response.status_text + " for '"@ + name
            + "'"@;
        Err(
            PrecheckView {
                shown: None,
                message: if blank(response.body) {
                    head
                } else {
                    head + ": "@ + response.body
                },
            },
        )
    } else {
        match read {
            Err(_) => Err(
                PrecheckView {
                    shown: None,
                    message: "daemon returned non-json precheck response"@,
                },
            ),
            Ok(payload) => payload_verdict(name, payload, json_pretty(payload)),
        }
    }
}

/// Whether a check lets the flow `name` run; where it does not, its text is shown.
pub fn check_payload(name: &str, payload: &Json, shown: String) -> (r: Result<(), PrecheckFailure>)
    ensures
        precheck_result(r) == payload_verdict(name@, payload@, shown@),
{
    match payload.get("can_run") {
        Some(Json::Bool(true)) => Ok(()),
        _ => Err(
            PrecheckFailure {
                shown: Some(shown),
                message: cat3("precheck blocked workflow '", name, "'"),
            },
        ),
    }
}

/// Whether the answer to a check lets the flow `name` run.
pub fn precheck_outcome(name: &str, response: &DaemonResponse) -> (r: Result<(), PrecheckFailure>)
    ensures
        precheck_result(r) == precheck_verdict(name@, response@, json_read(response.body@)),
{
    if !is_success(response.status) {
        let head = cat5(
            "precheck request failed with status ",
            response.status_text.as_str(),
            " for '",
            name,
            "'",
        );
        let message = if is_blank(response.body.as_str()) {
            head
        } else {
            cat3(head.as_str(), ": ", response.body.as_str())
        };
        return Err(PrecheckFailure { shown: None, message });
    }
    match parse_and_show(response.body.as_str()) {
        Err(_) => Err(
            PrecheckFailure {
                shown: None,
                message: "daemon returned non-json precheck response".to_owned(),
            },
        ),
        Ok((payload, shown)) => check_payload(name, &payload, shown),
    }
}

// ---------------------------------------------------------------- waiting

/// Whether a session with this status has come to its end.
pub open spec fn terminal(status: Seq<char>) -> bool {
    let s = lowered(trimmed(status));
    s == "done"@ || s == "failed"@ || s == "stopped"@ || s == "not_running"@
}

/// Whether a session with this status has come to its end.
pub fn is_terminal_status(status: &str) -> (r: bool)
    ensures
        r == terminal(status@),
{
    let s = to_lower(trim(status));
    same(s.as_str(), "done") || same(s.as_str(), "failed") || same(s.as_str(), "stopped") || same(
        s.as_str(),
        "not_running",
    )
}

/// The status that a session's data give.
pub open spec fn status_in(payload: JsonView) -> Seq<char> {
    match text_member(payload, "status"@) {
        Some(status) => status,
        None => "unknown"@,
    }
}

/// The status that a session's data give.
pub fn workflow_status_value(status_payload: &Json) -> (r: String)
    ensures
        r@ == status_in(status_payload@),
{
    match status_payload.get_str("status") {
        Some(status) => status.to_owned(),
        None => "unknown".to_owned(),
    }
}

/// How waiting for a session ends: what is shown, and whether it went well.
pub struct WaitEnd {
    pub shown: String,
    pub result: Result<(), String>,
}

/// Whether a session that ended with this status went well.
pub open spec fn wait_result(id: Seq<char>, status: Seq<char>) -> Result<(), Seq<char>> {
    if status == "done"@ {
        Ok(())
    } else {
        Err("workflow '"@ + id + "' finished with non-success status '"@ + status + "'"@)
    }
}

/// How waiting ends, with the session's data shown; `None` where the session goes
/// on.
pub fn handle_terminal_status(id: &str, workflow_status: &str, status_text: &str) -> (r: Option<
    WaitEnd,
>)
    ensures
        r is Some <==> terminal(workflow_status@),
        r matches Some(end) ==> {
            &&& end.shown@ == status_text@
            &&& unit_result(end.result) == wait_result(id@, workflow_status@)
        },
{
    if !is_terminal_status(workflow_status) {
        return None;
    }
    let result = if same(workflow_status, "done") {
        Ok(())
    } else {
        Err(
            cat5(
                "workflow '",
                id,
                "' finished with non-success status '",
                workflow_status,
                "'",
            ),
        )
    };
    Some(WaitEnd { shown: status_text.to_owned(), result })
}

/// What an answer brings while a session is waited for: its status, whether that
/// is news, and how waiting ends, if it does.
pub struct WaitStep {
    pub status: String,
    pub changed: bool,
    pub end: Option<WaitEnd>,
}

/// Whether this is what the session's data bring, where `shown` is their text.
pub open spec fn waited(
    id: Seq<char>,
    previous: Seq<char>,
    payload: JsonView,
    shown: Seq<char>,
    step: WaitStep,
) -> bool {
    let status = status_in(payload);
    &&& step.status@ == status
    &&& step.changed == (status != previous)
    &&& step.end is Some <==> terminal(status)
    &&& step.end matches Some(end) ==> end.shown@ == shown && unit_result(end.result) == wait_result(
        id,
        status,
    )
}

/// What the session's data bring.
pub fn wait_step(id: &str, previous: &str, payload: &Json, shown: &str) -> (r: WaitStep)
    ensures
        waited(id@, previous@, payload@, shown@, r),
{
    let status = workflow_status_value(payload);
    let changed = !same(status.as_str(), previous);
    let end = handle_terminal_status(id, status.as_str(), shown);
    WaitStep { status, changed, end }
}

/// What the daemon's answer brings while a session is waited for.
pub fn wait_response(id: &str, previous: &str, response: &DaemonResponse) -> (r: Result<
    WaitStep,
    String,
>)
    ensures
        if !success_status(response.status) {
            r is Err && r->Err_0@ == failure_text(
                "request while waiting for '"@ + id@ + "'"@,
                response@,
            )
        } else {
            match json_read(response.body@) {
                Err(_) => r is Err && r->Err_0@ == "daemon returned non-json workflow status"@,
                Ok(payload) => r is Ok && waited(
                    id@,
                    previous@,
                    payload,
                    json_pretty(payload),
                    r->Ok_0,
                ),
            }
        },
{
    let what = cat3("request while waiting for '", id, "'");
    match ensure_http_success(response, what.as_str()) {
        Err(e) => {
            return Err(e);
        },
        Ok(()) => {},
    }
    match parse_and_show(response.body.as_str()) {
        Err(_) => Err("daemon returned non-json workflow status".to_owned()),
        Ok((payload, shown)) => Ok(wait_step(id, previous, &payload, shown.as_str())),
    }
}

/// The limit in seconds that waiting has reached, where it has reached one. The
/// time waited is in nanoseconds.
pub fn wait_timeout_secs(elapsed: u128, timeout_secs: Option<u64>) -> (r: Option<u64>)
    ensures
        match timeout_secs {
            Some(limit) => r == if elapsed >= limit * 1_000_000_000 {
                Some(limit)
            } else {
                None::<u64>
            },
            None => r is None,
        },
{
    match timeout_secs {
        Some(limit) => {
            let nanos: u128 = limit as u128 * 1_000_000_000;
            if elapsed >= nanos {
                Some(limit)
            } else {
                None
            }
        },
        None => None,
    }
}

/// The pause between two questions, which is never shorter than a twentieth of
/// a second.
pub fn poll_pause(poll_ms: u64) -> (r: u64)
    ensures
        r == if poll_ms < 50 {
            50
        } else {
            poll_ms
        },
{
    if poll_ms < 50 {
        50
    } else {
        poll_ms
    }
}

} // verus!
