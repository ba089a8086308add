//! What holds of the requests of a client, and of what it makes of the answers.
use crate::client::{
    at_daemon, bare, bool_param, chat_body, conditional, hitl_request_view, key_from,
    meta_request_view, number_param, overrides, precheck_verdict, resolve_request_view,
    revision_query, run_body, run_request_view, sessions_request_view, shown, snapshot_query,
    tag_of, terminal, text_request, vars_json, wait_result, waited, with_caller, with_param,
    BodyView, RequestView, Verb, WaitStep,
};
use crate::daemon::access::etag_of;
use crate::json::laws::{holds, members_of};
use crate::json::{json_pretty, number_or_null, text_member, wide, JsonView};
use crate::number::decimal;
use crate::policy_sync::{failure_text, ResponseView};
use crate::strmap::{lookup, put_spec};
use crate::text::{blank, lowered, split_at_first, trim_end_by, trimmed, CharSet};
use vstd::prelude::*;

verus! {

// ---------------------------------------------------------------- requests

/// A request goes to a path at the daemon, whatever slashes its address ends with, and
/// carries nothing unless it is told to.
pub proof fn requests_go_to_the_daemon(verb: Verb, daemon: Seq<char>, path: Seq<char>)
    ensures
        bare(verb, daemon, path).verb == verb,
        bare(verb, daemon, path).url == trim_end_by(daemon, CharSet::Only('/')) + path,
        bare(verb, daemon, path).query.len() == 0,
        bare(verb, daemon, path).headers.len() == 0,
        bare(verb, daemon, path).body is Nothing,
{
}

/// A parameter that is given is sent behind the others, one that is not given is not.
pub proof fn given_parameters_are_sent(
    query: Seq<(Seq<char>, Seq<char>)>,
    key: Seq<char>,
    value: Seq<char>,
    n: u64,
)
    ensures
        with_param(query, key, None) == query,
        with_param(query, key, Some(value)) == query.push((key, value)),
        lookup(with_param(query, key, Some(value)), key) == Some(value),
        number_param(None) is None,
        number_param(Some(n)) == Some(decimal(n as nat)),
        bool_param(None) is None,
        bool_param(Some(true)) == Some("true"@),
        bool_param(Some(false)) == Some("false"@),
{
}

/// The filters of a list are sent under their names and in their order.
pub proof fn filters_are_sent(
    daemon: Seq<char>,
    a: Seq<char>,
    b: Seq<char>,
    c: Seq<char>,
    available: bool,
    limit: u64,
)
    ensures
        meta_request_view(daemon, Some(a), Some(b), Some(c), Some(available), Some(limit)).query
            == seq![
            ("tag"@, a),
            ("owner"@, b),
            ("capability"@, c),
            ("available"@, if available {
                "true"@
            } else {
                "false"@
            }),
            ("limit"@, decimal(limit as nat)),
        ],
        meta_request_view(daemon, None, None, None, None, None) == bare(
            Verb::Get,
            daemon,
            "/workflows/meta"@,
        ),
        sessions_request_view(daemon, Some(a), Some(b), Some(c), Some(limit)).query == seq![
            ("status"@, a),
            ("owner"@, b),
            ("workflow"@, c),
            ("limit"@, decimal(limit as nat)),
        ],
        sessions_request_view(daemon, None, None, None, None) == bare(
            Verb::Get,
            daemon,
            "/sessions"@,
        ),
        hitl_request_view(daemon, Some(a), Some(b), Some(c), Some(limit)).query == seq![
            ("status"@, a),
            ("session_id"@, b),
            ("workflow"@, c),
            ("limit"@, decimal(limit as nat)),
        ],
        hitl_request_view(daemon, None, None, None, None) == bare(Verb::Get, daemon, "/hitl"@),
{
}

/// Every variable is sent under its name.
pub proof fn variables_are_sent(entries: Seq<(Seq<char>, Seq<char>)>, key: Seq<char>)
    ensures
        vars_json(entries) is Object,
        members_of(vars_json(entries)).len() == entries.len(),
        lookup(entries, key) matches Some(value) ==> vars_json(entries).member(key) == Some(
            JsonView::Text(value),
        ),
        lookup(entries, key) is None ==> vars_json(entries).member(key) is None,
    decreases entries.len(),
{
    if entries.len() > 0 {
        variables_are_sent(entries.drop_last(), key);
        assert(members_of(vars_json(entries)).drop_last() =~= members_of(
            vars_json(entries.drop_last()),
        ));
    }
}

/// A run is asked for by the name of its flow, with the variables and the limit where
/// there are any.
pub proof fn runs_are_asked_for(
    daemon: Seq<char>,
    name: Seq<char>,
    vars: Seq<(Seq<char>, Seq<char>)>,
    max_iterations: Option<u32>,
)
    ensures
        run_request_view(daemon, name, vars, max_iterations).verb == Verb::Post,
        run_request_view(daemon, name, vars, max_iterations).url == at_daemon(
            daemon,
            "/workflow/"@ + name + "/run"@,
        ),
        run_request_view(daemon, name, vars, max_iterations).body == run_body(
            vars,
            max_iterations,
        ),
        run_body(vars, max_iterations) is Nothing <==> vars.len() == 0 && max_iterations is None,
        run_body(vars, max_iterations) matches BodyView::Json(body) ==> holds(
            body,
            "max_iterations"@,
            number_or_null(wide(max_iterations)),
        ) && holds(body, "vars"@, vars_json(vars)),
        !(run_body(vars, max_iterations) is Text),
{
    if let BodyView::Json(body) = run_body(vars, max_iterations) {
        assert(members_of(body)[0].0 == "max_iterations"@);
        assert(members_of(body)[1].0 == "vars"@);
    }
}

/// A chat run is asked for by its intent, with the variables and the limit.
pub proof fn chats_are_asked_for(
    intent: Seq<char>,
    vars: Seq<(Seq<char>, Seq<char>)>,
    max_iterations: Option<u32>,
)
    ensures
        holds(chat_body(intent, vars, max_iterations), "intent"@, JsonView::Text(intent)),
        holds(
            chat_body(intent, vars, max_iterations),
            "max_iterations"@,
            number_or_null(wide(max_iterations)),
        ),
        holds(chat_body(intent, vars, max_iterations), "vars"@, vars_json(vars)),
{
    let members = members_of(chat_body(intent, vars, max_iterations));
    assert(members[0].0 == "intent"@);
    assert(members[1].0 == "max_iterations"@);
    assert(members[2].0 == "vars"@);
}

/// A text that is sent along is sent as it is; a decision is sent to its request.
pub proof fn bodies_are_sent(
    daemon: Seq<char>,
    path: Seq<char>,
    body: Seq<char>,
    id: Seq<char>,
    decision: Seq<char>,
)
    ensures
        text_request(daemon, path, body).verb == Verb::Post,
        text_request(daemon, path, body).url == at_daemon(daemon, path),
        text_request(daemon, path, body).body == BodyView::Text(body),
        resolve_request_view(daemon, id, decision).verb == Verb::Post,
        resolve_request_view(daemon, id, decision).url == at_daemon(
            daemon,
            "/hitl/"@ + id + "/resolve"@,
        ),
        resolve_request_view(daemon, id, decision).body matches BodyView::Json(sent) && holds(
            sent,
            "decision"@,
            JsonView::Text(decision),
        ),
{
    if let BodyView::Json(sent) = resolve_request_view(daemon, id, decision).body {
        assert(members_of(sent)[0].0 == "decision"@);
    }
}

/// A caller is named in a header of its own, unless its name is blank; nothing else of
/// the request changes.
pub proof fn callers_are_named(request: RequestView, caller: Seq<char>)
    ensures
        with_caller(request, None) == request,
        blank(caller) ==> with_caller(request, Some(caller)) == request,
        !blank(caller) ==> with_caller(request, Some(caller)).headers == request.headers.push(
            ("x-anna-caller"@, trimmed(caller)),
        ),
        with_caller(request, Some(caller)).url == request.url,
        with_caller(request, Some(caller)).verb == request.verb,
        with_caller(request, Some(caller)).query == request.query,
        with_caller(request, Some(caller)).body == request.body,
{
}

/// Conditions are sent in their headers; a revision is sent as its etag.
pub proof fn conditions_are_sent(
    daemon: Seq<char>,
    path: Seq<char>,
    wanted: Seq<char>,
    known: Seq<char>,
    revision: Seq<char>,
)
    ensures
        conditional(daemon, path, None, None) == bare(Verb::Get, daemon, path),
        !blank(wanted) ==> conditional(daemon, path, Some(wanted), None).headers == seq![
            ("if-match"@, trimmed(wanted)),
        ],
        !blank(known) ==> conditional(daemon, path, None, Some(known)).headers == seq![
            ("if-none-match"@, trimmed(known)),
        ],
        !blank(wanted) && !blank(known) ==> conditional(
            daemon,
            path,
            Some(wanted),
            Some(known),
        ).headers == seq![("if-match"@, trimmed(wanted)), ("if-none-match"@, trimmed(known))],
        conditional(daemon, path, Some(wanted), Some(known)).url == at_daemon(daemon, path),
        tag_of(None) is None,
        blank(revision) ==> tag_of(Some(revision)) is None,
        !blank(revision) ==> tag_of(Some(revision)) == Some(etag_of(revision)),
        !blank(revision) ==> revision_query(daemon, Some(revision)).headers == seq![
            ("if-none-match"@, etag_of(revision)),
        ],
        revision_query(daemon, None) == bare(Verb::Get, daemon, "/policy/revision"@),
        revision_query(daemon, Some(revision)).url == at_daemon(daemon, "/policy/revision"@),
        !blank(revision) ==> snapshot_query(daemon, revision).headers == seq![
            ("if-match"@, etag_of(revision)),
        ],
        snapshot_query(daemon, revision).url == at_daemon(daemon, "/policy/snapshot"@),
{
}

// ---------------------------------------------------------------- arguments

/// Arguments are read one after another; the first that is no `KEY=VALUE` is told.
pub proof fn arguments_are_read_in_order(
    raw: Seq<Seq<char>>,
    arg: Seq<char>,
    key: Seq<char>,
    value: Seq<char>,
    other: Seq<char>,
)
    ensures
        overrides(Seq::empty()) matches Ok(vars) && vars.len() == 0,
        overrides(raw) is Err ==> overrides(raw.push(arg)) == overrides(raw),
        overrides(raw) matches Ok(vars) ==> {
            &&& split_at_first(arg, "="@) is None ==> overrides(raw.push(arg)) == Err::<
                Seq<(Seq<char>, Seq<char>)>,
                Seq<char>,
            >("invalid --var '"@ + arg + "', expected KEY=VALUE"@)
            &&& split_at_first(arg, "="@) == Some((key, value)) && blank(key) ==> overrides(
                raw.push(arg),
            ) == Err::<Seq<(Seq<char>, Seq<char>)>, Seq<char>>(
                "invalid --var '"@ + arg + "': empty key"@,
            )
            &&& split_at_first(arg, "="@) == Some((key, value)) && !blank(key) ==> overrides(
                raw.push(arg),
            ) is Ok && lookup(overrides(raw.push(arg))->Ok_0, key) == Some(value) && (other != key
                ==> lookup(overrides(raw.push(arg))->Ok_0, other) == lookup(vars, other))
        },
{
    assert(raw.push(arg).drop_last() =~= raw);
    if let Ok(vars) = overrides(raw) {
        put_spec(vars, key, value);
    }
}

/// A key that is given goes before that of a file, which must not be empty.
pub proof fn given_keys_go_before_files(
    inline: Seq<char>,
    path: Seq<char>,
    contents: Seq<char>,
    file: Option<(Seq<char>, Seq<char>)>,
)
    ensures
        !blank(inline) ==> key_from(Some(inline), file) == Ok::<Option<Seq<char>>, Seq<char>>(
            Some(trimmed(inline)),
        ),
        blank(inline) ==> key_from(Some(inline), file) == key_from(None, file),
        key_from(None, None) == Ok::<Option<Seq<char>>, Seq<char>>(None),
        blank(contents) ==> key_from(None, Some((path, contents))) == Err::<
            Option<Seq<char>>,
            Seq<char>,
        >("verification key file '"@ + path + "' is empty"@),
        !blank(contents) ==> key_from(None, Some((path, contents))) == Ok::<
            Option<Seq<char>>,
            Seq<char>,
        >(Some(trimmed(contents))),
{
}

// ---------------------------------------------------------------- answers

/// Of an answer its value is shown, else its body, else its status; a failure is told.
pub proof fn answers_are_shown(response: ResponseView, value: JsonView, message: Seq<char>)
    ensures
        response.status == 304 ==> shown(response, Ok(value)) == Ok::<Seq<char>, Seq<char>>(
            response.status_text,
        ),
        200 <= response.status < 300 ==> shown(response, Ok(value)) == Ok::<Seq<char>, Seq<char>>(
            json_pretty(value),
        ),
        200 <= response.status < 300 && !blank(response.body) ==> shown(response, Err(message))
            == Ok::<Seq<char>, Seq<char>>(response.body),
        200 <= response.status < 300 && blank(response.body) ==> shown(response, Err(message))
            == Ok::<Seq<char>, Seq<char>>(response.status_text),
        response.status != 304 && !(200 <= response.status < 300) ==> shown(response, Ok(value))
            == Err::<Seq<char>, Seq<char>>(failure_text("request"@, response)),
{
}

/// A run is asked for if and only if the check says that it can run.
pub proof fn checks_decide(
    name: Seq<char>,
    response: ResponseView,
    payload: JsonView,
    message: Seq<char>,
)
    ensures
        200 <= response.status < 300 ==> {
            &&& precheck_verdict(name, response, Ok(payload)) is Ok <==> payload.member(
                "can_run"@,
            ) == Some(JsonView::Bool(true))
            &&& precheck_verdict(name, response, Ok(payload)) matches Err(why) ==> why.shown
                == Some(json_pretty(payload)) && why.message == "precheck blocked workflow '"@
                + name + "'"@
            &&& precheck_verdict(name, response, Err(message)) matches Err(why) && why.shown
                is None && why.message == "daemon returned non-json precheck response"@
        },
        !(200 <= response.status < 300) ==> (precheck_verdict(name, response, Ok(payload))
            matches Err(why) && why.shown is None && why.message
            == "precheck request failed with status "@ + response.status_text + " for '"@ + name
            + "'"@ + (if blank(response.body) {
            Seq::empty()
        } else {
            ": "@ + response.body
        })),
{
    let head = "precheck request failed with status "@ + response.status_text + " for '"@ + name
        + "'"@;
    assert(head + Seq::<char>::empty() =~= head);
    assert(head + ": "@ + response.body =~= head + (": "@ + response.body));
}

// ---------------------------------------------------------------- waiting

/// A session has come to its end where it is done, failed, stopped or not running, in
/// any case, and nowhere else.
pub proof fn four_statuses_are_ends(status: Seq<char>)
    ensures
        terminal(status) <==> {
            ||| lowered(trimmed(status)) == "done"@
            ||| lowered(trimmed(status)) == "failed"@
            ||| lowered(trimmed(status)) == "stopped"@
            ||| lowered(trimmed(status)) == "not_running"@
        },
{
}

/// Waiting ends with the session; only a session that is done went well.
pub proof fn waiting_ends_with_the_session(
    id: Seq<char>,
    previous: Seq<char>,
    payload: JsonView,
    shown: Seq<char>,
    step: WaitStep,
)
    requires
        waited(id, previous, payload, shown, step),
    ensures
        text_member(payload, "status"@) matches Some(status) ==> step.status@ == status,
        text_member(payload, "status"@) is None ==> step.status@ == "unknown"@,
        step.changed <==> step.status@ != previous,
        step.end is Some <==> terminal(step.status@),
        step.end matches Some(end) ==> end.shown@ == shown && (end.result is Ok <==> step.status@
            == "done"@),
        step.status@ != "done"@ ==> wait_result(id, step.status@) == Err::<(), Seq<char>>(
            "workflow '"@ + id + "' finished with non-success status '"@ + step.status@ + "'"@,
        ),
{
}

} // verus!
