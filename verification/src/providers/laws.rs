//! What holds of the requests, commands and prompts that stages make.
use crate::expr::{subst_plain_text, substituted};
use crate::json::{json_read, text_map_read, text_member, JsonView};
use crate::providers::cli::{
    cli_plan, cli_result, exit_code_name, exit_text, last_line, line_message, parse_mode,
    parsed_output, reported_code, stderr_code, stderr_message,
};
use crate::providers::http::{http_plan, http_result, method_and_url, HttpMethod, HttpPlanView};
use crate::providers::k8s::{k8s_plan, kubectl_stage};
use crate::providers::llm::{
    adapter_named, catalog_problem, chosen_adapter, context_paths_of, context_text, first_of,
    format_of, llm_args, llm_env, llm_plan, model_of, prompt_text, wrapper_of, AdapterView,
    CatalogView,
};
use crate::providers::shell::{shell_plan, shell_result};
use crate::providers::{
    builtin_providers, command_variables, command_variables_from, env_key_like, fault, key_chars,
    resolved_mapping, runtime_variables, secret_file, secret_files_of, secret_key, secret_mapping,
    secret_ref_like, secret_value, secrets_path, stored_texts, unread_secret, vault_secret,
    working_dir, BuiltinProvider, ErrorView, PlanView, SourcesView, StoreView,
};
use crate::strmap::{lookup, put_spec};
use crate::text::laws::{
    core_survives_trimming, end_goes_first, end_of_two, items_of_two, one_item, only_the_end_goes,
    tight_text_stays,
};
use crate::text::{
    after_prefix, blank, holds_text, is_alnum, is_space, list_items, matches_at, trim_end_by,
    trimmed, upper_char, CharSet,
};
use crate::workflow::{StageView, WorkflowView};
use crate::providers::env_refs::resolved_env;
use crate::json::laws::last_pairs_stay;
use crate::paths::joined_path;
use crate::number::decimal;
use vstd::prelude::*;

verus! {

type Texts = Seq<(Seq<char>, Seq<char>)>;

proof fn starts_otherwise(s: Seq<char>, p: Seq<char>, i: int)
    requires
        0 <= i < p.len(),
        i < s.len() ==> s[i] != p[i],
    ensures
        !matches_at(s, p, 0),
        after_prefix(s, p) is None,
{
    if matches_at(s, p, 0) {
        assert(s.subrange(0, p.len() as int)[i] == p[i]);
    }
}

// ---------------------------------------------------------------- http

/// A text that starts with `https://` or `http://` is a URL, which is fetched.
pub proof fn urls_are_fetched(url: Seq<char>)
    requires
        trimmed(url) == url,
        (url.len() >= 8 && url.take(8) == "https://"@) || (url.len() >= 7 && url.take(7)
            == "http://"@),
    ensures
        method_and_url(url) == Ok::<(HttpMethod, Seq<char>), Seq<char>>((HttpMethod::Get, url)),
{
    reveal_strlit("https://");
    reveal_strlit("http://");
    reveal_strlit("POST ");
    reveal_strlit("GET ");
    if url.len() >= 8 && url.take(8) == "https://"@ {
        assert(url.take(8)[0] == 'h');
        assert(url.subrange(0, 8) =~= url.take(8));
    } else {
        assert(url.take(7)[0] == 'h');
        assert(url.subrange(0, 7) =~= url.take(7));
    }
    starts_otherwise(url, "POST "@, 0);
    starts_otherwise(url, "GET "@, 0);
}

/// A method before a URL is used for it; the URL is taken without the blanks round
/// it, whatever it starts with.
pub proof fn named_methods_are_used(url: Seq<char>)
    requires
        !blank(url),
    ensures
        method_and_url("GET "@ + url) == Ok::<(HttpMethod, Seq<char>), Seq<char>>(
            (HttpMethod::Get, trimmed(url)),
        ),
        method_and_url("POST "@ + url) == Ok::<(HttpMethod, Seq<char>), Seq<char>>(
            (HttpMethod::Post, trimmed(url)),
        ),
{
    reveal_strlit("POST ");
    reveal_strlit("GET ");
    method_and_rest("GET "@, url);
    method_and_rest("POST "@, url);
    let get = trimmed("GET "@ + url);
    assert(get[0] == 'G');
    starts_otherwise(get, "POST "@, 0);
}

proof fn method_and_rest(method: Seq<char>, url: Seq<char>)
    requires
        !blank(url),
        method.len() > 0,
        !is_space(method[0]),
    ensures
        trimmed(method + url).len() >= method.len(),
        trimmed(method + url)[0] == method[0],
        after_prefix(trimmed(method + url), method) matches Some(rest) && trimmed(rest) == trimmed(
            url,
        ),
{
    let line = method + url;
    let tail = trim_end_by(url, CharSet::Space);
    assert(line[0] == method[0]);
    end_of_two(method, url);
    assert(trimmed(line) == method + tail);
    assert((method + tail).subrange(0, method.len() as int) =~= method);
    assert((method + tail).skip(method.len() as int) =~= tail);
    end_goes_first(url);
}

/// Nothing else is a request.
pub proof fn other_lines_are_no_requests(line: Seq<char>)
    requires
        method_and_url(line) is Ok,
    ensures
        ({
            let t = trimmed(line);
            ||| matches_at(t, "POST "@, 0)
            ||| matches_at(t, "GET "@, 0)
            ||| matches_at(t, "http://"@, 0)
            ||| matches_at(t, "https://"@, 0)
        }),
{
}

/// A stage that posts sends its `stdin`, or nothing; one that fetches sends no body.
/// A stage without a command makes no request.
pub proof fn posts_carry_stdin(stage: StageView, vars: Texts, outputs: Texts, url: Seq<char>)
    requires
        !blank(url),
        !url.contains('$'),
    ensures
        stage.command == Some("POST "@ + url) ==> (http_plan(stage, vars, outputs) matches Ok(plan)
            && plan.method == HttpMethod::Post && plan.url == trimmed(url) && plan.body == Some(
            match stage.stdin {
                Some(text) => substituted(text, vars, outputs),
                None => Seq::empty(),
            },
        )),
        stage.command == Some("GET "@ + url) ==> (http_plan(stage, vars, outputs) matches Ok(plan)
            && plan.method == HttpMethod::Get && plan.url == trimmed(url) && plan.body is None),
        stage.command is None ==> http_plan(stage, vars, outputs) is Err,
{
    reveal_strlit("POST ");
    reveal_strlit("GET ");
    named_methods_are_used(url);
    assert(!("POST "@ + url).contains('$')) by {
        if ("POST "@ + url).contains('$') {
            let k = choose|k: int| 0 <= k < ("POST "@ + url).len() && ("POST "@ + url)[k] == '$';
            assert(k >= 5 && url[k - 5] == '$');
        }
    }
    assert(!("GET "@ + url).contains('$')) by {
        if ("GET "@ + url).contains('$') {
            let k = choose|k: int| 0 <= k < ("GET "@ + url).len() && ("GET "@ + url)[k] == '$';
            assert(k >= 4 && url[k - 4] == '$');
        }
    }
    subst_plain_text("POST "@ + url, vars, outputs);
    subst_plain_text("GET "@ + url, vars, outputs);
}

/// The body of an answer that is a success is the output; any other answer fails the
/// stage with its status and body.
pub proof fn answers_are_outputs(
    stage_id: Seq<char>,
    status: Seq<char>,
    body: Seq<char>,
)
    ensures
        http_result(stage_id, true, status, body) == Ok::<Seq<char>, ErrorView>(body),
        http_result(stage_id, false, status, body) matches Err(e) && e.code
            == "provider_exec_failed"@ && e.message == "http status "@ + status + " in stage '"@
            + stage_id + "': "@ + body,
{
}

// ---------------------------------------------------------------- shell

/// A shell stage hands its command line to `sh -lc`, in its own directory or else
/// the workflow's, and without input.
pub proof fn shell_lines_are_run(
    stage: StageView,
    workflow: WorkflowView,
    vars: Texts,
    outputs: Texts,
    sources: SourcesView,
)
    ensures
        shell_plan(stage, workflow, vars, outputs, sources) matches Ok(plan) ==> {
            &&& plan.program == "sh"@
            &&& plan.args.len() == 2
            &&& plan.args[0] == "-lc"@
            &&& plan.args[1] == substituted(stage.command->0, vars, outputs)
            &&& plan.dir == if stage.workdir is Some {
                stage.workdir
            } else {
                workflow.workdir
            }
            &&& plan.stdin is None
        },
        stage.command is None ==> shell_plan(stage, workflow, vars, outputs, sources) is Err,
{
}

/// The output of a shell stage is what its command wrote, but for blanks at the end.
pub proof fn shell_output_is_kept(
    stage_id: Seq<char>,
    stdout: Seq<char>,
    stderr: Seq<char>,
)
    ensures
        shell_result(stage_id, true, stdout, stderr) matches Ok(output) && output.len()
            <= stdout.len() && output == stdout.take(output.len() as int) && (forall|i: int|
            output.len() <= i < stdout.len() ==> is_space(#[trigger] stdout[i])) && (output.len()
            > 0 ==> !is_space(output.last())),
{
    only_the_end_goes(stdout, CharSet::Space);
}

/// A command that fails fails its stage with what it wrote to its error output, or
/// else to its output.
pub proof fn shell_failures_say_why(
    stage_id: Seq<char>,
    stdout: Seq<char>,
    stderr: Seq<char>,
)
    ensures
        shell_result(stage_id, false, stdout, stderr) matches Err(e) && e.code
            == "provider_exec_failed"@ && e.message == "shell command failed in stage '"@
            + stage_id + "': "@ + if blank(stderr) {
            trimmed(stdout)
        } else {
            trimmed(stderr)
        },
{
}

// ---------------------------------------------------------------- cli

/// A cli stage runs its program with its arguments and its input, variables replaced
/// in each.
pub proof fn programs_are_run(
    stage: StageView,
    workflow: WorkflowView,
    vars: Texts,
    outputs: Texts,
    sources: SourcesView,
)
    ensures
        cli_plan(stage, workflow, vars, outputs, sources) matches Ok(plan) ==> {
            &&& plan.program == substituted(stage.command->0, vars, outputs)
            &&& plan.args.len() == stage.args.len()
            &&& forall|i: int|
                0 <= i < stage.args.len() ==> #[trigger] plan.args[i] == substituted(
                    stage.args[i],
                    vars,
                    outputs,
                )
            &&& plan.dir == if stage.workdir is Some {
                stage.workdir
            } else {
                workflow.workdir
            }
            &&& plan.stdin == match stage.stdin {
                Some(text) => Some(substituted(text, vars, outputs)),
                None => None,
            }
        },
        stage.command is None ==> cli_plan(stage, workflow, vars, outputs, sources) is Err,
{
}

/// What a program reports goes before its exit code, and an exit code stands for one
/// class of errors.
pub proof fn exits_are_classified(code: i32, reported: Seq<char>, exit_code: Option<i32>)
    ensures
        exit_code_name(exit_code, Some(reported)) == reported,
        code == 10 <==> exit_code_name(Some(code), None) == "provider_not_found"@,
        code == 11 <==> exit_code_name(Some(code), None) == "provider_start_failed"@,
        code == 12 <==> exit_code_name(Some(code), None) == "provider_timeout"@,
        code == 13 <==> exit_code_name(Some(code), None) == "provider_invalid_response"@,
        code < 10 || code > 13 ==> exit_code_name(Some(code), None) == "provider_exec_failed"@,
        exit_code_name(None, None) == "provider_exec_failed"@,
{
    reveal_strlit("provider_not_found");
    reveal_strlit("provider_start_failed");
    reveal_strlit("provider_timeout");
    reveal_strlit("provider_invalid_response");
    reveal_strlit("provider_exec_failed");
    assert("provider_not_found"@.len() == 18);
    assert("provider_start_failed"@.len() == 21);
    assert("provider_timeout"@.len() == 16);
    assert("provider_invalid_response"@.len() == 25);
    assert("provider_exec_failed"@.len() == 20);
}

/// A program reports a class of errors by its name, and no other word counts.
pub proof fn reported_codes_are_known(value: JsonView)
    ensures
        reported_code(value) matches Some(code) ==> text_member(value, "error_code"@) == Some(code)
            && (code == "provider_not_found"@ || code == "provider_start_failed"@ || code
            == "provider_timeout"@ || code == "provider_invalid_response"@ || code
            == "provider_exec_failed"@),
        text_member(value, "error_code"@) == Some("provider_not_found"@) ==> reported_code(value)
            == Some("provider_not_found"@),
        text_member(value, "error_code"@) == Some("provider_start_failed"@) ==> reported_code(value)
            == Some("provider_start_failed"@),
        text_member(value, "error_code"@) == Some("provider_timeout"@) ==> reported_code(value)
            == Some("provider_timeout"@),
        text_member(value, "error_code"@) == Some("provider_invalid_response"@) ==> reported_code(
            value,
        ) == Some("provider_invalid_response"@),
        text_member(value, "error_code"@) == Some("provider_exec_failed"@) ==> reported_code(value)
            == Some("provider_exec_failed"@),
{
}

/// The last line of an error output counts; blank lines behind it do not.
pub proof fn last_line_counts(before: Seq<char>, line: Seq<char>)
    requires
        !line.contains('\n'),
    ensures
        !blank(line) ==> last_line(before + seq!['\n'] + line) == Some(trimmed(line)),
        blank(line) ==> last_line(before + seq!['\n'] + line) == last_line(before),
        !blank(line) ==> last_line(line) == Some(trimmed(line)),
        blank(line) ==> last_line(line) is None,
{
    let set = CharSet::Only('\n');
    assert forall|i: int| 0 <= i < line.len() implies !set.has(#[trigger] line[i]) by {
        if line[i] == '\n' {
            assert(line.contains('\n'));
        }
    }
    items_of_two(before, '\n', line, set);
    one_item(line, set);
    let all = list_items(before, set) + list_items(line, set);
    if blank(line) {
        assert(all =~= list_items(before, set));
    } else {
        assert(all.last() == trimmed(line));
    }
}

/// The message that a line gives as JSON goes before the line itself.
pub proof fn messages_are_told(line: Seq<char>, value: JsonView)
    ensures
        text_member(value, "message"@) matches Some(message) ==> line_message(line, Some(value))
            == if blank(message) {
            line
        } else {
            message
        },
        text_member(value, "message"@) is None ==> line_message(line, Some(value)) == line,
        line_message(line, None) == line,
{
}

/// A stage that names no form of output takes it as text; one that asks for JSON
/// fails where there is none; other forms are refused.
pub proof fn outputs_take_their_form(
    stage_id: Seq<char>,
    mode: Seq<char>,
    raw: Seq<char>,
    read: Result<Seq<char>, Seq<char>>,
)
    ensures
        parse_mode(None) == "text"@,
        parse_mode(Some(mode)) == mode,
        parsed_output(stage_id, "text"@, raw, read) == Ok::<Seq<char>, ErrorView>(raw),
        read matches Ok(text) ==> parsed_output(stage_id, "json"@, raw, read) == Ok::<
            Seq<char>,
            ErrorView,
        >(text),
        read is Err ==> (parsed_output(stage_id, "json"@, raw, read) matches Err(e) && e.code
            == "provider_invalid_response"@),
        mode != "text"@ && mode != "json"@ ==> (parsed_output(stage_id, mode, raw, read) matches Err(
            e,
        ) && e.code == "provider_invalid_response"@),
{
    reveal_strlit("text");
    reveal_strlit("json");
    assert("text"@[0] == 't' && "json"@[0] == 'j');
}

// ---------------------------------------------------------------- k8s

/// A k8s stage runs `kubectl` with its words, of which there must be one.
pub proof fn kubectl_is_run(stage: StageView, words: Seq<Seq<char>>)
    ensures
        words.len() > 0 ==> (kubectl_stage(stage, Some(words)) matches Ok(cli) && cli.provider
            == "cli"@ && cli.command == Some("kubectl"@) && cli.args == words && cli.id == stage.id
            && cli.env == stage.env && cli.stdin == stage.stdin && cli.workdir == stage.workdir
            && cli.secrets == stage.secrets && cli.parse == stage.parse),
        words.len() == 0 ==> kubectl_stage(stage, Some(words)) is Err,
        kubectl_stage(stage, None) is Err,
{
}

/// The arguments of a k8s stage go before its command line.
pub proof fn arguments_go_before_line(stage: StageView, vars: Texts, outputs: Texts)
    requires
        stage.args.len() > 0,
    ensures
        k8s_plan(stage, vars, outputs) matches Ok(cli) && cli.args.len() == stage.args.len() && (
        forall|i: int|
            0 <= i < stage.args.len() ==> #[trigger] cli.args[i] == substituted(
                stage.args[i],
                vars,
                outputs,
            )) && cli.command == Some("kubectl"@),
{
}

// ---------------------------------------------------------------- registry

/// Six providers come with the program, each under its name, and no other.
pub proof fn builtin_names(name: Seq<char>)
    ensures
        builtin_providers().contains_key(name) <==> (name == "shell"@ || name == "cli"@ || name
            == "http"@ || name == "llm"@ || name == "k8s"@ || name == "vault"@),
        builtin_providers()["shell"@] == BuiltinProvider::Shell,
        builtin_providers()["cli"@] == BuiltinProvider::Cli,
        builtin_providers()["http"@] == BuiltinProvider::Http,
        builtin_providers()["llm"@] == BuiltinProvider::Llm,
        builtin_providers()["k8s"@] == BuiltinProvider::K8s,
        builtin_providers()["vault"@] == BuiltinProvider::Vault,
{
    reveal_strlit("shell");
    reveal_strlit("cli");
    reveal_strlit("http");
    reveal_strlit("llm");
    reveal_strlit("k8s");
    reveal_strlit("vault");
    assert("shell"@[0] == 's' && "cli"@[0] == 'c' && "http"@[0] == 'h' && "llm"@[0] == 'l'
        && "k8s"@[0] == 'k' && "vault"@[0] == 'v');
}

// ---------------------------------------------------------------- environment

/// A command is told its session, workflow and stage, and how far it is trusted.
pub proof fn commands_are_told(
    stage: StageView,
    workflow_name: Seq<char>,
    outputs: Texts,
    key: Seq<char>,
)
    ensures
        ({
            let env = runtime_variables(stage, workflow_name, outputs);
            &&& lookup(env, "ANNA_WORKFLOW"@) == Some(workflow_name)
            &&& lookup(env, "ANNA_STAGE_ID"@) == Some(stage.id)
            &&& stage.trust matches Some(trust) ==> lookup(env, "ANNA_TRUST"@) == Some(trust)
            &&& stage.trust is None ==> lookup(env, "ANNA_TRUST"@) == Some("none"@)
            &&& lookup(outputs, "SESSION"@) matches Some(session) ==> (if blank(session) {
                lookup(env, "ANNA_SESSION"@) is None
            } else {
                lookup(env, "ANNA_SESSION"@) == Some(session)
            })
            &&& lookup(outputs, "SESSION"@) is None ==> lookup(env, "ANNA_SESSION"@) is None
            &&& key != "ANNA_WORKFLOW"@ && key != "ANNA_STAGE_ID"@ && key != "ANNA_TRUST"@ && key
                != "ANNA_SESSION"@ ==> lookup(env, key) is None
        }),
{
    reveal_strlit("ANNA_WORKFLOW");
    reveal_strlit("ANNA_STAGE_ID");
    reveal_strlit("ANNA_TRUST");
    reveal_strlit("ANNA_SESSION");
    assert("ANNA_WORKFLOW"@[5] == 'W' && "ANNA_STAGE_ID"@[5] == 'S' && "ANNA_STAGE_ID"@[6] == 'T'
        && "ANNA_TRUST"@[5] == 'T' && "ANNA_SESSION"@[5] == 'S' && "ANNA_SESSION"@[6] == 'E');
    let none = Seq::<(Seq<char>, Seq<char>)>::empty();
    let session = match lookup(outputs, "SESSION"@) {
        Some(session) => if blank(session) {
            none
        } else {
            crate::strmap::put(none, "ANNA_SESSION"@, session)
        },
        None => none,
    };
    if let Some(named) = lookup(outputs, "SESSION"@) {
        put_spec(none, "ANNA_SESSION"@, named);
    }
    let a = crate::strmap::put(session, "ANNA_WORKFLOW"@, workflow_name);
    put_spec(session, "ANNA_WORKFLOW"@, workflow_name);
    put_spec(a, "ANNA_STAGE_ID"@, stage.id);
    let b = crate::strmap::put(a, "ANNA_STAGE_ID"@, stage.id);
    put_spec(
        b,
        "ANNA_TRUST"@,
        match stage.trust {
            Some(trust) => trust,
            None => "none"@,
        },
    );
}

// ---------------------------------------------------------------- secrets

/// `env://` names a variable of the environment, `file://` a file, whose line ends
/// do not count, and `vault://` or nothing a stored secret.
pub proof fn secrets_are_looked_up(stage_id: Seq<char>, name: Seq<char>, sources: SourcesView)
    requires
        name.len() > 0,
        !is_space(name[0]),
        !is_space(name.last()),
    ensures
        lookup(sources.env, name) matches Some(value) ==> secret_value(
            stage_id,
            "env://"@ + name,
            sources,
        ) == Ok::<Seq<char>, ErrorView>(value),
        lookup(sources.env, name) is None ==> (secret_value(stage_id, "env://"@ + name, sources) matches Err(
            e,
        ) && e.code == "provider_secret_not_found"@),
        lookup(sources.files, name) matches Some(Ok(content)) ==> (secret_value(
            stage_id,
            "file://"@ + name,
            sources,
        ) matches Ok(value) && value.len() <= content.len() && value == content.take(
            value.len() as int,
        ) && (forall|i: int|
            value.len() <= i < content.len() ==> #[trigger] content[i] == '\n' || content[i]
                == '\r') && (value.len() > 0 ==> value.last() != '\n' && value.last() != '\r')),
        !(lookup(sources.files, name) matches Some(Ok(_))) ==> (secret_value(
            stage_id,
            "file://"@ + name,
            sources,
        ) matches Err(e) && e.code == "provider_secret_not_found"@),
        secret_value(stage_id, "vault://"@ + name, sources) == vault_secret(
            stage_id,
            name,
            sources,
        ),
        !matches_at(name, "env://"@, 0) && !matches_at(name, "file://"@, 0) && !matches_at(
            name,
            "vault://"@,
            0,
        ) ==> secret_value(stage_id, name, sources) == vault_secret(stage_id, name, sources),
{
    reveal_strlit("env://");
    reveal_strlit("file://");
    reveal_strlit("vault://");
    tight_text_stays(name);
    assert forall|p: Seq<char>|
        p == "env://"@ || p == "file://"@ || p == "vault://"@ implies trimmed(#[trigger] (p + name))
        == p + name && (p + name).skip(p.len() as int) == name && matches_at(p + name, p, 0) by {
        let s = p + name;
        assert(s[0] == p[0]);
        assert(s.last() == name.last());
        tight_text_stays(s);
        assert(s.skip(p.len() as int) =~= name);
        assert(s.subrange(0, p.len() as int) =~= p);
    }
    let file = "file://"@ + name;
    let vault = "vault://"@ + name;
    assert(file[0] == 'f' && vault[0] == 'v');
    starts_otherwise(file, "env://"@, 0);
    starts_otherwise(vault, "env://"@, 0);
    starts_otherwise(vault, "file://"@, 0);
    assert(trimmed("env://"@ + name) == "env://"@ + name);
    assert(trimmed(file) == file);
    assert(trimmed(vault) == vault);
    if let Some(Ok(content)) = lookup(sources.files, name) {
        only_the_end_goes(content, CharSet::LineEnd);
    }
}

/// A stored secret is that of the environment, else that of the secrets file; one
/// that is in neither is an error.
pub proof fn stored_secrets_are_found(stage_id: Seq<char>, path: Seq<char>, sources: SourcesView)
    ensures
        ({
            let name = "ANNA_SECRET_"@ + secret_key(path);
            match (lookup(sources.env, name), lookup(sources.secrets, path)) {
                (Some(value), _) => vault_secret(stage_id, path, sources) == Ok::<
                    Seq<char>,
                    ErrorView,
                >(value),
                (None, Some(value)) => vault_secret(stage_id, path, sources) == Ok::<
                    Seq<char>,
                    ErrorView,
                >(value),
                (None, None) => vault_secret(stage_id, path, sources) matches Err(e) && e.code
                    == "provider_secret_not_found"@,
            }
        }),
{
}

/// Of two sides of a mapping of which neither is a path, or both are, the left one
/// is the secret and the right one the variable.
pub proof fn undecided_mappings_name_secret_first(left: Seq<char>, right: Seq<char>)
    requires
        trimmed(left).contains('/') == trimmed(right).contains('/'),
    ensures
        secret_mapping(left, right) == (right, left),
{
    if secret_ref_like(left) && env_key_like(left) {
        let t = trimmed(left);
        let i = choose|i: int| 0 <= i < t.len() && t[i] == '/';
        assert(i == 0 || i >= 1);
        assert(t[i] == '/');
    }
    if secret_ref_like(right) && env_key_like(right) {
        let t = trimmed(right);
        let i = choose|i: int| 0 <= i < t.len() && t[i] == '/';
        assert(t[i] == '/');
    }
}

/// A side of a mapping that is a path is the secret where the other is none.
pub proof fn paths_are_secrets(variable: Seq<char>, path: Seq<char>)
    requires
        trimmed(path).contains('/'),
        !trimmed(variable).contains('/'),
    ensures
        secret_mapping(variable, path) == (variable, path),
        secret_mapping(path, variable) == (variable, path),
{
    if env_key_like(path) {
        let t = trimmed(path);
        let i = choose|i: int| 0 <= i < t.len() && t[i] == '/';
        assert(t[i] == '/');
    }
}

// ---------------------------------------------------------------- prompts

/// The context of two lists of files is that of the one followed by that of the
/// other: files stand in their order, and none goes.
pub proof fn context_of_two(
    p: Seq<(Seq<char>, Option<Seq<char>>)>,
    q: Seq<(Seq<char>, Option<Seq<char>>)>,
)
    ensures
        context_text(p + q) == context_text(p) + context_text(q),
    decreases q.len(),
{
    if q.len() == 0 {
        assert(p + q =~= p);
        assert(context_text(p) + Seq::<char>::empty() =~= context_text(p));
    } else {
        assert((p + q).drop_last() =~= p + q.drop_last());
        assert((p + q).last() == q.last());
        context_of_two(p, q.drop_last());
        assert(context_text(p + q) =~= context_text(p) + context_text(q));
    }
}

/// A file that could be read stands under its path; one that could not be read is
/// left out.
pub proof fn context_of_one(path: Seq<char>, content: Seq<char>)
    ensures
        context_text(seq![(path, Some(content))]) == "## "@ + path + "\n"@ + content + "\n\n"@,
        context_text(seq![(path, None::<Seq<char>>)]) == Seq::<char>::empty(),
        context_text(Seq::empty()) == Seq::<char>::empty(),
{
    let one = seq![(path, Some(content))];
    assert(one.drop_last() =~= Seq::<(Seq<char>, Option<Seq<char>>)>::empty());
    assert(context_text(one.drop_last()) =~= Seq::<char>::empty());
    assert(one.last() == (path, Some(content)));
    assert(Seq::<char>::empty() + "## "@ =~= "## "@);
    assert(context_text(one) == Seq::<char>::empty() + "## "@ + path + "\n"@ + content + "\n\n"@);
    let none = seq![(path, None::<Seq<char>>)];
    assert(none.drop_last() =~= Seq::<(Seq<char>, Option<Seq<char>>)>::empty());
}

/// Every context file that could be read stands in the context of the prompt.
pub proof fn read_files_stand_in_context(
    files: Seq<(Seq<char>, Option<Seq<char>>)>,
    i: int,
)
    requires
        0 <= i < files.len(),
        files[i].1 matches Some(content) && content.len() > 0 && !is_space(content.last()),
    ensures
        holds_text(
            trimmed(context_text(files)),
            "## "@ + files[i].0 + "\n"@ + files[i].1->0,
        ),
{
    reveal_strlit("## ");
    reveal_strlit("\n");
    let content = files[i].1->0;
    let before = files.take(i);
    let one = seq![files[i]];
    let behind = files.skip(i + 1);
    assert(files =~= before + one + behind);
    context_of_two(before + one, behind);
    context_of_two(before, one);
    context_of_one(files[i].0, content);
    let core = "## "@ + files[i].0 + "\n"@ + content;
    let a = context_text(before);
    let b = "\n\n"@ + context_text(behind);
    assert(context_text(files) =~= a + core + b);
    assert(core[0] == '#');
    assert(core.last() == content.last());
    core_survives_trimming(a, core, b);
}

/// A system text stands before the prompt, in its tags; without one the prompt
/// stands alone.
pub proof fn system_text_leads(
    stage: StageView,
    system: Seq<char>,
    vars: Texts,
    outputs: Texts,
    context: Seq<char>,
)
    ensures
        prompt_text((StageView { system: Some(system), ..stage }), vars, outputs, context)
            == "<system>\n"@ + substituted(system, vars, outputs) + "\n</system>\n\n"@
            + prompt_text((StageView { system: None, ..stage }), vars, outputs, context),
        prompt_text(
            (StageView { system: None, context: Seq::empty(), ..stage }),
            vars,
            outputs,
            context,
        ) == match stage.do_prompt {
            Some(text) => substituted(text, vars, outputs),
            None => Seq::empty(),
        },
{
    let with = StageView { system: Some(system), ..stage };
    let without = StageView { system: None, ..stage };
    assert(prompt_text(with, vars, outputs, context) =~= "<system>\n"@ + substituted(
        system,
        vars,
        outputs,
    ) + "\n</system>\n\n"@ + prompt_text(without, vars, outputs, context));
}

/// The context stands behind the prompt, in its tags, where the stage names files
/// and one could be read.
pub proof fn context_follows(
    stage: StageView,
    vars: Texts,
    outputs: Texts,
    context: Seq<char>,
)
    ensures
        stage.context.len() > 0 && context.len() > 0 ==> prompt_text(stage, vars, outputs, context)
            == prompt_text(stage, vars, outputs, Seq::empty()) + "\n\n<context>\n"@ + context
            + "\n</context>"@,
        stage.context.len() == 0 ==> prompt_text(stage, vars, outputs, context) == prompt_text(
            stage,
            vars,
            outputs,
            Seq::empty(),
        ),
{
}

// ---------------------------------------------------------------- adapters

/// The adapter that a stage names is asked, else the environment's, else the
/// default of the catalog; a blank name is none.
pub proof fn nearest_adapter_is_chosen(
    stage: StageView,
    catalog: Option<CatalogView>,
    env: Texts,
    name: Seq<char>,
)
    requires
        !blank(name),
    ensures
        stage.llm_adapter == Some(name) ==> chosen_adapter(stage, catalog, env) == Some(name),
        stage.llm_adapter is None && lookup(env, "ANNA_LLM_ADAPTER"@) == Some(name)
            ==> chosen_adapter(stage, catalog, env) == Some(trimmed(name)),
        stage.llm_adapter is None && lookup(env, "ANNA_LLM_ADAPTER"@) is None && (catalog matches Some(
            known,
        ) && known.default == Some(name)) ==> chosen_adapter(stage, catalog, env) == Some(name),
        stage.llm_adapter is None && lookup(env, "ANNA_LLM_ADAPTER"@) is None && catalog is None
            ==> chosen_adapter(stage, catalog, env) is None,
{
}

/// An adapter that is named must be known and have a program; where none is named,
/// none is used.
pub proof fn named_adapters_are_known(name: Seq<char>, catalog: CatalogView)
    ensures
        adapter_named(None, Some(catalog)) == Ok::<Option<AdapterView>, ErrorView>(None),
        adapter_named(Some(name), None) is Err,
        lookup(catalog.adapters, name) is None ==> adapter_named(Some(name), Some(catalog)) is Err,
        lookup(catalog.adapters, name) matches Some(adapter) ==> if blank(adapter.command) {
            adapter_named(Some(name), Some(catalog)) is Err
        } else {
            adapter_named(Some(name), Some(catalog)) == Ok::<Option<AdapterView>, ErrorView>(
                Some(adapter),
            )
        },
{
}

/// The program that asks the model is the stage's, else the adapter's, else the
/// environment's.
pub proof fn nearest_program_asks(
    stage: StageView,
    adapter: Option<AdapterView>,
    env: Texts,
    vars: Texts,
    outputs: Texts,
    program: Seq<char>,
)
    requires
        !blank(program),
    ensures
        stage.command == Some(program) ==> wrapper_of(stage, adapter, env, vars, outputs)
            == substituted(program, vars, outputs),
        stage.command is None && (adapter matches Some(known) && known.command == program)
            ==> wrapper_of(stage, adapter, env, vars, outputs) == substituted(
            program,
            vars,
            outputs,
        ),
        stage.command is None && adapter is None && lookup(env, "ANNA_LLM_WRAPPER"@) == Some(
            program,
        ) ==> wrapper_of(stage, adapter, env, vars, outputs) == trimmed(program),
        stage.command is None && adapter is None && lookup(env, "ANNA_LLM_WRAPPER"@) is None
            ==> wrapper_of(stage, adapter, env, vars, outputs) == "./tools/anna-llm-provider"@,
{
}

/// The model is the stage's, else the environment's, else the adapter's.
pub proof fn nearest_model_is_asked(
    stage: StageView,
    adapter: Option<AdapterView>,
    env: Texts,
    vars: Texts,
    outputs: Texts,
    model: Seq<char>,
)
    requires
        !blank(model),
    ensures
        stage.model == Some(model) ==> model_of(stage, adapter, env, vars, outputs) == substituted(
            model,
            vars,
            outputs,
        ),
        stage.model is None && lookup(env, "ANNA_LLM_MODEL"@) == Some(model) ==> model_of(
            stage,
            adapter,
            env,
            vars,
            outputs,
        ) == trimmed(model),
        stage.model is None && lookup(env, "ANNA_LLM_MODEL"@) is None && (adapter matches Some(
            known,
        ) && known.model == Some(model)) ==> model_of(stage, adapter, env, vars, outputs)
            == substituted(model, vars, outputs),
        stage.model is None && lookup(env, "ANNA_LLM_MODEL"@) is None && adapter is None
            ==> model_of(stage, adapter, env, vars, outputs) == "gpt-4o-mini"@,
{
}

/// The form of the answer is the stage's, else the adapter's, else text.
pub proof fn nearest_form_is_asked(
    stage: StageView,
    adapter: Option<AdapterView>,
    vars: Texts,
    outputs: Texts,
    form: Seq<char>,
)
    requires
        !blank(form),
    ensures
        stage.parse == Some(form) ==> format_of(stage, adapter, vars, outputs) == substituted(
            form,
            vars,
            outputs,
        ),
        stage.parse is None && (adapter matches Some(known) && known.parse == Some(form))
            ==> format_of(stage, adapter, vars, outputs) == substituted(form, vars, outputs),
        stage.parse is None && adapter is None ==> format_of(stage, adapter, vars, outputs)
            == "text"@,
{
}

/// The program gets the adapter's arguments, then the stage's, then the model and
/// the form of the answer.
pub proof fn model_and_form_are_passed(
    stage: StageView,
    adapter: AdapterView,
    model: Seq<char>,
    form: Seq<char>,
    vars: Texts,
    outputs: Texts,
)
    ensures
        ({
            let args = llm_args(stage, Some(adapter), model, form, vars, outputs);
            let n = adapter.args.len() as int;
            let m = stage.args.len() as int;
            &&& args.len() == n + m + 4
            &&& forall|i: int|
                0 <= i < n ==> #[trigger] args[i] == substituted(adapter.args[i], vars, outputs)
            &&& forall|i: int|
                0 <= i < m ==> #[trigger] args[n + i] == substituted(stage.args[i], vars, outputs)
            &&& args[n + m] == "--model"@
            &&& args[n + m + 1] == model
            &&& args[n + m + 2] == "--format"@
            &&& args[n + m + 3] == form
        }),
{
}

/// The program is told the name of its adapter, unless a variable of the stage says
/// otherwise.
pub proof fn adapter_name_is_told(
    stage: StageView,
    name: Seq<char>,
    vars: Texts,
    outputs: Texts,
)
    requires
        !blank(name),
    ensures
        ({
            let env = llm_env(stage, Some(name), None, vars, outputs);
            &&& lookup(stage.env, "ANNA_LLM_ADAPTER"@) is None ==> lookup(
                env,
                "ANNA_LLM_ADAPTER"@,
            ) == Some(name)
            &&& lookup(stage.env, "ANNA_LLM_ADAPTER"@) is Some ==> env == stage.env
            &&& llm_env(stage, None, None, vars, outputs) == stage.env
        }),
{
    put_spec(stage.env, "ANNA_LLM_ADAPTER"@, name);
}

// ---------------------------------------------------------------- variables

/// The variables of a command are made with those of the workflow once these are
/// resolved; what cannot be resolved is told.
pub proof fn workflow_variables_are_resolved(
    stage: StageView,
    workflow: WorkflowView,
    vars: Seq<(Seq<char>, Seq<char>)>,
    outputs: Seq<(Seq<char>, Seq<char>)>,
    sources: SourcesView,
)
    ensures
        resolved_env(stage.id, workflow.env, sources) matches Err(why) ==> command_variables_from(
            stage,
            workflow,
            vars,
            outputs,
            sources,
        ) == Err::<Seq<(Seq<char>, Seq<char>)>, ErrorView>(why),
        resolved_env(stage.id, workflow.env, sources) matches Ok(env) ==> command_variables_from(
            stage,
            workflow,
            vars,
            outputs,
            sources,
        ) == Ok::<Seq<(Seq<char>, Seq<char>)>, ErrorView>(
            command_variables(stage, workflow.name, env, vars, outputs),
        ),
{
}

/// A stage works in its own directory, else in that of its workflow.
pub proof fn stages_work_in_their_directory(
    stage: Seq<char>,
    workflow: Option<Seq<char>>,
    a: Option<Seq<char>>,
    b: Option<Seq<char>>,
)
    ensures
        working_dir(Some(stage), workflow) == Some(stage),
        working_dir(None, workflow) == workflow,
        a is Some ==> first_of(a, b) == a,
        a is None ==> first_of(a, b) == b,
{
}

/// The name of a variable is in upper case, with underscores for what is no letter and
/// no digit.
pub proof fn variables_are_named(s: Seq<char>, i: int)
    ensures
        key_chars(s).len() == s.len(),
        0 <= i < s.len() && is_alnum(s[i]) ==> key_chars(s)[i] == upper_char(s[i]),
        0 <= i < s.len() && !is_alnum(s[i]) ==> key_chars(s)[i] == '_',
{
}

// ---------------------------------------------------------------- secret files

/// Secrets lie where it is told, else below the home directory, else among temporary
/// files.
pub proof fn secrets_lie_at_home(set: Seq<char>, home: Seq<char>)
    ensures
        set.len() > 0 ==> secrets_path(Some(set), Some(home)) == set,
        set.len() == 0 && home.len() > 0 ==> secrets_path(Some(set), Some(home)) == joined_path(
            home,
            ".anna/secrets.json"@,
        ),
        home.len() > 0 ==> secrets_path(None, Some(home)) == joined_path(
            home,
            ".anna/secrets.json"@,
        ),
        secrets_path(None, None) == "/tmp/anna-secrets.json"@,
{
}

/// A store that is missing is empty; one that cannot be read is told.
pub proof fn missing_stores_are_empty(
    what: Seq<char>,
    kind: Seq<char>,
    path: Seq<char>,
    why: Seq<char>,
    text: Seq<char>,
    key: Seq<char>,
)
    ensures
        stored_texts(what, kind, path, StoreView::Missing) matches Ok(none) && none.len() == 0,
        stored_texts(what, kind, path, StoreView::Failed(why)) == Err::<
            Seq<(Seq<char>, Seq<char>)>,
            ErrorView,
        >(
            fault(
                "provider_start_failed"@,
                "failed reading "@ + what + " '"@ + path + "': "@ + why,
            ),
        ),
        text_map_read(text) matches Err(message) ==> stored_texts(
            what,
            kind,
            path,
            StoreView::Content(text),
        ) == Err::<Seq<(Seq<char>, Seq<char>)>, ErrorView>(
            fault(
                "provider_start_failed"@,
                "invalid "@ + kind + " json '"@ + path + "': "@ + message,
            ),
        ),
        text_map_read(text) matches Ok(items) ==> (stored_texts(
            what,
            kind,
            path,
            StoreView::Content(text),
        ) matches Ok(stored) && lookup(stored, key) == lookup(items, key)),
{
    if let Ok(items) = text_map_read(text) {
        last_pairs_stay(items, key);
    }
}

/// A mapping gives a variable the value of its secret; it needs a name.
pub proof fn mappings_give_secrets(
    stage_id: Seq<char>,
    mapping: (Seq<char>, Seq<char>),
    vars: Seq<(Seq<char>, Seq<char>)>,
    outputs: Seq<(Seq<char>, Seq<char>)>,
    sources: SourcesView,
    name: Seq<char>,
    secret: Seq<char>,
)
    requires
        secret_mapping(
            substituted(mapping.0, vars, outputs),
            substituted(mapping.1, vars, outputs),
        ) == (name, secret),
    ensures
        blank(name) ==> resolved_mapping(stage_id, mapping, vars, outputs, sources) == Err::<
            (Seq<char>, Seq<char>),
            ErrorView,
        >(
            fault(
                "provider_start_failed"@,
                "stage '"@ + stage_id + "' has secrets mapping with empty env key for '"@ + secret
                    + "'"@,
            ),
        ),
        !blank(name) ==> (secret_value(stage_id, secret, sources) matches Ok(value)
            ==> resolved_mapping(stage_id, mapping, vars, outputs, sources) == Ok::<
            (Seq<char>, Seq<char>),
            ErrorView,
        >((name, value))),
        !blank(name) ==> (secret_value(stage_id, secret, sources) matches Err(why)
            ==> resolved_mapping(stage_id, mapping, vars, outputs, sources) == Err::<
            (Seq<char>, Seq<char>),
            ErrorView,
        >(why)),
        secret_file(mapping, vars, outputs) == after_prefix(trimmed(secret), "file://"@),
{
}

/// The files of secrets are those that mappings name, in their order.
pub proof fn secret_files_are_named(
    mappings: Seq<(Seq<char>, Seq<char>)>,
    mapping: (Seq<char>, Seq<char>),
    vars: Seq<(Seq<char>, Seq<char>)>,
    outputs: Seq<(Seq<char>, Seq<char>)>,
    stage_id: Seq<char>,
    path: Seq<char>,
    why: Seq<char>,
)
    ensures
        secret_files_of(Seq::empty(), vars, outputs).len() == 0,
        secret_file(mapping, vars, outputs) is None ==> secret_files_of(
            mappings.push(mapping),
            vars,
            outputs,
        ) == secret_files_of(mappings, vars, outputs),
        secret_file(mapping, vars, outputs) matches Some(file) ==> secret_files_of(
            mappings.push(mapping),
            vars,
            outputs,
        ) == secret_files_of(mappings, vars, outputs).push(file),
        unread_secret(stage_id, path, why) == fault(
            "provider_secret_not_found"@,
            "stage '"@ + stage_id + "' failed reading secret file '"@ + path + "': "@ + why,
        ),
{
    assert(mappings.push(mapping).drop_last() =~= mappings);
}

// ---------------------------------------------------------------- errors of commands

/// What a failed command reports is read from the last line that it wrote.
pub proof fn last_words_are_read(stderr: Seq<char>, line: Seq<char>)
    ensures
        last_line(stderr) is None ==> stderr_code(stderr) is None && stderr_message(stderr)
            == "command failed"@,
        last_line(stderr) == Some(line) && json_read(line) is Err ==> stderr_code(stderr) is None
            && stderr_message(stderr) == line_message(line, None),
        last_line(stderr) == Some(line) ==> (json_read(line) matches Ok(value) ==> stderr_code(
            stderr,
        ) == reported_code(value) && stderr_message(stderr) == line_message(line, Some(value))),
{
}

/// An exit code is told with its sign.
pub proof fn exit_codes_are_told(code: i32)
    ensures
        code >= 0 ==> exit_text(Some(code)) == "Some("@ + decimal(code as nat) + ")"@,
        code < 0 ==> exit_text(Some(code)) == "Some("@ + ("-"@ + decimal((-code) as nat)) + ")"@,
        exit_text(None) == "None"@,
{
}

// ---------------------------------------------------------------- language models

/// A catalog is good where every adapter names a program; else the first that does not
/// is told.
pub proof fn adapters_name_programs(
    adapters: Seq<(Seq<char>, AdapterView)>,
    entry: (Seq<char>, AdapterView),
)
    ensures
        catalog_problem(Seq::empty()) is None,
        catalog_problem(adapters) is Some ==> catalog_problem(adapters.push(entry))
            == catalog_problem(adapters),
        catalog_problem(adapters) is None && blank(entry.1.command) ==> catalog_problem(
            adapters.push(entry),
        ) == Some("adapter '"@ + entry.0 + "' has empty exec"@),
        catalog_problem(adapters) is None && !blank(entry.1.command) ==> catalog_problem(
            adapters.push(entry),
        ) is None,
{
    assert(adapters.push(entry).drop_last() =~= adapters);
}

/// The files of a context are looked for in the directory of the stage, each by its
/// name once that is filled in.
pub proof fn context_files_are_found(
    context: Seq<Seq<char>>,
    workdir: Seq<char>,
    vars: Seq<(Seq<char>, Seq<char>)>,
    outputs: Seq<(Seq<char>, Seq<char>)>,
    i: int,
)
    ensures
        context_paths_of(context, Some(workdir), vars, outputs).len() == context.len(),
        0 <= i < context.len() ==> context_paths_of(context, Some(workdir), vars, outputs)[i]
            == joined_path(workdir, substituted(context[i], vars, outputs)),
        0 <= i < context.len() ==> context_paths_of(context, None, vars, outputs)[i]
            == substituted(context[i], vars, outputs),
{
}

/// A stage that asks a language model runs the adapter's program with the prompt, in a
/// form that is known.
pub proof fn models_are_asked(
    stage: StageView,
    workflow: WorkflowView,
    vars: Seq<(Seq<char>, Seq<char>)>,
    outputs: Seq<(Seq<char>, Seq<char>)>,
    prompt: Seq<char>,
    catalog: Option<CatalogView>,
    env: Seq<(Seq<char>, Seq<char>)>,
)
    ensures
        ({
            let name = chosen_adapter(stage, catalog, env);
            let adapter = adapter_named(name, catalog);
            let plan = llm_plan(stage, workflow, vars, outputs, prompt, catalog, env);
            &&& adapter is Err ==> plan == Err::<StageView, ErrorView>(adapter->Err_0)
            &&& adapter is Ok ==> {
                let form = format_of(stage, adapter->Ok_0, vars, outputs);
                &&& form != "text"@ && form != "json"@ ==> plan is Err
                &&& form == "text"@ || form == "json"@ ==> {
                    &&& plan is Ok
                    &&& plan->Ok_0.provider == "cli"@
                    &&& plan->Ok_0.stdin == Some(prompt)
                    &&& plan->Ok_0.parse == Some(form)
                    &&& plan->Ok_0.command == Some(
                        wrapper_of(stage, adapter->Ok_0, env, vars, outputs),
                    )
                    &&& plan->Ok_0.args == llm_args(
                        stage,
                        adapter->Ok_0,
                        model_of(stage, adapter->Ok_0, env, vars, outputs),
                        form,
                        vars,
                        outputs,
                    )
                    &&& plan->Ok_0.env == llm_env(stage, name, adapter->Ok_0, vars, outputs)
                    &&& plan->Ok_0.workdir == working_dir(stage.workdir, workflow.workdir)
                    &&& plan->Ok_0.id == stage.id && plan->Ok_0.timeout == stage.timeout
                }
            }
        }),
{
}

// ---------------------------------------------------------------- what is told

/// A secret that is not found is told with where it was looked for.
pub proof fn missing_secrets_are_told(
    stage_id: Seq<char>,
    path: Seq<char>,
    reference: Seq<char>,
    sources: SourcesView,
)
    ensures
        ({
            let name = "ANNA_SECRET_"@ + secret_key(path);
            lookup(sources.env, name) is None && lookup(sources.secrets, path) is None
                ==> vault_secret(stage_id, path, sources) == Err::<Seq<char>, ErrorView>(
                fault(
                    "provider_secret_not_found"@,
                    "stage '"@ + stage_id + "' missing secret '"@ + path + "' (env="@ + name
                        + " or file="@ + sources.secrets_file + ")"@,
                ),
            )
        }),
        trimmed(reference).len() == 0 ==> secret_value(stage_id, reference, sources) == Err::<
            Seq<char>,
            ErrorView,
        >(
            fault(
                "provider_start_failed"@,
                "stage '"@ + stage_id + "' has empty secret reference"@,
            ),
        ),
        trimmed(reference).len() > 0 ==> (after_prefix(trimmed(reference), "env://"@) matches Some(
            name,
        ) ==> (lookup(sources.env, name) is None ==> secret_value(stage_id, reference, sources)
            == Err::<Seq<char>, ErrorView>(
            fault(
                "provider_secret_not_found"@,
                "stage '"@ + stage_id + "' missing environment variable '"@ + name
                    + "' for secret '"@ + reference + "'"@,
            ),
        ))),
        trimmed(reference).len() > 0 && after_prefix(trimmed(reference), "env://"@) is None ==> (
        after_prefix(trimmed(reference), "file://"@) matches Some(file) ==> (lookup(
            sources.files,
            file,
        ) is None ==> secret_value(stage_id, reference, sources) == Err::<Seq<char>, ErrorView>(
            unread_secret(stage_id, file, "not read"@),
        ))),
{
}

/// A stage that names no command is told which provider asks for one.
pub proof fn missing_commands_are_told(
    stage: StageView,
    workflow: WorkflowView,
    vars: Seq<(Seq<char>, Seq<char>)>,
    outputs: Seq<(Seq<char>, Seq<char>)>,
    sources: SourcesView,
)
    requires
        stage.command is None,
    ensures
        cli_plan(stage, workflow, vars, outputs, sources) == Err::<PlanView, ErrorView>(
            fault(
                "provider_exec_failed"@,
                "stage '"@ + stage.id + "' requires 'exec' for provider=cli"@,
            ),
        ),
        shell_plan(stage, workflow, vars, outputs, sources) == Err::<PlanView, ErrorView>(
            fault(
                "provider_exec_failed"@,
                "stage '"@ + stage.id + "' is missing 'exec' command"@,
            ),
        ),
        http_plan(stage, vars, outputs) == Err::<HttpPlanView, ErrorView>(
            fault(
                "provider_exec_failed"@,
                "stage '"@ + stage.id + "' requires 'exec' for provider=http"@,
            ),
        ),
        stage.args.len() == 0 ==> k8s_plan(stage, vars, outputs) == Err::<StageView, ErrorView>(
            fault(
                "provider_exec_failed"@,
                "stage '"@ + stage.id + "' requires either 'args' or 'exec' for provider=k8s"@,
            ),
        ),
{
}

/// A line that is no request, and words that are no command, are told.
pub proof fn bad_lines_are_told(
    stage: StageView,
    vars: Seq<(Seq<char>, Seq<char>)>,
    outputs: Seq<(Seq<char>, Seq<char>)>,
    line: Seq<char>,
    rest: Seq<char>,
)
    ensures
        after_prefix(trimmed(line), "POST "@) == Some(rest) && blank(rest) ==> method_and_url(line)
            == Err::<(HttpMethod, Seq<char>), Seq<char>>("POST requires url"@),
        after_prefix(trimmed(line), "POST "@) is None && after_prefix(trimmed(line), "GET "@)
            == Some(rest) && blank(rest) ==> method_and_url(line) == Err::<
            (HttpMethod, Seq<char>),
            Seq<char>,
        >("GET requires url"@),
        after_prefix(trimmed(line), "POST "@) is None && after_prefix(trimmed(line), "GET "@)
            is None && !matches_at(trimmed(line), "http://"@, 0) && !matches_at(
            trimmed(line),
            "https://"@,
            0,
        ) ==> method_and_url(line) == Err::<(HttpMethod, Seq<char>), Seq<char>>(
            "exec must be URL or 'POST <url>'"@,
        ),
        stage.command == Some(line) ==> (method_and_url(substituted(line, vars, outputs))
            matches Err(why) ==> http_plan(stage, vars, outputs) == Err::<HttpPlanView, ErrorView>(
            fault(
                "provider_exec_failed"@,
                "http provider stage '"@ + stage.id + "': "@ + why,
            ),
        )),
        kubectl_stage(stage, None) == Err::<StageView, ErrorView>(
            fault(
                "provider_exec_failed"@,
                "failed to parse k8s command in stage '"@ + stage.id
                    + "': missing closing quote"@,
            ),
        ),
        kubectl_stage(stage, Some(Seq::empty())) == Err::<StageView, ErrorView>(
            fault(
                "provider_exec_failed"@,
                "stage '"@ + stage.id + "' has empty kubectl arguments"@,
            ),
        ),
{
}

/// A failed command is told with its stage, its code and its last words; an output that
/// has no known form is told too.
pub proof fn failed_commands_are_told(
    stage: StageView,
    code: Option<i32>,
    stdout: Seq<char>,
    stderr: Seq<char>,
    stage_id: Seq<char>,
    mode: Seq<char>,
    message: Seq<char>,
)
    ensures
        cli_result(stage, false, code, stdout, stderr) == Err::<Seq<char>, ErrorView>(
            fault(
                exit_code_name(code, stderr_code(trimmed(stderr))),
                "cli command failed in stage '"@ + stage.id + "' (exit "@ + exit_text(code)
                    + "): "@ + stderr_message(trimmed(stderr)),
            ),
        ),
        parsed_output(stage_id, "json"@, stdout, Err(message)) == Err::<Seq<char>, ErrorView>(
            fault(
                "provider_invalid_response"@,
                "invalid json from cli provider in stage '"@ + stage_id + "': "@ + message,
            ),
        ),
        mode != "text"@ && mode != "json"@ ==> parsed_output(
            stage_id,
            mode,
            stdout,
            Err(message),
        ) == Err::<Seq<char>, ErrorView>(
            fault(
                "provider_invalid_response"@,
                "unsupported parse mode '"@ + mode + "' in stage '"@ + stage_id
                    + "', expected text|json"@,
            ),
        ),
{
    reveal_strlit("text");
    reveal_strlit("json");
    assert("text"@[0] == 't' && "json"@[0] == 'j');
}

/// An adapter that cannot be used is told by its name.
pub proof fn bad_adapters_are_told(
    stage: StageView,
    workflow: WorkflowView,
    vars: Seq<(Seq<char>, Seq<char>)>,
    outputs: Seq<(Seq<char>, Seq<char>)>,
    prompt: Seq<char>,
    name: Seq<char>,
    catalog: CatalogView,
    env: Seq<(Seq<char>, Seq<char>)>,
)
    ensures
        adapter_named(Some(name), None) == Err::<Option<AdapterView>, ErrorView>(
            fault(
                "provider_start_failed"@,
                "llm adapter '"@ + name + "' requested but ANNA_LLM_ADAPTERS_FILE is not set"@,
            ),
        ),
        lookup(catalog.adapters, name) is None ==> adapter_named(Some(name), Some(catalog))
            == Err::<Option<AdapterView>, ErrorView>(
            fault("provider_start_failed"@, "unknown llm adapter '"@ + name + "'"@),
        ),
        lookup(catalog.adapters, name) matches Some(adapter) ==> (blank(adapter.command)
            ==> adapter_named(Some(name), Some(catalog)) == Err::<Option<AdapterView>, ErrorView>(
            fault("provider_start_failed"@, "llm adapter '"@ + name + "' has empty exec"@),
        )),
        adapter_named(chosen_adapter(stage, Some(catalog), env), Some(catalog)) matches Ok(adapter)
            ==> ({
            let form = format_of(stage, adapter, vars, outputs);
            form != "text"@ && form != "json"@ ==> llm_plan(
                stage,
                workflow,
                vars,
                outputs,
                prompt,
                Some(catalog),
                env,
            ) == Err::<StageView, ErrorView>(
                fault(
                    "provider_invalid_response"@,
                    "invalid parse mode '"@ + form + "' for llm stage '"@ + stage.id
                        + "', expected text|json"@,
                ),
            )
        }),
{
}

/// What can name a variable starts with a letter or an underscore, and has nothing but
/// letters, digits and underscores; what can name a secret has a slash.
pub proof fn variables_look_like_names(value: Seq<char>, first: char, i: int)
    ensures
        blank(value) ==> !env_key_like(value),
        ({
            let t = trimmed(value);
            let opens = !blank(value) && (('A' <= t[0] && t[0] <= 'Z') || ('a' <= t[0] && t[0]
                <= 'z') || t[0] == '_');
            &&& env_key_like(value) ==> opens
            &&& env_key_like(value) && 1 <= i < t.len() ==> (('A' <= t[i] && t[i] <= 'Z') || ('a'
                <= t[i] && t[i] <= 'z') || ('0' <= t[i] && t[i] <= '9') || t[i] == '_')
            &&& opens && t.len() == 1 ==> env_key_like(value)
            &&& opens && (forall|k: int|
                1 <= k < t.len() ==> is_alnum(#[trigger] t[k]) || t[k] == '_') ==> env_key_like(
                value,
            )
        }),
        secret_ref_like(value) <==> trimmed(value).contains('/'),
{
}

} // verus!
