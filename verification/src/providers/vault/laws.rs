//! What holds of secrets that are read and written, in a file or on a server.
use crate::expr::substituted;
use crate::json::laws::{holds, members_of};
use crate::json::{json_normal, json_text, json_texts, text_member, text_or_null, JsonView};
use crate::number::{decimal, number_value};
use crate::order::sorted_texts;
use crate::paths::joined_path;
use crate::providers::llm::set_in;
use crate::providers::vault::{
    allows, command_in, command_tokens, key_in, listed, normal_key, prefix_in, refusal, render_mode,
    result_json, result_text, store_result, tokens_from, value_in, vault_plan, vault_settings,
    CommandView, OpView, RenderMode, VaultPlanView,
};
use crate::providers::vault_config::{
    allowed_prefixes, auth_config, backend_named, default_kv_file, http_config, kv_version_of,
    section_value, setting, slashless, truthy, vault_config_of, AuthView, ConfigView,
    HttpConfigView, SettingsView, VaultBackend,
};
use crate::providers::vault_exchange::{
    call_name, command_outcome, command_send, first_send, step_after, SendView, VaultCall,
    VaultStepView,
};
use crate::providers::vault_http::{
    below, delete_outcome, get_from, get_outcome, key_url, keys_from, list_from, list_outcome,
    list_url, login_outcome, login_token_from, login_token_in, login_view, namespace_of, put_body,
    put_outcome, strings_in, value_from, RequestView, VaultMethod,
};
use crate::providers::{fault, rendered_all, rendered_opt, ErrorView, SourcesView};
use crate::strmap::lookup;
use crate::text::{
    blank, joined, list_items, lowered, matches_at, trim_by, trim_end_by, trim_start_by, trimmed,
    CharSet,
};
use crate::workflow::{StageView, WorkflowView};
use vstd::prelude::*;

verus! {

// ---------------------------------------------------------------- settings

/// A setting of the stage goes before that of the workflow, and that before one of the
/// environment; a blank one does not count.
pub proof fn nearest_setting_counts(settings: SettingsView, key: Seq<char>)
    ensures
        ({
            let own = section_value(settings.stage_env, key, settings.vars, settings.outputs);
            let flow = section_value(settings.workflow_env, key, settings.vars, settings.outputs);
            &&& own is Some ==> setting(settings, key) == own
            &&& own is None && flow is Some ==> setting(settings, key) == flow
            &&& own is None && flow is None ==> setting(settings, key) == set_in(settings.env, key)
        }),
{
}

/// A setting is filled in and loses the blanks round it.
pub proof fn settings_are_filled_in(
    section: Seq<(Seq<char>, Seq<char>)>,
    key: Seq<char>,
    vars: Seq<(Seq<char>, Seq<char>)>,
    outputs: Seq<(Seq<char>, Seq<char>)>,
)
    ensures
        lookup(section, key) is None ==> section_value(section, key, vars, outputs) is None,
        lookup(section, key) matches Some(text) ==> (if blank(substituted(text, vars, outputs)) {
            section_value(section, key, vars, outputs) is None
        } else {
            section_value(section, key, vars, outputs) == Some(
                trimmed(substituted(text, vars, outputs)),
            )
        }),
{
}

/// Four words say yes, in any case, and no other does.
pub proof fn four_words_say_yes(value: Seq<char>)
    ensures
        truthy(value) <==> {
            ||| lowered(trimmed(value)) == "1"@
            ||| lowered(trimmed(value)) == "true"@
            ||| lowered(trimmed(value)) == "yes"@
            ||| lowered(trimmed(value)) == "on"@
        },
{
}

/// Secrets lie in a file unless a server is named, by one of three names.
pub proof fn backends_have_names(raw: Seq<char>, stage_id: Seq<char>)
    ensures
        ({
            let name = lowered(trimmed(raw));
            &&& name == "file"@ || name == ""@ ==> backend_named(raw, stage_id) == Ok::<
                VaultBackend,
                ErrorView,
            >(VaultBackend::File)
            &&& name == "http"@ || name == "vault"@ || name == "openbao"@ ==> backend_named(
                raw,
                stage_id,
            ) == Ok::<VaultBackend, ErrorView>(VaultBackend::Http)
            &&& name != "file"@ && name != ""@ && name != "http"@ && name != "vault"@ && name
                != "openbao"@ ==> backend_named(raw, stage_id) == Err::<VaultBackend, ErrorView>(
                fault(
                    "provider_start_failed"@,
                    "unsupported ANNA_VAULT_BACKEND '"@ + name + "' in stage '"@ + stage_id
                        + "', expected file|http|vault|openbao"@,
                ),
            )
        }),
{
    reveal_strlit("file");
    reveal_strlit("");
    reveal_strlit("http");
    reveal_strlit("vault");
    reveal_strlit("openbao");
    assert("file"@.len() == 4 && ""@.len() == 0 && "http"@.len() == 4);
    assert("vault"@.len() == 5 && "openbao"@.len() == 7);
    assert("http"@[0] == 'h' && "file"@[0] == 'f');
}

/// A path loses the slashes round it, and must not be empty then.
pub proof fn slashes_go(
    settings: SettingsView,
    key: Seq<char>,
    default_value: Seq<char>,
    complaint: Seq<char>,
)
    ensures
        ({
            let raw = match setting(settings, key) {
                Some(value) => value,
                None => default_value,
            };
            let value = trim_by(trimmed(raw), CharSet::Only('/'));
            &&& value.len() > 0 ==> slashless(settings, key, default_value, complaint) == Ok::<
                Seq<char>,
                ErrorView,
            >(value)
            &&& value.len() == 0 ==> slashless(settings, key, default_value, complaint) == Err::<
                Seq<char>,
                ErrorView,
            >(fault("provider_start_failed"@, complaint))
        }),
{
}

/// A token goes before a role; a role needs its id and its secret.
pub proof fn tokens_go_before_roles(settings: SettingsView)
    ensures
        ({
            let path = slashless(
                settings,
                "ANNA_VAULT_AUTH_PATH"@,
                "auth/approle/login"@,
                "ANNA_VAULT_AUTH_PATH cannot be empty in stage '"@ + settings.stage_id + "'"@,
            );
            let token = setting(settings, "ANNA_VAULT_TOKEN"@);
            let role = setting(settings, "ANNA_VAULT_ROLE_ID"@);
            let secret = setting(settings, "ANNA_VAULT_SECRET_ID"@);
            &&& path is Err ==> auth_config(settings) is Err
            &&& path is Ok && token is Some ==> auth_config(settings) == Ok::<AuthView, ErrorView>(
                AuthView::Token(token->0),
            )
            &&& path is Ok && token is None && role is Some && secret is Some ==> auth_config(
                settings,
            ) == Ok::<AuthView, ErrorView>(
                (AuthView::AppRole {
                    role_id: role->0,
                    secret_id: secret->0,
                    auth_path: path->Ok_0,
                }),
            )
            &&& token is None && (role is None || secret is None) ==> auth_config(settings) is Err
        }),
{
}

/// There are two versions of the store, and the second is meant where none is named.
pub proof fn two_versions_are_known(settings: SettingsView)
    ensures
        ({
            let named = setting(settings, "ANNA_VAULT_KV_VERSION"@);
            &&& named is Some && !blank(named->0) ==> {
                let n = number_value(trimmed(named->0), 255);
                &&& n is Err ==> kv_version_of(settings) is Err
                &&& n is Ok && (n->Ok_0 == 1 || n->Ok_0 == 2) ==> kv_version_of(settings) == Ok::<
                    u8,
                    ErrorView,
                >(n->Ok_0 as u8)
                &&& n is Ok && n->Ok_0 != 1 && n->Ok_0 != 2 ==> kv_version_of(settings) is Err
            }
            &&& named is None ==> kv_version_of(settings) == Ok::<u8, ErrorView>(2)
        }),
{
    reveal_strlit("2");
    crate::number::digits_are_read(Seq::empty(), '2', 255);
    assert(Seq::<char>::empty().push('2') =~= "2"@);
}

/// A server needs an address and credentials; what is set is taken.
pub proof fn servers_need_an_address(settings: SettingsView)
    ensures
        setting(settings, "ANNA_VAULT_ADDR"@) is None ==> http_config(settings) == Err::<
            HttpConfigView,
            ErrorView,
        >(
            fault(
                "provider_start_failed"@,
                "ANNA_VAULT_ADDR is required for vault http backend in stage '"@
                    + settings.stage_id + "'"@,
            ),
        ),
        auth_config(settings) is Err ==> http_config(settings) is Err,
        kv_version_of(settings) is Err ==> http_config(settings) is Err,
        http_config(settings) matches Ok(config) ==> Some(config.addr) == setting(
            settings,
            "ANNA_VAULT_ADDR"@,
        ) && Ok::<AuthView, ErrorView>(config.auth) == auth_config(settings) && Ok::<
            u8,
            ErrorView,
        >(config.kv_version) == kv_version_of(settings) && config.mount.len() > 0,
        ({
            let mount = setting(settings, "ANNA_VAULT_MOUNT"@);
            http_config(settings) matches Ok(config) ==> config.mount == trim_by(
                trimmed(
                    match mount {
                        Some(mount) => mount,
                        None => "secret"@,
                    },
                ),
                CharSet::Only('/'),
            )
        }),
{
}

/// The store lies below the home directory, and in the directory for temporary files
/// where there is none.
pub proof fn stores_lie_at_home(env: Seq<(Seq<char>, Seq<char>)>)
    ensures
        lookup(env, "HOME"@) is None ==> default_kv_file(env) == "/tmp/anna-vault-kv.json"@,
        lookup(env, "HOME"@) matches Some(home) ==> (if home.len() > 0 {
            default_kv_file(env) == joined_path(home, ".anna/vault-kv.json"@)
        } else {
            default_kv_file(env) == "/tmp/anna-vault-kv.json"@
        }),
{
}

/// Prefixes are listed between commas; without one every key is allowed.
pub proof fn prefixes_are_listed(settings: SettingsView, key: Seq<char>, prefixes: Seq<Seq<char>>)
    ensures
        ({
            let raw = setting(settings, "ANNA_VAULT_PREFIX_ALLOW"@);
            &&& raw is None ==> allowed_prefixes(settings) is None
            &&& raw is Some && list_items(raw->0, CharSet::Only(',')).len() == 0
                ==> allowed_prefixes(settings) is None
            &&& raw is Some && list_items(raw->0, CharSet::Only(',')).len() > 0
                ==> allowed_prefixes(settings) == Some(list_items(raw->0, CharSet::Only(',')))
        }),
        allows(None, key),
        allows(Some(prefixes), key) <==> exists|i: int|
            0 <= i < prefixes.len() && matches_at(key, #[trigger] prefixes[i], 0),
{
}

/// The settings decide where secrets lie, which of them may be named and whether they
/// may be written.
pub proof fn settings_make_the_vault(settings: SettingsView)
    ensures
        vault_config_of(settings) matches Ok(config) ==> {
            &&& config.allow_prefixes == allowed_prefixes(settings)
            &&& setting(settings, "ANNA_VAULT_KV_FILE"@) is Some ==> Some(config.kv_file)
                == setting(settings, "ANNA_VAULT_KV_FILE"@)
            &&& setting(settings, "ANNA_VAULT_KV_FILE"@) is None ==> config.kv_file
                == default_kv_file(settings.env)
            &&& setting(settings, "ANNA_VAULT_READ_ONLY"@) matches Some(value)
                ==> config.read_only == truthy(value)
            &&& setting(settings, "ANNA_VAULT_READ_ONLY"@) is None ==> !config.read_only
            &&& config.backend == VaultBackend::Http ==> (http_config(settings) matches Ok(http)
                && config.http == Some(http))
            &&& setting(settings, "ANNA_VAULT_BACKEND"@) is None ==> config.backend
                == VaultBackend::File
        },
        setting(settings, "ANNA_VAULT_BACKEND"@) matches Some(name) ==> (backend_named(
            name,
            settings.stage_id,
        ) matches Ok(backend) ==> match backend {
            VaultBackend::File => vault_config_of(settings) is Ok,
            VaultBackend::Http => vault_config_of(settings) is Ok <==> http_config(settings) is Ok,
        }),
        setting(settings, "ANNA_VAULT_BACKEND"@) is None ==> vault_config_of(settings) is Ok,
{
    reveal_strlit("file");
    assert("file"@.len() == 4);
    assert("file"@[0] == 'f' && "file"@[1] == 'i' && "file"@[2] == 'l' && "file"@[3] == 'e');
    crate::text::laws::tight_text_stays("file"@);
    assert(lowered("file"@) =~= "file"@);
    backends_have_names("file"@, settings.stage_id);
}

// ---------------------------------------------------------------- commands

/// A command is told in arguments, else in a line of words.
pub proof fn commands_are_told(
    stage: StageView,
    vars: Seq<(Seq<char>, Seq<char>)>,
    outputs: Seq<(Seq<char>, Seq<char>)>,
    stage_id: Seq<char>,
    words: Seq<Seq<char>>,
)
    ensures
        stage.args.len() > 0 ==> command_tokens(stage, vars, outputs) == Ok::<
            Seq<Seq<char>>,
            ErrorView,
        >(rendered_all(stage.args, vars, outputs)),
        stage.args.len() == 0 && stage.command is None ==> command_tokens(stage, vars, outputs)
            is Err,
        tokens_from(stage_id, None) is Err,
        words.len() == 0 ==> tokens_from(stage_id, Some(words)) is Err,
        words.len() > 0 ==> tokens_from(stage_id, Some(words)) == Ok::<Seq<Seq<char>>, ErrorView>(
            words,
        ),
{
}

/// A result is given as text or as JSON, and as text where nothing is said.
pub proof fn results_have_two_forms(
    stage: StageView,
    vars: Seq<(Seq<char>, Seq<char>)>,
    outputs: Seq<(Seq<char>, Seq<char>)>,
)
    ensures
        ({
            let said = rendered_opt(stage.parse, vars, outputs);
            &&& said is None || said == Some("text"@) ==> render_mode(stage, vars, outputs) == Ok::<
                RenderMode,
                ErrorView,
            >(RenderMode::Text)
            &&& said == Some("json"@) ==> render_mode(stage, vars, outputs) == Ok::<
                RenderMode,
                ErrorView,
            >(RenderMode::Json)
            &&& said is Some && said->0 != "text"@ && said->0 != "json"@ ==> render_mode(
                stage,
                vars,
                outputs,
            ) is Err
        }),
{
    reveal_strlit("text");
    reveal_strlit("json");
    assert("text"@[0] == 't' && "json"@[0] == 'j');
}

/// A key is the second word without blanks and slashes round it, and must be there.
pub proof fn keys_are_second_words(tokens: Seq<Seq<char>>, stage_id: Seq<char>)
    ensures
        tokens.len() < 2 ==> key_in(tokens, stage_id) is Err,
        tokens.len() >= 2 ==> {
            let key = trim_by(trimmed(tokens[1]), CharSet::Only('/'));
            &&& !blank(key) ==> key_in(tokens, stage_id) == Ok::<Seq<char>, ErrorView>(key)
            &&& blank(key) ==> key_in(tokens, stage_id) is Err
        },
        tokens.len() < 2 ==> prefix_in(tokens) is None,
        tokens.len() >= 2 && blank(tokens[1]) ==> prefix_in(tokens) is None,
        tokens.len() >= 2 && !blank(tokens[1]) ==> prefix_in(tokens) == Some(trimmed(tokens[1])),
{
}

/// A value is what stands behind the key, else what is handed in.
pub proof fn values_stand_behind_keys(
    tokens: Seq<Seq<char>>,
    stage: StageView,
    vars: Seq<(Seq<char>, Seq<char>)>,
    outputs: Seq<(Seq<char>, Seq<char>)>,
)
    ensures
        tokens.len() >= 3 ==> value_in(tokens, stage, vars, outputs) == Some(
            joined(tokens.skip(2), " "@),
        ),
        tokens.len() < 3 ==> value_in(tokens, stage, vars, outputs) == rendered_opt(
            stage.stdin,
            vars,
            outputs,
        ),
{
}

/// The first word names the command, in any case; each has its names.
#[verifier::rlimit(40)]
pub proof fn first_words_name_commands(
    tokens: Seq<Seq<char>>,
    stage: StageView,
    vars: Seq<(Seq<char>, Seq<char>)>,
    outputs: Seq<(Seq<char>, Seq<char>)>,
    key: Seq<char>,
    value: Seq<char>,
)
    requires
        tokens.len() > 0,
        key_in(tokens, stage.id) == Ok::<Seq<char>, ErrorView>(key),
    ensures
        ({
            let op = lowered(tokens[0]);
            let command = command_in(tokens, stage, vars, outputs);
            &&& op == "get"@ ==> command == Ok::<CommandView, ErrorView>(
                (CommandView::Get { key }),
            )
            &&& (op == "put"@ || op == "set"@) && value_in(tokens, stage, vars, outputs) == Some(
                value,
            ) ==> command == Ok::<CommandView, ErrorView>((CommandView::Put { key, value }))
            &&& (op == "put"@ || op == "set"@) && value_in(tokens, stage, vars, outputs) is None
                ==> command is Err
            &&& op == "delete"@ || op == "del"@ || op == "rm"@ ==> command == Ok::<
                CommandView,
                ErrorView,
            >((CommandView::Delete { key }))
            &&& op == "list"@ ==> command == Ok::<CommandView, ErrorView>(
                (CommandView::List { prefix: prefix_in(tokens) }),
            )
            &&& op != "get"@ && op != "put"@ && op != "set"@ && op != "delete"@ && op != "del"@
                && op != "rm"@ && op != "list"@ ==> command == Err::<CommandView, ErrorView>(
                fault(
                    "provider_exec_failed"@,
                    "unsupported vault operation '"@ + op + "' in stage '"@ + stage.id
                        + "'; expected get|put|delete|list"@,
                ),
            )
        }),
{
    reveal_strlit("get");
    reveal_strlit("put");
    reveal_strlit("set");
    reveal_strlit("delete");
    reveal_strlit("del");
    reveal_strlit("rm");
    reveal_strlit("list");
    assert("get"@.len() == 3 && "put"@.len() == 3 && "set"@.len() == 3 && "del"@.len() == 3);
    assert("delete"@.len() == 6 && "rm"@.len() == 2 && "list"@.len() == 4);
    assert("get"@[0] == 'g' && "put"@[0] == 'p' && "set"@[0] == 's' && "del"@[0] == 'd');
}

/// A command on a key that is not allowed is refused, and so is one that would change
/// what may only be read; nothing else is.
pub proof fn forbidden_commands_are_refused(
    allow_prefixes: Option<Seq<Seq<char>>>,
    read_only: bool,
    key: Seq<char>,
    value: Seq<char>,
    prefix: Seq<char>,
    stage_id: Seq<char>,
)
    ensures
        refusal(allow_prefixes, read_only, (CommandView::Get { key }), stage_id) is None <==> allows(
            allow_prefixes,
            key,
        ),
        refusal(allow_prefixes, read_only, (CommandView::Put { key, value }), stage_id) is None
            <==> allows(allow_prefixes, key) && !read_only,
        refusal(allow_prefixes, read_only, (CommandView::Delete { key }), stage_id) is None
            <==> allows(allow_prefixes, key) && !read_only,
        refusal(allow_prefixes, read_only, (CommandView::List { prefix: None }), stage_id) is None,
        refusal(
            allow_prefixes,
            read_only,
            (CommandView::List { prefix: Some(prefix) }),
            stage_id,
        ) is None <==> blank(prefix) || allows(allow_prefixes, prefix),
        !allows(allow_prefixes, key) ==> refusal(
            allow_prefixes,
            read_only,
            (CommandView::Get { key }),
            stage_id,
        ) == Some(
            fault(
                "provider_exec_failed"@,
                "vault key '"@ + key + "' is blocked by allowlist in stage '"@ + stage_id + "'"@,
            ),
        ),
        allows(allow_prefixes, key) && read_only ==> refusal(
            allow_prefixes,
            read_only,
            (CommandView::Put { key, value }),
            stage_id,
        ) == Some(
            fault(
                "provider_exec_failed"@,
                "vault provider is read-only in stage '"@ + stage_id + "'"@,
            ),
        ),
{
}

/// What can be read from the stage and the settings, and is not refused, is carried out.
pub proof fn good_commands_are_planned(
    stage: StageView,
    workflow: WorkflowView,
    vars: Seq<(Seq<char>, Seq<char>)>,
    outputs: Seq<(Seq<char>, Seq<char>)>,
    sources: SourcesView,
    tokens: Seq<Seq<char>>,
    settings: SettingsView,
    config: ConfigView,
    command: CommandView,
)
    requires
        command_tokens(stage, vars, outputs) == Ok::<Seq<Seq<char>>, ErrorView>(tokens),
        render_mode(stage, vars, outputs) is Ok,
        vault_settings(stage, workflow, vars, outputs, sources) == Ok::<SettingsView, ErrorView>(
            settings,
        ),
        vault_config_of(settings) == Ok::<ConfigView, ErrorView>(config),
        command_in(tokens, stage, vars, outputs) == Ok::<CommandView, ErrorView>(command),
    ensures
        settings.stage_env == stage.env && settings.env == sources.env && settings.vars == vars
            && settings.outputs == outputs && settings.stage_id == stage.id,
        refusal(config.allow_prefixes, config.read_only, command, stage.id) matches Some(why)
            ==> vault_plan(stage, workflow, vars, outputs, sources) == Err::<
            VaultPlanView,
            ErrorView,
        >(why),
        refusal(config.allow_prefixes, config.read_only, command, stage.id) is None ==> (
        vault_plan(stage, workflow, vars, outputs, sources) matches Ok(plan) && plan.config
            == config && plan.command == command && Ok::<RenderMode, ErrorView>(plan.mode)
            == render_mode(stage, vars, outputs)),
{
}

/// A result tells what was done and on which key; as text it is the value, the keys line
/// by line, or a word.
pub proof fn results_are_told(
    key: Seq<char>,
    value: Seq<char>,
    deleted: bool,
    prefix: Option<Seq<char>>,
    keys: Seq<Seq<char>>,
)
    ensures
        ({
            let got = result_json(OpView::Get { key, value });
            holds(got, "key"@, JsonView::Text(key)) && holds(got, "op"@, JsonView::Text("get"@))
                && holds(got, "value"@, JsonView::Text(value))
        }),
        ({
            let put = result_json(OpView::Put { key });
            holds(put, "key"@, JsonView::Text(key)) && holds(put, "op"@, JsonView::Text("put"@))
                && holds(put, "status"@, JsonView::Text("ok"@))
        }),
        ({
            let gone = result_json(OpView::Delete { key, deleted });
            holds(gone, "key"@, JsonView::Text(key)) && holds(
                gone,
                "op"@,
                JsonView::Text("delete"@),
            ) && holds(gone, "deleted"@, JsonView::Bool(deleted))
        }),
        ({
            let all = result_json(OpView::List { prefix, keys });
            holds(all, "keys"@, JsonView::Array(json_texts(keys))) && holds(
                all,
                "op"@,
                JsonView::Text("list"@),
            ) && holds(all, "prefix"@, text_or_null(prefix))
        }),
        result_text((OpView::Get { key, value }), RenderMode::Text) == value,
        result_text((OpView::Put { key }), RenderMode::Text) == "ok"@,
        result_text((OpView::Delete { key, deleted }), RenderMode::Text) == "ok"@,
        result_text((OpView::List { prefix, keys }), RenderMode::Text) == joined(keys, "\n"@),
        result_text((OpView::Get { key, value }), RenderMode::Json) == json_text(
            json_normal(result_json(OpView::Get { key, value })),
        ),
{
    let got = members_of(result_json(OpView::Get { key, value }));
    assert(got[0].0 == "key"@);
    assert(got[1].0 == "op"@);
    assert(got[2].0 == "value"@);
    let put = members_of(result_json(OpView::Put { key }));
    assert(put[0].0 == "key"@);
    assert(put[1].0 == "op"@);
    assert(put[2].0 == "status"@);
    let gone = members_of(result_json(OpView::Delete { key, deleted }));
    assert(gone[0].0 == "deleted"@);
    assert(gone[1].0 == "key"@);
    assert(gone[2].0 == "op"@);
    let all = members_of(result_json(OpView::List { prefix, keys }));
    assert(all[0].0 == "keys"@);
    assert(all[1].0 == "op"@);
    assert(all[2].0 == "prefix"@);
}

// ---------------------------------------------------------------- server

/// Keys and lists have their addresses, below the mount and by the version of the store.
pub proof fn secrets_have_addresses(
    config: HttpConfigView,
    key: Seq<char>,
    path: Seq<char>,
    prefix: Seq<char>,
)
    ensures
        below(config.addr, path) == trim_end_by(config.addr, CharSet::Only('/')) + "/"@
            + trim_start_by(path, CharSet::Only('/')),
        config.kv_version == 2 ==> key_url(config, key) == below(
            config.addr,
            "v1/"@ + config.mount + "/data/"@ + normal_key(key),
        ),
        config.kv_version == 1 ==> key_url(config, key) == below(
            config.addr,
            "v1/"@ + config.mount + "/"@ + normal_key(key),
        ),
        config.kv_version == 2 ==> list_url(config, None) == below(
            config.addr,
            "v1/"@ + config.mount + "/metadata"@,
        ),
        config.kv_version == 1 ==> list_url(config, None) == below(
            config.addr,
            "v1/"@ + config.mount,
        ),
        config.kv_version == 2 && normal_key(prefix).len() > 0 ==> list_url(config, Some(prefix))
            == below(config.addr, "v1/"@ + config.mount + "/metadata/"@ + normal_key(prefix)),
        config.kv_version == 1 && normal_key(prefix).len() > 0 ==> list_url(config, Some(prefix))
            == below(config.addr, "v1/"@ + config.mount + "/"@ + normal_key(prefix)),
        normal_key(prefix).len() == 0 ==> list_url(config, Some(prefix)) == list_url(config, None),
{
}

/// A role logs in with its id and its secret, a token does not; a namespace is named
/// where there is one.
pub proof fn roles_log_in(config: HttpConfigView)
    ensures
        config.namespace is None ==> namespace_of(config) is None,
        config.namespace matches Some(name) ==> (if blank(name) {
            namespace_of(config) is None
        } else {
            namespace_of(config) == Some(name)
        }),
        config.auth is Token ==> login_view(config) is None,
        config.auth matches AuthView::AppRole { role_id, secret_id, auth_path } ==> (login_view(
            config,
        ) matches Some(request) && request.method == VaultMethod::Post && request.token is None
            && request.namespace == namespace_of(config) && request.url == below(
            config.addr,
            "v1/"@ + auth_path,
        ) && (request.body matches Some(body) && holds(body, "role_id"@, JsonView::Text(role_id))
            && holds(body, "secret_id"@, JsonView::Text(secret_id)))),
{
    if let Some(request) = login_view(config) {
        if let Some(body) = request.body {
            assert(members_of(body)[0].0 == "role_id"@);
            assert(members_of(body)[1].0 == "secret_id"@);
        }
    }
}

/// What is written under a key can be read there, in either version of the store.
pub proof fn written_values_are_read(kv_version: u8, value: Seq<char>)
    ensures
        kv_version == 2 ==> value_from(
            JsonView::Object(seq![("data"@, put_body(kv_version, value))]),
            kv_version,
        ) == Some(value),
        kv_version == 1 ==> value_from(
            JsonView::Object(seq![("data"@, put_body(kv_version, value))]),
            kv_version,
        ) == Some(value),
{
    reveal_with_fuel(crate::strmap::lookup, 3);
    let plain = JsonView::Object(seq![("value"@, JsonView::Text(value))]);
    assert(plain.member("value"@) == Some(JsonView::Text(value)));
    let held = JsonView::Object(seq![("data"@, plain)]);
    assert(held.member("data"@) == Some(plain));
    let answer = JsonView::Object(seq![("data"@, held)]);
    assert(answer.member("data"@) == Some(held));
}

/// A secret that is not there is not found; an answer gives its value.
pub proof fn answers_give_secrets(
    stage_id: Seq<char>,
    key: Seq<char>,
    kv_version: u8,
    status: u16,
    status_text: Seq<char>,
    body: Seq<char>,
    payload: JsonView,
)
    ensures
        get_outcome(stage_id, key, kv_version, 404, status_text, body) == Err::<OpView, ErrorView>(
            fault(
                "provider_secret_not_found"@,
                "vault key '"@ + key + "' not found in stage '"@ + stage_id + "'"@,
            ),
        ),
        status != 404 && !(200 <= status < 300) ==> get_outcome(
            stage_id,
            key,
            kv_version,
            status,
            status_text,
            body,
        ) == Err::<OpView, ErrorView>(
            fault(
                "provider_exec_failed"@,
                "vault get failed in stage '"@ + stage_id + "' with status "@ + status_text
                    + ": "@ + body,
            ),
        ),
        200 <= status < 300 ==> get_outcome(stage_id, key, kv_version, status, status_text, body)
            == get_from(stage_id, key, kv_version, crate::json::json_read(body)),
        value_from(payload, kv_version) matches Some(value) ==> get_from(
            stage_id,
            key,
            kv_version,
            Ok(payload),
        ) == Ok::<OpView, ErrorView>((OpView::Get { key, value })),
        value_from(payload, kv_version) is None ==> get_from(
            stage_id,
            key,
            kv_version,
            Ok(payload),
        ) is Err,
        get_from(stage_id, key, kv_version, Err(body)) is Err,
{
}

/// A write succeeds or fails; what is not there need not be deleted, and lists nothing.
pub proof fn absent_secrets_are_gone(
    stage_id: Seq<char>,
    key: Seq<char>,
    prefix: Option<Seq<char>>,
    status: u16,
    status_text: Seq<char>,
    body: Seq<char>,
)
    ensures
        put_outcome(stage_id, key, status, status_text, body) is Ok <==> 200 <= status < 300,
        200 <= status < 300 ==> put_outcome(stage_id, key, status, status_text, body) == Ok::<
            OpView,
            ErrorView,
        >((OpView::Put { key })),
        delete_outcome(stage_id, key, 404, status_text, body) == Ok::<OpView, ErrorView>(
            (OpView::Delete { key, deleted: false }),
        ),
        200 <= status < 300 ==> delete_outcome(stage_id, key, status, status_text, body) == Ok::<
            OpView,
            ErrorView,
        >((OpView::Delete { key, deleted: true })),
        status != 404 && !(200 <= status < 300) ==> delete_outcome(
            stage_id,
            key,
            status,
            status_text,
            body,
        ) is Err && list_outcome(stage_id, prefix, status, status_text, body) is Err,
        list_outcome(stage_id, prefix, 404, status_text, body) matches Ok(OpView::List {
            prefix: asked,
            keys,
        }) && asked == prefix && keys.len() == 0,
{
}

/// Every key of an answer that is a text is listed, in order.
pub proof fn keys_are_listed(items: Seq<JsonView>, item: JsonView, t: Seq<char>)
    ensures
        strings_in(Seq::empty()).len() == 0,
        strings_in(items.push(JsonView::Text(t))) == strings_in(items).push(t),
        !(item is Text) ==> strings_in(items.push(item)) == strings_in(items),
{
    assert(items.push(JsonView::Text(t)).drop_last() =~= items);
    assert(items.push(item).drop_last() =~= items);
}

/// The keys of a list stand under `data`; what is no list has none.
pub proof fn lists_hold_keys(
    stage_id: Seq<char>,
    payload: JsonView,
    data: JsonView,
    items: Seq<JsonView>,
    prefix: Option<Seq<char>>,
    status: u16,
    status_text: Seq<char>,
    body: Seq<char>,
    key: Seq<char>,
)
    requires
        payload.member("data"@) == Some(data),
    ensures
        data.member("keys"@) == Some(JsonView::Array(items)) ==> keys_from(payload) == strings_in(
            items,
        ),
        data.member("keys"@) is None ==> keys_from(payload).len() == 0,
        list_from(stage_id, Ok(payload)) == Ok::<Seq<Seq<char>>, ErrorView>(keys_from(payload)),
        list_from(stage_id, Err(body)) is Err,
        200 <= status < 300 ==> (list_from(stage_id, crate::json::json_read(body)) matches Ok(keys)
            ==> (list_outcome(stage_id, prefix, status, status_text, body) matches Ok(OpView::List {
            prefix: asked,
            keys: told,
        }) && asked == prefix && told == sorted_texts(keys))),
{
}

/// The token of a login stands under `auth`, else at the top.
pub proof fn logins_give_tokens(
    stage_id: Seq<char>,
    value: JsonView,
    status: u16,
    status_text: Seq<char>,
    body: Seq<char>,
    message: Seq<char>,
)
    ensures
        ({
            let auth = value.member("auth"@);
            let nested = auth is Some && text_member(auth->0, "client_token"@) is Some;
            &&& nested ==> login_token_in(value) == text_member(auth->0, "client_token"@)
            &&& !nested ==> login_token_in(value) == text_member(value, "client_token"@)
        }),
        login_token_in(value) matches Some(token) ==> login_token_from(stage_id, Ok(value)) == Ok::<
            Seq<char>,
            ErrorView,
        >(token),
        login_token_in(value) is None ==> login_token_from(stage_id, Ok(value)) is Err,
        login_token_from(stage_id, Err(message)) is Err,
        200 <= status < 300 ==> login_outcome(stage_id, status, status_text, body)
            == login_token_from(stage_id, crate::json::json_read(body)),
        !(200 <= status < 300) ==> login_outcome(stage_id, status, status_text, body) == Err::<
            Seq<char>,
            ErrorView,
        >(
            fault(
                "provider_exec_failed"@,
                "vault AppRole login failed in stage '"@ + stage_id + "' with status "@
                    + status_text + ": "@ + body,
            ),
        ),
{
}

/// Each command is sent in its way, with the token.
pub proof fn commands_are_sent(
    config: HttpConfigView,
    token: Seq<char>,
    key: Seq<char>,
    value: Seq<char>,
    prefix: Option<Seq<char>>,
)
    ensures
        command_send(config, token, (CommandView::Get { key })) == (SendView {
            call: VaultCall::Get,
            request: RequestView {
                method: VaultMethod::Get,
                url: key_url(config, key),
                token: Some(token),
                namespace: namespace_of(config),
                body: None,
            },
        }),
        command_send(config, token, (CommandView::Put { key, value })) == (SendView {
            call: VaultCall::Put,
            request: RequestView {
                method: VaultMethod::Post,
                url: key_url(config, key),
                token: Some(token),
                namespace: namespace_of(config),
                body: Some(put_body(config.kv_version, value)),
            },
        }),
        command_send(config, token, (CommandView::Delete { key })) == (SendView {
            call: VaultCall::Delete,
            request: RequestView {
                method: VaultMethod::Delete,
                url: key_url(config, key),
                token: Some(token),
                namespace: namespace_of(config),
                body: None,
            },
        }),
        command_send(config, token, (CommandView::List { prefix })) == (SendView {
            call: VaultCall::List,
            request: RequestView {
                method: VaultMethod::List,
                url: list_url(config, prefix),
                token: Some(token),
                namespace: namespace_of(config),
                body: None,
            },
        }),
{
}

/// A role logs in first, a token goes straight on; after a login the command is sent
/// with the token that came.
pub proof fn logins_come_first(
    stage_id: Seq<char>,
    config: HttpConfigView,
    command: CommandView,
    sent: SendView,
    status: u16,
    status_text: Seq<char>,
    body: Seq<char>,
)
    ensures
        config.auth matches AuthView::Token(token) ==> first_send(config, command) == command_send(
            config,
            token,
            command,
        ),
        config.auth is AppRole ==> first_send(config, command).call == VaultCall::Login && Some(
            first_send(config, command).request,
        ) == login_view(config),
        ({
            let next = step_after(stage_id, config, command, sent, status, status_text, body);
            let login = login_outcome(stage_id, status, status_text, body);
            &&& sent.call == VaultCall::Login && login is Ok ==> next == VaultStepView::Send(
                command_send(config, login->Ok_0, command),
            )
            &&& sent.call == VaultCall::Login && login is Err ==> next == VaultStepView::Done(
                Err(login->Err_0),
            )
        }),
{
}

/// A list that the server does not take is asked for once more in the other way; any
/// other answer is the outcome.
pub proof fn lists_are_asked_twice(
    stage_id: Seq<char>,
    config: HttpConfigView,
    command: CommandView,
    sent: SendView,
    status: u16,
    status_text: Seq<char>,
    body: Seq<char>,
)
    requires
        sent.call != VaultCall::Login,
    ensures
        ({
            let next = step_after(stage_id, config, command, sent, status, status_text, body);
            let again = sent.call == VaultCall::List && (status == 400 || status == 405);
            &&& again ==> (next matches VaultStepView::Send(other) && other.call
                == VaultCall::ListFallback && other.request.method == VaultMethod::ListByGet
                && other.request.url == sent.request.url && other.request.namespace
                == sent.request.namespace && other.request.body is None)
            &&& !again ==> next == VaultStepView::Done(
                command_outcome(stage_id, config.kv_version, command, status, status_text, body),
            )
        }),
{
}

/// An answer is read as that to the command.
pub proof fn answers_fit_commands(
    stage_id: Seq<char>,
    kv_version: u8,
    key: Seq<char>,
    value: Seq<char>,
    prefix: Option<Seq<char>>,
    status: u16,
    text: Seq<char>,
    body: Seq<char>,
)
    ensures
        command_outcome(stage_id, kv_version, (CommandView::Get { key }), status, text, body)
            == get_outcome(stage_id, key, kv_version, status, text, body),
        command_outcome(
            stage_id,
            kv_version,
            (CommandView::Put { key, value }),
            status,
            text,
            body,
        ) == put_outcome(stage_id, key, status, text, body),
        command_outcome(stage_id, kv_version, (CommandView::Delete { key }), status, text, body)
            == delete_outcome(stage_id, key, status, text, body),
        command_outcome(stage_id, kv_version, (CommandView::List { prefix }), status, text, body)
            == list_outcome(stage_id, prefix, status, text, body),
        call_name(VaultCall::Login) == "AppRole login"@,
        call_name(VaultCall::Get) == "get"@,
        call_name(VaultCall::Put) == "put"@,
        call_name(VaultCall::Delete) == "delete"@,
        call_name(VaultCall::List) == "list"@,
        call_name(VaultCall::ListFallback) == "list fallback"@,
{
}

// ---------------------------------------------------------------- what is told

/// A command that cannot be read is told with its stage.
pub proof fn bad_commands_are_told(
    stage: StageView,
    vars: Seq<(Seq<char>, Seq<char>)>,
    outputs: Seq<(Seq<char>, Seq<char>)>,
    tokens: Seq<Seq<char>>,
    stage_id: Seq<char>,
    mode: Seq<char>,
)
    ensures
        tokens_from(stage_id, None) == Err::<Seq<Seq<char>>, ErrorView>(
            fault(
                "provider_exec_failed"@,
                "failed parsing vault exec in stage '"@ + stage_id + "': missing closing quote"@,
            ),
        ),
        tokens_from(stage_id, Some(Seq::empty())) == Err::<Seq<Seq<char>>, ErrorView>(
            fault(
                "provider_exec_failed"@,
                "vault command is empty in stage '"@ + stage_id + "'"@,
            ),
        ),
        stage.args.len() == 0 && stage.command is None ==> command_tokens(stage, vars, outputs)
            == Err::<Seq<Seq<char>>, ErrorView>(
            fault(
                "provider_exec_failed"@,
                "stage '"@ + stage.id + "' requires 'args' or 'exec' for provider=vault"@,
            ),
        ),
        rendered_opt(stage.parse, vars, outputs) == Some(mode) && mode != "text"@ && mode
            != "json"@ ==> render_mode(stage, vars, outputs) == Err::<RenderMode, ErrorView>(
            fault(
                "provider_invalid_response"@,
                "unsupported parse mode '"@ + mode + "' in stage '"@ + stage.id
                    + "', expected text|json"@,
            ),
        ),
        key_in(tokens, stage_id) matches Err(why) ==> why == fault(
            "provider_exec_failed"@,
            "vault operation requires key in stage '"@ + stage_id + "'"@,
        ),
        tokens.len() == 0 ==> command_in(tokens, stage, vars, outputs) is Err,
        tokens.len() > 0 && lowered(tokens[0]) == "put"@ && key_in(tokens, stage.id) is Ok
            && value_in(tokens, stage, vars, outputs) is None ==> command_in(
            tokens,
            stage,
            vars,
            outputs,
        ) == Err::<CommandView, ErrorView>(
            fault(
                "provider_exec_failed"@,
                "vault put requires value in args or stdin for stage '"@ + stage.id + "'"@,
            ),
        ),
{
    reveal_strlit("get");
    reveal_strlit("put");
    assert("get"@[0] == 'g' && "put"@[0] == 'p');
}

/// A prefix that is not allowed is told.
pub proof fn blocked_prefixes_are_told(
    allow_prefixes: Option<Seq<Seq<char>>>,
    read_only: bool,
    prefix: Seq<char>,
    stage_id: Seq<char>,
)
    ensures
        !blank(prefix) && !allows(allow_prefixes, prefix) ==> refusal(
            allow_prefixes,
            read_only,
            (CommandView::List { prefix: Some(prefix) }),
            stage_id,
        ) == Some(
            fault(
                "provider_exec_failed"@,
                "vault prefix '"@ + prefix + "' is blocked by allowlist in stage '"@ + stage_id
                    + "'"@,
            ),
        ),
{
}

/// What is wrong with the settings of a server is told with the stage.
pub proof fn bad_settings_are_told(settings: SettingsView)
    ensures
        ({
            let path = slashless(
                settings,
                "ANNA_VAULT_AUTH_PATH"@,
                "auth/approle/login"@,
                "ANNA_VAULT_AUTH_PATH cannot be empty in stage '"@ + settings.stage_id + "'"@,
            );
            let role = setting(settings, "ANNA_VAULT_ROLE_ID"@);
            let secret = setting(settings, "ANNA_VAULT_SECRET_ID"@);
            path is Ok && setting(settings, "ANNA_VAULT_TOKEN"@) is None ==> {
                &&& role is None && secret is None ==> auth_config(settings) == Err::<
                    AuthView,
                    ErrorView,
                >(
                    fault(
                        "provider_start_failed"@,
                        "vault http backend requires ANNA_VAULT_TOKEN or AppRole credentials (ANNA_VAULT_ROLE_ID + ANNA_VAULT_SECRET_ID) in stage '"@
                            + settings.stage_id + "'"@,
                    ),
                )
                &&& role is Some != secret is Some ==> auth_config(settings) == Err::<
                    AuthView,
                    ErrorView,
                >(
                    fault(
                        "provider_start_failed"@,
                        "ANNA_VAULT_ROLE_ID and ANNA_VAULT_SECRET_ID must be set together in stage '"@
                            + settings.stage_id + "'"@,
                    ),
                )
            }
        }),
        ({
            let named = setting(settings, "ANNA_VAULT_KV_VERSION"@);
            named is Some && !blank(named->0) ==> {
                let raw = trimmed(named->0);
                let n = number_value(raw, 255);
                &&& n is Err ==> kv_version_of(settings) == Err::<u8, ErrorView>(
                    fault(
                        "provider_start_failed"@,
                        "invalid ANNA_VAULT_KV_VERSION '"@ + raw + "' in stage '"@
                            + settings.stage_id + "': "@ + n->Err_0.message_text(),
                    ),
                )
                &&& n is Ok && n->Ok_0 != 1 && n->Ok_0 != 2 ==> kv_version_of(settings) == Err::<
                    u8,
                    ErrorView,
                >(
                    fault(
                        "provider_start_failed"@,
                        "unsupported ANNA_VAULT_KV_VERSION '"@ + decimal(n->Ok_0)
                            + "' in stage '"@ + settings.stage_id + "', expected 1 or 2"@,
                    ),
                )
            }
        }),
        http_config(settings) matches Ok(config) ==> ({
            let named = setting(settings, "ANNA_VAULT_NAMESPACE"@);
            &&& named is None ==> config.namespace is None
            &&& named is Some && !blank(named->0) ==> config.namespace == named
        }),
{
}

/// An answer that cannot be read, or lacks what was asked for, is told.
pub proof fn bad_answers_are_told(
    stage_id: Seq<char>,
    key: Seq<char>,
    kv_version: u8,
    prefix: Option<Seq<char>>,
    status: u16,
    status_text: Seq<char>,
    body: Seq<char>,
    value: JsonView,
    message: Seq<char>,
)
    ensures
        login_token_from(stage_id, Err(message)) == Err::<Seq<char>, ErrorView>(
            fault(
                "provider_invalid_response"@,
                "vault AppRole login returned invalid json in stage '"@ + stage_id + "': "@
                    + message,
            ),
        ),
        login_token_in(value) is None ==> login_token_from(stage_id, Ok(value)) == Err::<
            Seq<char>,
            ErrorView,
        >(
            fault(
                "provider_invalid_response"@,
                "vault AppRole login response missing auth.client_token in stage '"@ + stage_id
                    + "'"@,
            ),
        ),
        get_from(stage_id, key, kv_version, Err(message)) == Err::<OpView, ErrorView>(
            fault(
                "provider_invalid_response"@,
                "vault get returned invalid json in stage '"@ + stage_id + "': "@ + message,
            ),
        ),
        value_from(value, kv_version) is None ==> get_from(stage_id, key, kv_version, Ok(value))
            == Err::<OpView, ErrorView>(
            fault(
                "provider_invalid_response"@,
                "vault get response missing value for key '"@ + key + "' in stage '"@ + stage_id
                    + "'"@,
            ),
        ),
        list_from(stage_id, Err(message)) == Err::<Seq<Seq<char>>, ErrorView>(
            fault(
                "provider_invalid_response"@,
                "vault list returned invalid json in stage '"@ + stage_id + "': "@ + message,
            ),
        ),
        status != 404 && !(200 <= status < 300) ==> {
            &&& put_outcome(stage_id, key, status, status_text, body) == Err::<OpView, ErrorView>(
                fault(
                    "provider_exec_failed"@,
                    "vault put failed in stage '"@ + stage_id + "' with status "@ + status_text
                        + ": "@ + body,
                ),
            )
            &&& delete_outcome(stage_id, key, status, status_text, body) == Err::<
                OpView,
                ErrorView,
            >(
                fault(
                    "provider_exec_failed"@,
                    "vault delete failed in stage '"@ + stage_id + "' with status "@ + status_text
                        + ": "@ + body,
                ),
            )
            &&& list_outcome(stage_id, prefix, status, status_text, body) == Err::<
                OpView,
                ErrorView,
            >(
                fault(
                    "provider_exec_failed"@,
                    "vault list failed in stage '"@ + stage_id + "' with status "@ + status_text
                        + ": "@ + body,
                ),
            )
        },
{
}

/// A key is listed if and only if it starts with the prefix that is asked for and may be
/// named.
pub proof fn keys_are_listed_by_prefix(
    allow_prefixes: Option<Seq<Seq<char>>>,
    prefix: Seq<char>,
    key: Seq<char>,
)
    ensures
        listed(allow_prefixes, None, key) <==> allows(allow_prefixes, key),
        listed(allow_prefixes, Some(prefix), key) <==> matches_at(key, prefix, 0) && allows(
            allow_prefixes,
            key,
        ),
{
}

/// A deletion tells whether there was something to delete; a write tells its key.
pub proof fn deletions_tell_what_was_there(
    store: Seq<(Seq<char>, Seq<char>)>,
    allow_prefixes: Option<Seq<Seq<char>>>,
    key: Seq<char>,
    value: Seq<char>,
)
    ensures
        store_result(store, allow_prefixes, (CommandView::Delete { key })) == Ok::<
            OpView,
            ErrorView,
        >((OpView::Delete { key, deleted: lookup(store, key) is Some })),
        store_result(store, allow_prefixes, (CommandView::Put { key, value })) == Ok::<
            OpView,
            ErrorView,
        >((OpView::Put { key })),
{
}

} // verus!
