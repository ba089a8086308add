//! The provider that reads and writes secrets, in a file or on a vault server.
use crate::expr::{subst, substituted};
use crate::json::{
    compact_json, json_normal, json_text, json_texts, object1, text, text_array, text_map_json,
    text_or_null, with_member, Json, JsonView,
};
use crate::order::{ascending, sort_distinct, sorted_distinct, sorted_distinct_spec};
use crate::providers::env_refs::{resolve_env, resolved_env};
use crate::providers::k8s::{command_words, shell_words_of};
use crate::providers::vault_config::{
    read_config, vault_config_of, ConfigView, Settings, SettingsView, VaultConfig,
};
use crate::providers::{
    entries_outcome, fault, outcome, read_stored_texts, render_all, render_opt, rendered_all,
    rendered_opt, stored_texts, ErrorView, ProviderError, SecretSources, SourcesView, StoreRead,
    StoreView,
};
use crate::strmap::{keys_of, lookup, lookup_found, put, put_spec, without, without_spec, StrMap};
use crate::text::{
    blank, cat3, cat4, cat5, clone_opt, group_texts, is_blank, join, join_from, joined, lowered,
    matches_at, opt_text, same, starts_with, texts, to_lower, trim, trim_by, trim_text_by, trimmed,
    CharSet,
};
use crate::workflow::{Stage, StageView, Workflow, WorkflowView};
use vstd::prelude::*;
use vstd::string::*;

pub mod laws;

verus! {

/// Reads and writes secrets.
#[derive(Debug, Clone, Copy)]
pub struct VaultProvider;

#[derive(Debug, Clone, Copy, PartialEq, Eq, Structural)]
pub enum RenderMode {
    Text,
    Json,
}

pub enum VaultCommand {
    Get { key: String },
    Put { key: String, value: String },
    Delete { key: String },
    List { prefix: Option<String> },
}

/// A command, as plain values.
pub enum CommandView {
    Get { key: Seq<char> },
    Put { key: Seq<char>, value: Seq<char> },
    Delete { key: Seq<char> },
    List { prefix: Option<Seq<char>> },
}

impl View for VaultCommand {
    type V = CommandView;

    open spec fn view(&self) -> CommandView {
        match self {
            VaultCommand::Get { key } => CommandView::Get { key: key@ },
            VaultCommand::Put { key, value } => CommandView::Put { key: key@, value: value@ },
            VaultCommand::Delete { key } => CommandView::Delete { key: key@ },
            VaultCommand::List { prefix } => CommandView::List { prefix: opt_text(*prefix) },
        }
    }
}

impl CommandView {
    pub open spec fn mutating(self) -> bool {
        self is Put || self is Delete
    }
}

impl VaultCommand {
    /// Whether the command changes the store.
    pub fn is_mutating(&self) -> (r: bool)
        ensures
            r == self@.mutating(),
    {
        match self {
            VaultCommand::Put { .. } => true,
            VaultCommand::Delete { .. } => true,
            _ => false,
        }
    }
}

/// What a command brought.
pub enum VaultOpResult {
    Get { key: String, value: String },
    Put { key: String },
    Delete { key: String, deleted: bool },
    List { prefix: Option<String>, keys: Vec<String> },
}

/// What a command brought, as plain values.
pub enum OpView {
    Get { key: Seq<char>, value: Seq<char> },
    Put { key: Seq<char> },
    Delete { key: Seq<char>, deleted: bool },
    List { prefix: Option<Seq<char>>, keys: Seq<Seq<char>> },
}

impl View for VaultOpResult {
    type V = OpView;

    open spec fn view(&self) -> OpView {
        match self {
            VaultOpResult::Get { key, value } => OpView::Get { key: key@, value: value@ },
            VaultOpResult::Put { key } => OpView::Put { key: key@ },
            VaultOpResult::Delete { key, deleted } => OpView::Delete {
                key: key@,
                deleted: *deleted,
            },
            VaultOpResult::List { prefix, keys } => OpView::List {
                prefix: opt_text(*prefix),
                keys: texts(keys@),
            },
        }
    }
}

// ---------------------------------------------------------------- commands

/// The words of a vault stage once those of its `exec` are known.
pub open spec fn tokens_from(stage_id: Seq<char>, words: Option<Seq<Seq<char>>>) -> Result<
    Seq<Seq<char>>,
    ErrorView,
> {
    match words {
        None => Err(
            fault(
                "provider_exec_failed"@,
                "failed parsing vault exec in stage '"@ + stage_id + "': missing closing quote"@,
            ),
        ),
        Some(words) => if words.len() == 0 {
            Err(
                fault(
                    "provider_exec_failed"@,
                    "vault command is empty in stage '"@ + stage_id + "'"@,
                ),
            )
        } else {
            Ok(words)
        },
    }
}

/// The words of a vault stage: its arguments, or the words of its `exec`.
pub open spec fn command_tokens(
    stage: StageView,
    vars: Seq<(Seq<char>, Seq<char>)>,
    outputs: Seq<(Seq<char>, Seq<char>)>,
) -> Result<Seq<Seq<char>>, ErrorView> {
    if stage.args.len() > 0 {
        Ok(rendered_all(stage.args, vars, outputs))
    } else {
        match stage.command {
            None => Err(
                fault(
                    "provider_exec_failed"@,
                    "stage '"@ + stage.id + "' requires 'args' or 'exec' for provider=vault"@,
                ),
            ),
            Some(line) => tokens_from(
                stage.id,
                shell_words_of(trimmed(substituted(line, vars, outputs))),
            ),
        }
    }
}

pub open spec fn texts_outcome(r: Result<Vec<String>, ProviderError>) -> Result<
    Seq<Seq<char>>,
    ErrorView,
> {
    match r {
        Ok(items) => Ok(texts(items@)),
        Err(e) => Err(e@),
    }
}

/// The words of a stage from those of its `exec`.
pub fn tokens_or_error(stage_id: &str, words: Option<Vec<String>>) -> (r: Result<
    Vec<String>,
    ProviderError,
>)
    ensures
        texts_outcome(r) == tokens_from(
            stage_id@,
            match words {
                Some(words) => Some(texts(words@)),
                None => None,
            },
        ),
{
    match words {
        None => Err(
            ProviderError::new(
                "provider_exec_failed",
                cat3(
                    "failed parsing vault exec in stage '",
                    stage_id,
                    "': missing closing quote",
                ),
            ),
        ),
        Some(words) => {
            if words.len() == 0 {
                return Err(
                    ProviderError::new(
                        "provider_exec_failed",
                        cat3("vault command is empty in stage '", stage_id, "'"),
                    ),
                );
            }
            Ok(words)
        },
    }
}

/// The words of a vault stage.
pub fn parse_command_tokens(stage: &Stage, vars: &StrMap<String>, outputs: &StrMap<String>) -> (r:
    Result<Vec<String>, ProviderError>)
    ensures
        texts_outcome(r) == command_tokens(stage@, vars.entries(), outputs.entries()),
{
    if stage.args.len() > 0 {
        return Ok(render_all(&stage.args, vars, outputs));
    }
    match &stage.command {
        None => Err(
            ProviderError::new(
                "provider_exec_failed",
                cat3(
                    "stage '",
                    stage.id.as_str(),
                    "' requires 'args' or 'exec' for provider=vault",
                ),
            ),
        ),
        Some(line) => {
            let rendered = subst(line.as_str(), vars, outputs);
            let words = command_words(trim(rendered.as_str()));
            tokens_or_error(stage.id.as_str(), words)
        },
    }
}

/// The form of the result that a stage asks for.
pub open spec fn render_mode(
    stage: StageView,
    vars: Seq<(Seq<char>, Seq<char>)>,
    outputs: Seq<(Seq<char>, Seq<char>)>,
) -> Result<RenderMode, ErrorView> {
    let mode = match rendered_opt(stage.parse, vars, outputs) {
        Some(mode) => mode,
        None => "text"@,
    };
    if mode == "text"@ {
        Ok(RenderMode::Text)
    } else if mode == "json"@ {
        Ok(RenderMode::Json)
    } else {
        Err(
            fault(
                "provider_invalid_response"@,
                "unsupported parse mode '"@ + mode + "' in stage '"@ + stage.id
                    + "', expected text|json"@,
            ),
        )
    }
}

pub fn parse_render_mode(stage: &Stage, vars: &StrMap<String>, outputs: &StrMap<String>) -> (r:
    Result<RenderMode, ProviderError>)
    ensures
        match r {
            Ok(mode) => render_mode(stage@, vars.entries(), outputs.entries()) == Ok::<
                RenderMode,
                ErrorView,
            >(mode),
            Err(e) => render_mode(stage@, vars.entries(), outputs.entries()) == Err::<
                RenderMode,
                ErrorView,
            >(e@),
        },
{
    let mode = match render_opt(&stage.parse, vars, outputs) {
        Some(mode) => mode,
        None => "text".to_owned(),
    };
    if same(mode.as_str(), "text") {
        return Ok(RenderMode::Text);
    }
    if same(mode.as_str(), "json") {
        return Ok(RenderMode::Json);
    }
    Err(
        ProviderError::new(
            "provider_invalid_response",
            cat5(
                "unsupported parse mode '",
                mode.as_str(),
                "' in stage '",
                stage.id.as_str(),
                "', expected text|json",
            ),
        ),
    )
}

/// A key without blanks, then slashes, at its ends.
pub open spec fn normal_key(raw: Seq<char>) -> Seq<char> {
    trim_by(trimmed(raw), CharSet::Only('/'))
}

pub fn normalize_key(raw: &str) -> (r: String)
    ensures
        r@ == normal_key(raw@),
{
    trim_text_by(trim(raw), CharSet::Only('/')).to_owned()
}

/// The key that the words name.
pub open spec fn key_in(tokens: Seq<Seq<char>>, stage_id: Seq<char>) -> Result<
    Seq<char>,
    ErrorView,
> {
    if tokens.len() > 1 && !blank(normal_key(tokens[1])) {
        Ok(normal_key(tokens[1]))
    } else {
        Err(
            fault(
                "provider_exec_failed"@,
                "vault operation requires key in stage '"@ + stage_id + "'"@,
            ),
        )
    }
}

fn required_key(tokens: &Vec<String>, stage: &Stage) -> (r: Result<String, ProviderError>)
    ensures
        outcome(r) == key_in(texts(tokens@), stage@.id),
{
    if tokens.len() > 1 {
        let key = normalize_key(tokens[1].as_str());
        if !is_blank(key.as_str()) {
            return Ok(key);
        }
    }
    Err(
        ProviderError::new(
            "provider_exec_failed",
            cat3("vault operation requires key in stage '", stage.id.as_str(), "'"),
        ),
    )
}

/// The prefix that the words of a list command name.
pub open spec fn prefix_in(tokens: Seq<Seq<char>>) -> Option<Seq<char>> {
    if tokens.len() > 1 && !blank(tokens[1]) {
        Some(trimmed(tokens[1]))
    } else {
        None
    }
}

fn parse_list_prefix(tokens: &Vec<String>) -> (r: Option<String>)
    ensures
        opt_text(r) == prefix_in(texts(tokens@)),
{
    if tokens.len() > 1 {
        let prefix = trim(tokens[1].as_str());
        if !prefix.is_empty() {
            return Some(prefix.to_owned());
        }
    }
    None
}

/// The value of a put command: the words behind the key, else the input of the
/// stage.
pub open spec fn value_in(
    tokens: Seq<Seq<char>>,
    stage: StageView,
    vars: Seq<(Seq<char>, Seq<char>)>,
    outputs: Seq<(Seq<char>, Seq<char>)>,
) -> Option<Seq<char>> {
    if tokens.len() >= 3 {
        Some(joined(tokens.skip(2), " "@))
    } else {
        rendered_opt(stage.stdin, vars, outputs)
    }
}

fn parse_value_from_tokens_or_stdin(
    tokens: &Vec<String>,
    stage: &Stage,
    vars: &StrMap<String>,
    outputs: &StrMap<String>,
) -> (r: Option<String>)
    ensures
        opt_text(r) == value_in(texts(tokens@), stage@, vars.entries(), outputs.entries()),
{
    if tokens.len() >= 3 {
        return Some(join_from(tokens, 2, " "));
    }
    render_opt(&stage.stdin, vars, outputs)
}

/// The command that words name, or what is wrong with them.
pub open spec fn command_in(
    tokens: Seq<Seq<char>>,
    stage: StageView,
    vars: Seq<(Seq<char>, Seq<char>)>,
    outputs: Seq<(Seq<char>, Seq<char>)>,
) -> Result<CommandView, ErrorView> {
    if tokens.len() == 0 {
        Err(
            fault(
                "provider_exec_failed"@,
                "vault command is empty in stage '"@ + stage.id + "'"@,
            ),
        )
    } else {
        let op = lowered(tokens[0]);
        if op == "get"@ {
            match key_in(tokens, stage.id) {
                Ok(key) => Ok(CommandView::Get { key }),
                Err(e) => Err(e),
            }
        } else if op == "put"@ || op == "set"@ {
            match key_in(tokens, stage.id) {
                Ok(key) => match value_in(tokens, stage, vars, outputs) {
                    Some(value) => Ok(CommandView::Put { key, value }),
                    None => Err(
                        fault(
                            "provider_exec_failed"@,
                            "vault put requires value in args or stdin for stage '"@ + stage.id
                                + "'"@,
                        ),
                    ),
                },
                Err(e) => Err(e),
            }
        } else if op == "delete"@ || op == "del"@ || op == "rm"@ {
            match key_in(tokens, stage.id) {
                Ok(key) => Ok(CommandView::Delete { key }),
                Err(e) => Err(e),
            }
        } else if op == "list"@ {
            Ok(CommandView::List { prefix: prefix_in(tokens) })
        } else {
            Err(
                fault(
                    "provider_exec_failed"@,
                    "unsupported vault operation '"@ + op + "' in stage '"@ + stage.id
                        + "'; expected get|put|delete|list"@,
                ),
            )
        }
    }
}

fn parse_put_command(
    tokens: &Vec<String>,
    stage: &Stage,
    vars: &StrMap<String>,
    outputs: &StrMap<String>,
) -> (r: Result<VaultCommand, ProviderError>)
    ensures
        match key_in(texts(tokens@), stage@.id) {
            Err(e) => outcome(r) == Err::<CommandView, ErrorView>(e),
            Ok(key) => match value_in(texts(tokens@), stage@, vars.entries(), outputs.entries()) {
                Some(value) => outcome(r) == Ok::<CommandView, ErrorView>(
                    CommandView::Put { key, value },
                ),
                None => outcome(r) == Err::<CommandView, ErrorView>(
                    fault(
                        "provider_exec_failed"@,
                        "vault put requires value in args or stdin for stage '"@ + stage@.id
                            + "'"@,
                    ),
                ),
            },
        },
{
    let key = match required_key(tokens, stage) {
        Ok(key) => key,
        Err(err) => {
            return Err(err);
        },
    };
    match parse_value_from_tokens_or_stdin(tokens, stage, vars, outputs) {
        Some(value) => Ok(VaultCommand::Put { key, value }),
        None => Err(
            ProviderError::new(
                "provider_exec_failed",
                cat3(
                    "vault put requires value in args or stdin for stage '",
                    stage.id.as_str(),
                    "'",
                ),
            ),
        ),
    }
}

/// The command that words name.
pub fn parse_vault_command(
    tokens: &Vec<String>,
    stage: &Stage,
    vars: &StrMap<String>,
    outputs: &StrMap<String>,
) -> (r: Result<VaultCommand, ProviderError>)
    ensures
        outcome(r) == command_in(texts(tokens@), stage@, vars.entries(), outputs.entries()),
{
    if tokens.len() == 0 {
        return Err(
            ProviderError::new(
                "provider_exec_failed",
                cat3("vault command is empty in stage '", stage.id.as_str(), "'"),
            ),
        );
    }
    let op = to_lower(tokens[0].as_str());
    if same(op.as_str(), "get") {
        return match required_key(tokens, stage) {
            Ok(key) => Ok(VaultCommand::Get { key }),
            Err(err) => Err(err),
        };
    }
    if same(op.as_str(), "put") || same(op.as_str(), "set") {
        return parse_put_command(tokens, stage, vars, outputs);
    }
    if same(op.as_str(), "delete") || same(op.as_str(), "del") || same(op.as_str(), "rm") {
        return match required_key(tokens, stage) {
            Ok(key) => Ok(VaultCommand::Delete { key }),
            Err(err) => Err(err),
        };
    }
    if same(op.as_str(), "list") {
        return Ok(VaultCommand::List { prefix: parse_list_prefix(tokens) });
    }
    Err(
        ProviderError::new(
            "provider_exec_failed",
            cat5(
                "unsupported vault operation '",
                op.as_str(),
                "' in stage '",
                stage.id.as_str(),
                "'; expected get|put|delete|list",
            ),
        ),
    )
}

// ---------------------------------------------------------------- permission

/// Whether a key has one of the allowed prefixes, where any are set.
pub open spec fn allows(prefixes: Option<Seq<Seq<char>>>, key: Seq<char>) -> bool {
    match prefixes {
        None => true,
        Some(prefixes) => starts_with_any(prefixes, key),
    }
}

pub open spec fn starts_with_any(prefixes: Seq<Seq<char>>, key: Seq<char>) -> bool {
    exists|i: int| 0 <= i < prefixes.len() && matches_at(key, #[trigger] prefixes[i], 0)
}

pub fn key_allowed(config: &VaultConfig, key: &str) -> (r: bool)
    ensures
        r == allows(config@.allow_prefixes, key@),
{
    match &config.allow_prefixes {
        None => true,
        Some(prefixes) => {
            let ghost all = texts(prefixes@);
            let mut i: usize = 0;
            while i < prefixes.len()
                invariant
                    i <= prefixes.len(),
                    all == texts(prefixes@),
                    config@.allow_prefixes == Some(all),
                    forall|j: int| 0 <= j < i ==> !matches_at(key@, #[trigger] all[j], 0),
                decreases prefixes.len() - i,
            {
                if starts_with(key, prefixes[i].as_str()) {
                    assert(matches_at(key@, all[i as int], 0));
                    assert(starts_with_any(all, key@));
                    return true;
                }
                i += 1;
            }
            false
        },
    }
}

pub fn ensure_key_allowed(config: &VaultConfig, stage: &Stage, key: &str) -> (r: Result<
    (),
    ProviderError,
>)
    ensures
        match r {
            Ok(()) => allows(config@.allow_prefixes, key@),
            Err(e) => !allows(config@.allow_prefixes, key@) && e@ == fault(
                "provider_exec_failed"@,
                "vault key '"@ + key@ + "' is blocked by allowlist in stage '"@ + stage@.id + "'"@,
            ),
        },
{
    if key_allowed(config, key) {
        return Ok(());
    }
    Err(
        ProviderError::new(
            "provider_exec_failed",
            cat5(
                "vault key '",
                key,
                "' is blocked by allowlist in stage '",
                stage.id.as_str(),
                "'",
            ),
        ),
    )
}

/// Why a command may not run, where it may not: the allowlist comes first,
/// then whether the store is read-only.
pub open spec fn refusal(
    allow_prefixes: Option<Seq<Seq<char>>>,
    read_only: bool,
    command: CommandView,
    stage_id: Seq<char>,
) -> Option<ErrorView> {
    let blocked = match command {
        CommandView::Get { key } => !allows(allow_prefixes, key),
        CommandView::Put { key, value } => !allows(allow_prefixes, key),
        CommandView::Delete { key } => !allows(allow_prefixes, key),
        CommandView::List { prefix } => match prefix {
            Some(prefix) => !blank(prefix) && !allows(allow_prefixes, prefix),
            None => false,
        },
    };
    if blocked {
        let name = match command {
            CommandView::Get { key } => "vault key '"@ + key,
            CommandView::Put { key, value } => "vault key '"@ + key,
            CommandView::Delete { key } => "vault key '"@ + key,
            CommandView::List { prefix } => "vault prefix '"@ + prefix->0,
        };
        Some(
            fault(
                "provider_exec_failed"@,
                name + "' is blocked by allowlist in stage '"@ + stage_id + "'"@,
            ),
        )
    } else if read_only && command.mutating() {
        Some(
            fault(
                "provider_exec_failed"@,
                "vault provider is read-only in stage '"@ + stage_id + "'"@,
            ),
        )
    } else {
        None
    }
}

fn check_command(config: &VaultConfig, command: &VaultCommand, stage: &Stage) -> (r: Result<
    (),
    ProviderError,
>)
    ensures
        match r {
            Ok(()) => refusal(
                config@.allow_prefixes,
                config@.read_only,
                command@,
                stage@.id,
            ) is None,
            Err(e) => refusal(
                config@.allow_prefixes,
                config@.read_only,
                command@,
                stage@.id,
            ) == Some(e@),
        },
{
    match command {
        VaultCommand::Get { key } => {
            if let Err(err) = ensure_key_allowed(config, stage, key.as_str()) {
                return Err(err);
            }
        },
        VaultCommand::Put { key, value: _ } => {
            if let Err(err) = ensure_key_allowed(config, stage, key.as_str()) {
                return Err(err);
            }
        },
        VaultCommand::Delete { key } => {
            if let Err(err) = ensure_key_allowed(config, stage, key.as_str()) {
                return Err(err);
            }
        },
        VaultCommand::List { prefix } => {
            if let Some(prefix) = prefix {
                if !is_blank(prefix.as_str()) && !key_allowed(config, prefix.as_str()) {
                    return Err(
                        ProviderError::new(
                            "provider_exec_failed",
                            cat5(
                                "vault prefix '",
                                prefix.as_str(),
                                "' is blocked by allowlist in stage '",
                                stage.id.as_str(),
                                "'",
                            ),
                        ),
                    );
                }
            }
        },
    }
    if config.read_only && command.is_mutating() {
        return Err(
            ProviderError::new(
                "provider_exec_failed",
                cat3("vault provider is read-only in stage '", stage.id.as_str(), "'"),
            ),
        );
    }
    Ok(())
}

// ---------------------------------------------------------------- plan

/// What a vault stage does: a command that may run, on what, and how its
/// result is shown.
pub struct VaultPlan {
    pub mode: RenderMode,
    pub config: VaultConfig,
    pub command: VaultCommand,
}

pub struct VaultPlanView {
    pub mode: RenderMode,
    pub config: ConfigView,
    pub command: CommandView,
}

impl View for VaultPlan {
    type V = VaultPlanView;

    open spec fn view(&self) -> VaultPlanView {
        VaultPlanView { mode: self.mode, config: self.config@, command: self.command@ }
    }
}

/// The settings of a vault stage, where the references in the workflow's variables
/// can be resolved.
pub open spec fn vault_settings(
    stage: StageView,
    workflow: WorkflowView,
    vars: Seq<(Seq<char>, Seq<char>)>,
    outputs: Seq<(Seq<char>, Seq<char>)>,
    sources: SourcesView,
) -> Result<SettingsView, ErrorView> {
    match resolved_env(stage.id, workflow.env, sources) {
        Err(e) => Err(e),
        Ok(workflow_env) => Ok(
            SettingsView {
                stage_id: stage.id,
                stage_env: stage.env,
                workflow_env,
                vars,
                outputs,
                env: sources.env,
            },
        ),
    }
}

/// The plan of a vault stage, or the error of the first step that fails.
pub open spec fn vault_plan(
    stage: StageView,
    workflow: WorkflowView,
    vars: Seq<(Seq<char>, Seq<char>)>,
    outputs: Seq<(Seq<char>, Seq<char>)>,
    sources: SourcesView,
) -> Result<VaultPlanView, ErrorView> {
    match command_tokens(stage, vars, outputs) {
        Err(e) => Err(e),
        Ok(tokens) => match render_mode(stage, vars, outputs) {
            Err(e) => Err(e),
            Ok(mode) => match vault_settings(stage, workflow, vars, outputs, sources) {
                Err(e) => Err(e),
                Ok(settings) => match vault_config_of(settings) {
                    Err(e) => Err(e),
                    Ok(config) => match command_in(tokens, stage, vars, outputs) {
                        Err(e) => Err(e),
                        Ok(command) => match refusal(
                            config.allow_prefixes,
                            config.read_only,
                            command,
                            stage.id,
                        ) {
                            Some(e) => Err(e),
                            None => Ok(VaultPlanView { mode, config, command }),
                        },
                    },
                },
            },
        },
    }
}

impl VaultProvider {
    /// What the stage does.
    pub fn plan(
        &self,
        stage: &Stage,
        workflow: &Workflow,
        vars: &StrMap<String>,
        outputs: &StrMap<String>,
        sources: &SecretSources,
    ) -> (r: Result<VaultPlan, ProviderError>)
        ensures
            outcome(r) == vault_plan(
                stage@,
                workflow@,
                vars.entries(),
                outputs.entries(),
                sources@,
            ),
    {
        let tokens = match parse_command_tokens(stage, vars, outputs) {
            Ok(tokens) => tokens,
            Err(err) => {
                return Err(err);
            },
        };
        let mode = match parse_render_mode(stage, vars, outputs) {
            Ok(mode) => mode,
            Err(err) => {
                return Err(err);
            },
        };
        let workflow_env = match resolve_env(stage.id.as_str(), &workflow.env, sources) {
            Ok(env) => env,
            Err(err) => {
                return Err(err);
            },
        };
        let settings = Settings {
            stage_id: stage.id.as_str(),
            stage_env: &stage.env,
            workflow_env: &workflow_env,
            vars,
            outputs,
            env: &sources.env,
        };
        let config = match read_config(&settings) {
            Ok(config) => config,
            Err(err) => {
                return Err(err);
            },
        };
        let command = match parse_vault_command(&tokens, stage, vars, outputs) {
            Ok(command) => command,
            Err(err) => {
                return Err(err);
            },
        };
        if let Err(err) = check_command(&config, &command, stage) {
            return Err(err);
        }
        Ok(VaultPlan { mode, config, command })
    }
}

/// A plan never changes a read-only store.
pub proof fn read_only_is_kept(
    stage: StageView,
    workflow: WorkflowView,
    vars: Seq<(Seq<char>, Seq<char>)>,
    outputs: Seq<(Seq<char>, Seq<char>)>,
    sources: SourcesView,
)
    ensures
        vault_plan(stage, workflow, vars, outputs, sources) matches Ok(plan)
            ==> plan.config.read_only ==> !plan.command.mutating(),
{
}

/// A plan reads, writes and deletes allowed keys only.
pub proof fn allowlist_is_kept(
    stage: StageView,
    workflow: WorkflowView,
    vars: Seq<(Seq<char>, Seq<char>)>,
    outputs: Seq<(Seq<char>, Seq<char>)>,
    sources: SourcesView,
)
    ensures
        match vault_plan(stage, workflow, vars, outputs, sources) {
            Ok(plan) => match plan.command {
                CommandView::Get { key } => allows(plan.config.allow_prefixes, key),
                CommandView::Put { key, value } => allows(plan.config.allow_prefixes, key),
                CommandView::Delete { key } => allows(plan.config.allow_prefixes, key),
                CommandView::List { prefix } => true,
            },
            Err(_) => true,
        },
{
}

// ---------------------------------------------------------------- file store

/// Whether a list command shows a key.
pub open spec fn listed(
    allow_prefixes: Option<Seq<Seq<char>>>,
    prefix: Option<Seq<char>>,
    key: Seq<char>,
) -> bool {
    &&& prefix is Some ==> matches_at(key, prefix->0, 0)
    &&& allows(allow_prefixes, key)
}

/// The keys that a list command shows, in the order of the store.
pub open spec fn listed_keys(
    allow_prefixes: Option<Seq<Seq<char>>>,
    prefix: Option<Seq<char>>,
    keys: Seq<Seq<char>>,
) -> Seq<Seq<char>>
    decreases keys.len(),
{
    if keys.len() == 0 {
        Seq::empty()
    } else {
        let before = listed_keys(allow_prefixes, prefix, keys.drop_last());
        if listed(allow_prefixes, prefix, keys.last()) {
            before.push(keys.last())
        } else {
            before
        }
    }
}

/// What a command does to the store.
pub open spec fn store_after(
    store: Seq<(Seq<char>, Seq<char>)>,
    command: CommandView,
) -> Seq<(Seq<char>, Seq<char>)> {
    match command {
        CommandView::Get { key } => store,
        CommandView::Put { key, value } => put(store, key, value),
        CommandView::Delete { key } => without(store, key),
        CommandView::List { prefix } => store,
    }
}

/// What a command on the store brings.
pub open spec fn store_result(
    store: Seq<(Seq<char>, Seq<char>)>,
    allow_prefixes: Option<Seq<Seq<char>>>,
    command: CommandView,
) -> Result<OpView, ErrorView> {
    match command {
        CommandView::Get { key } => match lookup(store, key) {
            Some(value) => Ok(OpView::Get { key, value }),
            None => Err(
                fault("provider_secret_not_found"@, "vault key '"@ + key + "' not found"@),
            ),
        },
        CommandView::Put { key, value } => Ok(OpView::Put { key }),
        CommandView::Delete { key } => Ok(
            OpView::Delete { key, deleted: lookup(store, key) is Some },
        ),
        CommandView::List { prefix } => Ok(
            OpView::List {
                prefix,
                keys: sorted_distinct(listed_keys(allow_prefixes, prefix, keys_of(store))),
            },
        ),
    }
}

fn list_keys(config: &VaultConfig, store: &StrMap<String>, prefix: &Option<String>) -> (r: Vec<
    String,
>)
    ensures
        texts(r@) == sorted_distinct(
            listed_keys(config@.allow_prefixes, opt_text(*prefix), keys_of(store.entries())),
        ),
{
    broadcast use group_texts;

    let mut keys: Vec<String> = Vec::new();
    let n: usize = store.len();
    let ghost all = keys_of(store.entries());
    let mut i: usize = 0;
    assert(all.take(0) =~= Seq::<Seq<char>>::empty());
    while i < n
        invariant
            i <= n,
            n == store.entries().len(),
            all == keys_of(store.entries()),
            texts(keys@) == listed_keys(
                config@.allow_prefixes,
                opt_text(*prefix),
                all.take(i as int),
            ),
        decreases n - i,
    {
        assert(all.take(i + 1).drop_last() =~= all.take(i as int));
        let key = store.key_at(i);
        let wanted = match prefix {
            Some(prefix) => starts_with(key, prefix.as_str()),
            None => true,
        };
        if wanted && key_allowed(config, key) {
            keys.push(key.to_owned());
        }
        i += 1;
    }
    assert(all.take(n as int) =~= all);
    sort_distinct(&keys)
}

/// Runs a command on the store. The store has to be kept where the command
/// changes it.
pub fn apply_file_command(
    config: &VaultConfig,
    store: &mut StrMap<String>,
    command: &VaultCommand,
) -> (r: Result<VaultOpResult, ProviderError>)
    ensures
        final(store).entries() == store_after(old(store).entries(), command@),
        outcome(r) == store_result(old(store).entries(), config@.allow_prefixes, command@),
{
    match command {
        VaultCommand::Get { key } => match store.get(key.as_str()) {
            Some(value) => Ok(VaultOpResult::Get { key: key.clone(), value: value.clone() }),
            None => Err(
                ProviderError::new(
                    "provider_secret_not_found",
                    cat3("vault key '", key.as_str(), "' not found"),
                ),
            ),
        },
        VaultCommand::Put { key, value } => {
            store.insert(key.clone(), value.clone());
            Ok(VaultOpResult::Put { key: key.clone() })
        },
        VaultCommand::Delete { key } => {
            let deleted = store.remove(key.as_str());
            Ok(VaultOpResult::Delete { key: key.clone(), deleted })
        },
        VaultCommand::List { prefix } => {
            let keys = list_keys(config, store, prefix);
            Ok(VaultOpResult::List { prefix: clone_opt(prefix), keys })
        },
    }
}

/// The store that the file of a vault holds.
pub fn load_store(path: &str, read: &StoreRead) -> (r: Result<StrMap<String>, ProviderError>)
    ensures
        entries_outcome(r) == stored_texts("vault store"@, "vault store"@, path@, read@),
{
    read_stored_texts("vault store", "vault store", path, read)
}

/// The text that the file of a vault gets. Loading it gives a store that holds
/// for every key what this one holds.
pub fn store_text(path: &str, store: &StrMap<String>) -> (r: Result<String, ProviderError>)
    ensures
        r matches Ok(text) && {
            let loaded = stored_texts(
                "vault store"@,
                "vault store"@,
                path@,
                StoreView::Content(text@),
            );
            loaded is Ok && forall|key: Seq<char>|
                #[trigger] lookup(loaded->Ok_0, key) == lookup(store.entries(), key)
        },
{
    match text_map_json(store) {
        Ok(text) => Ok(text),
        Err(message) => Err(
            ProviderError::new(
                "provider_start_failed",
                cat4("failed serializing vault store '", path, "': ", message.as_str()),
            ),
        ),
    }
}

/// What was put under a key is what a get of the key brings, and nothing else
/// in the store changes.
pub proof fn get_after_put(
    store: Seq<(Seq<char>, Seq<char>)>,
    allow_prefixes: Option<Seq<Seq<char>>>,
    key: Seq<char>,
    value: Seq<char>,
    other: Seq<char>,
)
    ensures
        store_result(
            store_after(store, CommandView::Put { key, value }),
            allow_prefixes,
            CommandView::Get { key },
        ) == Ok::<OpView, ErrorView>(OpView::Get { key, value }),
        other != key ==> store_result(
            store_after(store, CommandView::Put { key, value }),
            allow_prefixes,
            CommandView::Get { key: other },
        ) == store_result(store, allow_prefixes, CommandView::Get { key: other }),
{
    put_spec(store, key, value);
}

/// A deleted key is not found, and nothing else in the store changes.
pub proof fn get_after_delete(
    store: Seq<(Seq<char>, Seq<char>)>,
    allow_prefixes: Option<Seq<Seq<char>>>,
    key: Seq<char>,
    other: Seq<char>,
)
    ensures
        store_result(
            store_after(store, CommandView::Delete { key }),
            allow_prefixes,
            CommandView::Get { key },
        ) == Err::<OpView, ErrorView>(
            fault("provider_secret_not_found"@, "vault key '"@ + key + "' not found"@),
        ),
        other != key ==> store_result(
            store_after(store, CommandView::Delete { key }),
            allow_prefixes,
            CommandView::Get { key: other },
        ) == store_result(store, allow_prefixes, CommandView::Get { key: other }),
{
    without_spec(store, key);
}

/// Reading and listing leave the store as it is.
pub proof fn reads_do_not_change(store: Seq<(Seq<char>, Seq<char>)>, command: CommandView)
    requires
        !command.mutating(),
    ensures
        store_after(store, command) == store,
{
}

proof fn listed_keys_spec(
    allow_prefixes: Option<Seq<Seq<char>>>,
    prefix: Option<Seq<char>>,
    keys: Seq<Seq<char>>,
)
    ensures
        forall|k: Seq<char>| #[trigger]
            listed_keys(allow_prefixes, prefix, keys).contains(k) <==> keys.contains(k) && listed(
                allow_prefixes,
                prefix,
                k,
            ),
    decreases keys.len(),
{
    if keys.len() > 0 {
        let d = keys.drop_last();
        let before = listed_keys(allow_prefixes, prefix, d);
        let r = listed_keys(allow_prefixes, prefix, keys);
        listed_keys_spec(allow_prefixes, prefix, d);
        assert forall|k: Seq<char>| #[trigger] r.contains(k) <==> keys.contains(k) && listed(
            allow_prefixes,
            prefix,
            k,
        ) by {
            if r.contains(k) {
                let i = choose|i: int| 0 <= i < r.len() && r[i] == k;
                if i < before.len() {
                    assert(before[i] == k);
                    assert(before.contains(k));
                    let j = choose|j: int| 0 <= j < d.len() && d[j] == k;
                    assert(keys[j] == k);
                } else {
                    assert(keys[keys.len() - 1] == k);
                }
            }
            if keys.contains(k) && listed(allow_prefixes, prefix, k) {
                let j = choose|j: int| 0 <= j < keys.len() && keys[j] == k;
                if j < d.len() {
                    assert(d[j] == k);
                    assert(before.contains(k));
                    let i = choose|i: int| 0 <= i < before.len() && before[i] == k;
                    assert(r[i] == k);
                } else {
                    assert(r[before.len() as int] == k);
                }
            }
        }
    }
}

/// A list shows, in ascending order, exactly the keys of the store that have
/// the prefix and are allowed.
pub proof fn list_is_exact(
    store: Seq<(Seq<char>, Seq<char>)>,
    allow_prefixes: Option<Seq<Seq<char>>>,
    prefix: Option<Seq<char>>,
    key: Seq<char>,
)
    ensures
        match store_result(store, allow_prefixes, CommandView::List { prefix }) {
            Ok(OpView::List { prefix: p, keys }) => {
                &&& p == prefix
                &&& ascending(keys)
                &&& keys.contains(key) <==> lookup(store, key) is Some && listed(
                    allow_prefixes,
                    prefix,
                    key,
                )
            },
            _ => false,
        },
{
    listed_keys_spec(allow_prefixes, prefix, keys_of(store));
    sorted_distinct_spec(listed_keys(allow_prefixes, prefix, keys_of(store)));
    lookup_found(store, key);
}

// ---------------------------------------------------------------- result

/// A result as JSON.
pub open spec fn result_json(result: OpView) -> JsonView {
    match result {
        OpView::Get { key, value } => JsonView::Object(
            seq![
                ("key"@, JsonView::Text(key)),
                ("op"@, JsonView::Text("get"@)),
                ("value"@, JsonView::Text(value)),
            ],
        ),
        OpView::Put { key } => JsonView::Object(
            seq![
                ("key"@, JsonView::Text(key)),
                ("op"@, JsonView::Text("put"@)),
                ("status"@, JsonView::Text("ok"@)),
            ],
        ),
        OpView::Delete { key, deleted } => JsonView::Object(
            seq![
                ("deleted"@, JsonView::Bool(deleted)),
                ("key"@, JsonView::Text(key)),
                ("op"@, JsonView::Text("delete"@)),
            ],
        ),
        OpView::List { prefix, keys } => JsonView::Object(
            seq![
                ("keys"@, JsonView::Array(json_texts(keys))),
                ("op"@, JsonView::Text("list"@)),
                ("prefix"@, text_or_null(prefix)),
            ],
        ),
    }
}

/// A result as the output of its stage.
pub open spec fn result_text(result: OpView, mode: RenderMode) -> Seq<char> {
    match mode {
        RenderMode::Json => json_text(json_normal(result_json(result))),
        RenderMode::Text => match result {
            OpView::Get { key, value } => value,
            OpView::Put { key } => "ok"@,
            OpView::Delete { key, deleted } => "ok"@,
            OpView::List { prefix, keys } => joined(keys, "\n"@),
        },
    }
}

/// A result as JSON.
pub fn result_value(result: &VaultOpResult) -> (r: Json)
    ensures
        r@ == result_json(result@),
{
    match result {
        VaultOpResult::Get { key, value } => {
            let head = object1("key", text(key.as_str()));
            let body = with_member(head, "op", text("get"));
            let r = with_member(body, "value", text(value.as_str()));
            assert(r@->Object_0 =~= result_json(result@)->Object_0);
            r
        },
        VaultOpResult::Put { key } => {
            let head = object1("key", text(key.as_str()));
            let body = with_member(head, "op", text("put"));
            let r = with_member(body, "status", text("ok"));
            assert(r@->Object_0 =~= result_json(result@)->Object_0);
            r
        },
        VaultOpResult::Delete { key, deleted } => {
            let head = object1("deleted", Json::Bool(*deleted));
            let body = with_member(head, "key", text(key.as_str()));
            let r = with_member(body, "op", text("delete"));
            assert(r@->Object_0 =~= result_json(result@)->Object_0);
            r
        },
        VaultOpResult::List { prefix, keys } => {
            let shown = match prefix {
                Some(prefix) => text(prefix.as_str()),
                None => Json::Null,
            };
            let head = object1("keys", text_array(keys));
            let body = with_member(head, "op", text("list"));
            let r = with_member(body, "prefix", shown);
            assert(r@->Object_0 =~= result_json(result@)->Object_0);
            r
        },
    }
}

/// The output of a stage for what its command brought.
pub fn render_result(result: &VaultOpResult, mode: RenderMode) -> (r: String)
    ensures
        r@ == result_text(result@, mode),
{
    match mode {
        RenderMode::Json => {
            let value = result_value(result);
            compact_json(&value)
        },
        RenderMode::Text => match result {
            VaultOpResult::Get { key: _, value } => value.clone(),
            VaultOpResult::Put { key: _ } => "ok".to_owned(),
            VaultOpResult::Delete { key: _, deleted: _ } => "ok".to_owned(),
            VaultOpResult::List { prefix: _, keys } => join(keys, "\n"),
        },
    }
}

} // verus!
