//! What providers share: errors, the registry, the environment of a stage and
//! its secrets.
use crate::expr::{subst, substituted};
use crate::json::{parse_text_map, put_pairs, text_map_read};
use crate::paths::{join_path, joined_path};
use crate::providers::env_refs::{resolve_env, resolved_env};
use crate::strmap::{lookup, put, put_spec, StrMap};
use crate::text::{
    after_prefix, blank, cat2, cat3, cat4, cat5, cat6, cat7, char_is_alnum, char_is_alpha, chars_of,
    clone_opt, contains, group_texts, is_alnum, is_blank, is_lower, is_upper, opt_str, opt_text,
    strip_prefix, texts, to_upper_char, trim, trim_by, trim_end_by, trim_text_by, trim_text_end_by,
    trimmed, upper_char, CharSet,
};
use crate::workflow::{Stage, StageView, Workflow, WorkflowView};
use vstd::prelude::*;

pub mod cli;
pub mod env_refs;
pub mod http;
pub mod k8s;
pub mod laws;
pub mod llm;
pub mod llm_catalog;
pub mod shell;
pub mod vault;
pub mod vault_config;
pub mod vault_exchange;
pub mod vault_http;

verus! {

/// Why a provider failed: a stable code and what happened in words.
#[derive(Debug)]
pub struct ProviderError {
    pub code: &'static str,
    pub message: String,
}

/// What an error says.
pub struct ErrorView {
    pub code: Seq<char>,
    pub message: Seq<char>,
}

impl View for ProviderError {
    type V = ErrorView;

    open spec fn view(&self) -> ErrorView {
        ErrorView { code: self.code@, message: self.message@ }
    }
}

pub open spec fn fault(code: Seq<char>, message: Seq<char>) -> ErrorView {
    ErrorView { code, message }
}

/// What a provider function returned, in views.
pub open spec fn outcome<T: View>(r: Result<T, ProviderError>) -> Result<T::V, ErrorView> {
    match r {
        Ok(v) => Ok(v@),
        Err(e) => Err(e@),
    }
}

impl ProviderError {
    pub fn new(code: &'static str, message: String) -> (r: Self)
        ensures
            r@ == fault(code@, message@),
    {
        ProviderError { code, message }
    }

    /// The error in one line: its code and its message.
    pub fn to_text(&self) -> (r: String)
        ensures
            r@ == self@.code + ": "@ + self@.message,
    {
        cat3(self.code, ": ", self.message.as_str())
    }
}

// ---------------------------------------------------------------- registry

/// The providers that come with the program.
#[derive(Clone, Copy, Debug, PartialEq, Eq, Structural)]
pub enum BuiltinProvider {
    Shell,
    Cli,
    Http,
    Llm,
    K8s,
    Vault,
}

impl View for BuiltinProvider {
    type V = BuiltinProvider;

    open spec fn view(&self) -> BuiltinProvider {
        *self
    }
}

/// Providers by name.
pub struct ProviderRegistry<P> {
    pub providers: StrMap<P>,
}

impl<P: View> ProviderRegistry<P> {
    pub fn new() -> (r: Self)
        ensures
            r.providers@ == Map::<Seq<char>, P::V>::empty(),
    {
        ProviderRegistry { providers: StrMap::new() }
    }

    /// Makes `provider` the one of that name.
    pub fn register(&mut self, name: &str, provider: P)
        ensures
            final(self).providers@ == old(self).providers@.insert(name@, provider@),
    {
        self.providers.insert(name.to_owned(), provider);
    }

    pub fn get(&self, name: &str) -> (r: Option<&P>)
        ensures
            r is Some <==> self.providers@.contains_key(name@),
            r is Some ==> r->0@ == self.providers@[name@],
    {
        self.providers.get(name)
    }
}

/// The names of the providers that come with the program.
pub open spec fn builtin_providers() -> Map<Seq<char>, BuiltinProvider> {
    Map::<Seq<char>, BuiltinProvider>::empty().insert("shell"@, BuiltinProvider::Shell).insert(
        "cli"@,
        BuiltinProvider::Cli,
    ).insert("http"@, BuiltinProvider::Http).insert("llm"@, BuiltinProvider::Llm).insert(
        "k8s"@,
        BuiltinProvider::K8s,
    ).insert("vault"@, BuiltinProvider::Vault)
}

/// The registry of the providers that come with the program.
pub fn default_registry() -> (r: ProviderRegistry<BuiltinProvider>)
    ensures
        r.providers@ == builtin_providers(),
{
    let mut reg: ProviderRegistry<BuiltinProvider> = ProviderRegistry::new();
    reg.register("shell", BuiltinProvider::Shell);
    reg.register("cli", BuiltinProvider::Cli);
    reg.register("http", BuiltinProvider::Http);
    reg.register("llm", BuiltinProvider::Llm);
    reg.register("k8s", BuiltinProvider::K8s);
    reg.register("vault", BuiltinProvider::Vault);
    reg
}

// ---------------------------------------------------------------- environment

/// The variables that tell a command what it runs for.
pub open spec fn runtime_variables(
    stage: StageView,
    workflow_name: Seq<char>,
    outputs: Seq<(Seq<char>, Seq<char>)>,
) -> Seq<(Seq<char>, Seq<char>)> {
    let session = match lookup(outputs, "SESSION"@) {
        Some(session) => if blank(session) {
            Seq::empty()
        } else {
            put(Seq::empty(), "ANNA_SESSION"@, session)
        },
        None => Seq::empty(),
    };
    put(
        put(
            put(session, "ANNA_WORKFLOW"@, workflow_name),
            "ANNA_STAGE_ID"@,
            stage.id,
        ),
        "ANNA_TRUST"@,
        match stage.trust {
            Some(trust) => trust,
            None => "none"@,
        },
    )
}

/// The variables that tell a command which session, workflow and stage it runs
/// for, and how far it is trusted.
pub fn runtime_env(stage: &Stage, workflow: &Workflow, outputs: &StrMap<String>) -> (r: StrMap<
    String,
>)
    ensures
        r.entries() == runtime_variables(stage@, workflow@.name, outputs.entries()),
{
    let mut env: StrMap<String> = StrMap::new();
    if let Some(session) = outputs.get("SESSION") {
        if !is_blank(session.as_str()) {
            env.insert("ANNA_SESSION".to_owned(), session.clone());
        }
    }
    env.insert("ANNA_WORKFLOW".to_owned(), workflow.name.clone());
    env.insert("ANNA_STAGE_ID".to_owned(), stage.id.clone());
    let trust = match &stage.trust {
        Some(trust) => trust.clone(),
        None => "none".to_owned(),
    };
    env.insert("ANNA_TRUST".to_owned(), trust);
    env
}

/// `env` with the variables of `more`, their values substituted, over it.
pub open spec fn with_rendered(
    env: Seq<(Seq<char>, Seq<char>)>,
    more: Seq<(Seq<char>, Seq<char>)>,
    vars: Seq<(Seq<char>, Seq<char>)>,
    outputs: Seq<(Seq<char>, Seq<char>)>,
) -> Seq<(Seq<char>, Seq<char>)>
    decreases more.len(),
{
    if more.len() == 0 {
        env
    } else {
        put(
            with_rendered(env, more.drop_last(), vars, outputs),
            more.last().0,
            substituted(more.last().1, vars, outputs),
        )
    }
}

/// `env` with the variables of `more` over it.
pub open spec fn with_all(
    env: Seq<(Seq<char>, Seq<char>)>,
    more: Seq<(Seq<char>, Seq<char>)>,
) -> Seq<(Seq<char>, Seq<char>)>
    decreases more.len(),
{
    if more.len() == 0 {
        env
    } else {
        put(with_all(env, more.drop_last()), more.last().0, more.last().1)
    }
}

pub fn add_rendered(
    env: &mut StrMap<String>,
    more: &StrMap<String>,
    vars: &StrMap<String>,
    outputs: &StrMap<String>,
)
    ensures
        final(env).entries() == with_rendered(
            old(env).entries(),
            more.entries(),
            vars.entries(),
            outputs.entries(),
        ),
{
    let n: usize = more.len();
    let mut i: usize = 0;
    let ghost before = env.entries();
    assert(more.entries().take(0) =~= Seq::<(Seq<char>, Seq<char>)>::empty());
    while i < n
        invariant
            i <= n,
            n == more.entries().len(),
            env.entries() == with_rendered(
                before,
                more.entries().take(i as int),
                vars.entries(),
                outputs.entries(),
            ),
        decreases n - i,
    {
        assert(more.entries().take(i + 1).drop_last() =~= more.entries().take(i as int));
        let value = subst(more.value_at(i).as_str(), vars, outputs);
        env.insert(more.key_at(i).to_owned(), value);
        i += 1;
    }
    assert(more.entries().take(n as int) =~= more.entries());
}

pub fn add_all(env: &mut StrMap<String>, more: &StrMap<String>)
    ensures
        final(env).entries() == with_all(old(env).entries(), more.entries()),
{
    let n: usize = more.len();
    let mut i: usize = 0;
    let ghost before = env.entries();
    assert(more.entries().take(0) =~= Seq::<(Seq<char>, Seq<char>)>::empty());
    while i < n
        invariant
            i <= n,
            n == more.entries().len(),
            env.entries() == with_all(before, more.entries().take(i as int)),
        decreases n - i,
    {
        assert(more.entries().take(i + 1).drop_last() =~= more.entries().take(i as int));
        env.insert(more.key_at(i).to_owned(), more.value_at(i).clone());
        i += 1;
    }
    assert(more.entries().take(n as int) =~= more.entries());
}

/// The variables of a command: those of the workflow, over them those of the
/// stage, over them those of the run.
pub open spec fn command_variables(
    stage: StageView,
    workflow_name: Seq<char>,
    workflow_env: Seq<(Seq<char>, Seq<char>)>,
    vars: Seq<(Seq<char>, Seq<char>)>,
    outputs: Seq<(Seq<char>, Seq<char>)>,
) -> Seq<(Seq<char>, Seq<char>)> {
    with_all(
        with_rendered(
            with_rendered(Seq::empty(), workflow_env, vars, outputs),
            stage.env,
            vars,
            outputs,
        ),
        runtime_variables(stage, workflow_name, outputs),
    )
}

/// The variables of a command, where the references of the workflow's can be
/// resolved.
pub open spec fn command_variables_from(
    stage: StageView,
    workflow: WorkflowView,
    vars: Seq<(Seq<char>, Seq<char>)>,
    outputs: Seq<(Seq<char>, Seq<char>)>,
    sources: SourcesView,
) -> Result<Seq<(Seq<char>, Seq<char>)>, ErrorView> {
    match resolved_env(stage.id, workflow.env, sources) {
        Err(e) => Err(e),
        Ok(env) => Ok(command_variables(stage, workflow.name, env, vars, outputs)),
    }
}

/// The variables of a command: the references of the workflow's are resolved, then
/// the values of the workflow's and the stage's are substituted.
pub fn command_env(
    stage: &Stage,
    workflow: &Workflow,
    vars: &StrMap<String>,
    outputs: &StrMap<String>,
    sources: &SecretSources,
) -> (r: Result<StrMap<String>, ProviderError>)
    ensures
        entries_outcome(r) == command_variables_from(
            stage@,
            workflow@,
            vars.entries(),
            outputs.entries(),
            sources@,
        ),
{
    let resolved = match resolve_env(stage.id.as_str(), &workflow.env, sources) {
        Ok(resolved) => resolved,
        Err(err) => {
            return Err(err);
        },
    };
    let mut env: StrMap<String> = StrMap::new();
    add_rendered(&mut env, &resolved, vars, outputs);
    add_rendered(&mut env, &stage.env, vars, outputs);
    let run = runtime_env(stage, workflow, outputs);
    add_all(&mut env, &run);
    Ok(env)
}

/// The variables of a command with the secrets that its stage maps over them, or
/// the error of the first step that fails.
pub open spec fn command_variables_with_secrets(
    stage: StageView,
    workflow: WorkflowView,
    vars: Seq<(Seq<char>, Seq<char>)>,
    outputs: Seq<(Seq<char>, Seq<char>)>,
    sources: SourcesView,
) -> Result<Seq<(Seq<char>, Seq<char>)>, ErrorView> {
    match command_variables_from(stage, workflow, vars, outputs, sources) {
        Err(e) => Err(e),
        Ok(env) => match resolved_secrets(stage.id, stage.secrets, vars, outputs, sources) {
            Err(e) => Err(e),
            Ok(secrets) => Ok(with_all(env, secrets)),
        },
    }
}

/// The variables of a command with the secrets that its stage maps over them.
pub fn command_env_with_secrets(
    stage: &Stage,
    workflow: &Workflow,
    vars: &StrMap<String>,
    outputs: &StrMap<String>,
    sources: &SecretSources,
) -> (r: Result<StrMap<String>, ProviderError>)
    ensures
        entries_outcome(r) == command_variables_with_secrets(
            stage@,
            workflow@,
            vars.entries(),
            outputs.entries(),
            sources@,
        ),
{
    match command_env(stage, workflow, vars, outputs, sources) {
        Err(err) => Err(err),
        Ok(env) => match resolve_stage_secrets(stage, vars, outputs, sources) {
            Err(err) => Err(err),
            Ok(secrets) => {
                let mut env = env;
                add_all(&mut env, &secrets);
                Ok(env)
            },
        },
    }
}

/// A mapped secret is in the environment of its command, over every other variable
/// of that name.
pub proof fn mapped_secrets_are_injected(
    stage: StageView,
    workflow: WorkflowView,
    vars: Seq<(Seq<char>, Seq<char>)>,
    outputs: Seq<(Seq<char>, Seq<char>)>,
    sources: SourcesView,
    key: Seq<char>,
)
    ensures
        command_variables_with_secrets(stage, workflow, vars, outputs, sources) matches Ok(env) ==> {
            let secrets = resolved_secrets(stage.id, stage.secrets, vars, outputs, sources);
            secrets is Ok && (lookup(secrets->Ok_0, key) is Some ==> lookup(env, key) == lookup(
                secrets->Ok_0,
                key,
            ))
        },
{
    if let Ok(env) = command_variables_from(stage, workflow, vars, outputs, sources) {
        if let Ok(secrets) = resolved_secrets(
            stage.id,
            stage.secrets,
            vars,
            outputs,
            sources,
        ) {
            with_all_value(env, secrets, key);
        }
    }
}

/// What stands in `more` stands in the variables, and what does not is as before.
pub proof fn with_all_value(
    env: Seq<(Seq<char>, Seq<char>)>,
    more: Seq<(Seq<char>, Seq<char>)>,
    key: Seq<char>,
)
    ensures
        lookup(with_all(env, more), key) == match lookup(more, key) {
            Some(value) => Some(value),
            None => lookup(env, key),
        },
    decreases more.len(),
{
    if more.len() > 0 {
        with_all_value(env, more.drop_last(), key);
        put_spec(with_all(env, more.drop_last()), more.last().0, more.last().1);
    }
}

/// What stands in `more` stands in the variables with its references replaced,
/// and what does not is as before.
pub proof fn with_rendered_value(
    env: Seq<(Seq<char>, Seq<char>)>,
    more: Seq<(Seq<char>, Seq<char>)>,
    vars: Seq<(Seq<char>, Seq<char>)>,
    outputs: Seq<(Seq<char>, Seq<char>)>,
    key: Seq<char>,
)
    ensures
        lookup(with_rendered(env, more, vars, outputs), key) == match lookup(more, key) {
            Some(value) => Some(substituted(value, vars, outputs)),
            None => lookup(env, key),
        },
    decreases more.len(),
{
    if more.len() > 0 {
        with_rendered_value(env, more.drop_last(), vars, outputs, key);
        put_spec(
            with_rendered(env, more.drop_last(), vars, outputs),
            more.last().0,
            substituted(more.last().1, vars, outputs),
        );
    }
}

/// A variable of a command is the runtime's own where there is one, else the
/// stage's, else the workflow's.
pub proof fn runtime_variables_win(
    stage: StageView,
    workflow_name: Seq<char>,
    workflow_env: Seq<(Seq<char>, Seq<char>)>,
    vars: Seq<(Seq<char>, Seq<char>)>,
    outputs: Seq<(Seq<char>, Seq<char>)>,
    key: Seq<char>,
)
    ensures
        lookup(command_variables(stage, workflow_name, workflow_env, vars, outputs), key) == match lookup(
            runtime_variables(stage, workflow_name, outputs),
            key,
        ) {
            Some(value) => Some(value),
            None => match lookup(stage.env, key) {
                Some(value) => Some(substituted(value, vars, outputs)),
                None => match lookup(workflow_env, key) {
                    Some(value) => Some(substituted(value, vars, outputs)),
                    None => None,
                },
            },
        },
{
    let inner = with_rendered(Seq::empty(), workflow_env, vars, outputs);
    with_rendered_value(Seq::empty(), workflow_env, vars, outputs, key);
    with_rendered_value(inner, stage.env, vars, outputs, key);
    with_all_value(
        with_rendered(inner, stage.env, vars, outputs),
        runtime_variables(stage, workflow_name, outputs),
        key,
    );
}

/// The working directory of a stage: its own, or that of the workflow.
pub open spec fn working_dir(stage: Option<Seq<char>>, workflow: Option<Seq<char>>) -> Option<
    Seq<char>,
> {
    match stage {
        Some(dir) => Some(dir),
        None => workflow,
    }
}

pub fn command_dir(stage: &Stage, workflow: &Workflow) -> (r: Option<String>)
    ensures
        opt_text(r) == working_dir(stage@.workdir, workflow@.workdir),
{
    match &stage.workdir {
        Some(dir) => Some(dir.clone()),
        None => clone_opt(&workflow.workdir),
    }
}

// ---------------------------------------------------------------- secrets

/// Whether a text can be the name of an environment variable.
pub open spec fn env_key_like(value: Seq<char>) -> bool {
    let t = trimmed(value);
    &&& t.len() > 0
    &&& is_upper(t[0]) || is_lower(t[0]) || t[0] == '_'
    &&& forall|i: int| 1 <= i < t.len() ==> is_alnum(#[trigger] t[i]) || t[i] == '_'
}

/// Whether a text can name a secret: it holds a `/`.
pub open spec fn secret_ref_like(value: Seq<char>) -> bool {
    trimmed(value).contains('/')
}

pub fn looks_like_env_key(value: &str) -> (r: bool)
    ensures
        r == env_key_like(value@),
{
    let t = chars_of(trim(value));
    if t.len() == 0 {
        return false;
    }
    if !(char_is_alpha(t[0]) || t[0] == '_') {
        return false;
    }
    let mut i: usize = 1;
    while i < t.len()
        invariant
            1 <= i <= t.len(),
            t@ == trimmed(value@),
            forall|j: int| 1 <= j < i ==> is_alnum(#[trigger] t@[j]) || t@[j] == '_',
        decreases t.len() - i,
    {
        if !(char_is_alnum(t[i]) || t[i] == '_') {
            return false;
        }
        i += 1;
    }
    true
}

pub fn looks_like_secret_ref(value: &str) -> (r: bool)
    ensures
        r == secret_ref_like(value@),
{
    let t = chars_of(trim(value));
    let mut i: usize = 0;
    while i < t.len()
        invariant
            i <= t.len(),
            t@ == trimmed(value@),
            forall|j: int| 0 <= j < i ==> t@[j] != '/',
        decreases t.len() - i,
    {
        if t[i] == '/' {
            return true;
        }
        i += 1;
    }
    false
}

/// Which side of a mapping is the variable and which the secret. A side that
/// can only be one of the two decides; otherwise the left side is the secret.
pub open spec fn secret_mapping(left: Seq<char>, right: Seq<char>) -> (Seq<char>, Seq<char>) {
    if env_key_like(left) && secret_ref_like(right) {
        (left, right)
    } else if env_key_like(right) && secret_ref_like(left) {
        (right, left)
    } else if secret_ref_like(right) && !secret_ref_like(left) {
        (left, right)
    } else {
        (right, left)
    }
}

/// The variable and the secret of a mapping, in this order.
pub fn normalize_secret_mapping(left: &str, right: &str) -> (r: (String, String))
    ensures
        (r.0@, r.1@) == secret_mapping(left@, right@),
{
    let left_env = looks_like_env_key(left);
    let right_env = looks_like_env_key(right);
    let left_secret = looks_like_secret_ref(left);
    let right_secret = looks_like_secret_ref(right);
    if left_env && right_secret {
        return (left.to_owned(), right.to_owned());
    }
    if right_env && left_secret {
        return (right.to_owned(), left.to_owned());
    }
    if left_secret && !right_secret {
        return (right.to_owned(), left.to_owned());
    }
    if right_secret && !left_secret {
        return (left.to_owned(), right.to_owned());
    }
    (right.to_owned(), left.to_owned())
}

/// A side that is a secret reference and no variable name is the secret, on
/// whichever side it stands.
pub proof fn secret_mapping_is_symmetric(left: Seq<char>, right: Seq<char>)
    requires
        env_key_like(left),
        secret_ref_like(right),
        !env_key_like(right),
    ensures
        secret_mapping(left, right) == (left, right),
        secret_mapping(right, left) == (left, right),
{
}

/// `s` in upper case, with `_` for every character that is no ASCII letter or
/// digit.
pub open spec fn key_chars(s: Seq<char>) -> Seq<char> {
    Seq::new(
        s.len(),
        |i: int|
            if is_alnum(s[i]) {
                upper_char(s[i])
            } else {
                '_'
            },
    )
}

/// `s` with each run of `_` made one.
pub open spec fn squeezed(s: Seq<char>) -> Seq<char>
    decreases s.len(),
{
    if s.len() < 2 {
        s
    } else if s.last() == '_' && s[s.len() - 2] == '_' {
        squeezed(s.drop_last())
    } else {
        squeezed(s.drop_last()).push(s.last())
    }
}

/// The part of a variable's name that stands for a secret.
pub open spec fn secret_key(secret_ref: Seq<char>) -> Seq<char> {
    trim_by(squeezed(key_chars(secret_ref)), CharSet::Only('_'))
}

pub fn sanitize_secret_key(secret_ref: &str) -> (r: String)
    ensures
        r@ == secret_key(secret_ref@),
{
    let chars = chars_of(secret_ref);
    let mut out = String::new();
    let mut last = 'x';
    let mut i: usize = 0;
    let ghost all = key_chars(secret_ref@);
    assert(all.take(0) =~= Seq::<char>::empty());
    while i < chars.len()
        invariant
            i <= chars.len(),
            chars@ == secret_ref@,
            all == key_chars(secret_ref@),
            out@ == squeezed(all.take(i as int)),
            i == 0 ==> last == 'x',
            i > 0 ==> last == all[i - 1],
        decreases chars.len() - i,
    {
        let next = if char_is_alnum(chars[i]) {
            to_upper_char(chars[i])
        } else {
            '_'
        };
        assert(next == all[i as int]);
        let ghost upto = all.take(i + 1);
        assert(upto.drop_last() =~= all.take(i as int));
        if i > 0 {
            assert(upto[upto.len() - 2] == all[i - 1]);
        }
        if !(next == '_' && last == '_') {
            out.push(next);
            assert(i == 0 ==> out@ =~= upto);
        }
        last = next;
        i += 1;
    }
    assert(all.take(i as int) =~= all);
    trim_text_by(out.as_str(), CharSet::Only('_')).to_owned()
}

/// A squeezed text has no two `_` in a row.
pub proof fn squeezed_has_no_double(s: Seq<char>)
    ensures
        squeezed(s).len() <= s.len(),
        s.len() > 0 ==> squeezed(s).len() > 0 && squeezed(s).last() == s.last(),
        forall|i: int|
            0 <= i < squeezed(s).len() - 1 ==> !(#[trigger] squeezed(s)[i] == '_' && squeezed(s)[i
                + 1] == '_'),
    decreases s.len(),
{
    if s.len() >= 2 {
        squeezed_has_no_double(s.drop_last());
    }
}

/// The environment variable that can hold a secret.
pub fn secret_env_var_name(secret_ref: &str) -> (r: String)
    ensures
        r@ == "ANNA_SECRET_"@ + secret_key(secret_ref@),
{
    let key = sanitize_secret_key(secret_ref);
    cat2("ANNA_SECRET_", key.as_str())
}

/// What came of reading a file: its content, or why it could not be read.
pub enum FileRead {
    Content(String),
    Failed(String),
}

impl View for FileRead {
    type V = Result<Seq<char>, Seq<char>>;

    open spec fn view(&self) -> Result<Seq<char>, Seq<char>> {
        match self {
            FileRead::Content(text) => Ok(text@),
            FileRead::Failed(why) => Err(why@),
        }
    }
}

/// What secrets are resolved from: the environment, files by path, and the
/// secrets file.
pub struct SecretSources {
    pub env: StrMap<String>,
    pub files: StrMap<FileRead>,
    pub secrets: StrMap<String>,
    pub secrets_file: String,
}

/// Secret sources as plain values.
pub struct SourcesView {
    pub env: Seq<(Seq<char>, Seq<char>)>,
    pub files: Seq<(Seq<char>, Result<Seq<char>, Seq<char>>)>,
    pub secrets: Seq<(Seq<char>, Seq<char>)>,
    pub secrets_file: Seq<char>,
}

impl View for SecretSources {
    type V = SourcesView;

    open spec fn view(&self) -> SourcesView {
        SourcesView {
            env: self.env.entries(),
            files: self.files.entries(),
            secrets: self.secrets.entries(),
            secrets_file: self.secrets_file@,
        }
    }
}

/// The value of a secret that the environment or the secrets file holds.
pub open spec fn vault_secret(
    stage_id: Seq<char>,
    path: Seq<char>,
    sources: SourcesView,
) -> Result<Seq<char>, ErrorView> {
    let name = "ANNA_SECRET_"@ + secret_key(path);
    match lookup(sources.env, name) {
        Some(value) => Ok(value),
        None => match lookup(sources.secrets, path) {
            Some(value) => Ok(value),
            None => Err(
                fault(
                    "provider_secret_not_found"@,
                    "stage '"@ + stage_id + "' missing secret '"@ + path + "' (env="@ + name
                        + " or file="@ + sources.secrets_file + ")"@,
                ),
            ),
        },
    }
}

/// The value of a secret: `env://` names a variable, `file://` a file, and
/// anything else, with or without `vault://`, a stored secret.
pub open spec fn secret_value(
    stage_id: Seq<char>,
    secret_ref: Seq<char>,
    sources: SourcesView,
) -> Result<Seq<char>, ErrorView> {
    let t = trimmed(secret_ref);
    if t.len() == 0 {
        Err(
            fault(
                "provider_start_failed"@,
                "stage '"@ + stage_id + "' has empty secret reference"@,
            ),
        )
    } else {
        match after_prefix(t, "env://"@) {
            Some(name) => match lookup(sources.env, name) {
                Some(value) => Ok(value),
                None => Err(
                    fault(
                        "provider_secret_not_found"@,
                        "stage '"@ + stage_id + "' missing environment variable '"@ + name
                            + "' for secret '"@ + secret_ref + "'"@,
                    ),
                ),
            },
            None => match after_prefix(t, "file://"@) {
                Some(path) => match lookup(sources.files, path) {
                    Some(Ok(content)) => Ok(trim_end_by(content, CharSet::LineEnd)),
                    Some(Err(why)) => Err(unread_secret(stage_id, path, why)),
                    None => Err(unread_secret(stage_id, path, "not read"@)),
                },
                None => match after_prefix(t, "vault://"@) {
                    Some(path) => vault_secret(stage_id, path, sources),
                    None => vault_secret(stage_id, t, sources),
                },
            },
        }
    }
}

pub open spec fn unread_secret(stage_id: Seq<char>, path: Seq<char>, why: Seq<char>) -> ErrorView {
    fault(
        "provider_secret_not_found"@,
        "stage '"@ + stage_id + "' failed reading secret file '"@ + path + "': "@ + why,
    )
}

pub fn resolve_vault_secret(stage_id: &str, secret_path: &str, sources: &SecretSources) -> (r: Result<
    String,
    ProviderError,
>)
    ensures
        outcome(r) == vault_secret(stage_id@, secret_path@, sources@),
{
    let name = secret_env_var_name(secret_path);
    if let Some(value) = sources.env.get(name.as_str()) {
        return Ok(value.clone());
    }
    if let Some(value) = sources.secrets.get(secret_path) {
        return Ok(value.clone());
    }
    let head = cat5("stage '", stage_id, "' missing secret '", secret_path, "' (env=");
    Err(
        ProviderError::new(
            "provider_secret_not_found",
            cat5(head.as_str(), name.as_str(), " or file=", sources.secrets_file.as_str(), ")"),
        ),
    )
}

fn unread_secret_error(stage_id: &str, path: &str, why: &str) -> (r: ProviderError)
    ensures
        r@ == unread_secret(stage_id@, path@, why@),
{
    ProviderError::new(
        "provider_secret_not_found",
        cat6(
            "stage '",
            stage_id,
            "' failed reading secret file '",
            path,
            "': ",
            why,
        ),
    )
}

/// Resolves one secret from the sources.
pub fn resolve_secret_ref(stage_id: &str, secret_ref: &str, sources: &SecretSources) -> (r: Result<
    String,
    ProviderError,
>)
    ensures
        outcome(r) == secret_value(stage_id@, secret_ref@, sources@),
{
    let t = trim(secret_ref);
    if t.is_empty() {
        return Err(
            ProviderError::new(
                "provider_start_failed",
                cat3("stage '", stage_id, "' has empty secret reference"),
            ),
        );
    }
    if let Some(name) = strip_prefix(t, "env://") {
        return match sources.env.get(name) {
            Some(value) => Ok(value.clone()),
            None => Err(
                ProviderError::new(
                    "provider_secret_not_found",
                    cat7(
                        "stage '",
                        stage_id,
                        "' missing environment variable '",
                        name,
                        "' for secret '",
                        secret_ref,
                        "'",
                    ),
                ),
            ),
        };
    }
    if let Some(path) = strip_prefix(t, "file://") {
        return match sources.files.get(path) {
            Some(FileRead::Content(content)) => {
                Ok(trim_text_end_by(content.as_str(), CharSet::LineEnd).to_owned())
            },
            Some(FileRead::Failed(why)) => {
                Err(unread_secret_error(stage_id, path, why.as_str()))
            },
            None => Err(unread_secret_error(stage_id, path, "not read")),
        };
    }
    match strip_prefix(t, "vault://") {
        Some(path) => resolve_vault_secret(stage_id, path, sources),
        None => resolve_vault_secret(stage_id, t, sources),
    }
}

/// The variable and the value that one mapping of a stage gives.
pub open spec fn resolved_mapping(
    stage_id: Seq<char>,
    mapping: (Seq<char>, Seq<char>),
    vars: Seq<(Seq<char>, Seq<char>)>,
    outputs: Seq<(Seq<char>, Seq<char>)>,
    sources: SourcesView,
) -> Result<(Seq<char>, Seq<char>), ErrorView> {
    let (env_key, secret_ref) = secret_mapping(
        substituted(mapping.0, vars, outputs),
        substituted(mapping.1, vars, outputs),
    );
    if blank(env_key) {
        Err(
            fault(
                "provider_start_failed"@,
                "stage '"@ + stage_id + "' has secrets mapping with empty env key for '"@
                    + secret_ref + "'"@,
            ),
        )
    } else {
        match secret_value(stage_id, secret_ref, sources) {
            Ok(value) => Ok((env_key, value)),
            Err(e) => Err(e),
        }
    }
}

/// The variables that the mappings of a stage give, or the first error.
pub open spec fn resolved_secrets(
    stage_id: Seq<char>,
    mappings: Seq<(Seq<char>, Seq<char>)>,
    vars: Seq<(Seq<char>, Seq<char>)>,
    outputs: Seq<(Seq<char>, Seq<char>)>,
    sources: SourcesView,
) -> Result<Seq<(Seq<char>, Seq<char>)>, ErrorView>
    decreases mappings.len(),
{
    if mappings.len() == 0 {
        Ok(Seq::empty())
    } else {
        match resolved_secrets(stage_id, mappings.drop_last(), vars, outputs, sources) {
            Err(e) => Err(e),
            Ok(done) => match resolved_mapping(
                stage_id,
                mappings.last(),
                vars,
                outputs,
                sources,
            ) {
                Err(e) => Err(e),
                Ok((key, value)) => Ok(put(done, key, value)),
            },
        }
    }
}

/// What resolving returned, in views.
pub open spec fn entries_outcome(r: Result<StrMap<String>, ProviderError>) -> Result<
    Seq<(Seq<char>, Seq<char>)>,
    ErrorView,
> {
    match r {
        Ok(map) => Ok(map.entries()),
        Err(e) => Err(e@),
    }
}

proof fn secrets_error_sticks(
    stage_id: Seq<char>,
    mappings: Seq<(Seq<char>, Seq<char>)>,
    n: int,
    vars: Seq<(Seq<char>, Seq<char>)>,
    outputs: Seq<(Seq<char>, Seq<char>)>,
    sources: SourcesView,
)
    requires
        0 <= n <= mappings.len(),
        resolved_secrets(stage_id, mappings.take(n), vars, outputs, sources) is Err,
    ensures
        resolved_secrets(stage_id, mappings, vars, outputs, sources) == resolved_secrets(
            stage_id,
            mappings.take(n),
            vars,
            outputs,
            sources,
        ),
    decreases mappings.len() - n,
{
    if n == mappings.len() {
        assert(mappings.take(n) =~= mappings);
    } else {
        assert(mappings.take(n + 1).drop_last() =~= mappings.take(n));
        secrets_error_sticks(stage_id, mappings, n + 1, vars, outputs, sources);
    }
}

/// Resolves the secrets that a stage maps to environment variables.
pub fn resolve_stage_secrets(
    stage: &Stage,
    vars: &StrMap<String>,
    outputs: &StrMap<String>,
    sources: &SecretSources,
) -> (r: Result<StrMap<String>, ProviderError>)
    ensures
        entries_outcome(r) == resolved_secrets(
            stage@.id,
            stage@.secrets,
            vars.entries(),
            outputs.entries(),
            sources@,
        ),
{
    let mut resolved: StrMap<String> = StrMap::new();
    let n: usize = stage.secrets.len();
    let ghost all = stage.secrets.entries();
    let mut i: usize = 0;
    assert(all.take(0) =~= Seq::<(Seq<char>, Seq<char>)>::empty());
    while i < n
        invariant
            i <= n,
            n == all.len(),
            all == stage@.secrets,
            all == stage.secrets.entries(),
            resolved_secrets(
                stage@.id,
                all.take(i as int),
                vars.entries(),
                outputs.entries(),
                sources@,
            ) == Ok::<Seq<(Seq<char>, Seq<char>)>, ErrorView>(resolved.entries()),
        decreases n - i,
    {
        let ghost next = all.take(i + 1);
        assert(next.drop_last() =~= all.take(i as int));
        assert(next.last() == all[i as int]);
        let left = subst(stage.secrets.key_at(i), vars, outputs);
        let right = subst(stage.secrets.value_at(i).as_str(), vars, outputs);
        let (env_key, secret_ref) = normalize_secret_mapping(left.as_str(), right.as_str());
        if is_blank(env_key.as_str()) {
            proof {
                secrets_error_sticks(
                    stage@.id,
                    all,
                    i + 1,
                    vars.entries(),
                    outputs.entries(),
                    sources@,
                );
            }
            return Err(
                ProviderError::new(
                    "provider_start_failed",
                    cat5(
                        "stage '",
                        stage.id.as_str(),
                        "' has secrets mapping with empty env key for '",
                        secret_ref.as_str(),
                        "'",
                    ),
                ),
            );
        }
        match resolve_secret_ref(stage.id.as_str(), secret_ref.as_str(), sources) {
            Ok(value) => {
                resolved.insert(env_key, value);
            },
            Err(err) => {
                proof {
                    secrets_error_sticks(
                        stage@.id,
                        all,
                        i + 1,
                        vars.entries(),
                        outputs.entries(),
                        sources@,
                    );
                }
                return Err(err);
            },
        }
        i += 1;
    }
    assert(all.take(n as int) =~= all);
    Ok(resolved)
}

/// The file of secrets: the one that is set, else that of the home directory.
pub open spec fn secrets_path(set: Option<Seq<char>>, home: Option<Seq<char>>) -> Seq<char> {
    if set is Some && set->0.len() > 0 {
        set->0
    } else if home is Some && home->0.len() > 0 {
        joined_path(home->0, ".anna/secrets.json"@)
    } else {
        "/tmp/anna-secrets.json"@
    }
}

/// The file of secrets, from the values of `ANNA_SECRETS_FILE` and `HOME`.
pub fn secrets_file_path(set: Option<&str>, home: Option<&str>) -> (r: String)
    ensures
        r@ == secrets_path(opt_str(set), opt_str(home)),
{
    if let Some(path) = set {
        if !path.is_empty() {
            return path.to_owned();
        }
    }
    if let Some(home) = home {
        if !home.is_empty() {
            return join_path(home, ".anna/secrets.json");
        }
    }
    "/tmp/anna-secrets.json".to_owned()
}

/// What came of reading a file that need not be there.
pub enum StoreRead {
    Content(String),
    Missing,
    Failed(String),
}

/// What came of reading a file that need not be there, as plain values.
pub enum StoreView {
    Content(Seq<char>),
    Missing,
    Failed(Seq<char>),
}

impl View for StoreRead {
    type V = StoreView;

    open spec fn view(&self) -> StoreView {
        match self {
            StoreRead::Content(text) => StoreView::Content(text@),
            StoreRead::Missing => StoreView::Missing,
            StoreRead::Failed(why) => StoreView::Failed(why@),
        }
    }
}

/// What a file of texts by name holds: a file that is missing holds nothing.
/// `what` and `kind` are what errors call it.
pub open spec fn stored_texts(
    what: Seq<char>,
    kind: Seq<char>,
    path: Seq<char>,
    read: StoreView,
) -> Result<Seq<(Seq<char>, Seq<char>)>, ErrorView> {
    match read {
        StoreView::Missing => Ok(Seq::empty()),
        StoreView::Failed(why) => Err(
            fault(
                "provider_start_failed"@,
                "failed reading "@ + what + " '"@ + path + "': "@ + why,
            ),
        ),
        StoreView::Content(text) => match text_map_read(text) {
            Ok(items) => Ok(put_pairs(items)),
            Err(message) => Err(
                fault(
                    "provider_start_failed"@,
                    "invalid "@ + kind + " json '"@ + path + "': "@ + message,
                ),
            ),
        },
    }
}

/// What a file of texts by name holds.
pub fn read_stored_texts(what: &str, kind: &str, path: &str, read: &StoreRead) -> (r: Result<
    StrMap<String>,
    ProviderError,
>)
    ensures
        entries_outcome(r) == stored_texts(what@, kind@, path@, read@),
{
    match read {
        StoreRead::Missing => Ok(StrMap::new()),
        StoreRead::Failed(why) => {
            let head = cat4("failed reading ", what, " '", path);
            Err(
                ProviderError::new(
                    "provider_start_failed",
                    cat3(head.as_str(), "': ", why.as_str()),
                ),
            )
        },
        StoreRead::Content(text) => match parse_text_map(text.as_str()) {
            Ok(map) => Ok(map),
            Err(message) => {
                let head = cat4("invalid ", kind, " json '", path);
                Err(
                    ProviderError::new(
                        "provider_start_failed",
                        cat3(head.as_str(), "': ", message.as_str()),
                    ),
                )
            },
        },
    }
}

/// The secrets that the secrets file holds.
pub fn load_file_secrets(path: &str, read: &StoreRead) -> (r: Result<StrMap<String>, ProviderError>)
    ensures
        entries_outcome(r) == stored_texts("secrets file"@, "secrets"@, path@, read@),
{
    read_stored_texts("secrets file", "secrets", path, read)
}

/// The file that a mapping of a stage takes a secret from.
pub open spec fn secret_file(
    mapping: (Seq<char>, Seq<char>),
    vars: Seq<(Seq<char>, Seq<char>)>,
    outputs: Seq<(Seq<char>, Seq<char>)>,
) -> Option<Seq<char>> {
    let (env_key, secret_ref) = secret_mapping(
        substituted(mapping.0, vars, outputs),
        substituted(mapping.1, vars, outputs),
    );
    after_prefix(trimmed(secret_ref), "file://"@)
}

/// The files that the mappings of a stage take secrets from.
pub open spec fn secret_files_of(
    mappings: Seq<(Seq<char>, Seq<char>)>,
    vars: Seq<(Seq<char>, Seq<char>)>,
    outputs: Seq<(Seq<char>, Seq<char>)>,
) -> Seq<Seq<char>>
    decreases mappings.len(),
{
    if mappings.len() == 0 {
        Seq::empty()
    } else {
        let before = secret_files_of(mappings.drop_last(), vars, outputs);
        match secret_file(mappings.last(), vars, outputs) {
            Some(path) => before.push(path),
            None => before,
        }
    }
}

/// The files that a stage takes secrets from.
pub fn secret_files(stage: &Stage, vars: &StrMap<String>, outputs: &StrMap<String>) -> (r: Vec<
    String,
>)
    ensures
        texts(r@) == secret_files_of(stage@.secrets, vars.entries(), outputs.entries()),
{
    broadcast use group_texts;

    let mut out: Vec<String> = Vec::new();
    let n: usize = stage.secrets.len();
    let ghost all = stage.secrets.entries();
    assert(all.take(0) =~= Seq::<(Seq<char>, Seq<char>)>::empty());
    let mut i: usize = 0;
    while i < n
        invariant
            i <= n,
            n == all.len(),
            all == stage.secrets.entries(),
            texts(out@) == secret_files_of(
                all.take(i as int),
                vars.entries(),
                outputs.entries(),
            ),
        decreases n - i,
    {
        assert(all.take(i + 1).drop_last() =~= all.take(i as int));
        let left = subst(stage.secrets.key_at(i), vars, outputs);
        let right = subst(stage.secrets.value_at(i).as_str(), vars, outputs);
        let (_, secret_ref) = normalize_secret_mapping(left.as_str(), right.as_str());
        if let Some(path) = strip_prefix(trim(secret_ref.as_str()), "file://") {
            out.push(path.to_owned());
        }
        i += 1;
    }
    assert(all.take(n as int) =~= all);
    out
}

/// The code of an error that kept a command from starting.
pub fn spawn_error(not_found: bool, message: &str) -> (r: ProviderError)
    ensures
        r@ == fault(
            if not_found {
                "provider_not_found"@
            } else {
                "provider_start_failed"@
            },
            message@,
        ),
{
    if not_found {
        ProviderError::new("provider_not_found", message.to_owned())
    } else {
        ProviderError::new("provider_start_failed", message.to_owned())
    }
}

/// A command to run: the program with its arguments, variables, directory and
/// input.
pub struct CommandPlan {
    pub program: String,
    pub args: Vec<String>,
    pub env: StrMap<String>,
    pub dir: Option<String>,
    pub stdin: Option<String>,
}

/// A command to run, as plain values.
pub struct PlanView {
    pub program: Seq<char>,
    pub args: Seq<Seq<char>>,
    pub env: Seq<(Seq<char>, Seq<char>)>,
    pub dir: Option<Seq<char>>,
    pub stdin: Option<Seq<char>>,
}

impl View for CommandPlan {
    type V = PlanView;

    open spec fn view(&self) -> PlanView {
        PlanView {
            program: self.program@,
            args: texts(self.args@),
            env: self.env.entries(),
            dir: opt_text(self.dir),
            stdin: opt_text(self.stdin),
        }
    }
}

/// The texts of `items` with variables replaced.
pub open spec fn rendered_all(
    items: Seq<Seq<char>>,
    vars: Seq<(Seq<char>, Seq<char>)>,
    outputs: Seq<(Seq<char>, Seq<char>)>,
) -> Seq<Seq<char>> {
    Seq::new(items.len(), |i: int| substituted(items[i], vars, outputs))
}

pub fn render_all(items: &Vec<String>, vars: &StrMap<String>, outputs: &StrMap<String>) -> (r: Vec<
    String,
>)
    ensures
        texts(r@) == rendered_all(
            texts(items@),
            vars.entries(),
            outputs.entries(),
        ),
{
    let mut out: Vec<String> = Vec::new();
    let mut i: usize = 0;
    while i < items.len()
        invariant
            i <= items.len(),
            out@.len() == i,
            forall|j: int|
                0 <= j < i ==> (#[trigger] out@[j])@ == substituted(
                    items@[j]@,
                    vars.entries(),
                    outputs.entries(),
                ),
        decreases items.len() - i,
    {
        out.push(subst(items[i].as_str(), vars, outputs));
        i += 1;
    }
    assert(texts(out@) =~= rendered_all(
        texts(items@),
        vars.entries(),
        outputs.entries(),
    ));
    out
}

/// An optional text with variables replaced.
pub open spec fn rendered_opt(
    item: Option<Seq<char>>,
    vars: Seq<(Seq<char>, Seq<char>)>,
    outputs: Seq<(Seq<char>, Seq<char>)>,
) -> Option<Seq<char>> {
    match item {
        Some(text) => Some(substituted(text, vars, outputs)),
        None => None,
    }
}

pub fn render_opt(item: &Option<String>, vars: &StrMap<String>, outputs: &StrMap<String>) -> (r:
    Option<String>)
    ensures
        opt_text(r) == rendered_opt(opt_text(*item), vars.entries(), outputs.entries()),
{
    match item {
        Some(text) => Some(subst(text.as_str(), vars, outputs)),
        None => None,
    }
}

} // verus!
