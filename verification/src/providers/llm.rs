//! The provider that asks a language model, by way of an adapter program.
use crate::expr::{subst, substituted};
use crate::providers::{
    fault, outcome, render_all, rendered_all, rendered_opt, working_dir, ErrorView, ProviderError,
};
use crate::paths::{join_path, joined_path};
use crate::strmap::{lookup, put, put_spec, StrMap};
use crate::text::{
    blank, cat3, cat4, cat5, cat6, clone_opt, group_texts, is_blank, opt_str, opt_text, same, texts,
    trim, trimmed,
};
use crate::workflow::{Stage, StageView, Workflow, WorkflowView};
use vstd::prelude::*;
use vstd::string::*;

verus! {

/// Asks a language model.
#[derive(Debug, Clone, Copy)]
pub struct LlmProvider;

/// How an adapter program is run.
pub struct LlmAdapterSpec {
    /// The program, the `exec` of a definition.
    pub command: String,
    pub args: Vec<String>,
    pub env: StrMap<String>,
    pub model: Option<String>,
    pub parse: Option<String>,
}

/// An adapter, as plain values.
pub struct AdapterView {
    pub command: Seq<char>,
    pub args: Seq<Seq<char>>,
    pub env: Seq<(Seq<char>, Seq<char>)>,
    pub model: Option<Seq<char>>,
    pub parse: Option<Seq<char>>,
}

impl View for LlmAdapterSpec {
    type V = AdapterView;

    open spec fn view(&self) -> AdapterView {
        AdapterView {
            command: self.command@,
            args: texts(self.args@),
            env: self.env.entries(),
            model: opt_text(self.model),
            parse: opt_text(self.parse),
        }
    }
}

/// The adapters that are known, and which one is meant where none is named.
pub struct LlmAdapterCatalog {
    pub default: Option<String>,
    pub adapters: StrMap<LlmAdapterSpec>,
}

/// A catalog and the file that it came from.
pub struct LoadedLlmAdapterCatalog {
    pub path: String,
    pub catalog: LlmAdapterCatalog,
}

/// A catalog, as plain values.
pub struct CatalogView {
    pub default: Option<Seq<char>>,
    pub adapters: Seq<(Seq<char>, AdapterView)>,
}

impl View for LlmAdapterCatalog {
    type V = CatalogView;

    open spec fn view(&self) -> CatalogView {
        CatalogView { default: opt_text(self.default), adapters: self.adapters.entries() }
    }
}

pub open spec fn opt_catalog(catalog: Option<&LlmAdapterCatalog>) -> Option<CatalogView> {
    match catalog {
        Some(catalog) => Some(catalog@),
        None => None,
    }
}

pub open spec fn opt_adapter(adapter: Option<&LlmAdapterSpec>) -> Option<AdapterView> {
    match adapter {
        Some(adapter) => Some(adapter@),
        None => None,
    }
}

// ---------------------------------------------------------------- settings

/// A text that is not blank.
pub open spec fn nonblank(text: Option<Seq<char>>) -> Option<Seq<char>> {
    match text {
        Some(t) => if blank(t) {
            None
        } else {
            Some(t)
        },
        None => None,
    }
}

/// The first of two texts, where it is there.
pub open spec fn first_of(a: Option<Seq<char>>, b: Option<Seq<char>>) -> Option<Seq<char>> {
    match a {
        Some(t) => Some(t),
        None => b,
    }
}

/// The value of an environment variable, trimmed, where it is not blank.
pub open spec fn set_in(env: Seq<(Seq<char>, Seq<char>)>, key: Seq<char>) -> Option<Seq<char>> {
    match nonblank(lookup(env, key)) {
        Some(value) => Some(trimmed(value)),
        None => None,
    }
}

/// The value of an environment variable, trimmed, where it is not blank.
pub fn non_empty_env(env: &StrMap<String>, key: &str) -> (r: Option<String>)
    ensures
        opt_text(r) == set_in(env.entries(), key@),
{
    match env.get(key) {
        Some(value) => {
            let t = trim(value.as_str());
            if t.is_empty() {
                None
            } else {
                Some(t.to_owned())
            }
        },
        None => None,
    }
}

fn keep_nonblank(text: &Option<String>) -> (r: Option<String>)
    ensures
        opt_text(r) == nonblank(opt_text(*text)),
{
    match text {
        Some(t) => {
            if is_blank(t.as_str()) {
                None
            } else {
                Some(t.clone())
            }
        },
        None => None,
    }
}

fn render_nonblank(text: &Option<String>, vars: &StrMap<String>, outputs: &StrMap<String>) -> (r:
    Option<String>)
    ensures
        opt_text(r) == rendered_opt(nonblank(opt_text(*text)), vars.entries(), outputs.entries()),
{
    match text {
        Some(t) => {
            if is_blank(t.as_str()) {
                None
            } else {
                Some(subst(t.as_str(), vars, outputs))
            }
        },
        None => None,
    }
}

fn or_text(a: Option<String>, b: Option<String>) -> (r: Option<String>)
    ensures
        opt_text(r) == first_of(opt_text(a), opt_text(b)),
{
    match a {
        Some(t) => Some(t),
        None => b,
    }
}

// ---------------------------------------------------------------- adapters

/// The adapter that is meant where a stage names none: the one in the
/// environment, else the default of the catalog.
pub open spec fn active_adapter(
    catalog: Option<CatalogView>,
    env: Seq<(Seq<char>, Seq<char>)>,
) -> Option<Seq<char>> {
    first_of(
        set_in(env, "ANNA_LLM_ADAPTER"@),
        match catalog {
            Some(catalog) => nonblank(catalog.default),
            None => None,
        },
    )
}

/// The adapter of a stage.
pub open spec fn chosen_adapter(
    stage: StageView,
    catalog: Option<CatalogView>,
    env: Seq<(Seq<char>, Seq<char>)>,
) -> Option<Seq<char>> {
    first_of(nonblank(stage.llm_adapter), active_adapter(catalog, env))
}

/// The name of the adapter that is meant where a stage names none.
pub fn active_llm_adapter_name(catalog: Option<&LlmAdapterCatalog>, env: &StrMap<String>) -> (r:
    Option<String>)
    ensures
        opt_text(r) == active_adapter(opt_catalog(catalog), env.entries()),
{
    let set = non_empty_env(env, "ANNA_LLM_ADAPTER");
    let default = match catalog {
        Some(catalog) => keep_nonblank(&catalog.default),
        None => None,
    };
    or_text(set, default)
}

/// The name of the adapter of a stage.
pub fn select_adapter_name(
    stage: &Stage,
    catalog: Option<&LlmAdapterCatalog>,
    env: &StrMap<String>,
) -> (r: Option<String>)
    ensures
        opt_text(r) == chosen_adapter(stage@, opt_catalog(catalog), env.entries()),
{
    let own = keep_nonblank(&stage.llm_adapter);
    let active = active_llm_adapter_name(catalog, env);
    or_text(own, active)
}

/// The adapter of that name, or why there is none.
pub open spec fn adapter_named(
    name: Option<Seq<char>>,
    catalog: Option<CatalogView>,
) -> Result<Option<AdapterView>, ErrorView> {
    match name {
        None => Ok(None),
        Some(name) => match catalog {
            None => Err(
                fault(
                    "provider_start_failed"@,
                    "llm adapter '"@ + name
                        + "' requested but ANNA_LLM_ADAPTERS_FILE is not set"@,
                ),
            ),
            Some(catalog) => match lookup(catalog.adapters, name) {
                None => Err(
                    fault("provider_start_failed"@, "unknown llm adapter '"@ + name + "'"@),
                ),
                Some(adapter) => if blank(adapter.command) {
                    Err(
                        fault(
                            "provider_start_failed"@,
                            "llm adapter '"@ + name + "' has empty exec"@,
                        ),
                    )
                } else {
                    Ok(Some(adapter))
                },
            },
        },
    }
}

/// The adapter of that name.
pub fn resolve_adapter<'a>(
    name: Option<&str>,
    catalog: Option<&'a LlmAdapterCatalog>,
) -> (r: Result<Option<&'a LlmAdapterSpec>, ProviderError>)
    ensures
        match r {
            Ok(adapter) => adapter_named(opt_str(name), opt_catalog(catalog)) == Ok::<
                Option<AdapterView>,
                ErrorView,
            >(opt_adapter(adapter)),
            Err(err) => adapter_named(opt_str(name), opt_catalog(catalog)) == Err::<
                Option<AdapterView>,
                ErrorView,
            >(err@),
        },
{
    let name = match name {
        Some(name) => name,
        None => {
            return Ok(None);
        },
    };
    let catalog = match catalog {
        Some(catalog) => catalog,
        None => {
            return Err(
                ProviderError::new(
                    "provider_start_failed",
                    cat3(
                        "llm adapter '",
                        name,
                        "' requested but ANNA_LLM_ADAPTERS_FILE is not set",
                    ),
                ),
            );
        },
    };
    match catalog.adapters.get(name) {
        None => Err(
            ProviderError::new("provider_start_failed", cat3("unknown llm adapter '", name, "'")),
        ),
        Some(adapter) => {
            if is_blank(adapter.command.as_str()) {
                Err(
                    ProviderError::new(
                        "provider_start_failed",
                        cat3("llm adapter '", name, "' has empty exec"),
                    ),
                )
            } else {
                Ok(Some(adapter))
            }
        },
    }
}

/// What is wrong with the first of the adapters that has no program.
pub open spec fn catalog_problem(adapters: Seq<(Seq<char>, AdapterView)>) -> Option<Seq<char>>
    decreases adapters.len(),
{
    if adapters.len() == 0 {
        None
    } else {
        match catalog_problem(adapters.drop_last()) {
            Some(problem) => Some(problem),
            None => if blank(adapters.last().1.command) {
                Some("adapter '"@ + adapters.last().0 + "' has empty exec"@)
            } else {
                None
            },
        }
    }
}

proof fn catalog_problem_sticks(adapters: Seq<(Seq<char>, AdapterView)>, n: int)
    requires
        0 <= n <= adapters.len(),
        catalog_problem(adapters.take(n)) is Some,
    ensures
        catalog_problem(adapters) == catalog_problem(adapters.take(n)),
    decreases adapters.len() - n,
{
    if n == adapters.len() {
        assert(adapters.take(n) =~= adapters);
    } else {
        assert(adapters.take(n + 1).drop_last() =~= adapters.take(n));
        catalog_problem_sticks(adapters, n + 1);
    }
}

/// Checks that every adapter of a catalog has a program.
pub fn check_adapter_catalog(catalog: &LlmAdapterCatalog) -> (r: Result<(), String>)
    ensures
        match r {
            Ok(()) => catalog_problem(catalog@.adapters) is None,
            Err(message) => catalog_problem(catalog@.adapters) == Some(message@),
        },
{
    let n: usize = catalog.adapters.len();
    let ghost all = catalog.adapters.entries();
    let mut i: usize = 0;
    assert(all.take(0) =~= Seq::<(Seq<char>, AdapterView)>::empty());
    while i < n
        invariant
            i <= n,
            n == all.len(),
            all == catalog.adapters.entries(),
            catalog_problem(all.take(i as int)) is None,
        decreases n - i,
    {
        assert(all.take(i + 1).drop_last() =~= all.take(i as int));
        if is_blank(catalog.adapters.value_at(i).command.as_str()) {
            proof {
                catalog_problem_sticks(all, i + 1);
            }
            return Err(cat3("adapter '", catalog.adapters.key_at(i), "' has empty exec"));
        }
        i += 1;
    }
    assert(all.take(n as int) =~= all);
    Ok(())
}

// ---------------------------------------------------------------- prompt

/// The file of a context entry: below the working directory where there is one.
pub open spec fn context_path(file: Seq<char>, workdir: Option<Seq<char>>) -> Seq<char> {
    match workdir {
        Some(dir) => joined_path(dir, file),
        None => file,
    }
}

pub open spec fn context_paths_of(
    context: Seq<Seq<char>>,
    workdir: Option<Seq<char>>,
    vars: Seq<(Seq<char>, Seq<char>)>,
    outputs: Seq<(Seq<char>, Seq<char>)>,
) -> Seq<Seq<char>> {
    Seq::new(
        context.len(),
        |i: int| context_path(substituted(context[i], vars, outputs), workdir),
    )
}

/// The files that the prompt of a stage takes in.
pub fn context_paths(
    stage: &Stage,
    workflow: &Workflow,
    vars: &StrMap<String>,
    outputs: &StrMap<String>,
) -> (r: Vec<String>)
    ensures
        texts(r@) == context_paths_of(
            stage@.context,
            workflow@.workdir,
            vars.entries(),
            outputs.entries(),
        ),
{
    let mut out: Vec<String> = Vec::new();
    let mut i: usize = 0;
    while i < stage.context.len()
        invariant
            i <= stage.context.len(),
            out@.len() == i,
            forall|j: int|
                0 <= j < i ==> (#[trigger] out@[j])@ == context_path(
                    substituted(stage.context@[j]@, vars.entries(), outputs.entries()),
                    workflow@.workdir,
                ),
        decreases stage.context.len() - i,
    {
        let file = subst(stage.context[i].as_str(), vars, outputs);
        let path = match &workflow.workdir {
            Some(dir) => join_path(dir.as_str(), file.as_str()),
            None => file,
        };
        out.push(path);
        i += 1;
    }
    assert(texts(out@) =~= context_paths_of(
        stage@.context,
        workflow@.workdir,
        vars.entries(),
        outputs.entries(),
    ));
    out
}

/// The files that could be read, each under its path.
pub open spec fn context_text(files: Seq<(Seq<char>, Option<Seq<char>>)>) -> Seq<char>
    decreases files.len(),
{
    if files.len() == 0 {
        Seq::empty()
    } else {
        let before = context_text(files.drop_last());
        match files.last().1 {
            Some(content) => before + "## "@ + files.last().0 + "\n"@ + content + "\n\n"@,
            None => before,
        }
    }
}

/// Paths with what was read from them.
pub open spec fn read_files(files: Seq<(String, Option<String>)>) -> Seq<
    (Seq<char>, Option<Seq<char>>),
> {
    Seq::new(files.len(), |i: int| (files[i].0@, opt_text(files[i].1)))
}

/// The context of a prompt: the files that could be read.
pub fn build_context_blob(files: &Vec<(String, Option<String>)>) -> (r: String)
    ensures
        r@ == trimmed(context_text(read_files(files@))),
{
    let mut out = String::new();
    let ghost all = read_files(files@);
    let mut i: usize = 0;
    assert(all.take(0) =~= Seq::<(Seq<char>, Option<Seq<char>>)>::empty());
    while i < files.len()
        invariant
            i <= files.len(),
            all == read_files(files@),
            out@ == context_text(all.take(i as int)),
        decreases files.len() - i,
    {
        assert(all.take(i + 1).drop_last() =~= all.take(i as int));
        if let Some(content) = &files[i].1 {
            out = cat6(
                out.as_str(),
                "## ",
                files[i].0.as_str(),
                "\n",
                content.as_str(),
                "\n\n",
            );
        }
        i += 1;
    }
    assert(all.take(i as int) =~= all);
    trim(out.as_str()).to_owned()
}

/// The prompt of a stage: what to do, after the system text and before the
/// context, where there are any.
pub open spec fn prompt_text(
    stage: StageView,
    vars: Seq<(Seq<char>, Seq<char>)>,
    outputs: Seq<(Seq<char>, Seq<char>)>,
    context: Seq<char>,
) -> Seq<char> {
    let task = match rendered_opt(stage.do_prompt, vars, outputs) {
        Some(text) => text,
        None => Seq::empty(),
    };
    let led = match rendered_opt(stage.system, vars, outputs) {
        Some(system) => "<system>\n"@ + system + "\n</system>\n\n"@ + task,
        None => task,
    };
    if stage.context.len() > 0 && context.len() > 0 {
        led + "\n\n<context>\n"@ + context + "\n</context>"@
    } else {
        led
    }
}

/// The prompt of a stage, with the files that its context names.
pub fn build_prompt(
    stage: &Stage,
    vars: &StrMap<String>,
    outputs: &StrMap<String>,
    files: &Vec<(String, Option<String>)>,
) -> (r: String)
    ensures
        r@ == prompt_text(
            stage@,
            vars.entries(),
            outputs.entries(),
            trimmed(context_text(read_files(files@))),
        ),
{
    let mut prompt = match &stage.do_prompt {
        Some(text) => subst(text.as_str(), vars, outputs),
        None => String::new(),
    };
    if let Some(system) = &stage.system {
        let system = subst(system.as_str(), vars, outputs);
        prompt = cat4("<system>\n", system.as_str(), "\n</system>\n\n", prompt.as_str());
    }
    if stage.context.len() > 0 {
        let context = build_context_blob(files);
        if !context.as_str().is_empty() {
            prompt = cat4(prompt.as_str(), "\n\n<context>\n", context.as_str(), "\n</context>");
        }
    }
    prompt
}

// ---------------------------------------------------------------- command

/// `env` with those variables of `more` that it lacks, their values
/// substituted.
pub open spec fn with_missing(
    env: Seq<(Seq<char>, Seq<char>)>,
    more: Seq<(Seq<char>, Seq<char>)>,
    vars: Seq<(Seq<char>, Seq<char>)>,
    outputs: Seq<(Seq<char>, Seq<char>)>,
) -> Seq<(Seq<char>, Seq<char>)>
    decreases more.len(),
{
    if more.len() == 0 {
        env
    } else {
        let before = with_missing(env, more.drop_last(), vars, outputs);
        if lookup(before, more.last().0) is Some {
            before
        } else {
            put(before, more.last().0, substituted(more.last().1, vars, outputs))
        }
    }
}

/// The program that asks the model: that of the stage, of the adapter, of the
/// environment, in this order.
pub open spec fn wrapper_of(
    stage: StageView,
    adapter: Option<AdapterView>,
    env: Seq<(Seq<char>, Seq<char>)>,
    vars: Seq<(Seq<char>, Seq<char>)>,
    outputs: Seq<(Seq<char>, Seq<char>)>,
) -> Seq<char> {
    let of_adapter = match adapter {
        Some(adapter) => Some(substituted(adapter.command, vars, outputs)),
        None => None,
    };
    match first_of(
        first_of(rendered_opt(nonblank(stage.command), vars, outputs), of_adapter),
        set_in(env, "ANNA_LLM_WRAPPER"@),
    ) {
        Some(wrapper) => wrapper,
        None => "./tools/anna-llm-provider"@,
    }
}

/// The model: that of the stage, of the environment, of the adapter, in this
/// order.
pub open spec fn model_of(
    stage: StageView,
    adapter: Option<AdapterView>,
    env: Seq<(Seq<char>, Seq<char>)>,
    vars: Seq<(Seq<char>, Seq<char>)>,
    outputs: Seq<(Seq<char>, Seq<char>)>,
) -> Seq<char> {
    let of_adapter = match adapter {
        Some(adapter) => rendered_opt(nonblank(adapter.model), vars, outputs),
        None => None,
    };
    match first_of(
        first_of(
            rendered_opt(nonblank(stage.model), vars, outputs),
            set_in(env, "ANNA_LLM_MODEL"@),
        ),
        of_adapter,
    ) {
        Some(model) => model,
        None => "gpt-4o-mini"@,
    }
}

/// The form of the answer: that of the stage, else of the adapter.
pub open spec fn format_of(
    stage: StageView,
    adapter: Option<AdapterView>,
    vars: Seq<(Seq<char>, Seq<char>)>,
    outputs: Seq<(Seq<char>, Seq<char>)>,
) -> Seq<char> {
    let of_adapter = match adapter {
        Some(adapter) => rendered_opt(nonblank(adapter.parse), vars, outputs),
        None => None,
    };
    match first_of(rendered_opt(nonblank(stage.parse), vars, outputs), of_adapter) {
        Some(format) => format,
        None => "text"@,
    }
}

/// The arguments of the program: the adapter's, the stage's, the model and the
/// form of the answer.
pub open spec fn llm_args(
    stage: StageView,
    adapter: Option<AdapterView>,
    model: Seq<char>,
    format: Seq<char>,
    vars: Seq<(Seq<char>, Seq<char>)>,
    outputs: Seq<(Seq<char>, Seq<char>)>,
) -> Seq<Seq<char>> {
    let of_adapter = match adapter {
        Some(adapter) => rendered_all(adapter.args, vars, outputs),
        None => Seq::empty(),
    };
    of_adapter + rendered_all(stage.args, vars, outputs) + seq![
        "--model"@,
        model,
        "--format"@,
        format,
    ]
}

/// A variable of the stage stays as it is; one that only the adapter sets is the
/// adapter's.
pub proof fn stage_env_wins(
    env: Seq<(Seq<char>, Seq<char>)>,
    more: Seq<(Seq<char>, Seq<char>)>,
    vars: Seq<(Seq<char>, Seq<char>)>,
    outputs: Seq<(Seq<char>, Seq<char>)>,
    key: Seq<char>,
)
    ensures
        lookup(env, key) is Some ==> lookup(with_missing(env, more, vars, outputs), key) == lookup(
            env,
            key,
        ),
        lookup(env, key) is None && lookup(more, key) is None ==> lookup(
            with_missing(env, more, vars, outputs),
            key,
        ) is None,
        lookup(env, key) is None && lookup(more, key) is Some ==> lookup(
            with_missing(env, more, vars, outputs),
            key,
        ) is Some,
    decreases more.len(),
{
    if more.len() > 0 {
        stage_env_wins(env, more.drop_last(), vars, outputs, key);
        put_spec(
            with_missing(env, more.drop_last(), vars, outputs),
            more.last().0,
            substituted(more.last().1, vars, outputs),
        );
    }
}

/// The variables of the program: the stage's, then those that the adapter adds,
/// then the adapter's name.
pub open spec fn llm_env(
    stage: StageView,
    name: Option<Seq<char>>,
    adapter: Option<AdapterView>,
    vars: Seq<(Seq<char>, Seq<char>)>,
    outputs: Seq<(Seq<char>, Seq<char>)>,
) -> Seq<(Seq<char>, Seq<char>)> {
    let of_adapter = match adapter {
        Some(adapter) => with_missing(stage.env, adapter.env, vars, outputs),
        None => stage.env,
    };
    match nonblank(name) {
        Some(name) => if lookup(of_adapter, "ANNA_LLM_ADAPTER"@) is Some {
            of_adapter
        } else {
            put(of_adapter, "ANNA_LLM_ADAPTER"@, name)
        },
        None => of_adapter,
    }
}

/// The cli stage that asks the model, or why there is none.
pub open spec fn llm_plan(
    stage: StageView,
    workflow: WorkflowView,
    vars: Seq<(Seq<char>, Seq<char>)>,
    outputs: Seq<(Seq<char>, Seq<char>)>,
    prompt: Seq<char>,
    catalog: Option<CatalogView>,
    env: Seq<(Seq<char>, Seq<char>)>,
) -> Result<StageView, ErrorView> {
    let name = chosen_adapter(stage, catalog, env);
    match adapter_named(name, catalog) {
        Err(e) => Err(e),
        Ok(adapter) => {
            let format = format_of(stage, adapter, vars, outputs);
            if format != "text"@ && format != "json"@ {
                Err(
                    fault(
                        "provider_invalid_response"@,
                        "invalid parse mode '"@ + format + "' for llm stage '"@ + stage.id
                            + "', expected text|json"@,
                    ),
                )
            } else {
                Ok(
                    StageView {
                        provider: "cli"@,
                        command: Some(wrapper_of(stage, adapter, env, vars, outputs)),
                        args: llm_args(
                            stage,
                            adapter,
                            model_of(stage, adapter, env, vars, outputs),
                            format,
                            vars,
                            outputs,
                        ),
                        stdin: Some(prompt),
                        parse: Some(format),
                        env: llm_env(stage, name, adapter, vars, outputs),
                        workdir: working_dir(stage.workdir, workflow.workdir),
                        ..stage
                    },
                )
            }
        },
    }
}

fn add_missing(
    env: &mut StrMap<String>,
    more: &StrMap<String>,
    vars: &StrMap<String>,
    outputs: &StrMap<String>,
)
    ensures
        final(env).entries() == with_missing(
            old(env).entries(),
            more.entries(),
            vars.entries(),
            outputs.entries(),
        ),
{
    let n: usize = more.len();
    let mut i: usize = 0;
    let ghost before = env.entries();
    assert(more.entries().take(0) =~= Seq::<(Seq<char>, Seq<char>)>::empty());
    while i < n
        invariant
            i <= n,
            n == more.entries().len(),
            env.entries() == with_missing(
                before,
                more.entries().take(i as int),
                vars.entries(),
                outputs.entries(),
            ),
        decreases n - i,
    {
        assert(more.entries().take(i + 1).drop_last() =~= more.entries().take(i as int));
        if !env.contains_key(more.key_at(i)) {
            let value = subst(more.value_at(i).as_str(), vars, outputs);
            env.insert(more.key_at(i).to_owned(), value);
        }
        i += 1;
    }
    assert(more.entries().take(n as int) =~= more.entries());
}

fn build_args(
    stage: &Stage,
    adapter: Option<&LlmAdapterSpec>,
    model: String,
    format: String,
    vars: &StrMap<String>,
    outputs: &StrMap<String>,
) -> (r: Vec<String>)
    ensures
        texts(r@) == llm_args(
            stage@,
            opt_adapter(adapter),
            model@,
            format@,
            vars.entries(),
            outputs.entries(),
        ),
{
    broadcast use group_texts;

    let mut args: Vec<String> = match adapter {
        Some(adapter) => render_all(&adapter.args, vars, outputs),
        None => Vec::new(),
    };
    let ghost first = texts(args@);
    let mut own = render_all(&stage.args, vars, outputs);
    let ghost second = texts(own@);
    args.append(&mut own);
    assert(texts(args@) =~= first + second);
    args.push("--model".to_owned());
    args.push(model);
    args.push("--format".to_owned());
    args.push(format);
    assert(texts(args@) =~= first + second + seq!["--model"@, model@, "--format"@, format@]);
    args
}

/// The cli stage that asks the model with the given prompt.
pub fn build_cli_stage(
    stage: &Stage,
    workflow: &Workflow,
    vars: &StrMap<String>,
    outputs: &StrMap<String>,
    prompt: &str,
    catalog: Option<&LlmAdapterCatalog>,
    env: &StrMap<String>,
) -> (r: Result<Stage, ProviderError>)
    ensures
        outcome(r) == llm_plan(
            stage@,
            workflow@,
            vars.entries(),
            outputs.entries(),
            prompt@,
            opt_catalog(catalog),
            env.entries(),
        ),
{
    let name = select_adapter_name(stage, catalog, env);
    let name_str = match &name {
        Some(name) => Some(name.as_str()),
        None => None,
    };
    let adapter = match resolve_adapter(name_str, catalog) {
        Ok(adapter) => adapter,
        Err(err) => {
            return Err(err);
        },
    };
    let of_adapter = match adapter {
        Some(adapter) => Some(subst(adapter.command.as_str(), vars, outputs)),
        None => None,
    };
    let own = render_nonblank(&stage.command, vars, outputs);
    let set = non_empty_env(env, "ANNA_LLM_WRAPPER");
    let wrapper = match or_text(or_text(own, of_adapter), set) {
        Some(wrapper) => wrapper,
        None => "./tools/anna-llm-provider".to_owned(),
    };
    let of_adapter = match adapter {
        Some(adapter) => render_nonblank(&adapter.model, vars, outputs),
        None => None,
    };
    let own = render_nonblank(&stage.model, vars, outputs);
    let set = non_empty_env(env, "ANNA_LLM_MODEL");
    let model = match or_text(or_text(own, set), of_adapter) {
        Some(model) => model,
        None => "gpt-4o-mini".to_owned(),
    };
    let of_adapter = match adapter {
        Some(adapter) => render_nonblank(&adapter.parse, vars, outputs),
        None => None,
    };
    let own = render_nonblank(&stage.parse, vars, outputs);
    let format = match or_text(own, of_adapter) {
        Some(format) => format,
        None => "text".to_owned(),
    };
    if !same(format.as_str(), "text") && !same(format.as_str(), "json") {
        return Err(
            ProviderError::new(
                "provider_invalid_response",
                cat5(
                    "invalid parse mode '",
                    format.as_str(),
                    "' for llm stage '",
                    stage.id.as_str(),
                    "', expected text|json",
                ),
            ),
        );
    }
    let mut cli_stage = stage.copied();
    cli_stage.provider = "cli".to_owned();
    cli_stage.command = Some(wrapper);
    cli_stage.args = build_args(stage, adapter, model, format.clone(), vars, outputs);
    cli_stage.stdin = Some(prompt.to_owned());
    cli_stage.parse = Some(format);
    if let Some(adapter) = adapter {
        add_missing(&mut cli_stage.env, &adapter.env, vars, outputs);
    }
    if let Some(name) = name {
        if !is_blank(name.as_str()) && !cli_stage.env.contains_key("ANNA_LLM_ADAPTER") {
            cli_stage.env.insert("ANNA_LLM_ADAPTER".to_owned(), name);
        }
    }
    if cli_stage.workdir.is_none() {
        cli_stage.workdir = clone_opt(&workflow.workdir);
    }
    Ok(cli_stage)
}

} // verus!
