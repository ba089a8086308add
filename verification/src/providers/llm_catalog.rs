//! The catalog of adapters: loading it and showing it.
use crate::json::laws::{holds, members_of};
use crate::json::{
    empty_object, json_members, json_members_at, json_texts, object1, opt_text_value,
    text, text_array, text_or_null, with_member, Json, JsonView,
};
use crate::order::{sort_distinct, sorted_distinct};
use crate::providers::llm::{
    active_adapter, active_llm_adapter_name, catalog_problem, check_adapter_catalog, AdapterView,
    CatalogView, LlmAdapterCatalog, LlmAdapterSpec, LoadedLlmAdapterCatalog,
};
use crate::providers::{fault, ErrorView, ProviderError};
use crate::strmap::{keys_of, StrMap};
use crate::text::{cat2, cat4, group_texts, opt_text, texts};
use vstd::prelude::*;

verus! {

// ---------------------------------------------------------------- loading

/// The error of a file that holds no catalog.
pub open spec fn catalog_error(path: Seq<char>, message: Seq<char>) -> ErrorView {
    fault("provider_start_failed"@, "invalid llm adapter catalog '"@ + path + "': "@ + message)
}

/// The error of a catalog file that cannot be read.
pub fn unreadable_catalog(path: &str, why: &str) -> (r: ProviderError)
    ensures
        r@ == fault(
            "provider_start_failed"@,
            "failed reading ANNA_LLM_ADAPTERS_FILE '"@ + path@ + "': "@ + why@,
        ),
{
    ProviderError::new(
        "provider_start_failed",
        cat4("failed reading ANNA_LLM_ADAPTERS_FILE '", path, "': ", why),
    )
}

fn invalid_catalog(path: &str, message: &str) -> (r: ProviderError)
    ensures
        r@ == catalog_error(path@, message@),
{
    ProviderError::new(
        "provider_start_failed",
        cat4("invalid llm adapter catalog '", path, "': ", message),
    )
}

/// The catalog that a file was read as, or why it is none: its text is not a
/// catalog's, or an adapter has no program.
pub fn loaded_catalog(path: String, parsed: Result<LlmAdapterCatalog, String>) -> (r: Result<
    LoadedLlmAdapterCatalog,
    ProviderError,
>)
    ensures
        match parsed {
            Err(why) => r is Err && r->Err_0@ == catalog_error(
                path@,
                "failed to parse yaml: "@ + why@,
            ),
            Ok(catalog) => match catalog_problem(catalog@.adapters) {
                Some(problem) => r is Err && r->Err_0@ == catalog_error(path@, problem),
                None => r == Ok::<LoadedLlmAdapterCatalog, ProviderError>(
                    LoadedLlmAdapterCatalog { path, catalog },
                ),
            },
        },
{
    match parsed {
        Err(why) => {
            let message = cat2("failed to parse yaml: ", why.as_str());
            Err(invalid_catalog(path.as_str(), message.as_str()))
        },
        Ok(catalog) => match check_adapter_catalog(&catalog) {
            Err(problem) => Err(invalid_catalog(path.as_str(), problem.as_str())),
            Ok(()) => Ok(LoadedLlmAdapterCatalog { path, catalog }),
        },
    }
}

// ---------------------------------------------------------------- showing

/// The members of a JSON object of strings.
pub open spec fn text_members(map: Seq<(Seq<char>, Seq<char>)>) -> Seq<(Seq<char>, JsonView)> {
    Seq::new(map.len(), |i: int| (map[i].0, JsonView::Text(map[i].1)))
}

fn text_object(map: &StrMap<String>) -> (r: Json)
    ensures
        r@ == JsonView::Object(text_members(map.entries())),
{
    let ghost all = map.entries();
    let mut members: Vec<(String, Json)> = Vec::new();
    let n: usize = map.len();
    let mut i: usize = 0;
    while i < n
        invariant
            i <= n,
            n == all.len(),
            all == map.entries(),
            members@.len() == i,
            forall|j: int|
                0 <= j < i ==> (#[trigger] members@[j]).0@ == all[j].0 && members@[j].1@
                    == JsonView::Text(all[j].1),
        decreases n - i,
    {
        members.push((map.key_at(i).to_owned(), text(map.value_at(i).as_str())));
        i += 1;
    }
    proof {
        json_members_at(members@);
        assert(json_members(members@) =~= text_members(all));
    }
    Json::Object(members)
}

/// An adapter as JSON.
pub open spec fn adapter_json(adapter: AdapterView) -> JsonView {
    JsonView::Object(
        seq![
            ("args"@, JsonView::Array(json_texts(adapter.args))),
            ("env"@, JsonView::Object(text_members(adapter.env))),
            ("exec"@, JsonView::Text(adapter.command)),
            ("model"@, text_or_null(adapter.model)),
            ("parse"@, text_or_null(adapter.parse)),
        ],
    )
}

fn adapter_value(adapter: &LlmAdapterSpec) -> (r: Json)
    ensures
        r@ == adapter_json(adapter@),
{
    let data = object1("args", text_array(&adapter.args));
    let data = with_member(data, "env", text_object(&adapter.env));
    let data = with_member(data, "exec", text(adapter.command.as_str()));
    let data = with_member(data, "model", opt_text_value(&adapter.model));
    let data = with_member(data, "parse", opt_text_value(&adapter.parse));
    assert(data@->Object_0 =~= adapter_json(adapter@)->Object_0);
    data
}

/// The adapters of a catalog as JSON.
pub open spec fn adapter_members(adapters: Seq<(Seq<char>, AdapterView)>) -> Seq<
    (Seq<char>, JsonView),
> {
    Seq::new(adapters.len(), |i: int| (adapters[i].0, adapter_json(adapters[i].1)))
}

fn adapters_value(adapters: &StrMap<LlmAdapterSpec>) -> (r: Json)
    ensures
        r@ == JsonView::Object(adapter_members(adapters.entries())),
{
    let ghost all = adapters.entries();
    let mut members: Vec<(String, Json)> = Vec::new();
    let n: usize = adapters.len();
    let mut i: usize = 0;
    while i < n
        invariant
            i <= n,
            n == all.len(),
            all == adapters.entries(),
            members@.len() == i,
            forall|j: int|
                0 <= j < i ==> (#[trigger] members@[j]).0@ == all[j].0 && members@[j].1@
                    == adapter_json(all[j].1),
        decreases n - i,
    {
        members.push((adapters.key_at(i).to_owned(), adapter_value(adapters.value_at(i))));
        i += 1;
    }
    proof {
        json_members_at(members@);
        assert(json_members(members@) =~= adapter_members(all));
    }
    Json::Object(members)
}

/// What is shown of a catalog, and of one that is not configured.
pub open spec fn catalog_json(
    loaded: Option<(Seq<char>, CatalogView)>,
    env: Seq<(Seq<char>, Seq<char>)>,
) -> JsonView {
    match loaded {
        Some((path, catalog)) => JsonView::Object(
            seq![
                ("adapters"@, JsonView::Object(adapter_members(catalog.adapters))),
                ("configured"@, JsonView::Bool(true)),
                ("default"@, text_or_null(catalog.default)),
                ("selected"@, text_or_null(active_adapter(Some(catalog), env))),
                ("source"@, JsonView::Text(path)),
            ],
        ),
        None => JsonView::Object(
            seq![
                ("adapters"@, JsonView::Object(Seq::empty())),
                ("configured"@, JsonView::Bool(false)),
                ("default"@, JsonView::Null),
                (
                    "note"@,
                    JsonView::Text("set ANNA_LLM_ADAPTERS_FILE to enable adapter catalog"@),
                ),
                ("selected"@, JsonView::Null),
                ("source"@, JsonView::Null),
            ],
        ),
    }
}

pub open spec fn loaded_view(loaded: Option<&LoadedLlmAdapterCatalog>) -> Option<
    (Seq<char>, CatalogView),
> {
    match loaded {
        Some(loaded) => Some((loaded.path@, loaded.catalog@)),
        None => None,
    }
}

/// What is shown of a catalog, and of one that is not configured.
pub fn adapters_payload(loaded: Option<&LoadedLlmAdapterCatalog>, env: &StrMap<String>) -> (r: Json)
    ensures
        r@ == catalog_json(loaded_view(loaded), env.entries()),
{
    let data = match loaded {
        Some(loaded) => {
            let selected = active_llm_adapter_name(Some(&loaded.catalog), env);
            let data = object1("adapters", adapters_value(&loaded.catalog.adapters));
            let data = with_member(data, "configured", Json::Bool(true));
            let data = with_member(data, "default", opt_text_value(&loaded.catalog.default));
            let data = with_member(data, "selected", opt_text_value(&selected));
            with_member(data, "source", text(loaded.path.as_str()))
        },
        None => {
            let data = object1("adapters", empty_object());
            let data = with_member(data, "configured", Json::Bool(false));
            let data = with_member(data, "default", Json::Null);
            let data = with_member(
                data,
                "note",
                text("set ANNA_LLM_ADAPTERS_FILE to enable adapter catalog"),
            );
            let data = with_member(data, "selected", Json::Null);
            with_member(data, "source", Json::Null)
        },
    };
    assert(data@->Object_0 =~= catalog_json(loaded_view(loaded), env.entries())->Object_0);
    data
}

/// A text, or the word that stands for none.
pub open spec fn or_none(value: Option<Seq<char>>) -> Seq<char> {
    match value {
        Some(value) => value,
        None => "<none>"@,
    }
}

/// The lines of names, each with a dash before it.
pub open spec fn dashed(names: Seq<Seq<char>>) -> Seq<Seq<char>> {
    Seq::new(names.len(), |i: int| "  - "@ + names[i])
}

/// The lines that show a catalog.
pub open spec fn catalog_lines(
    path: Seq<char>,
    catalog: CatalogView,
    env: Seq<(Seq<char>, Seq<char>)>,
) -> Seq<Seq<char>> {
    let head = seq![
        "source: "@ + path,
        "selected: "@ + or_none(active_adapter(Some(catalog), env)),
        "default: "@ + or_none(catalog.default),
    ];
    if catalog.adapters.len() == 0 {
        head.push("adapters: <none>"@)
    } else {
        head.push("adapters:"@) + dashed(sorted_distinct(keys_of(catalog.adapters)))
    }
}

fn labelled(label: &str, value: &Option<String>) -> (r: String)
    ensures
        r@ == label@ + or_none(opt_text(*value)),
{
    match value {
        Some(value) => cat2(label, value.as_str()),
        None => cat2(label, "<none>"),
    }
}

/// The lines that show a catalog: its adapters in the order of their names.
pub fn adapters_report(loaded: &LoadedLlmAdapterCatalog, env: &StrMap<String>) -> (r: Vec<String>)
    ensures
        texts(r@) == catalog_lines(loaded.path@, loaded.catalog@, env.entries()),
{
    broadcast use group_texts;

    let selected = active_llm_adapter_name(Some(&loaded.catalog), env);
    let mut lines: Vec<String> = Vec::new();
    lines.push(cat2("source: ", loaded.path.as_str()));
    lines.push(labelled("selected: ", &selected));
    lines.push(labelled("default: ", &loaded.catalog.default));
    let adapters = &loaded.catalog.adapters;
    let ghost all = adapters.entries();
    let ghost head = seq![
        "source: "@ + loaded.path@,
        "selected: "@ + or_none(active_adapter(Some(loaded.catalog@), env.entries())),
        "default: "@ + or_none(loaded.catalog@.default),
    ];
    assert(texts(lines@) =~= head);
    let n: usize = adapters.len();
    if n == 0 {
        lines.push("adapters: <none>".to_owned());
        return lines;
    }
    lines.push("adapters:".to_owned());
    let mut keys: Vec<String> = Vec::new();
    let mut i: usize = 0;
    while i < n
        invariant
            i <= n,
            n == all.len(),
            all == adapters.entries(),
            keys@.len() == i,
            forall|j: int| 0 <= j < i ==> (#[trigger] keys@[j])@ == all[j].0,
        decreases n - i,
    {
        keys.push(adapters.key_at(i).to_owned());
        i += 1;
    }
    assert(texts(keys@) =~= keys_of(all));
    let names = sort_distinct(&keys);
    let ghost shown = texts(names@);
    let ghost start = head.push("adapters:"@);
    assert(texts(lines@) =~= start);
    assert(dashed(shown).take(0) =~= Seq::empty());
    assert(start + Seq::<Seq<char>>::empty() =~= start);
    let mut i: usize = 0;
    while i < names.len()
        invariant
            i <= names@.len(),
            shown == texts(names@),
            texts(lines@) == start + dashed(shown).take(i as int),
        decreases names@.len() - i,
    {
        let line = cat2("  - ", names[i].as_str());
        assert(shown[i as int] == names@[i as int]@);
        assert(dashed(shown).take(i + 1) =~= dashed(shown).take(i as int).push(line@));
        let ghost before = texts(lines@);
        let ghost told = line@;
        lines.push(line);
        assert(texts(lines@) =~= before.push(told));
        assert(start + dashed(shown).take(i + 1) =~= before.push(told));
        i += 1;
    }
    assert(dashed(shown).take(i as int) =~= dashed(shown));
    lines
}

/// An adapter is shown whole, and every adapter is.
pub proof fn adapters_are_shown(
    adapter: AdapterView,
    adapters: Seq<(Seq<char>, AdapterView)>,
    map: Seq<(Seq<char>, Seq<char>)>,
    i: int,
)
    ensures
        holds(adapter_json(adapter), "args"@, JsonView::Array(json_texts(adapter.args))),
        holds(adapter_json(adapter), "env"@, JsonView::Object(text_members(adapter.env))),
        holds(adapter_json(adapter), "exec"@, JsonView::Text(adapter.command)),
        holds(adapter_json(adapter), "model"@, text_or_null(adapter.model)),
        holds(adapter_json(adapter), "parse"@, text_or_null(adapter.parse)),
        adapter_members(adapters).len() == adapters.len(),
        0 <= i < adapters.len() ==> adapter_members(adapters)[i] == (
            adapters[i].0,
            adapter_json(adapters[i].1),
        ),
        text_members(map).len() == map.len(),
        0 <= i < map.len() ==> text_members(map)[i] == (map[i].0, JsonView::Text(map[i].1)),
{
    let members = members_of(adapter_json(adapter));
    assert(members[0].0 == "args"@);
    assert(members[1].0 == "env"@);
    assert(members[2].0 == "exec"@);
    assert(members[3].0 == "model"@);
    assert(members[4].0 == "parse"@);
}

/// A catalog is shown with the adapter that is selected; without one that is said.
pub proof fn catalogs_are_shown(
    path: Seq<char>,
    catalog: CatalogView,
    env: Seq<(Seq<char>, Seq<char>)>,
)
    ensures
        ({
            let shown = catalog_json(Some((path, catalog)), env);
            &&& holds(shown, "configured"@, JsonView::Bool(true))
            &&& holds(shown, "adapters"@, JsonView::Object(adapter_members(catalog.adapters)))
            &&& holds(shown, "default"@, text_or_null(catalog.default))
            &&& holds(shown, "selected"@, text_or_null(active_adapter(Some(catalog), env)))
            &&& holds(shown, "source"@, JsonView::Text(path))
        }),
        holds(catalog_json(None, env), "configured"@, JsonView::Bool(false)),
        holds(catalog_json(None, env), "selected"@, JsonView::Null),
{
    let shown = members_of(catalog_json(Some((path, catalog)), env));
    assert(shown[0].0 == "adapters"@);
    assert(shown[1].0 == "configured"@);
    assert(shown[2].0 == "default"@);
    assert(shown[3].0 == "selected"@);
    assert(shown[4].0 == "source"@);
    let none = members_of(catalog_json(None, env));
    assert(none[1].0 == "configured"@);
    assert(none[4].0 == "selected"@);
}

/// The lines of a catalog name where it comes from, what is selected, the default and
/// every adapter in order.
pub proof fn catalogs_are_listed(
    path: Seq<char>,
    catalog: CatalogView,
    env: Seq<(Seq<char>, Seq<char>)>,
    name: Seq<char>,
    names: Seq<Seq<char>>,
    i: int,
)
    ensures
        ({
            let lines = catalog_lines(path, catalog, env);
            &&& lines[0] == "source: "@ + path
            &&& lines[1] == "selected: "@ + or_none(active_adapter(Some(catalog), env))
            &&& lines[2] == "default: "@ + or_none(catalog.default)
            &&& catalog.adapters.len() == 0 ==> lines[3] == "adapters: <none>"@ && lines.len() == 4
            &&& catalog.adapters.len() > 0 ==> lines[3] == "adapters:"@ && lines.skip(4) == dashed(
                sorted_distinct(keys_of(catalog.adapters)),
            )
        }),
        or_none(Some(name)) == name,
        or_none(None) == "<none>"@,
        dashed(names).len() == names.len(),
        0 <= i < names.len() ==> dashed(names)[i] == "  - "@ + names[i],
        catalog_error(path, name) == fault(
            "provider_start_failed"@,
            "invalid llm adapter catalog '"@ + path + "': "@ + name,
        ),
{
    let lines = catalog_lines(path, catalog, env);
    if catalog.adapters.len() > 0 {
        assert(lines.skip(4) =~= dashed(sorted_distinct(keys_of(catalog.adapters))));
    }
}

} // verus!
