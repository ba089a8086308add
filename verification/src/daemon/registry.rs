//! The registry of flows.
use crate::daemon::flows::{collect_required_providers, providers_of, FlowView, WorkflowEntry};
use crate::order::sorted_distinct;
use crate::paths::{extension, extension_of, file_name, file_name_of, join_path, joined_path};
use crate::ranking::views;
use crate::text::{
    blank, cat3, cat4, cat5, clone_opt, clone_texts, group_texts, opt_text, same, texts, trim, trimmed,
};
use crate::workflow::{Workflow, WorkflowView};
use vstd::prelude::*;
use vstd::string::*;

pub mod laws;

verus! {

/// A flow as the registry names it.
pub struct FlowRegistryEntry {
    pub flow_id: String,
    pub path: String,
    pub tags: Vec<String>,
    pub required_capabilities: Vec<String>,
    pub owner: Option<String>,
    pub version: Option<String>,
    pub max_concurrency: Option<u32>,
}

/// A registered flow, as plain values.
pub struct RegisteredView {
    pub flow_id: Seq<char>,
    pub path: Seq<char>,
    pub tags: Seq<Seq<char>>,
    pub required_capabilities: Seq<Seq<char>>,
    pub owner: Option<Seq<char>>,
    pub version: Option<Seq<char>>,
    pub max_concurrency: Option<u32>,
}

impl View for FlowRegistryEntry {
    type V = RegisteredView;

    open spec fn view(&self) -> RegisteredView {
        RegisteredView {
            flow_id: self.flow_id@,
            path: self.path@,
            tags: texts(self.tags@),
            required_capabilities: texts(self.required_capabilities@),
            owner: opt_text(self.owner),
            version: opt_text(self.version),
            max_concurrency: self.max_concurrency,
        }
    }
}

/// A text without blanks at its ends, where it is not blank.
pub open spec fn trimmed_opt(text: Option<Seq<char>>) -> Option<Seq<char>> {
    match text {
        Some(t) => if blank(t) {
            None
        } else {
            Some(trimmed(t))
        },
        None => None,
    }
}

pub fn trim_opt(text: &Option<String>) -> (r: Option<String>)
    ensures
        opt_text(r) == trimmed_opt(opt_text(*text)),
{
    match text {
        Some(t) => {
            let t = trim(t.as_str());
            if t.is_empty() {
                None
            } else {
                Some(t.to_owned())
            }
        },
        None => None,
    }
}

/// A registered flow without blanks at the ends of its fields.
pub open spec fn normal_entry(entry: RegisteredView) -> RegisteredView {
    RegisteredView {
        flow_id: trimmed(entry.flow_id),
        path: trimmed(entry.path),
        owner: trimmed_opt(entry.owner),
        version: trimmed_opt(entry.version),
        ..entry
    }
}

pub fn normalize_registry_entry_fields(registry_entry: &mut FlowRegistryEntry)
    ensures
        final(registry_entry)@ == normal_entry(old(registry_entry)@),
{
    let flow_id = trim(registry_entry.flow_id.as_str()).to_owned();
    let path = trim(registry_entry.path.as_str()).to_owned();
    let owner = trim_opt(&registry_entry.owner);
    let version = trim_opt(&registry_entry.version);
    registry_entry.flow_id = flow_id;
    registry_entry.path = path;
    registry_entry.owner = owner;
    registry_entry.version = version;
}

pub open spec fn normal_entries(entries: Seq<RegisteredView>) -> Seq<RegisteredView> {
    Seq::new(entries.len(), |i: int| normal_entry(entries[i]))
}

/// Whether one of the first `n` flows has the id.
pub open spec fn id_taken(entries: Seq<RegisteredView>, n: int, id: Seq<char>) -> bool {
    exists|j: int| 0 <= j < n && j < entries.len() && (#[trigger] entries[j]).flow_id == id
}

/// What is wrong with flow `i` of a registry.
pub open spec fn entry_problem(entries: Seq<RegisteredView>, i: int, file: Seq<char>) -> Option<
    Seq<char>,
> {
    let e = entries[i];
    if e.flow_id.len() == 0 {
        Some("flow registry '"@ + file + "' has entry with empty flow_id"@)
    } else if e.path.len() == 0 {
        Some("flow registry '"@ + file + "' has entry '"@ + e.flow_id + "' with empty path"@)
    } else if id_taken(entries, i, e.flow_id) {
        Some("flow registry '"@ + file + "' has duplicate flow_id '"@ + e.flow_id + "'"@)
    } else if e.max_concurrency == Some(0u32) {
        Some(
            "flow registry '"@ + file + "' has entry '"@ + e.flow_id
                + "' with invalid max_concurrency=0"@,
        )
    } else {
        None
    }
}

/// The first problem with the first `n` flows of a registry.
pub open spec fn entries_problem(entries: Seq<RegisteredView>, n: int, file: Seq<char>) -> Option<
    Seq<char>,
>
    decreases n,
{
    if n <= 0 {
        None
    } else {
        match entries_problem(entries, n - 1, file) {
            Some(p) => Some(p),
            None => entry_problem(entries, n - 1, file),
        }
    }
}

/// What is wrong with a registry.
pub open spec fn registry_problem(entries: Seq<RegisteredView>, file: Seq<char>) -> Option<
    Seq<char>,
> {
    if entries.len() == 0 {
        Some("flow registry '"@ + file + "' has no entries"@)
    } else {
        entries_problem(normal_entries(entries), entries.len() as int, file)
    }
}

fn id_among(entries: &Vec<FlowRegistryEntry>, n: usize, id: &str) -> (r: bool)
    requires
        n <= entries@.len(),
    ensures
        r == id_taken(views(entries@), n as int, id@),
{
    let ghost all = views(entries@);
    let mut i: usize = 0;
    while i < n
        invariant
            i <= n <= entries@.len(),
            all == views(entries@),
            forall|j: int| 0 <= j < i ==> (#[trigger] all[j]).flow_id != id@,
        decreases n - i,
    {
        if same(entries[i].flow_id.as_str(), id) {
            assert(all[i as int].flow_id == id@);
            return true;
        }
        i += 1;
    }
    false
}

/// Checks flow `i` of a registry whose fields are normal.
pub fn validate_registry_entry(entries: &Vec<FlowRegistryEntry>, i: usize, file: &str) -> (r: Result<
    (),
    String,
>)
    requires
        i < entries@.len(),
    ensures
        match r {
            Ok(()) => entry_problem(views(entries@), i as int, file@) is None,
            Err(message) => entry_problem(views(entries@), i as int, file@) == Some(message@),
        },
{
    let entry = &entries[i];
    assert(views(entries@)[i as int] == entry@);
    if entry.flow_id.as_str().is_empty() {
        return Err(cat3("flow registry '", file, "' has entry with empty flow_id"));
    }
    if entry.path.as_str().is_empty() {
        return Err(
            cat5(
                "flow registry '",
                file,
                "' has entry '",
                entry.flow_id.as_str(),
                "' with empty path",
            ),
        );
    }
    if id_among(entries, i, entry.flow_id.as_str()) {
        return Err(
            cat5(
                "flow registry '",
                file,
                "' has duplicate flow_id '",
                entry.flow_id.as_str(),
                "'",
            ),
        );
    }
    if let Some(limit) = entry.max_concurrency {
        if limit == 0 {
            return Err(
                cat5(
                    "flow registry '",
                    file,
                    "' has entry '",
                    entry.flow_id.as_str(),
                    "' with invalid max_concurrency=0",
                ),
            );
        }
    }
    Ok(())
}

proof fn entries_problem_sticks(entries: Seq<RegisteredView>, n: int, m: int, file: Seq<char>)
    requires
        n <= m,
        entries_problem(entries, n, file) is Some,
    ensures
        entries_problem(entries, m, file) == entries_problem(entries, n, file),
    decreases m - n,
{
    if n < m {
        entries_problem_sticks(entries, n, m - 1, file);
    }
}

fn normalize_all(entries: Vec<FlowRegistryEntry>) -> (r: Vec<FlowRegistryEntry>)
    ensures
        views(r@) == normal_entries(views(entries@)),
{
    let mut rest = entries;
    let mut out: Vec<FlowRegistryEntry> = Vec::new();
    let ghost all = views(entries@);
    assert(entries@.skip(0) =~= entries@);
    while rest.len() > 0
        invariant
            all == views(entries@),
            out@.len() + rest@.len() == entries@.len(),
            rest@ == entries@.skip(out@.len() as int),
            forall|k: int| 0 <= k < out@.len() ==> (#[trigger] out@[k])@ == normal_entry(all[k]),
        decreases rest@.len(),
    {
        let ghost n = out@.len() as int;
        let mut entry = rest.remove(0);
        assert(entry == entries@[n]);
        normalize_registry_entry_fields(&mut entry);
        out.push(entry);
        assert(rest@ =~= entries@.skip(n + 1));
    }
    assert(views(out@) =~= normal_entries(all));
    out
}

/// Checks a registry and makes the fields of its flows normal.
pub fn check_registry(entries: Vec<FlowRegistryEntry>, file: &str) -> (r: Result<
    Vec<FlowRegistryEntry>,
    String,
>)
    ensures
        match r {
            Ok(checked) => registry_problem(views(entries@), file@) is None && views(checked@)
                == normal_entries(views(entries@)),
            Err(message) => registry_problem(views(entries@), file@) == Some(message@),
        },
{
    if entries.len() == 0 {
        return Err(cat3("flow registry '", file, "' has no entries"));
    }
    let checked = normalize_all(entries);
    let ghost all = views(checked@);
    assert(all.len() == checked@.len() && all.len() == views(entries@).len());
    let mut i: usize = 0;
    while i < checked.len()
        invariant
            i <= checked@.len(),
            checked@.len() == entries@.len(),
            entries@.len() > 0,
            all == views(checked@),
            all == normal_entries(views(entries@)),
            entries_problem(all, i as int, file@) is None,
        decreases checked@.len() - i,
    {
        if let Err(message) = validate_registry_entry(&checked, i, file) {
            proof {
                entries_problem_sticks(all, i + 1, all.len() as int, file@);
            }
            return Err(message);
        }
        i += 1;
    }
    Ok(checked)
}

/// No two flows of a checked registry share an id.
pub proof fn checked_ids_differ(
    entries: Seq<RegisteredView>,
    file: Seq<char>,
    i: int,
    j: int,
)
    requires
        registry_problem(entries, file) is None,
        0 <= i < j < entries.len(),
    ensures
        normal_entries(entries)[i].flow_id != normal_entries(entries)[j].flow_id,
        normal_entries(entries)[i].flow_id.len() > 0,
        normal_entries(entries)[i].path.len() > 0,
{
    let all = normal_entries(entries);
    no_entry_problem(all, all.len() as int, file, i);
    no_entry_problem(all, all.len() as int, file, j);
    assert(!id_taken(all, j, all[j].flow_id));
    assert(all[i].flow_id != all[j].flow_id);
}

proof fn no_entry_problem(entries: Seq<RegisteredView>, n: int, file: Seq<char>, i: int)
    requires
        0 <= i < n,
        entries_problem(entries, n, file) is None,
    ensures
        entry_problem(entries, i, file) is None,
    decreases n,
{
    if i < n - 1 {
        no_entry_problem(entries, n - 1, file, i);
    }
}

/// The file of a registered flow, from the directory of plays.
pub fn resolve_registry_workflow_path(plays_dir: &str, raw_path: &str) -> (r: String)
    ensures
        r@ == joined_path(plays_dir@, trimmed(raw_path@)),
{
    join_path(plays_dir, trim(raw_path))
}

/// A registered flow with its workflow.
pub open spec fn registered_flow_view(
    spec_entry: RegisteredView,
    workflow: WorkflowView,
    path: Seq<char>,
    file_name: Seq<char>,
) -> FlowView {
    FlowView {
        file_name,
        flow_id: Some(spec_entry.flow_id),
        workflow_name: workflow.name,
        path,
        tags: spec_entry.tags,
        required_capabilities: spec_entry.required_capabilities,
        required_providers: sorted_distinct(providers_of(workflow.stages)),
        owner: spec_entry.owner,
        version: spec_entry.version,
        max_concurrency: spec_entry.max_concurrency,
        trigger_webhook: workflow.trigger.webhook,
        trigger_watch: workflow.trigger.watch,
        trigger_cron: workflow.trigger.cron,
        trigger_interval: workflow.trigger.interval,
        workflow_workdir: workflow.workdir,
    }
}

/// A registered flow with its workflow.
pub fn registered_flow(
    entry: &FlowRegistryEntry,
    workflow: &Workflow,
    path: &str,
    file_name: &str,
) -> (r: WorkflowEntry)
    ensures
        r@ == registered_flow_view(entry@, workflow@, path@, file_name@),
{
    WorkflowEntry {
        file_name: file_name.to_owned(),
        flow_id: Some(entry.flow_id.clone()),
        workflow_name: workflow.name.clone(),
        path: path.to_owned(),
        tags: clone_texts(&entry.tags),
        required_capabilities: clone_texts(&entry.required_capabilities),
        required_providers: collect_required_providers(workflow),
        owner: clone_opt(&entry.owner),
        version: clone_opt(&entry.version),
        max_concurrency: entry.max_concurrency,
        trigger_webhook: clone_opt(&workflow.trigger.webhook),
        trigger_watch: clone_opt(&workflow.trigger.watch),
        trigger_cron: clone_opt(&workflow.trigger.cron),
        trigger_interval: clone_opt(&workflow.trigger.interval),
        workflow_workdir: clone_opt(&workflow.workdir),
    }
}

/// The flow of a registration, whose workflow was loaded from its file where that
/// could be done.
pub open spec fn registered_result(
    registry: Seq<char>,
    plays_dir: Seq<char>,
    listed: RegisteredView,
    loaded: Option<WorkflowView>,
) -> Result<FlowView, Seq<char>> {
    let path = joined_path(plays_dir, trimmed(listed.path));
    match loaded {
        None => Err(
            "flow registry '"@ + registry + "' entry '"@ + listed.flow_id
                + "' points to invalid workflow '"@ + path + "'"@,
        ),
        Some(workflow) => match file_name_of(path) {
            Some(name) => Ok(registered_flow_view(listed, workflow, path, name)),
            None => Err("invalid workflow filename in '"@ + path + "'"@),
        },
    }
}

pub open spec fn flow_result(r: Result<WorkflowEntry, String>) -> Result<FlowView, Seq<char>> {
    match r {
        Ok(entry) => Ok(entry@),
        Err(message) => Err(message@),
    }
}

pub open spec fn opt_workflow(workflow: Option<&Workflow>) -> Option<WorkflowView> {
    match workflow {
        Some(workflow) => Some(workflow@),
        None => None,
    }
}

/// The flow of a registration, or why there is none.
pub fn registered_entry(
    registry: &str,
    plays_dir: &str,
    listed: &FlowRegistryEntry,
    loaded: Option<&Workflow>,
) -> (r: Result<WorkflowEntry, String>)
    ensures
        flow_result(r) == registered_result(registry@, plays_dir@, listed@, opt_workflow(loaded)),
{
    let path = resolve_registry_workflow_path(plays_dir, listed.path.as_str());
    match loaded {
        None => {
            let head = cat4("flow registry '", registry, "' entry '", listed.flow_id.as_str());
            Err(cat4(head.as_str(), "' points to invalid workflow '", path.as_str(), "'"))
        },
        Some(workflow) => match file_name(path.as_str()) {
            Some(name) => Ok(registered_flow(listed, workflow, path.as_str(), name.as_str())),
            None => Err(cat3("invalid workflow filename in '", path.as_str(), "'")),
        },
    }
}

/// What was loaded for position `i`.
pub open spec fn loaded_at(loaded: Seq<Option<Workflow>>, i: int) -> Option<WorkflowView> {
    if 0 <= i < loaded.len() {
        match loaded[i] {
            Some(workflow) => Some(workflow@),
            None => None,
        }
    } else {
        None
    }
}

/// The flows of the first `n` registrations, or the error of the first that has
/// none.
pub open spec fn registered_list(
    registry: Seq<char>,
    plays_dir: Seq<char>,
    listed: Seq<RegisteredView>,
    loaded: Seq<Option<Workflow>>,
    n: int,
) -> Result<Seq<FlowView>, Seq<char>>
    decreases n,
{
    if n <= 0 {
        Ok(Seq::empty())
    } else {
        match registered_list(registry, plays_dir, listed, loaded, n - 1) {
            Err(message) => Err(message),
            Ok(flows) => match registered_result(
                registry,
                plays_dir,
                listed[n - 1],
                loaded_at(loaded, n - 1),
            ) {
                Err(message) => Err(message),
                Ok(flow) => Ok(flows.push(flow)),
            },
        }
    }
}

/// The flows of a list, in views.
pub open spec fn flows_result(r: Result<Vec<WorkflowEntry>, String>) -> Result<
    Seq<FlowView>,
    Seq<char>,
> {
    match r {
        Ok(entries) => Ok(views(entries@)),
        Err(message) => Err(message@),
    }
}

proof fn list_error_sticks(
    registry: Seq<char>,
    plays_dir: Seq<char>,
    listed: Seq<RegisteredView>,
    loaded: Seq<Option<Workflow>>,
    i: int,
    n: int,
)
    requires
        i <= n,
        registered_list(registry, plays_dir, listed, loaded, i) is Err,
    ensures
        registered_list(registry, plays_dir, listed, loaded, n) == registered_list(
            registry,
            plays_dir,
            listed,
            loaded,
            i,
        ),
    decreases n - i,
{
    if i < n {
        list_error_sticks(registry, plays_dir, listed, loaded, i, n - 1);
    }
}

/// The flows of a registry, one for each registration and in their order, or the
/// error of the first that has none. `loaded` holds, by position, the workflows that
/// could be loaded from their files.
pub fn registered_entries(
    registry: &str,
    plays_dir: &str,
    listed: &Vec<FlowRegistryEntry>,
    loaded: &Vec<Option<Workflow>>,
) -> (r: Result<Vec<WorkflowEntry>, String>)
    ensures
        flows_result(r) == registered_list(
            registry@,
            plays_dir@,
            views(listed@),
            loaded@,
            listed@.len() as int,
        ),
{
    let ghost all = views(listed@);
    let mut out: Vec<WorkflowEntry> = Vec::new();
    assert(views(out@) =~= Seq::<FlowView>::empty());
    let mut i: usize = 0;
    while i < listed.len()
        invariant
            i <= listed@.len(),
            all == views(listed@),
            registered_list(registry@, plays_dir@, all, loaded@, i as int) == Ok::<
                Seq<FlowView>,
                Seq<char>,
            >(views(out@)),
        decreases listed@.len() - i,
    {
        let workflow = if i < loaded.len() {
            loaded[i].as_ref()
        } else {
            None
        };
        assert(opt_workflow(workflow) == loaded_at(loaded@, i as int));
        assert(all[i as int] == listed@[i as int]@);
        match registered_entry(registry, plays_dir, &listed[i], workflow) {
            Ok(entry) => {
                let ghost before = views(out@);
                let ghost flow = entry@;
                out.push(entry);
                assert(views(out@) =~= before.push(flow));
            },
            Err(message) => {
                proof {
                    list_error_sticks(
                        registry@,
                        plays_dir@,
                        all,
                        loaded@,
                        i + 1,
                        listed@.len() as int,
                    );
                }
                return Err(message);
            },
        }
        i += 1;
    }
    Ok(out)
}

/// A registry is listed whole or not at all: one flow for each registration, in
/// their order, or the error of the first that has none.
pub proof fn registry_is_listed_whole(
    registry: Seq<char>,
    plays_dir: Seq<char>,
    listed: Seq<RegisteredView>,
    loaded: Seq<Option<Workflow>>,
    n: int,
)
    requires
        0 <= n <= listed.len(),
    ensures
        match registered_list(registry, plays_dir, listed, loaded, n) {
            Ok(flows) => flows.len() == n && forall|i: int|
                0 <= i < n ==> registered_result(
                    registry,
                    plays_dir,
                    listed[i],
                    loaded_at(loaded, i),
                ) == Ok::<FlowView, Seq<char>>(#[trigger] flows[i]),
            Err(message) => exists|i: int|
                0 <= i < n && registered_result(
                    registry,
                    plays_dir,
                    #[trigger] listed[i],
                    loaded_at(loaded, i),
                ) == Err::<FlowView, Seq<char>>(message) && forall|j: int|
                    0 <= j < i ==> registered_result(
                        registry,
                        plays_dir,
                        #[trigger] listed[j],
                        loaded_at(loaded, j),
                    ) is Ok,
        },
    decreases n,
{
    if n > 0 {
        registry_is_listed_whole(registry, plays_dir, listed, loaded, n - 1);
        if let Ok(flows) = registered_list(registry, plays_dir, listed, loaded, n - 1) {
            assert forall|j: int| 0 <= j < n - 1 implies registered_result(
                registry,
                plays_dir,
                #[trigger] listed[j],
                loaded_at(loaded, j),
            ) is Ok by {
                assert(registered_result(
                    registry,
                    plays_dir,
                    listed[j],
                    loaded_at(loaded, j),
                ) == Ok::<FlowView, Seq<char>>(flows[j]));
            }
            assert(listed[n - 1] == listed[n - 1]);
        }
    }
}

/// A flow that was found in the directory of plays: it has no registration.
pub open spec fn discovered_flow_view(
    workflow: WorkflowView,
    path: Seq<char>,
    file_name: Seq<char>,
) -> FlowView {
    FlowView {
        file_name,
        flow_id: None,
        workflow_name: workflow.name,
        path,
        tags: Seq::empty(),
        required_capabilities: Seq::empty(),
        required_providers: sorted_distinct(providers_of(workflow.stages)),
        owner: None,
        version: None,
        max_concurrency: None,
        trigger_webhook: workflow.trigger.webhook,
        trigger_watch: workflow.trigger.watch,
        trigger_cron: workflow.trigger.cron,
        trigger_interval: workflow.trigger.interval,
        workflow_workdir: workflow.workdir,
    }
}

/// A flow that was found in the directory of plays.
pub fn discovered_flow(workflow: &Workflow, path: &str, file_name: &str) -> (r: WorkflowEntry)
    ensures
        r@ == discovered_flow_view(workflow@, path@, file_name@),
{
    broadcast use group_texts;

    WorkflowEntry {
        file_name: file_name.to_owned(),
        flow_id: None,
        workflow_name: workflow.name.clone(),
        path: path.to_owned(),
        tags: Vec::new(),
        required_capabilities: Vec::new(),
        required_providers: collect_required_providers(workflow),
        owner: None,
        version: None,
        max_concurrency: None,
        trigger_webhook: clone_opt(&workflow.trigger.webhook),
        trigger_watch: clone_opt(&workflow.trigger.watch),
        trigger_cron: clone_opt(&workflow.trigger.cron),
        trigger_interval: clone_opt(&workflow.trigger.interval),
        workflow_workdir: clone_opt(&workflow.workdir),
    }
}

/// Whether a file in the directory of plays is a flow's.
pub fn is_flow_file(path: &str) -> (r: bool)
    ensures
        r == (extension_of(path@) == Some("anna"@)),
{
    match extension(path) {
        Some(ext) => same(ext.as_str(), "anna"),
        None => false,
    }
}

/// The flow of a file in the directory of plays, whose workflow was loaded where
/// that could be done; other files, and those with no valid workflow, are passed
/// over.
pub fn discovered_entry(path: &str, loaded: Option<&Workflow>) -> (r: Option<WorkflowEntry>)
    ensures
        opt_flow(r) == match (extension_of(path@) == Some("anna"@), file_name_of(path@), loaded) {
            (true, Some(name), Some(workflow)) => Some(
                discovered_flow_view(workflow@, path@, name),
            ),
            _ => None,
        },
{
    if !is_flow_file(path) {
        return None;
    }
    match (file_name(path), loaded) {
        (Some(name), Some(workflow)) => Some(discovered_flow(workflow, path, name.as_str())),
        _ => None,
    }
}

pub open spec fn opt_flow(entry: Option<WorkflowEntry>) -> Option<FlowView> {
    match entry {
        Some(entry) => Some(entry@),
        None => None,
    }
}

} // verus!
