//! Listing and launching flows: the catalog of flows, launches by request and
//! by trigger, and hooks.
use crate::daemon::flows::{
    build_running_indexes, counts_owners, counts_workflows, evaluate_flow_readiness,
    flow_readiness_runtime, opt_refusal, owner_key, owner_limit, owner_limit_for, readiness_of,
    running_counts_for_entry, running_of_opt_owner, running_of_owner, running_of_workflow,
    FlowReadiness, FlowReadinessRuntime, FlowView, NodePolicy, NodeView, ReadinessView,
    WorkflowEntry,
};
use crate::daemon::sessions::{Refusal, RefusalView, SessionInfo, SessionView};
use crate::number::{decimal, u64_text};
use crate::order::{
    less, sort_distinct, sorted_distinct, text_less, text_less_total, text_less_transitive,
};
use crate::providers::{add_all, with_all};
use crate::ranking::{limit_to, limited, rank_all, ranked, views, Rank, RankView};
use crate::strmap::{lookup, StrMap};
use crate::text::{
    as_str_opt, blank, cat2, cat3, cat4, cat5, cat6, clone_opt, clone_texts, ends_with, is_blank,
    join, joined, lowered, matches_at, opt_str, opt_text, same, same_ignoring_case, texts, to_lower,
    trim, trim_by, trim_text_by, trimmed, CharSet,
};
use crate::workflow::{Workflow, WorkflowView};
use vstd::prelude::*;
use vstd::string::*;

pub mod laws;

verus! {

// ---------------------------------------------------------------- names

/// The id of a flow: the one in the registry, else its file name.
pub open spec fn public_id(entry: FlowView) -> Seq<char> {
    match entry.flow_id {
        Some(id) => if blank(id) {
            entry.file_name
        } else {
            id
        },
        None => entry.file_name,
    }
}

pub fn workflow_public_id(entry: &WorkflowEntry) -> (r: String)
    ensures
        r@ == public_id(entry@),
{
    match &entry.flow_id {
        Some(id) => {
            if is_blank(id.as_str()) {
                entry.file_name.clone()
            } else {
                id.clone()
            }
        },
        None => entry.file_name.clone(),
    }
}

pub open spec fn public_ids(entries: Seq<FlowView>) -> Seq<Seq<char>> {
    Seq::new(entries.len(), |i: int| public_id(entries[i]))
}

/// The ids of all flows, in ascending order.
pub fn workflow_ids(entries: &Vec<WorkflowEntry>) -> (r: Vec<String>)
    ensures
        texts(r@) == sorted_distinct(public_ids(views(entries@))),
{
    let mut ids: Vec<String> = Vec::new();
    let mut i: usize = 0;
    while i < entries.len()
        invariant
            i <= entries.len(),
            ids@.len() == i,
            forall|j: int| 0 <= j < i ==> (#[trigger] ids@[j])@ == public_id(entries@[j]@),
        decreases entries.len() - i,
    {
        ids.push(workflow_public_id(&entries[i]));
        i += 1;
    }
    assert(texts(ids@) =~= public_ids(views(entries@)));
    sort_distinct(&ids)
}

/// Whether a flow goes by a name: its file's, its workflow's or its id.
pub open spec fn goes_by(entry: FlowView, name: Seq<char>) -> bool {
    entry.file_name == name || entry.workflow_name == name || entry.flow_id == Some(name)
}

/// The first flow at or after `i` that goes by the name.
pub open spec fn first_named(entries: Seq<FlowView>, name: Seq<char>, i: int) -> Option<int>
    decreases entries.len() - i,
{
    if i < 0 || i >= entries.len() {
        None
    } else if goes_by(entries[i], name) {
        Some(i)
    } else {
        first_named(entries, name, i + 1)
    }
}

/// The first flow at or after `i` whose file has the name.
pub open spec fn first_file(entries: Seq<FlowView>, name: Seq<char>, i: int) -> Option<int>
    decreases entries.len() - i,
{
    if i < 0 || i >= entries.len() {
        None
    } else if entries[i].file_name == name {
        Some(i)
    } else {
        first_file(entries, name, i + 1)
    }
}

/// The flow that a name stands for: one that goes by it, else the one whose
/// file is the name with `.anna` behind it.
pub open spec fn named_flow(entries: Seq<FlowView>, name: Seq<char>) -> Option<int> {
    let n = trimmed(name);
    match first_named(entries, n, 0) {
        Some(i) => Some(i),
        None => if matches_at(n, ".anna"@, n.len() - ".anna"@.len()) {
            None
        } else {
            first_file(entries, n + ".anna"@, 0)
        },
    }
}

/// The position of the flow that a name stands for.
pub fn resolve_registered_workflow_entry(entries: &Vec<WorkflowEntry>, name: &str) -> (r: Option<
    usize,
>)
    ensures
        match r {
            Some(i) => i < entries@.len() && named_flow(views(entries@), name@) == Some(i as int),
            None => named_flow(views(entries@), name@) is None,
        },
{
    let n = trim(name);
    let ghost all = views(entries@);
    let mut i: usize = 0;
    while i < entries.len()
        invariant
            i <= entries.len(),
            all == views(entries@),
            n@ == trimmed(name@),
            first_named(all, n@, 0) == first_named(all, n@, i as int),
        decreases entries.len() - i,
    {
        let entry = &entries[i];
        assert(all[i as int] == entry@);
        let by_id = match &entry.flow_id {
            Some(id) => same(id.as_str(), n),
            None => false,
        };
        if same(entry.file_name.as_str(), n) || same(entry.workflow_name.as_str(), n) || by_id {
            return Some(i);
        }
        i += 1;
    }
    if !ends_with(n, ".anna") {
        let file = cat2(n, ".anna");
        let mut i: usize = 0;
        while i < entries.len()
            invariant
                i <= entries.len(),
                all == views(entries@),
                file@ == n@ + ".anna"@,
                first_file(all, n@ + ".anna"@, 0) == first_file(all, n@ + ".anna"@, i as int),
                named_flow(all, name@) == first_file(all, n@ + ".anna"@, 0),
            decreases entries.len() - i,
        {
            assert(all[i as int] == entries@[i as int]@);
            if same(entries[i].file_name.as_str(), file.as_str()) {
                return Some(i);
            }
            i += 1;
        }
    }
    None
}

/// The flow that is found goes by the name, or its file is the name with
/// `.anna` behind it.
pub proof fn found_flow_is_named(entries: Seq<FlowView>, name: Seq<char>)
    ensures
        match named_flow(entries, name) {
            Some(i) => 0 <= i < entries.len() && (goes_by(entries[i], trimmed(name))
                || entries[i].file_name == trimmed(name) + ".anna"@),
            None => forall|i: int| 0 <= i < entries.len() ==> !goes_by(#[trigger] entries[i], trimmed(name)),
        },
{
    first_named_spec(entries, trimmed(name), 0);
    first_file_spec(entries, trimmed(name) + ".anna"@, 0);
}

proof fn first_named_spec(entries: Seq<FlowView>, name: Seq<char>, i: int)
    requires
        0 <= i,
    ensures
        match first_named(entries, name, i) {
            Some(k) => i <= k < entries.len() && goes_by(entries[k], name),
            None => forall|k: int| i <= k < entries.len() ==> !goes_by(#[trigger] entries[k], name),
        },
    decreases entries.len() - i,
{
    if i < entries.len() && !goes_by(entries[i], name) {
        first_named_spec(entries, name, i + 1);
    }
}

proof fn first_file_spec(entries: Seq<FlowView>, name: Seq<char>, i: int)
    requires
        0 <= i,
    ensures
        match first_file(entries, name, i) {
            Some(k) => i <= k < entries.len() && entries[k].file_name == name,
            None => true,
        },
    decreases entries.len() - i,
{
    if i < entries.len() && entries[i].file_name != name {
        first_file_spec(entries, name, i + 1);
    }
}

// ---------------------------------------------------------------- catalog

/// A flow with what stands in its way now.
pub struct WorkflowMetaResponse {
    pub id: String,
    pub workflow: String,
    pub file: String,
    pub path: String,
    pub tags: Vec<String>,
    pub required_capabilities: Vec<String>,
    pub required_providers: Vec<String>,
    pub owner: Option<String>,
    pub version: Option<String>,
    pub max_concurrency: Option<u32>,
    pub running: usize,
    pub concurrency_blocked: bool,
    pub owner_max_concurrency: Option<u32>,
    pub owner_running: usize,
    pub owner_concurrency_blocked: bool,
    pub available: bool,
    pub missing_capabilities: Vec<String>,
    pub missing_providers: Vec<String>,
    pub trigger_webhook: Option<String>,
    pub trigger_watch: Option<String>,
    pub trigger_cron: Option<String>,
    pub trigger_interval: Option<String>,
}

/// An item of the catalog, as plain values.
pub struct MetaView {
    pub id: Seq<char>,
    pub workflow: Seq<char>,
    pub file: Seq<char>,
    pub path: Seq<char>,
    pub tags: Seq<Seq<char>>,
    pub required_capabilities: Seq<Seq<char>>,
    pub required_providers: Seq<Seq<char>>,
    pub owner: Option<Seq<char>>,
    pub version: Option<Seq<char>>,
    pub max_concurrency: Option<u32>,
    pub running: usize,
    pub concurrency_blocked: bool,
    pub owner_max_concurrency: Option<u32>,
    pub owner_running: usize,
    pub owner_concurrency_blocked: bool,
    pub available: bool,
    pub missing_capabilities: Seq<Seq<char>>,
    pub missing_providers: Seq<Seq<char>>,
    pub trigger_webhook: Option<Seq<char>>,
    pub trigger_watch: Option<Seq<char>>,
    pub trigger_cron: Option<Seq<char>>,
    pub trigger_interval: Option<Seq<char>>,
}

impl View for WorkflowMetaResponse {
    type V = MetaView;

    open spec fn view(&self) -> MetaView {
        MetaView {
            id: self.id@,
            workflow: self.workflow@,
            file: self.file@,
            path: self.path@,
            tags: texts(self.tags@),
            required_capabilities: texts(self.required_capabilities@),
            required_providers: texts(self.required_providers@),
            owner: opt_text(self.owner),
            version: opt_text(self.version),
            max_concurrency: self.max_concurrency,
            running: self.running,
            concurrency_blocked: self.concurrency_blocked,
            owner_max_concurrency: self.owner_max_concurrency,
            owner_running: self.owner_running,
            owner_concurrency_blocked: self.owner_concurrency_blocked,
            available: self.available,
            missing_capabilities: texts(self.missing_capabilities@),
            missing_providers: texts(self.missing_providers@),
            trigger_webhook: opt_text(self.trigger_webhook),
            trigger_watch: opt_text(self.trigger_watch),
            trigger_cron: opt_text(self.trigger_cron),
            trigger_interval: opt_text(self.trigger_interval),
        }
    }
}

impl RankView for MetaView {
    /// Flows come in the order of their ids.
    open spec fn precedes(self, other: Self) -> bool {
        text_less(self.id, other.id)
    }

    proof fn asymmetric(self, other: Self) {
        text_less_total(self.id, other.id);
    }

    proof fn passes_on(self, middle: Self, last: Self) {
        text_less_total(self.id, middle.id);
        text_less_total(middle.id, last.id);
        if text_less(self.id, last.id) && !text_less(self.id, middle.id) && !text_less(
            middle.id,
            last.id,
        ) {
            text_less_total(self.id, last.id);
            if self.id != middle.id {
                text_less_transitive(middle.id, self.id, last.id);
            }
        }
    }
}

impl Rank for WorkflowMetaResponse {
    fn goes_before(&self, other: &Self) -> (r: bool) {
        less(self.id.as_str(), other.id.as_str())
    }
}

/// A limit in 32 bits.
pub open spec fn in_32_bits(limit: Option<usize>) -> Option<u32> {
    match limit {
        Some(n) => Some(n as u32),
        None => None,
    }
}

pub fn limit_in_32_bits(limit: Option<usize>) -> (r: Option<u32>)
    ensures
        r == in_32_bits(limit),
{
    match limit {
        Some(n) => Some(
            #[verifier::truncate]
            (n as u32),
        ),
        None => None,
    }
}

/// What a flow's readiness is when it is asked for, without a default limit.
pub open spec fn asked_readiness(
    entry: FlowView,
    node: NodeView,
    running: usize,
    owner_running: usize,
    default_max: Option<usize>,
) -> ReadinessView {
    readiness_of(
        entry.required_capabilities,
        entry.required_providers,
        entry.max_concurrency,
        node.capabilities,
        node.allowed,
        FlowReadinessRuntime {
            running,
            default_max_concurrency: default_max,
            owner_running,
            owner_max_concurrency: owner_limit(entry.owner, node.per_owner, node.default_limit),
        },
    )
}

/// The catalog item of a flow.
pub open spec fn meta_of(
    entry: FlowView,
    node: NodeView,
    running: usize,
    owner_running: usize,
) -> MetaView {
    let readiness = asked_readiness(entry, node, running, owner_running, None);
    MetaView {
        id: public_id(entry),
        workflow: entry.workflow_name,
        file: entry.file_name,
        path: entry.path,
        tags: entry.tags,
        required_capabilities: entry.required_capabilities,
        required_providers: entry.required_providers,
        owner: entry.owner,
        version: entry.version,
        max_concurrency: entry.max_concurrency,
        running,
        concurrency_blocked: readiness.concurrency_blocked,
        owner_max_concurrency: in_32_bits(readiness.owner_max_concurrency),
        owner_running,
        owner_concurrency_blocked: readiness.owner_concurrency_blocked,
        available: readiness.ready(),
        missing_capabilities: readiness.missing_capabilities,
        missing_providers: readiness.missing_providers,
        trigger_webhook: entry.trigger_webhook,
        trigger_watch: entry.trigger_watch,
        trigger_cron: entry.trigger_cron,
        trigger_interval: entry.trigger_interval,
    }
}

fn meta_item(entry: &WorkflowEntry, node: &NodePolicy, running: usize, owner_running: usize) -> (r:
    WorkflowMetaResponse)
    ensures
        r@ == meta_of(entry@, node@, running, owner_running),
{
    let limit = owner_limit_for(as_str_opt(&entry.owner), &node.owners);
    let readiness = evaluate_flow_readiness(
        entry,
        &node.capabilities,
        &node.allowed_providers,
        flow_readiness_runtime(running, None, owner_running, limit),
    );
    let available = readiness.can_run();
    WorkflowMetaResponse {
        id: workflow_public_id(entry),
        workflow: entry.workflow_name.clone(),
        file: entry.file_name.clone(),
        path: entry.path.clone(),
        tags: clone_texts(&entry.tags),
        required_capabilities: clone_texts(&entry.required_capabilities),
        required_providers: clone_texts(&entry.required_providers),
        owner: clone_opt(&entry.owner),
        version: clone_opt(&entry.version),
        max_concurrency: entry.max_concurrency,
        running: readiness.running,
        concurrency_blocked: readiness.concurrency_blocked,
        owner_max_concurrency: limit_in_32_bits(readiness.owner_max_concurrency),
        owner_running: readiness.owner_running,
        owner_concurrency_blocked: readiness.owner_concurrency_blocked,
        available,
        missing_capabilities: readiness.missing_capabilities,
        missing_providers: readiness.missing_providers,
        trigger_webhook: clone_opt(&entry.trigger_webhook),
        trigger_watch: clone_opt(&entry.trigger_watch),
        trigger_cron: clone_opt(&entry.trigger_cron),
        trigger_interval: clone_opt(&entry.trigger_interval),
    }
}

/// Whether one of the texts is the wanted one, up to case and blanks at its
/// ends.
pub open spec fn some_is(items: Seq<Seq<char>>, wanted: Seq<char>) -> bool {
    exists|i: int|
        0 <= i < items.len() && lowered(trimmed(#[trigger] items[i])) == lowered(wanted)
}

fn has_text(items: &Vec<String>, wanted: &str) -> (r: bool)
    ensures
        r == some_is(texts(items@), wanted@),
{
    let ghost all = texts(items@);
    let mut i: usize = 0;
    while i < items.len()
        invariant
            i <= items.len(),
            all == texts(items@),
            forall|j: int|
                0 <= j < i ==> lowered(trimmed(#[trigger] all[j])) != lowered(wanted@),
        decreases items.len() - i,
    {
        if same_ignoring_case(trim(items[i].as_str()), wanted) {
            assert(lowered(trimmed(all[i as int])) == lowered(wanted@));
            return true;
        }
        i += 1;
    }
    false
}

/// Whether a catalog item is asked for.
pub open spec fn meta_wanted(
    item: MetaView,
    tag: Option<Seq<char>>,
    owner: Option<Seq<char>>,
    capability: Option<Seq<char>>,
    available: Option<bool>,
) -> bool {
    &&& tag is Some ==> some_is(item.tags, tag->0)
    &&& owner is Some ==> (match item.owner {
        Some(own) => lowered(trimmed(own)),
        None => Seq::empty(),
    }) == owner->0
    &&& capability is Some ==> some_is(item.required_capabilities, capability->0)
    &&& available is Some ==> item.available == available->0
}

/// Whether the item has the tag, the owner, the capability and the
/// availability that are asked for.
pub fn matches_workflow_meta_filters(
    item: &WorkflowMetaResponse,
    tag_filter: Option<&str>,
    owner_filter: Option<&str>,
    capability_filter: Option<&str>,
    available_filter: Option<bool>,
) -> (r: bool)
    ensures
        r == meta_wanted(
            item@,
            opt_str(tag_filter),
            opt_str(owner_filter),
            opt_str(capability_filter),
            available_filter,
        ),
{
    if let Some(wanted) = tag_filter {
        if !has_text(&item.tags, wanted) {
            return false;
        }
    }
    if let Some(wanted) = owner_filter {
        let own = match &item.owner {
            Some(own) => to_lower(trim(own.as_str())),
            None => String::new(),
        };
        if !same(own.as_str(), wanted) {
            return false;
        }
    }
    if let Some(wanted) = capability_filter {
        if !has_text(&item.required_capabilities, wanted) {
            return false;
        }
    }
    if let Some(wanted) = available_filter {
        if item.available != wanted {
            return false;
        }
    }
    true
}

/// What the catalog is cut down to.
pub struct WorkflowsMetaQuery {
    pub tag: Option<String>,
    pub owner: Option<String>,
    pub capability: Option<String>,
    pub available: Option<bool>,
    pub limit: Option<usize>,
}

/// A filter as it is compared.
pub open spec fn normal_filter(filter: Option<Seq<char>>) -> Option<Seq<char>> {
    match filter {
        Some(text) => Some(lowered(trimmed(text))),
        None => None,
    }
}

fn normalize_filter(filter: &Option<String>) -> (r: Option<String>)
    ensures
        opt_text(r) == normal_filter(opt_text(*filter)),
{
    match filter {
        Some(text) => Some(to_lower(trim(text.as_str()))),
        None => None,
    }
}

/// The catalog item of a flow, with the sessions that run.
pub open spec fn meta_now(
    entry: FlowView,
    sessions: Seq<(Seq<char>, SessionView)>,
    node: NodeView,
) -> MetaView {
    meta_of(
        entry,
        node,
        running_of_workflow(sessions, entry.workflow_name) as usize,
        running_of_opt_owner(sessions, entry.owner) as usize,
    )
}

/// The catalog items that are asked for, in the order of the flows.
pub open spec fn wanted_metas(
    entries: Seq<FlowView>,
    sessions: Seq<(Seq<char>, SessionView)>,
    node: NodeView,
    tag: Option<Seq<char>>,
    owner: Option<Seq<char>>,
    capability: Option<Seq<char>>,
    available: Option<bool>,
) -> Seq<MetaView>
    decreases entries.len(),
{
    if entries.len() == 0 {
        Seq::empty()
    } else {
        let before = wanted_metas(
            entries.drop_last(),
            sessions,
            node,
            tag,
            owner,
            capability,
            available,
        );
        let item = meta_now(entries.last(), sessions, node);
        if meta_wanted(item, tag, owner, capability, available) {
            before.push(item)
        } else {
            before
        }
    }
}

/// The catalog of flows: those that are asked for, in the order of their ids.
pub fn list_workflows_meta(
    entries: &Vec<WorkflowEntry>,
    sessions: &StrMap<SessionInfo>,
    node: &NodePolicy,
    query: &WorkflowsMetaQuery,
) -> (r: Vec<WorkflowMetaResponse>)
    ensures
        views(r@) == limited(
            ranked(
                wanted_metas(
                    views(entries@),
                    sessions.entries(),
                    node@,
                    normal_filter(opt_text(query.tag)),
                    normal_filter(opt_text(query.owner)),
                    normal_filter(opt_text(query.capability)),
                    query.available,
                ),
            ),
            query.limit,
        ),
{
    let tag = normalize_filter(&query.tag);
    let owner = normalize_filter(&query.owner);
    let capability = normalize_filter(&query.capability);
    let (by_workflow, by_owner) = build_running_indexes(sessions);
    let ghost all = views(entries@);
    let ghost sess = sessions.entries();
    let mut out: Vec<WorkflowMetaResponse> = Vec::new();
    let mut i: usize = 0;
    assert(all.take(0) =~= Seq::<FlowView>::empty());
    assert(views(out@) =~= Seq::<MetaView>::empty());
    while i < entries.len()
        invariant
            i <= entries.len(),
            all == views(entries@),
            sess == sessions.entries(),
            counts_workflows(by_workflow.entries(), sess),
            counts_owners(by_owner.entries(), sess),
            opt_text(tag) == normal_filter(opt_text(query.tag)),
            opt_text(owner) == normal_filter(opt_text(query.owner)),
            opt_text(capability) == normal_filter(opt_text(query.capability)),
            views(out@) == wanted_metas(
                all.take(i as int),
                sess,
                node@,
                opt_text(tag),
                opt_text(owner),
                opt_text(capability),
                query.available,
            ),
        decreases entries.len() - i,
    {
        assert(all.take(i + 1).drop_last() =~= all.take(i as int));
        let entry = &entries[i];
        assert(all.take(i + 1).last() == entry@);
        let running: usize = match by_workflow.get(entry.workflow_name.as_str()) {
            Some(n) => *n,
            None => 0,
        };
        assert(match lookup(by_workflow.entries(), entry@.workflow_name) {
            Some(n) => n > 0 && n == running_of_workflow(sess, entry@.workflow_name),
            None => running_of_workflow(sess, entry@.workflow_name) == 0,
        });
        let owner_running: usize = match owner_key(as_str_opt(&entry.owner)) {
            Some(key) => {
                assert(match lookup(by_owner.entries(), key@) {
                    Some(n) => n > 0 && n == running_of_owner(sess, key@),
                    None => running_of_owner(sess, key@) == 0,
                });
                match by_owner.get(key.as_str()) {
                    Some(n) => *n,
                    None => 0,
                }
            },
            None => 0,
        };
        let item = meta_item(entry, node, running, owner_running);
        if matches_workflow_meta_filters(
            &item,
            as_str_opt(&tag),
            as_str_opt(&owner),
            as_str_opt(&capability),
            query.available,
        ) {
            let ghost before = views(out@);
            let ghost view = item@;
            out.push(item);
            assert(views(out@) =~= before.push(view));
        }
        i += 1;
    }
    assert(all.take(i as int) =~= all);
    let sorted = rank_all(out);
    limit_to(sorted, query.limit)
}

/// The readiness of a flow with the sessions that run.
pub open spec fn readiness_now(
    entry: FlowView,
    sessions: Seq<(Seq<char>, SessionView)>,
    node: NodeView,
    default_max: Option<usize>,
) -> ReadinessView {
    asked_readiness(
        entry,
        node,
        running_of_workflow(sessions, entry.workflow_name) as usize,
        running_of_opt_owner(sessions, entry.owner) as usize,
        default_max,
    )
}

/// Whether a flow may run now. A limit of its own goes before the default.
pub fn check_flow(
    entry: &WorkflowEntry,
    sessions: &StrMap<SessionInfo>,
    node: &NodePolicy,
    default_max: Option<usize>,
) -> (r: FlowReadiness)
    ensures
        r@ == readiness_now(entry@, sessions.entries(), node@, default_max),
{
    let (running, owner_running) = running_counts_for_entry(sessions, entry);
    let limit = owner_limit_for(as_str_opt(&entry.owner), &node.owners);
    evaluate_flow_readiness(
        entry,
        &node.capabilities,
        &node.allowed_providers,
        flow_readiness_runtime(running, default_max, owner_running, limit),
    )
}

// ---------------------------------------------------------------- launches

/// A limit in a message: zero where there is none.
pub open spec fn limit_text(limit: Option<usize>) -> Seq<char> {
    match limit {
        Some(n) => decimal(n as nat),
        None => decimal(0),
    }
}

fn show_limit(limit: Option<usize>) -> (r: String)
    ensures
        r@ == limit_text(limit),
{
    match limit {
        Some(n) => u64_text(n as u64),
        None => u64_text(0),
    }
}

/// Why a flow may not be launched by request.
pub open spec fn launch_refusal_of(
    name: Seq<char>,
    owner: Option<Seq<char>>,
    readiness: ReadinessView,
) -> Option<RefusalView> {
    if readiness.missing_capabilities.len() > 0 {
        Some(
            RefusalView {
                status: 403,
                message: "workflow '"@ + name + "' requires missing capabilities: "@ + joined(
                    readiness.missing_capabilities,
                    ", "@,
                ),
            },
        )
    } else if readiness.missing_providers.len() > 0 {
        Some(
            RefusalView {
                status: 403,
                message: "workflow '"@ + name + "' requires blocked providers: "@ + joined(
                    readiness.missing_providers,
                    ", "@,
                ),
            },
        )
    } else if readiness.owner_concurrency_blocked {
        Some(
            RefusalView {
                status: 429,
                message: "workflow '"@ + name + "' owner concurrency limit reached: owner='"@ + (
                match owner {
                    Some(owner) => owner,
                    None => Seq::empty(),
                }) + "' running="@ + decimal(readiness.owner_running as nat)
                    + " max_concurrency="@ + limit_text(readiness.owner_max_concurrency),
            },
        )
    } else if readiness.concurrency_blocked {
        Some(
            RefusalView {
                status: 429,
                message: "workflow '"@ + name + "' concurrency limit reached: running="@ + decimal(
                    readiness.running as nat,
                ) + " max_concurrency="@ + limit_text(readiness.max_concurrency),
            },
        )
    } else {
        None
    }
}

/// Why the flow may not be launched by request, where it may not.
pub fn launch_refusal(name: &str, entry: &WorkflowEntry, readiness: &FlowReadiness) -> (r: Option<
    Refusal,
>)
    ensures
        opt_refusal(r) == launch_refusal_of(name@, entry@.owner, readiness@),
{
    if readiness.missing_capabilities.len() > 0 {
        let names = join(&readiness.missing_capabilities, ", ");
        return Some(
            Refusal {
                status: 403,
                message: cat4(
                    "workflow '",
                    name,
                    "' requires missing capabilities: ",
                    names.as_str(),
                ),
            },
        );
    }
    if readiness.missing_providers.len() > 0 {
        let names = join(&readiness.missing_providers, ", ");
        return Some(
            Refusal {
                status: 403,
                message: cat4(
                    "workflow '",
                    name,
                    "' requires blocked providers: ",
                    names.as_str(),
                ),
            },
        );
    }
    if readiness.owner_concurrency_blocked {
        let running = u64_text(readiness.owner_running as u64);
        let max = show_limit(readiness.owner_max_concurrency);
        let owner = match &entry.owner {
            Some(owner) => owner.clone(),
            None => String::new(),
        };
        let head = cat5(
            "workflow '",
            name,
            "' owner concurrency limit reached: owner='",
            owner.as_str(),
            "' running=",
        );
        return Some(
            Refusal {
                status: 429,
                message: cat4(head.as_str(), running.as_str(), " max_concurrency=", max.as_str()),
            },
        );
    }
    if readiness.concurrency_blocked {
        let running = u64_text(readiness.running as u64);
        let max = show_limit(readiness.max_concurrency);
        return Some(
            Refusal {
                status: 429,
                message: cat6(
                    "workflow '",
                    name,
                    "' concurrency limit reached: running=",
                    running.as_str(),
                    " max_concurrency=",
                    max.as_str(),
                ),
            },
        );
    }
    None
}

/// A flow that may run is launched, and only such a flow.
pub proof fn launched_where_ready(
    name: Seq<char>,
    owner: Option<Seq<char>>,
    readiness: ReadinessView,
)
    ensures
        launch_refusal_of(name, owner, readiness) is None <==> readiness.ready(),
{
}

/// What a trigger does with a flow.
pub enum TriggerDecision {
    Launch,
    SkippedRunning,
    SkippedCapability(Vec<String>),
    SkippedProvider(Vec<String>),
    SkippedConcurrency { running: usize, max_concurrency: usize },
}

/// A trigger's decision, as plain values.
pub enum TriggerView {
    Launch,
    SkippedRunning,
    SkippedCapability(Seq<Seq<char>>),
    SkippedProvider(Seq<Seq<char>>),
    SkippedConcurrency { running: usize, max_concurrency: usize },
}

impl View for TriggerDecision {
    type V = TriggerView;

    open spec fn view(&self) -> TriggerView {
        match self {
            TriggerDecision::Launch => TriggerView::Launch,
            TriggerDecision::SkippedRunning => TriggerView::SkippedRunning,
            TriggerDecision::SkippedCapability(missing) => TriggerView::SkippedCapability(
                texts(missing@),
            ),
            TriggerDecision::SkippedProvider(missing) => TriggerView::SkippedProvider(
                texts(missing@),
            ),
            TriggerDecision::SkippedConcurrency { running, max_concurrency } =>
                TriggerView::SkippedConcurrency {
                running: *running,
                max_concurrency: *max_concurrency,
            },
        }
    }
}

/// What a trigger does with a flow: it skips one that may not run, and says
/// why. A flow that may run once at a time is skipped as running.
pub open spec fn trigger_decision_of(readiness: ReadinessView) -> TriggerView {
    if readiness.missing_capabilities.len() > 0 {
        TriggerView::SkippedCapability(readiness.missing_capabilities)
    } else if readiness.missing_providers.len() > 0 {
        TriggerView::SkippedProvider(readiness.missing_providers)
    } else if readiness.owner_concurrency_blocked {
        TriggerView::SkippedConcurrency {
            running: readiness.owner_running,
            max_concurrency: match readiness.owner_max_concurrency {
                Some(n) => n,
                None => 0,
            },
        }
    } else if readiness.concurrency_blocked {
        let max = match readiness.max_concurrency {
            Some(n) => n,
            None => 1,
        };
        if max == 1 {
            TriggerView::SkippedRunning
        } else {
            TriggerView::SkippedConcurrency { running: readiness.running, max_concurrency: max }
        }
    } else {
        TriggerView::Launch
    }
}

/// What a trigger does with a flow of this readiness.
pub fn trigger_decision(readiness: FlowReadiness) -> (r: TriggerDecision)
    ensures
        r@ == trigger_decision_of(readiness@),
{
    if readiness.missing_capabilities.len() > 0 {
        return TriggerDecision::SkippedCapability(readiness.missing_capabilities);
    }
    if readiness.missing_providers.len() > 0 {
        return TriggerDecision::SkippedProvider(readiness.missing_providers);
    }
    if readiness.owner_concurrency_blocked {
        return TriggerDecision::SkippedConcurrency {
            running: readiness.owner_running,
            max_concurrency: match readiness.owner_max_concurrency {
                Some(n) => n,
                None => 0,
            },
        };
    }
    if readiness.concurrency_blocked {
        let max: usize = match readiness.max_concurrency {
            Some(n) => n,
            None => 1,
        };
        if max == 1 {
            return TriggerDecision::SkippedRunning;
        }
        return TriggerDecision::SkippedConcurrency {
            running: readiness.running,
            max_concurrency: max,
        };
    }
    TriggerDecision::Launch
}

/// What the log says of a flow that may not run now, when a trigger fires.
pub open spec fn trigger_line(
    source: Seq<char>,
    name: Seq<char>,
    readiness: ReadinessView,
) -> Option<Seq<char>> {
    let head = "anna-rs daemon trigger="@ + source + " workflow='"@ + name + "' skipped: "@;
    if readiness.missing_capabilities.len() > 0 {
        Some(
            head + "missing capabilities ["@ + joined(readiness.missing_capabilities, ", "@)
                + "]"@,
        )
    } else if readiness.missing_providers.len() > 0 {
        Some(head + "blocked providers ["@ + joined(readiness.missing_providers, ", "@) + "]"@)
    } else if readiness.owner_concurrency_blocked {
        Some(
            head + "owner limit running="@ + decimal(readiness.owner_running as nat) + " max="@
                + limit_text(readiness.owner_max_concurrency),
        )
    } else if readiness.concurrency_blocked {
        match readiness.max_concurrency {
            Some(max) if max != 1 => Some(
                head + "concurrency limit running="@ + decimal(readiness.running as nat)
                    + " max="@ + decimal(max as nat),
            ),
            _ => Some(head + "already running"@),
        }
    } else {
        None
    }
}

/// What the log says of a flow that may not run now, when a trigger fires.
pub fn trigger_note(source: &str, name: &str, readiness: &FlowReadiness) -> (r: Option<String>)
    ensures
        opt_text(r) == trigger_line(source@, name@, readiness@),
{
    let head = cat5("anna-rs daemon trigger=", source, " workflow='", name, "' skipped: ");
    if readiness.missing_capabilities.len() > 0 {
        let names = join(&readiness.missing_capabilities, ", ");
        return Some(cat4(head.as_str(), "missing capabilities [", names.as_str(), "]"));
    }
    if readiness.missing_providers.len() > 0 {
        let names = join(&readiness.missing_providers, ", ");
        return Some(cat4(head.as_str(), "blocked providers [", names.as_str(), "]"));
    }
    if readiness.owner_concurrency_blocked {
        let running = u64_text(readiness.owner_running as u64);
        let max = show_limit(readiness.owner_max_concurrency);
        return Some(
            cat5(head.as_str(), "owner limit running=", running.as_str(), " max=", max.as_str()),
        );
    }
    if readiness.concurrency_blocked {
        return match readiness.max_concurrency {
            Some(max) if max != 1 => {
                let running = u64_text(readiness.running as u64);
                let max = u64_text(max as u64);
                Some(
                    cat5(
                        head.as_str(),
                        "concurrency limit running=",
                        running.as_str(),
                        " max=",
                        max.as_str(),
                    ),
                )
            },
            _ => Some(cat2(head.as_str(), "already running")),
        };
    }
    None
}

/// What a trigger does with a flow now, and what the log says of it: without a
/// limit of its own, a flow runs once at a time.
pub fn decide_trigger(
    source: &str,
    entry: &WorkflowEntry,
    sessions: &StrMap<SessionInfo>,
    node: &NodePolicy,
) -> (r: (TriggerDecision, Option<String>))
    ensures
        ({
            let readiness = readiness_now(entry@, sessions.entries(), node@, Some(1));
            &&& r.0@ == trigger_decision_of(readiness)
            &&& opt_text(r.1) == trigger_line(source@, entry@.workflow_name, readiness)
        }),
{
    let readiness = check_flow(entry, sessions, node, Some(1));
    let note = trigger_note(source, entry.workflow_name.as_str(), &readiness);
    (trigger_decision(readiness), note)
}

/// The log speaks exactly of the flows that a trigger skips.
pub proof fn skipped_flows_are_noted(source: Seq<char>, name: Seq<char>, readiness: ReadinessView)
    ensures
        trigger_line(source, name, readiness) is None <==> trigger_decision_of(
            readiness,
        ) is Launch,
{
}

/// What the log says of a flow that a trigger skipped.
pub open spec fn skip_text(kind: Seq<char>, name: Seq<char>, decision: TriggerView) -> Option<
    Seq<char>,
> {
    let head = "anna-rs scheduler: skipped "@ + kind + " trigger '"@ + name;
    match decision {
        TriggerView::Launch => None,
        TriggerView::SkippedRunning => None,
        TriggerView::SkippedCapability(missing) => Some(
            head + "' due to missing capabilities: "@ + joined(missing, ", "@),
        ),
        TriggerView::SkippedProvider(missing) => Some(
            head + "' due to blocked providers: "@ + joined(missing, ", "@),
        ),
        TriggerView::SkippedConcurrency { running, max_concurrency } => Some(
            head + "' due to concurrency limit running="@ + decimal(running as nat) + " max="@
                + decimal(max_concurrency as nat),
        ),
    }
}

/// What the log says of a flow that a trigger skipped: nothing of one that still
/// runs.
pub fn skip_note(kind: &str, name: &str, decision: &TriggerDecision) -> (r: Option<String>)
    ensures
        opt_text(r) == skip_text(kind@, name@, decision@),
{
    let head = cat4("anna-rs scheduler: skipped ", kind, " trigger '", name);
    match decision {
        TriggerDecision::Launch => None,
        TriggerDecision::SkippedRunning => None,
        TriggerDecision::SkippedCapability(missing) => {
            let list = join(missing, ", ");
            Some(cat3(head.as_str(), "' due to missing capabilities: ", list.as_str()))
        },
        TriggerDecision::SkippedProvider(missing) => {
            let list = join(missing, ", ");
            Some(cat3(head.as_str(), "' due to blocked providers: ", list.as_str()))
        },
        TriggerDecision::SkippedConcurrency { running, max_concurrency } => {
            let running = u64_text(*running as u64);
            let max = u64_text(*max_concurrency as u64);
            Some(
                cat5(
                    head.as_str(),
                    "' due to concurrency limit running=",
                    running.as_str(),
                    " max=",
                    max.as_str(),
                ),
            )
        },
    }
}

/// A trigger launches exactly the flows that may run.
pub proof fn triggered_where_ready(readiness: ReadinessView)
    ensures
        trigger_decision_of(readiness) is Launch <==> readiness.ready(),
{
}

/// A trigger never launches a flow without a limit of its own while it runs.
pub proof fn no_trigger_while_running(
    entry: FlowView,
    node: NodeView,
    running: usize,
    owner_running: usize,
)
    requires
        running >= 1,
        entry.max_concurrency is None,
    ensures
        !(trigger_decision_of(
            asked_readiness(entry, node, running, owner_running, Some(1)),
        ) is Launch),
{
}

/// A workflow as it is launched: it works in the directory of plays unless it
/// names its own, and takes the variables of the request over its own.
pub open spec fn launched_workflow(
    workflow: WorkflowView,
    plays_dir: Seq<char>,
    vars: Seq<(Seq<char>, Seq<char>)>,
) -> WorkflowView {
    WorkflowView {
        workdir: match workflow.workdir {
            Some(dir) => Some(dir),
            None => Some(plays_dir),
        },
        vars: with_all(workflow.vars, vars),
        ..workflow
    }
}

/// Makes a workflow ready for launch.
pub fn prepare_launch(workflow: Workflow, plays_dir: &str, vars: &StrMap<String>) -> (r: Workflow)
    ensures
        r@ == launched_workflow(workflow@, plays_dir@, vars.entries()),
{
    let mut out = workflow;
    if out.workdir.is_none() {
        out.workdir = Some(plays_dir.to_owned());
    }
    add_all(&mut out.vars, vars);
    out
}

// ---------------------------------------------------------------- hooks

pub struct HookLaunchedWorkflow {
    pub workflow: String,
    pub session_id: String,
}

pub struct HookSkipped {
    pub workflow: String,
    pub missing: Vec<String>,
}

pub struct HookSkippedConcurrency {
    pub workflow: String,
    pub running: usize,
    pub max_concurrency: usize,
}

/// What a hook did with the flows that listen to it.
pub struct HookOutcomes {
    pub launched: Vec<HookLaunchedWorkflow>,
    pub skipped_running: Vec<String>,
    pub skipped_capability: Vec<HookSkipped>,
    pub skipped_provider: Vec<HookSkipped>,
    pub skipped_concurrency: Vec<HookSkippedConcurrency>,
}

/// How a launch went.
pub enum HookLaunch {
    Launched(String),
    Skipped(TriggerDecision),
    Failed,
}

impl HookOutcomes {
    /// Nothing yet.
    pub fn new() -> (r: Self)
        ensures
            r.nothing(),
    {
        HookOutcomes {
            launched: Vec::new(),
            skipped_running: Vec::new(),
            skipped_capability: Vec::new(),
            skipped_provider: Vec::new(),
            skipped_concurrency: Vec::new(),
        }
    }

    pub open spec fn nothing(&self) -> bool {
        &&& self.launched@.len() == 0
        &&& self.skipped_running@.len() == 0
        &&& self.skipped_capability@.len() == 0
        &&& self.skipped_provider@.len() == 0
        &&& self.skipped_concurrency@.len() == 0
    }

    /// Whether no flow listened.
    pub fn is_empty(&self) -> (r: bool)
        ensures
            r == self.nothing(),
    {
        self.launched.len() == 0 && self.skipped_running.len() == 0 && self.skipped_capability.len()
            == 0 && self.skipped_provider.len() == 0 && self.skipped_concurrency.len() == 0
    }
}

/// Records how the launch of a flow by a hook went; a failure leaves no trace.
pub fn apply_hook_launch_outcome(
    outcomes: &mut HookOutcomes,
    workflow_name: String,
    launch: HookLaunch,
)
    ensures
        match launch {
            HookLaunch::Launched(id) => {
                &&& final(outcomes).launched@ == old(outcomes).launched@.push(
                    HookLaunchedWorkflow { workflow: workflow_name, session_id: id },
                )
                &&& final(outcomes).skipped_running == old(outcomes).skipped_running
                &&& final(outcomes).skipped_capability == old(outcomes).skipped_capability
                &&& final(outcomes).skipped_provider == old(outcomes).skipped_provider
                &&& final(outcomes).skipped_concurrency == old(outcomes).skipped_concurrency
            },
            HookLaunch::Skipped(TriggerDecision::SkippedRunning) => {
                &&& final(outcomes).skipped_running@ == old(outcomes).skipped_running@.push(
                    workflow_name,
                )
                &&& final(outcomes).launched == old(outcomes).launched
                &&& final(outcomes).skipped_capability == old(outcomes).skipped_capability
                &&& final(outcomes).skipped_provider == old(outcomes).skipped_provider
                &&& final(outcomes).skipped_concurrency == old(outcomes).skipped_concurrency
            },
            HookLaunch::Skipped(TriggerDecision::SkippedCapability(missing)) => {
                &&& final(outcomes).skipped_capability@ == old(outcomes).skipped_capability@.push(
                    HookSkipped { workflow: workflow_name, missing },
                )
                &&& final(outcomes).launched == old(outcomes).launched
                &&& final(outcomes).skipped_running == old(outcomes).skipped_running
                &&& final(outcomes).skipped_provider == old(outcomes).skipped_provider
                &&& final(outcomes).skipped_concurrency == old(outcomes).skipped_concurrency
            },
            HookLaunch::Skipped(TriggerDecision::SkippedProvider(missing)) => {
                &&& final(outcomes).skipped_provider@ == old(outcomes).skipped_provider@.push(
                    HookSkipped { workflow: workflow_name, missing },
                )
                &&& final(outcomes).launched == old(outcomes).launched
                &&& final(outcomes).skipped_running == old(outcomes).skipped_running
                &&& final(outcomes).skipped_capability == old(outcomes).skipped_capability
                &&& final(outcomes).skipped_concurrency == old(outcomes).skipped_concurrency
            },
            HookLaunch::Skipped(
                TriggerDecision::SkippedConcurrency { running, max_concurrency },
            ) => {
                &&& final(outcomes).skipped_concurrency@
                    == old(outcomes).skipped_concurrency@.push(
                    HookSkippedConcurrency { workflow: workflow_name, running, max_concurrency },
                )
                &&& final(outcomes).launched == old(outcomes).launched
                &&& final(outcomes).skipped_running == old(outcomes).skipped_running
                &&& final(outcomes).skipped_capability == old(outcomes).skipped_capability
                &&& final(outcomes).skipped_provider == old(outcomes).skipped_provider
            },
            _ => *final(outcomes) == *old(outcomes),
        },
{
    match launch {
        HookLaunch::Launched(session_id) => {
            outcomes.launched.push(HookLaunchedWorkflow { workflow: workflow_name, session_id });
        },
        HookLaunch::Skipped(TriggerDecision::SkippedRunning) => {
            outcomes.skipped_running.push(workflow_name);
        },
        HookLaunch::Skipped(TriggerDecision::SkippedCapability(missing)) => {
            outcomes.skipped_capability.push(HookSkipped { workflow: workflow_name, missing });
        },
        HookLaunch::Skipped(TriggerDecision::SkippedProvider(missing)) => {
            outcomes.skipped_provider.push(HookSkipped { workflow: workflow_name, missing });
        },
        HookLaunch::Skipped(TriggerDecision::SkippedConcurrency { running, max_concurrency }) => {
            outcomes.skipped_concurrency.push(
                HookSkippedConcurrency { workflow: workflow_name, running, max_concurrency },
            );
        },
        _ => {},
    }
}

/// The path of a hook: one slash and the name.
pub fn hook_path(name: &str) -> (r: String)
    ensures
        r@ == "/"@ + trim_by(name@, CharSet::Only('/')),
{
    cat2("/", trim_text_by(name, CharSet::Only('/')))
}

/// Whether a flow listens to a hook.
pub open spec fn listens(entry: FlowView, path: Seq<char>) -> bool {
    entry.trigger_webhook is Some && trimmed(entry.trigger_webhook->0) == path
}

pub fn listens_to_hook(entry: &WorkflowEntry, path: &str) -> (r: bool)
    ensures
        r == listens(entry@, path@),
{
    match &entry.trigger_webhook {
        Some(webhook) => same(trim(webhook.as_str()), path),
        None => false,
    }
}

// ---------------------------------------------------------------- requests

/// What a request to run a flow may ask for.
pub struct RunRegisteredOptions {
    pub vars: StrMap<String>,
    pub max_iterations: Option<u32>,
}

/// Checks a request to run a flow: its body, and what the body was read as. A
/// blank body asks for nothing.
pub fn check_run_options(body: &str, read: Option<RunRegisteredOptions>) -> (r: Result<
    RunRegisteredOptions,
    String,
>)
    ensures
        if blank(body@) {
            r is Ok && r->Ok_0.vars.entries() == Seq::<(Seq<char>, Seq<char>)>::empty()
                && r->Ok_0.max_iterations is None
        } else {
            match read {
                Some(options) => r == Ok::<RunRegisteredOptions, String>(options),
                None => r is Err && r->Err_0@
                    == "invalid run options json body, expected {\"vars\":{...},\"max_iterations\":N}"@,
            }
        },
{
    if is_blank(body) {
        return Ok(RunRegisteredOptions { vars: StrMap::new(), max_iterations: None });
    }
    match read {
        Some(options) => Ok(options),
        None => Err(
            "invalid run options json body, expected {\"vars\":{...},\"max_iterations\":N}".to_owned(),
        ),
    }
}

} // verus!
