//! The flows that a daemon can launch, and whether it may.
use crate::allowlist::{lower_all, lowered_all, opt_set};
use crate::daemon::sessions::{Refusal, RefusalView, SessionInfo, SessionView};

use crate::order::{sort_distinct, sorted_distinct, sorted_distinct_spec};
use crate::strmap::{lookup, put, put_spec, StrMap, StrSet};
use crate::text::{
    as_str_opt, blank, cat2, group_texts, is_blank, join, joined, lowered, opt_str, opt_text, same,
    texts, to_lower, trim, trim_pieces, trimmed, trimmed_pieces,
};
use crate::workflow::{provider_of, StageView, Workflow, WorkflowView};
use vstd::prelude::*;
use vstd::string::*;

pub mod laws;

verus! {

/// A flow that the daemon knows.
pub struct WorkflowEntry {
    pub file_name: String,
    pub flow_id: Option<String>,
    pub workflow_name: String,
    pub path: String,
    pub tags: Vec<String>,
    pub required_capabilities: Vec<String>,
    pub required_providers: Vec<String>,
    pub owner: Option<String>,
    pub version: Option<String>,
    pub max_concurrency: Option<u32>,
    pub trigger_webhook: Option<String>,
    pub trigger_watch: Option<String>,
    pub trigger_cron: Option<String>,
    pub trigger_interval: Option<String>,
    pub workflow_workdir: Option<String>,
}

/// A flow, as plain values.
pub struct FlowView {
    pub file_name: Seq<char>,
    pub flow_id: Option<Seq<char>>,
    pub workflow_name: Seq<char>,
    pub path: Seq<char>,
    pub tags: Seq<Seq<char>>,
    pub required_capabilities: Seq<Seq<char>>,
    pub required_providers: Seq<Seq<char>>,
    pub owner: Option<Seq<char>>,
    pub version: Option<Seq<char>>,
    pub max_concurrency: Option<u32>,
    pub trigger_webhook: Option<Seq<char>>,
    pub trigger_watch: Option<Seq<char>>,
    pub trigger_cron: Option<Seq<char>>,
    pub trigger_interval: Option<Seq<char>>,
    pub workflow_workdir: Option<Seq<char>>,
}

impl View for WorkflowEntry {
    type V = FlowView;

    open spec fn view(&self) -> FlowView {
        FlowView {
            file_name: self.file_name@,
            flow_id: opt_text(self.flow_id),
            workflow_name: self.workflow_name@,
            path: self.path@,
            tags: texts(self.tags@),
            required_capabilities: texts(self.required_capabilities@),
            required_providers: texts(self.required_providers@),
            owner: opt_text(self.owner),
            version: opt_text(self.version),
            max_concurrency: self.max_concurrency,
            trigger_webhook: opt_text(self.trigger_webhook),
            trigger_watch: opt_text(self.trigger_watch),
            trigger_cron: opt_text(self.trigger_cron),
            trigger_interval: opt_text(self.trigger_interval),
            workflow_workdir: opt_text(self.workflow_workdir),
        }
    }
}

// ---------------------------------------------------------------- owners

/// The key of an owner: trimmed and in lower case; a blank owner is none.
pub open spec fn owner_key_of(owner: Option<Seq<char>>) -> Option<Seq<char>> {
    match owner {
        Some(owner) => if blank(owner) {
            None
        } else {
            Some(lowered(trimmed(owner)))
        },
        None => None,
    }
}

pub fn owner_key(owner: Option<&str>) -> (r: Option<String>)
    ensures
        opt_text(r) == owner_key_of(opt_str(owner)),
{
    match owner {
        Some(owner) => {
            let key = trim(owner);
            if key.is_empty() {
                None
            } else {
                Some(to_lower(key))
            }
        },
        None => None,
    }
}

/// How many flows of an owner may run at a time.
pub struct OwnerConcurrencyPolicy {
    pub per_owner: StrMap<usize>,
    pub default_limit: Option<usize>,
}

/// The limit of an owner: the owner's own, else the default. Flows without an
/// owner have none.
pub open spec fn owner_limit(
    owner: Option<Seq<char>>,
    per_owner: Seq<(Seq<char>, usize)>,
    default_limit: Option<usize>,
) -> Option<usize> {
    match owner_key_of(owner) {
        None => None,
        Some(key) => match lookup(per_owner, key) {
            Some(limit) => Some(limit),
            None => default_limit,
        },
    }
}

pub fn owner_limit_for(owner: Option<&str>, policy: &OwnerConcurrencyPolicy) -> (r: Option<usize>)
    ensures
        r == owner_limit(opt_str(owner), policy.per_owner.entries(), policy.default_limit),
{
    match owner_key(owner) {
        None => None,
        Some(key) => match policy.per_owner.get(key.as_str()) {
            Some(limit) => Some(*limit),
            None => policy.default_limit,
        },
    }
}

/// An owner's own limit goes before the default.
pub proof fn own_limit_first(
    owner: Seq<char>,
    per_owner: Seq<(Seq<char>, usize)>,
    default_limit: Option<usize>,
)
    requires
        !blank(owner),
        lookup(per_owner, lowered(trimmed(owner))) is Some,
    ensures
        owner_limit(Some(owner), per_owner, default_limit) == lookup(
            per_owner,
            lowered(trimmed(owner)),
        ),
{
}

// ---------------------------------------------------------------- running

/// How many sessions of a workflow run.
pub open spec fn running_of_workflow(
    entries: Seq<(Seq<char>, SessionView)>,
    workflow: Seq<char>,
) -> nat
    decreases entries.len(),
{
    if entries.len() == 0 {
        0
    } else {
        let s = entries.last().1;
        running_of_workflow(entries.drop_last(), workflow) + if s.status == "running"@
            && s.workflow == workflow {
            1nat
        } else {
            0nat
        }
    }
}

/// How many sessions of an owner run.
pub open spec fn running_of_owner(entries: Seq<(Seq<char>, SessionView)>, key: Seq<char>) -> nat
    decreases entries.len(),
{
    if entries.len() == 0 {
        0
    } else {
        let s = entries.last().1;
        running_of_owner(entries.drop_last(), key) + if s.status == "running"@ && owner_key_of(
            s.owner,
        ) == Some(key) {
            1nat
        } else {
            0nat
        }
    }
}

/// How many sessions of a flow's owner run; none where it has no owner.
pub open spec fn running_of_opt_owner(
    entries: Seq<(Seq<char>, SessionView)>,
    owner: Option<Seq<char>>,
) -> nat {
    match owner_key_of(owner) {
        Some(key) => running_of_owner(entries, key),
        None => 0,
    }
}

/// How many sessions of the flow, and of its owner, run.
pub fn running_counts_for_entry(sessions: &StrMap<SessionInfo>, entry: &WorkflowEntry) -> (r: (
    usize,
    usize,
))
    ensures
        r.0 == running_of_workflow(sessions.entries(), entry@.workflow_name),
        r.1 == running_of_opt_owner(sessions.entries(), entry@.owner),
{
    let target = owner_key(as_str_opt(&entry.owner));
    let n: usize = sessions.len();
    let ghost all = sessions.entries();
    let mut of_workflow: usize = 0;
    let mut of_owner: usize = 0;
    let mut i: usize = 0;
    assert(all.take(0) =~= Seq::<(Seq<char>, SessionView)>::empty());
    while i < n
        invariant
            i <= n,
            of_workflow <= i,
            of_owner <= i,
            n == all.len(),
            all == sessions.entries(),
            opt_text(target) == owner_key_of(entry@.owner),
            of_workflow == running_of_workflow(all.take(i as int), entry@.workflow_name),
            of_owner == running_of_opt_owner(all.take(i as int), entry@.owner),
        decreases n - i,
    {
        assert(all.take(i + 1).drop_last() =~= all.take(i as int));
        let session = sessions.value_at(i);
        if same(session.status.as_str(), "running") {
            if same(session.workflow.as_str(), entry.workflow_name.as_str()) {
                of_workflow += 1;
            }
            if let Some(target) = &target {
                if let Some(owner) = owner_key(as_str_opt(&session.owner)) {
                    if same(owner.as_str(), target.as_str()) {
                        of_owner += 1;
                    }
                }
            }
        }
        i += 1;
    }
    assert(all.take(n as int) =~= all);
    (of_workflow, of_owner)
}

/// Whether a map counts what `count` says: keys with nothing to count are left
/// out.
pub open spec fn counts_workflows(
    index: Seq<(Seq<char>, usize)>,
    entries: Seq<(Seq<char>, SessionView)>,
) -> bool {
    forall|w: Seq<char>|
        match #[trigger] lookup(index, w) {
            Some(n) => n > 0 && n == running_of_workflow(entries, w),
            None => running_of_workflow(entries, w) == 0,
        }
}

pub open spec fn counts_owners(
    index: Seq<(Seq<char>, usize)>,
    entries: Seq<(Seq<char>, SessionView)>,
) -> bool {
    forall|key: Seq<char>|
        match #[trigger] lookup(index, key) {
            Some(n) => n > 0 && n == running_of_owner(entries, key),
            None => running_of_owner(entries, key) == 0,
        }
}

proof fn running_bounded(entries: Seq<(Seq<char>, SessionView)>, key: Seq<char>)
    ensures
        running_of_workflow(entries, key) <= entries.len(),
        running_of_owner(entries, key) <= entries.len(),
    decreases entries.len(),
{
    if entries.len() > 0 {
        running_bounded(entries.drop_last(), key);
    }
}

fn count_up(index: &mut StrMap<usize>, key: &str)
    requires
        match lookup(old(index).entries(), key@) {
            Some(n) => n < usize::MAX,
            None => true,
        },
    ensures
        final(index).entries() == put(
            old(index).entries(),
            key@,
            match lookup(old(index).entries(), key@) {
                Some(n) => (n + 1) as usize,
                None => 1,
            },
        ),
{
    let next: usize = match index.get(key) {
        Some(n) => *n + 1,
        None => 1,
    };
    index.insert(key.to_owned(), next);
}

/// How many sessions run, by workflow and by owner.
pub fn build_running_indexes(sessions: &StrMap<SessionInfo>) -> (r: (StrMap<usize>, StrMap<usize>))
    ensures
        counts_workflows(r.0.entries(), sessions.entries()),
        counts_owners(r.1.entries(), sessions.entries()),
{
    let mut by_workflow: StrMap<usize> = StrMap::new();
    let mut by_owner: StrMap<usize> = StrMap::new();
    let n: usize = sessions.len();
    let ghost all = sessions.entries();
    let mut i: usize = 0;
    assert(all.take(0) =~= Seq::<(Seq<char>, SessionView)>::empty());
    while i < n
        invariant
            i <= n,
            n == all.len(),
            all == sessions.entries(),
            counts_workflows(by_workflow.entries(), all.take(i as int)),
            counts_owners(by_owner.entries(), all.take(i as int)),
        decreases n - i,
    {
        let ghost before = all.take(i as int);
        let ghost after = all.take(i + 1);
        assert(after.drop_last() =~= before);
        assert(after.last() == all[i as int]);
        let session = sessions.value_at(i);
        let ghost workflows = by_workflow.entries();
        let ghost owners = by_owner.entries();
        if same(session.status.as_str(), "running") {
            proof {
                running_bounded(before, session@.workflow);
                assert(match lookup(workflows, session@.workflow) {
                    Some(n) => n == running_of_workflow(before, session@.workflow),
                    None => true,
                });
            }
            count_up(&mut by_workflow, session.workflow.as_str());
            if let Some(owner) = owner_key(as_str_opt(&session.owner)) {
                proof {
                    running_bounded(before, owner@);
                    assert(match lookup(owners, owner@) {
                        Some(n) => n == running_of_owner(before, owner@),
                        None => true,
                    });
                }
                count_up(&mut by_owner, owner.as_str());
            }
        }
        proof {
            assert forall|w: Seq<char>|
                match #[trigger] lookup(by_workflow.entries(), w) {
                    Some(n) => n > 0 && n == running_of_workflow(after, w),
                    None => running_of_workflow(after, w) == 0,
                } by {
                assert(match lookup(workflows, w) {
                    Some(n) => n > 0 && n == running_of_workflow(before, w),
                    None => running_of_workflow(before, w) == 0,
                });
                if session@.status == "running"@ {
                    put_spec(
                        workflows,
                        session@.workflow,
                        match lookup(workflows, session@.workflow) {
                            Some(n) => (n + 1) as usize,
                            None => 1,
                        },
                    );
                    running_bounded(before, w);
                }
            }
            assert forall|key: Seq<char>|
                match #[trigger] lookup(by_owner.entries(), key) {
                    Some(n) => n > 0 && n == running_of_owner(after, key),
                    None => running_of_owner(after, key) == 0,
                } by {
                assert(match lookup(owners, key) {
                    Some(n) => n > 0 && n == running_of_owner(before, key),
                    None => running_of_owner(before, key) == 0,
                });
                match owner_key_of(session@.owner) {
                    Some(own) => {
                        if session@.status == "running"@ {
                            put_spec(
                                owners,
                                own,
                                match lookup(owners, own) {
                                    Some(n) => (n + 1) as usize,
                                    None => 1,
                                },
                            );
                            running_bounded(before, key);
                        }
                    },
                    None => {},
                }
            }
        }
        i += 1;
    }
    assert(all.take(n as int) =~= all);
    (by_workflow, by_owner)
}

// ---------------------------------------------------------------- requirements

/// Whether a text is there and not blank.
pub open spec fn given(text: Option<Seq<char>>) -> bool {
    text is Some && !blank(text->0)
}

fn is_given(text: &Option<String>) -> (r: bool)
    ensures
        r == given(opt_text(*text)),
{
    match text {
        Some(text) => !is_blank(text.as_str()),
        None => false,
    }
}

/// The providers that a stage needs: its own unless it runs a workflow, a
/// language model for a vote, and the shell for hooks.
pub open spec fn stage_providers(stage: StageView) -> Seq<Seq<char>> {
    let own = if stage.workflow is None {
        seq![lowered(trimmed(provider_of(stage)))]
    } else {
        Seq::empty()
    };
    let voted = if stage.vote is Some {
        own.push("llm"@)
    } else {
        own
    };
    if given(stage.before) || given(stage.after) || given(stage.on_error) {
        voted.push("shell"@)
    } else {
        voted
    }
}

pub open spec fn providers_of(stages: Seq<StageView>) -> Seq<Seq<char>>
    decreases stages.len(),
{
    if stages.len() == 0 {
        Seq::empty()
    } else {
        providers_of(stages.drop_last()) + stage_providers(stages.last())
    }
}

/// The providers that a workflow needs, in ascending order.
pub fn collect_required_providers(workflow: &Workflow) -> (r: Vec<String>)
    ensures
        texts(r@) == sorted_distinct(providers_of(workflow@.stages)),
{
    broadcast use group_texts;

    let mut names: Vec<String> = Vec::new();
    let ghost all = workflow@.stages;
    let mut i: usize = 0;
    assert(all.take(0) =~= Seq::<StageView>::empty());
    while i < workflow.stages.len()
        invariant
            i <= workflow.stages.len(),
            all == workflow@.stages,
            texts(names@) == providers_of(all.take(i as int)),
        decreases workflow.stages.len() - i,
    {
        assert(all.take(i + 1).drop_last() =~= all.take(i as int));
        let stage = &workflow.stages[i];
        assert(all.take(i + 1).last() == stage@);
        let ghost before = texts(names@);
        if stage.workflow.is_none() {
            names.push(to_lower(trim(stage.provider_name())));
        }
        if stage.vote.is_some() {
            names.push("llm".to_owned());
        }
        if is_given(&stage.before) || is_given(&stage.after) || is_given(&stage.on_error) {
            names.push("shell".to_owned());
        }
        assert(texts(names@) =~= before + stage_providers(stage@));
        i += 1;
    }
    assert(all.take(i as int) =~= all);
    sort_distinct(&names)
}

/// The names that are not in the set.
pub open spec fn not_in(names: Seq<Seq<char>>, set: Set<Seq<char>>) -> Seq<Seq<char>>
    decreases names.len(),
{
    if names.len() == 0 {
        Seq::empty()
    } else {
        let before = not_in(names.drop_last(), set);
        if set.contains(names.last()) {
            before
        } else {
            before.push(names.last())
        }
    }
}

pub fn keep_not_in(names: &Vec<String>, set: &StrSet) -> (r: Vec<String>)
    ensures
        texts(r@) == not_in(texts(names@), set@),
{
    broadcast use group_texts;

    let mut out: Vec<String> = Vec::new();
    let ghost all = texts(names@);
    let mut i: usize = 0;
    assert(all.take(0) =~= Seq::<Seq<char>>::empty());
    while i < names.len()
        invariant
            i <= names.len(),
            all == texts(names@),
            texts(out@) == not_in(all.take(i as int), set@),
        decreases names.len() - i,
    {
        assert(all.take(i + 1).drop_last() =~= all.take(i as int));
        if !set.contains(names[i].as_str()) {
            out.push(names[i].clone());
        }
        i += 1;
    }
    assert(all.take(i as int) =~= all);
    out
}

/// The names whose lower case is not in the set.
pub open spec fn unmet(names: Seq<Seq<char>>, set: Set<Seq<char>>) -> Seq<Seq<char>>
    decreases names.len(),
{
    if names.len() == 0 {
        Seq::empty()
    } else {
        let before = unmet(names.drop_last(), set);
        if set.contains(lowered(names.last())) {
            before
        } else {
            before.push(names.last())
        }
    }
}

/// The capabilities that a flow needs and the node lacks. The capability `*`
/// or `all` stands for every one.
pub open spec fn missing_capabilities_of(
    required: Seq<Seq<char>>,
    node: Set<Seq<char>>,
) -> Seq<Seq<char>> {
    if node.contains("*"@) || node.contains("all"@) {
        Seq::empty()
    } else {
        sorted_distinct(unmet(trimmed_pieces(required), node))
    }
}

pub fn missing_required_capabilities(entry: &WorkflowEntry, node_capabilities: &StrSet) -> (r: Vec<
    String,
>)
    ensures
        texts(r@) == missing_capabilities_of(entry@.required_capabilities, node_capabilities@),
{
    broadcast use group_texts;

    if node_capabilities.contains("*") || node_capabilities.contains("all") {
        return Vec::new();
    }
    let names = trim_pieces(&entry.required_capabilities);
    let mut missing: Vec<String> = Vec::new();
    let ghost all = texts(names@);
    let mut i: usize = 0;
    assert(all.take(0) =~= Seq::<Seq<char>>::empty());
    while i < names.len()
        invariant
            i <= names.len(),
            all == texts(names@),
            texts(missing@) == unmet(all.take(i as int), node_capabilities@),
        decreases names.len() - i,
    {
        assert(all.take(i + 1).drop_last() =~= all.take(i as int));
        let key = to_lower(names[i].as_str());
        if !node_capabilities.contains(key.as_str()) {
            missing.push(names[i].clone());
        }
        i += 1;
    }
    assert(all.take(i as int) =~= all);
    sort_distinct(&missing)
}

/// The providers that a flow needs and the node does not allow.
pub open spec fn missing_providers_of(
    required: Seq<Seq<char>>,
    allowed: Option<Set<Seq<char>>>,
) -> Seq<Seq<char>> {
    match allowed {
        None => Seq::empty(),
        Some(allowed) => sorted_distinct(
            not_in(lowered_all(trimmed_pieces(required)), allowed),
        ),
    }
}

pub fn missing_required_providers(entry: &WorkflowEntry, allowed_providers: &Option<StrSet>) -> (r:
    Vec<String>)
    ensures
        texts(r@) == missing_providers_of(entry@.required_providers, opt_set(*allowed_providers)),
{
    broadcast use group_texts;

    match allowed_providers {
        None => Vec::new(),
        Some(allowed) => {
            let pieces = trim_pieces(&entry.required_providers);
            let names = lower_all(&pieces);
            let missing = keep_not_in(&names, allowed);
            sort_distinct(&missing)
        },
    }
}

/// The providers that a workflow needs and that are not allowed.
pub open spec fn blocked_providers(
    workflow: WorkflowView,
    allowed: Option<Set<Seq<char>>>,
) -> Seq<Seq<char>> {
    match allowed {
        None => Seq::empty(),
        Some(allowed) => sorted_distinct(
            not_in(sorted_distinct(providers_of(workflow.stages)), allowed),
        ),
    }
}

/// The providers that a workflow needs, and those of them that are not allowed.
pub fn collect_provider_restrictions(workflow: &Workflow, allowed_providers: &Option<StrSet>) -> (r:
    (Vec<String>, Vec<String>))
    ensures
        texts(r.0@) == sorted_distinct(providers_of(workflow@.stages)),
        texts(r.1@) == blocked_providers(workflow@, opt_set(*allowed_providers)),
{
    broadcast use group_texts;

    let required = collect_required_providers(workflow);
    let missing = match allowed_providers {
        None => Vec::new(),
        Some(allowed) => {
            let names = keep_not_in(&required, allowed);
            sort_distinct(&names)
        },
    };
    (required, missing)
}

pub open spec fn opt_refusal(r: Option<Refusal>) -> Option<RefusalView> {
    match r {
        Some(refusal) => Some(refusal@),
        None => None,
    }
}

/// Why a workflow may not be run as it was sent: it needs providers that are
/// not allowed.
pub fn blocked_providers_refusal(workflow: &Workflow, allowed_providers: &Option<StrSet>) -> (r:
    Option<Refusal>)
    ensures
        ({
            let missing = blocked_providers(workflow@, opt_set(*allowed_providers));
            opt_refusal(r) == if missing.len() == 0 {
                None::<RefusalView>
            } else {
                Some(
                    RefusalView {
                        status: 403,
                        message: "workflow requires blocked providers: "@ + joined(missing, ", "@),
                    },
                )
            }
        }),
{
    let (_, missing) = collect_provider_restrictions(workflow, allowed_providers);
    if missing.len() == 0 {
        return None;
    }
    let names = join(&missing, ", ");
    Some(
        Refusal {
            status: 403,
            message: cat2("workflow requires blocked providers: ", names.as_str()),
        },
    )
}

// ---------------------------------------------------------------- readiness

/// What a node allows.
pub struct NodePolicy {
    pub capabilities: StrSet,
    pub allowed_providers: Option<StrSet>,
    pub owners: OwnerConcurrencyPolicy,
}

/// What a node allows, as plain values.
pub struct NodeView {
    pub capabilities: Set<Seq<char>>,
    pub allowed: Option<Set<Seq<char>>>,
    pub per_owner: Seq<(Seq<char>, usize)>,
    pub default_limit: Option<usize>,
}

impl View for NodePolicy {
    type V = NodeView;

    open spec fn view(&self) -> NodeView {
        NodeView {
            capabilities: self.capabilities@,
            allowed: opt_set(self.allowed_providers),
            per_owner: self.owners.per_owner.entries(),
            default_limit: self.owners.default_limit,
        }
    }
}

/// What runs now, and what may.
#[derive(Debug, Clone, Copy)]
pub struct FlowReadinessRuntime {
    pub running: usize,
    pub default_max_concurrency: Option<usize>,
    pub owner_running: usize,
    pub owner_max_concurrency: Option<usize>,
}

pub fn flow_readiness_runtime(
    running: usize,
    default_max_concurrency: Option<usize>,
    owner_running: usize,
    owner_max_concurrency: Option<usize>,
) -> (r: FlowReadinessRuntime)
    ensures
        r == (FlowReadinessRuntime {
            running,
            default_max_concurrency,
            owner_running,
            owner_max_concurrency,
        }),
{
    FlowReadinessRuntime {
        running,
        default_max_concurrency,
        owner_running,
        owner_max_concurrency,
    }
}

/// Whether a flow may run, and what stands in its way.
pub struct FlowReadiness {
    pub missing_capabilities: Vec<String>,
    pub missing_providers: Vec<String>,
    pub max_concurrency: Option<usize>,
    pub running: usize,
    pub concurrency_blocked: bool,
    pub owner_running: usize,
    pub owner_max_concurrency: Option<usize>,
    pub owner_concurrency_blocked: bool,
}

/// A readiness, as plain values.
pub struct ReadinessView {
    pub missing_capabilities: Seq<Seq<char>>,
    pub missing_providers: Seq<Seq<char>>,
    pub max_concurrency: Option<usize>,
    pub running: usize,
    pub concurrency_blocked: bool,
    pub owner_running: usize,
    pub owner_max_concurrency: Option<usize>,
    pub owner_concurrency_blocked: bool,
}

impl View for FlowReadiness {
    type V = ReadinessView;

    open spec fn view(&self) -> ReadinessView {
        ReadinessView {
            missing_capabilities: texts(self.missing_capabilities@),
            missing_providers: texts(self.missing_providers@),
            max_concurrency: self.max_concurrency,
            running: self.running,
            concurrency_blocked: self.concurrency_blocked,
            owner_running: self.owner_running,
            owner_max_concurrency: self.owner_max_concurrency,
            owner_concurrency_blocked: self.owner_concurrency_blocked,
        }
    }
}

impl ReadinessView {
    /// Whether nothing stands in the way.
    pub open spec fn ready(self) -> bool {
        &&& self.missing_capabilities.len() == 0
        &&& self.missing_providers.len() == 0
        &&& !self.concurrency_blocked
        &&& !self.owner_concurrency_blocked
    }
}

impl FlowReadiness {
    /// Whether nothing stands in the way.
    pub fn can_run(&self) -> (r: bool)
        ensures
            r == self@.ready(),
    {
        self.missing_capabilities.len() == 0 && self.missing_providers.len() == 0
            && !self.concurrency_blocked && !self.owner_concurrency_blocked
    }
}

/// A limit of at least one.
pub open spec fn positive(limit: Option<usize>) -> Option<usize> {
    match limit {
        Some(n) => if n >= 1 {
            Some(n)
        } else {
            None
        },
        None => None,
    }
}

/// How many sessions of a flow may run: the flow's own limit, else the default;
/// a limit of zero is none.
pub open spec fn concurrency_limit(own: Option<u32>, default_max: Option<usize>) -> Option<usize> {
    match own {
        Some(n) => if n >= 1 {
            Some(n as usize)
        } else {
            positive(default_max)
        },
        None => positive(default_max),
    }
}

/// Whether a count has reached its limit.
pub open spec fn reached(limit: Option<usize>, count: usize) -> bool {
    match limit {
        Some(max) => count >= max,
        None => false,
    }
}

/// Whether a flow may run, and what stands in its way.
pub open spec fn readiness_of(
    required_capabilities: Seq<Seq<char>>,
    required_providers: Seq<Seq<char>>,
    max_concurrency: Option<u32>,
    capabilities: Set<Seq<char>>,
    allowed: Option<Set<Seq<char>>>,
    runtime: FlowReadinessRuntime,
) -> ReadinessView {
    let limit = concurrency_limit(max_concurrency, runtime.default_max_concurrency);
    ReadinessView {
        missing_capabilities: missing_capabilities_of(required_capabilities, capabilities),
        missing_providers: missing_providers_of(required_providers, allowed),
        max_concurrency: limit,
        running: runtime.running,
        concurrency_blocked: reached(limit, runtime.running),
        owner_running: runtime.owner_running,
        owner_max_concurrency: runtime.owner_max_concurrency,
        owner_concurrency_blocked: reached(runtime.owner_max_concurrency, runtime.owner_running),
    }
}

pub fn normalize_max_concurrency(raw: Option<u32>) -> (r: Option<usize>)
    ensures
        r == concurrency_limit(raw, None),
{
    match raw {
        Some(n) => {
            if n >= 1 {
                Some(n as usize)
            } else {
                None
            }
        },
        None => None,
    }
}

fn is_reached(limit: Option<usize>, count: usize) -> (r: bool)
    ensures
        r == reached(limit, count),
{
    match limit {
        Some(max) => count >= max,
        None => false,
    }
}

/// Whether the flow may run, and what stands in its way.
pub fn evaluate_flow_readiness(
    entry: &WorkflowEntry,
    node_capabilities: &StrSet,
    allowed_providers: &Option<StrSet>,
    runtime: FlowReadinessRuntime,
) -> (r: FlowReadiness)
    ensures
        r@ == readiness_of(
            entry@.required_capabilities,
            entry@.required_providers,
            entry@.max_concurrency,
            node_capabilities@,
            opt_set(*allowed_providers),
            runtime,
        ),
{
    let missing_capabilities = missing_required_capabilities(entry, node_capabilities);
    let missing_providers = missing_required_providers(entry, allowed_providers);
    let own = normalize_max_concurrency(entry.max_concurrency);
    let max_concurrency = match own {
        Some(n) => Some(n),
        None => match runtime.default_max_concurrency {
            Some(n) => {
                if n >= 1 {
                    Some(n)
                } else {
                    None
                }
            },
            None => None,
        },
    };
    FlowReadiness {
        missing_capabilities,
        missing_providers,
        max_concurrency,
        running: runtime.running,
        concurrency_blocked: is_reached(max_concurrency, runtime.running),
        owner_running: runtime.owner_running,
        owner_max_concurrency: runtime.owner_max_concurrency,
        owner_concurrency_blocked: is_reached(
            runtime.owner_max_concurrency,
            runtime.owner_running,
        ),
    }
}

/// A flow that may run has every capability and provider it needs, and is
/// below its limits.
pub proof fn ready_means_allowed(
    required_capabilities: Seq<Seq<char>>,
    required_providers: Seq<Seq<char>>,
    max_concurrency: Option<u32>,
    capabilities: Set<Seq<char>>,
    allowed: Option<Set<Seq<char>>>,
    runtime: FlowReadinessRuntime,
    name: Seq<char>,
)
    requires
        readiness_of(
            required_capabilities,
            required_providers,
            max_concurrency,
            capabilities,
            allowed,
            runtime,
        ).ready(),
    ensures
        allowed is Some && lowered_all(trimmed_pieces(required_providers)).contains(name)
            ==> allowed->0.contains(name),
        trimmed_pieces(required_capabilities).contains(name) ==> capabilities.contains(
            lowered(name),
        ) || capabilities.contains("*"@) || capabilities.contains("all"@),
        max_concurrency is Some && max_concurrency->0 >= 1 ==> runtime.running
            < max_concurrency->0,
        runtime.owner_max_concurrency is Some ==> runtime.owner_running
            < runtime.owner_max_concurrency->0,
{
    if allowed is Some {
        let names = lowered_all(trimmed_pieces(required_providers));
        not_in_spec(names, allowed->0, name);
        sorted_distinct_spec(not_in(names, allowed->0));
        if not_in(names, allowed->0).contains(name) {
            assert(sorted_distinct(not_in(names, allowed->0)).contains(name));
        }
    }
    let caps = trimmed_pieces(required_capabilities);
    unmet_spec(caps, capabilities, name);
    sorted_distinct_spec(unmet(caps, capabilities));
    if unmet(caps, capabilities).contains(name) {
        assert(sorted_distinct(unmet(caps, capabilities)).contains(name));
    }
}

proof fn not_in_spec(names: Seq<Seq<char>>, set: Set<Seq<char>>, name: Seq<char>)
    ensures
        not_in(names, set).contains(name) <==> names.contains(name) && !set.contains(name),
    decreases names.len(),
{
    if names.len() > 0 {
        let d = names.drop_last();
        not_in_spec(d, set, name);
        let before = not_in(d, set);
        let r = not_in(names, set);
        assert(names =~= d.push(names.last()));
        if names.contains(name) {
            let k = choose|k: int| 0 <= k < names.len() && names[k] == name;
            if k < d.len() {
                assert(d[k] == name);
            }
        }
        if d.contains(name) {
            let k = choose|k: int| 0 <= k < d.len() && d[k] == name;
            assert(names[k] == name);
        }
        if before.contains(name) {
            let k = choose|k: int| 0 <= k < before.len() && before[k] == name;
            assert(r[k] == name);
        }
        if r.contains(name) {
            let k = choose|k: int| 0 <= k < r.len() && r[k] == name;
            if k < before.len() {
                assert(before[k] == name);
            }
        }
        if name == names.last() {
            assert(names[names.len() - 1] == name);
            if !set.contains(name) {
                assert(r[before.len() as int] == name);
            }
        }
    }
}

proof fn unmet_spec(names: Seq<Seq<char>>, set: Set<Seq<char>>, name: Seq<char>)
    ensures
        unmet(names, set).contains(name) <==> names.contains(name) && !set.contains(lowered(name)),
    decreases names.len(),
{
    if names.len() > 0 {
        let d = names.drop_last();
        unmet_spec(d, set, name);
        let before = unmet(d, set);
        let r = unmet(names, set);
        if names.contains(name) {
            let k = choose|k: int| 0 <= k < names.len() && names[k] == name;
            if k < d.len() {
                assert(d[k] == name);
            }
        }
        if d.contains(name) {
            let k = choose|k: int| 0 <= k < d.len() && d[k] == name;
            assert(names[k] == name);
        }
        if before.contains(name) {
            let k = choose|k: int| 0 <= k < before.len() && before[k] == name;
            assert(r[k] == name);
        }
        if r.contains(name) {
            let k = choose|k: int| 0 <= k < r.len() && r[k] == name;
            if k < before.len() {
                assert(before[k] == name);
            }
        }
        if name == names.last() {
            assert(names[names.len() - 1] == name);
            if !set.contains(lowered(name)) {
                assert(r[before.len() as int] == name);
            }
        }
    }
}

} // verus!
