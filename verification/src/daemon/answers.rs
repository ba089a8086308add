//! What the daemon answers: checks of flows and intents, sessions and hooks.
use crate::allowlist::opt_set;
use crate::daemon::chat::{
    chat_intent_can_run, effective_iterations, evaluate_chat_intent_guardrails, guardrail_reasons,
    guardrail_refusal, ChatIntentConfig, ChatRunRequest, RuleView,
};
use crate::daemon::flows::{
    blocked_providers, collect_provider_restrictions, providers_of, FlowReadiness,
    FlowView, ReadinessView, WorkflowEntry,
};
use crate::daemon::launch::{
    listens, listens_to_hook, public_id, workflow_public_id, RunRegisteredOptions,
};
use crate::daemon::sessions::{refuse, Refusal, RefusalView, SessionInfo};
use crate::order::sorted_distinct;
use crate::ranking::views;
use crate::strmap::{lookup, StrMap, StrSet};
use crate::text::{as_str_opt, cat2, clone_opt, joined, opt_str, opt_text, texts};
use crate::workflow::{workflow_problem, Workflow};
use vstd::prelude::*;

pub mod laws;

verus! {

// ---------------------------------------------------------------- workflows

/// The workflow that a request carries, or why it is turned down: its body, as it
/// was read, is no workflow, or the workflow is not valid.
pub fn checked_body(read: Result<Workflow, String>) -> (r: Result<Workflow, Refusal>)
    ensures
        match read {
            Err(why) => r is Err && r->Err_0@ == (RefusalView {
                status: 400,
                message: "invalid workflow yaml: "@ + why@,
            }),
            Ok(workflow) => match workflow_problem(workflow@) {
                Some(problem) => r is Err && r->Err_0@ == (RefusalView {
                    status: 400,
                    message: "workflow validation failed: "@ + problem,
                }),
                None => r == Ok::<Workflow, Refusal>(workflow),
            },
        },
{
    match read {
        Err(why) => Err(
            Refusal { status: 400, message: cat2("invalid workflow yaml: ", why.as_str()) },
        ),
        Ok(workflow) => match workflow.validate() {
            Err(problem) => Err(
                Refusal {
                    status: 400,
                    message: cat2("workflow validation failed: ", problem.as_str()),
                },
            ),
            Ok(()) => Ok(workflow),
        },
    }
}

/// Whether a workflow that a request carries may run on this node.
pub struct BodyCheck {
    pub workflow: String,
    pub can_run: bool,
    pub provider_restriction_enabled: bool,
    pub required_providers: Vec<String>,
    pub missing_providers: Vec<String>,
}

/// Checks a workflow that a request carries.
pub fn body_check(workflow: &Workflow, allowed_providers: &Option<StrSet>) -> (r: BodyCheck)
    ensures
        r.workflow@ == workflow@.name,
        r.provider_restriction_enabled == allowed_providers is Some,
        texts(r.required_providers@) == sorted_distinct(providers_of(workflow@.stages)),
        texts(r.missing_providers@) == blocked_providers(workflow@, opt_set(*allowed_providers)),
        r.can_run == (r.missing_providers@.len() == 0),
{
    let (required_providers, missing_providers) = collect_provider_restrictions(
        workflow,
        allowed_providers,
    );
    BodyCheck {
        workflow: workflow.name.clone(),
        can_run: missing_providers.len() == 0,
        provider_restriction_enabled: allowed_providers.is_some(),
        required_providers,
        missing_providers,
    }
}

/// Whether a flow may run now.
pub struct FlowCheck {
    pub id: String,
    pub workflow: String,
    pub file: String,
    pub path: String,
    pub owner: Option<String>,
    pub can_run: bool,
    pub readiness: FlowReadiness,
}

/// The check of a flow, as plain values.
pub struct FlowCheckView {
    pub id: Seq<char>,
    pub workflow: Seq<char>,
    pub file: Seq<char>,
    pub path: Seq<char>,
    pub owner: Option<Seq<char>>,
    pub can_run: bool,
    pub readiness: ReadinessView,
}

impl View for FlowCheck {
    type V = FlowCheckView;

    open spec fn view(&self) -> FlowCheckView {
        FlowCheckView {
            id: self.id@,
            workflow: self.workflow@,
            file: self.file@,
            path: self.path@,
            owner: opt_text(self.owner),
            can_run: self.can_run,
            readiness: self.readiness@,
        }
    }
}

/// The check of a flow of the given readiness.
pub open spec fn flow_check_of(entry: FlowView, readiness: ReadinessView) -> FlowCheckView {
    FlowCheckView {
        id: public_id(entry),
        workflow: entry.workflow_name,
        file: entry.file_name,
        path: entry.path,
        owner: entry.owner,
        can_run: readiness.ready(),
        readiness,
    }
}

pub fn flow_check(entry: &WorkflowEntry, readiness: FlowReadiness) -> (r: FlowCheck)
    ensures
        r@ == flow_check_of(entry@, readiness@),
{
    FlowCheck {
        id: workflow_public_id(entry),
        workflow: entry.workflow_name.clone(),
        file: entry.file_name.clone(),
        path: entry.path.clone(),
        owner: clone_opt(&entry.owner),
        can_run: readiness.can_run(),
        readiness,
    }
}

// ---------------------------------------------------------------- intents

/// Whether an intent can be used now.
pub struct ChatCheck {
    pub intent: String,
    pub workflow: String,
    pub can_run: bool,
    pub caller: Option<String>,
    pub guardrail_reasons: Vec<String>,
    pub requested_max_iterations: Option<u32>,
    pub effective_max_iterations: Option<u32>,
    pub max_iterations_cap: Option<u32>,
    pub readiness: FlowReadiness,
}

/// The check of an intent, as plain values.
pub struct ChatCheckView {
    pub intent: Seq<char>,
    pub workflow: Seq<char>,
    pub can_run: bool,
    pub caller: Option<Seq<char>>,
    pub guardrail_reasons: Seq<Seq<char>>,
    pub requested_max_iterations: Option<u32>,
    pub effective_max_iterations: Option<u32>,
    pub max_iterations_cap: Option<u32>,
    pub readiness: ReadinessView,
}

impl View for ChatCheck {
    type V = ChatCheckView;

    open spec fn view(&self) -> ChatCheckView {
        ChatCheckView {
            intent: self.intent@,
            workflow: self.workflow@,
            can_run: self.can_run,
            caller: opt_text(self.caller),
            guardrail_reasons: texts(self.guardrail_reasons@),
            requested_max_iterations: self.requested_max_iterations,
            effective_max_iterations: self.effective_max_iterations,
            max_iterations_cap: self.max_iterations_cap,
            readiness: self.readiness@,
        }
    }
}

/// The check of an intent with the given rule, flow and readiness.
pub open spec fn chat_check_of(
    intent: Seq<char>,
    rule: RuleView,
    entry: FlowView,
    requested: Option<u32>,
    caller: Option<Seq<char>>,
    readiness: ReadinessView,
) -> ChatCheckView {
    let reasons = guardrail_reasons(rule, entry.owner, entry.tags, requested, caller);
    ChatCheckView {
        intent,
        workflow: entry.workflow_name,
        can_run: readiness.ready() && reasons.len() == 0,
        caller,
        guardrail_reasons: reasons,
        requested_max_iterations: requested,
        effective_max_iterations: effective_iterations(rule.max_iterations_cap, requested),
        max_iterations_cap: rule.max_iterations_cap,
        readiness,
    }
}

pub fn chat_check(
    intent: String,
    rule: &ChatIntentConfig,
    entry: &WorkflowEntry,
    requested: Option<u32>,
    caller: Option<String>,
    readiness: FlowReadiness,
) -> (r: ChatCheck)
    ensures
        r@ == chat_check_of(
            intent@,
            rule@,
            entry@,
            requested,
            opt_text(caller),
            readiness@,
        ),
{
    let guardrails = evaluate_chat_intent_guardrails(
        rule,
        entry,
        requested,
        as_str_opt(&caller),
    );
    let can_run = chat_intent_can_run(&readiness, &guardrails);
    ChatCheck {
        intent,
        workflow: entry.workflow_name.clone(),
        can_run,
        caller,
        guardrail_reasons: guardrails.reasons,
        requested_max_iterations: requested,
        effective_max_iterations: guardrails.effective_max_iterations,
        max_iterations_cap: rule.max_iterations_cap,
        readiness,
    }
}

/// What becomes of a request to run an intent.
pub enum ChatVerdict {
    Blocked(Refusal, Vec<String>),
    Launch(RunRegisteredOptions),
}

/// Holds a request to run an intent to the guardrails of its rule: it is turned
/// down, with the reasons, or its flow is launched with the variables of the
/// request.
pub fn chat_verdict(
    rule: &ChatIntentConfig,
    entry: &WorkflowEntry,
    request: ChatRunRequest,
    caller: Option<&str>,
) -> (r: ChatVerdict)
    ensures
        ({
            let reasons = guardrail_reasons(
                rule@,
                entry@.owner,
                entry@.tags,
                request.max_iterations,
                opt_str(caller),
            );
            match r {
                ChatVerdict::Blocked(refusal, told) => {
                    &&& reasons.len() > 0
                    &&& texts(told@) == reasons
                    &&& refusal@ == (RefusalView {
                        status: 403,
                        message: "chat intent '"@ + request.intent@ + "' blocked by guardrails: "@
                            + joined(reasons, "; "@),
                    })
                },
                ChatVerdict::Launch(options) => {
                    &&& reasons.len() == 0
                    &&& options.vars.entries() == request.vars.entries()
                    &&& options.max_iterations == effective_iterations(
                        rule@.max_iterations_cap,
                        request.max_iterations,
                    )
                },
            }
        }),
{
    let guardrails = evaluate_chat_intent_guardrails(rule, entry, request.max_iterations, caller);
    match guardrail_refusal(request.intent.as_str(), &guardrails.reasons) {
        Some(refusal) => ChatVerdict::Blocked(refusal, guardrails.reasons),
        None => ChatVerdict::Launch(
            RunRegisteredOptions {
                vars: request.vars,
                max_iterations: guardrails.effective_max_iterations,
            },
        ),
    }
}

// ---------------------------------------------------------------- sessions

/// The refusal of a request for a session that is not there.
pub open spec fn no_session() -> RefusalView {
    RefusalView { status: 404, message: "session not found"@ }
}

/// The session with the id.
pub fn session_named(sessions: &StrMap<SessionInfo>, id: &str) -> (r: Result<SessionInfo, Refusal>)
    ensures
        match lookup(sessions.entries(), id@) {
            Some(session) => r is Ok && r->Ok_0@ == session,
            None => r is Err && r->Err_0@ == no_session(),
        },
{
    match sessions.get(id) {
        Some(session) => Ok(session.copied()),
        None => Err(refuse(404, "session not found")),
    }
}

/// The run of the session with the id, whose logs can be read.
pub fn runtime_session(sessions: &StrMap<SessionInfo>, id: &str) -> (r: Result<String, Refusal>)
    ensures
        match lookup(sessions.entries(), id@) {
            Some(session) => match session.runtime_session_id {
                Some(runtime_id) => r is Ok && r->Ok_0@ == runtime_id,
                None => r is Err && r->Err_0@ == (RefusalView {
                    status: 409,
                    message: "runtime session not available yet"@,
                }),
            },
            None => r is Err && r->Err_0@ == no_session(),
        },
{
    match sessions.get(id) {
        Some(session) => match &session.runtime_session_id {
            Some(runtime_id) => Ok(runtime_id.clone()),
            None => Err(refuse(409, "runtime session not available yet")),
        },
        None => Err(refuse(404, "session not found")),
    }
}

// ---------------------------------------------------------------- hooks

/// The positions of the flows that listen to a hook.
pub open spec fn listener_positions(entries: Seq<FlowView>, path: Seq<char>) -> Seq<int>
    decreases entries.len(),
{
    if entries.len() == 0 {
        Seq::empty()
    } else {
        let before = listener_positions(entries.drop_last(), path);
        if listens(entries.last(), path) {
            before.push(entries.len() - 1)
        } else {
            before
        }
    }
}

/// Positions, as mathematical integers.
pub open spec fn positions(items: Seq<usize>) -> Seq<int> {
    Seq::new(items.len(), |i: int| items[i] as int)
}

/// The positions of the flows that listen to a hook.
pub fn hook_listeners(entries: &Vec<WorkflowEntry>, path: &str) -> (r: Vec<usize>)
    ensures
        positions(r@) == listener_positions(views(entries@), path@),
        forall|i: int| 0 <= i < r@.len() ==> (#[trigger] r@[i]) < entries@.len(),
{
    let ghost all = views(entries@);
    let mut out: Vec<usize> = Vec::new();
    assert(all.take(0) =~= Seq::<FlowView>::empty());
    assert(positions(out@) =~= Seq::<int>::empty());
    let mut i: usize = 0;
    while i < entries.len()
        invariant
            i <= entries@.len(),
            all == views(entries@),
            positions(out@) == listener_positions(all.take(i as int), path@),
            forall|j: int| 0 <= j < out@.len() ==> (#[trigger] out@[j]) < entries@.len(),
        decreases entries@.len() - i,
    {
        assert(all.take(i + 1).drop_last() =~= all.take(i as int));
        assert(all.take(i + 1).last() == entries@[i as int]@);
        if listens_to_hook(&entries[i], path) {
            let ghost before = positions(out@);
            out.push(i);
            assert(positions(out@) =~= before.push(i as int));
        }
        i += 1;
    }
    assert(all.take(i as int) =~= all);
    out
}

} // verus!
