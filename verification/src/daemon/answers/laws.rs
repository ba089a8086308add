//! What holds of the answers of the daemon.
use crate::daemon::answers::{
    chat_check_of, flow_check_of, listener_positions, no_session, positions,
};
use crate::daemon::chat::{effective_iterations, guardrail_reasons, RuleView};
use crate::daemon::flows::{FlowView, ReadinessView};
use crate::daemon::launch::public_id;
use crate::text::trimmed;
use vstd::prelude::*;

verus! {

/// A check tells of the flow that was asked for, and whether it may run now.
pub proof fn checks_tell_of_the_flow(entry: FlowView, readiness: ReadinessView)
    ensures
        ({
            let check = flow_check_of(entry, readiness);
            &&& check.can_run <==> readiness.ready()
            &&& check.readiness == readiness && check.id == public_id(entry)
            &&& check.workflow == entry.workflow_name && check.file == entry.file_name
                && check.path == entry.path && check.owner == entry.owner
        }),
{
}

/// An intent can be used if and only if its flow may run and no guardrail stands in
/// the way; the check tells what was asked for and what is given.
pub proof fn checks_tell_of_the_intent(
    intent: Seq<char>,
    rule: RuleView,
    entry: FlowView,
    requested: Option<u32>,
    caller: Option<Seq<char>>,
    readiness: ReadinessView,
)
    ensures
        ({
            let check = chat_check_of(intent, rule, entry, requested, caller, readiness);
            &&& check.can_run <==> readiness.ready() && check.guardrail_reasons.len() == 0
            &&& check.guardrail_reasons == guardrail_reasons(
                rule,
                entry.owner,
                entry.tags,
                requested,
                caller,
            )
            &&& check.intent == intent && check.workflow == entry.workflow_name && check.caller
                == caller && check.readiness == readiness
            &&& check.requested_max_iterations == requested && check.max_iterations_cap
                == rule.max_iterations_cap
            &&& check.effective_max_iterations == effective_iterations(
                rule.max_iterations_cap,
                requested,
            )
        }),
{
}

/// A session that is not there is answered as not found.
pub proof fn absent_sessions_are_not_found()
    ensures
        no_session().status == 404,
        no_session().message == "session not found"@,
{
}

/// Every flow that listens to a hook is called, once and in the order of the flows,
/// and no other is.
pub proof fn all_listeners_are_called(entries: Seq<FlowView>, path: Seq<char>, k: int)
    ensures
        listener_positions(entries, path).contains(k) <==> 0 <= k < entries.len() && (
        entries[k].trigger_webhook is Some && trimmed(entries[k].trigger_webhook->0) == path),
        forall|i: int, j: int|
            0 <= i < j < listener_positions(entries, path).len() ==> #[trigger] listener_positions(
                entries,
                path,
            )[i] < #[trigger] listener_positions(entries, path)[j],
        forall|i: int|
            0 <= i < listener_positions(entries, path).len() ==> 0
                <= #[trigger] listener_positions(entries, path)[i] < entries.len(),
    decreases entries.len(),
{
    if entries.len() > 0 {
        let rest = entries.drop_last();
        all_listeners_are_called(rest, path, k);
        let before = listener_positions(rest, path);
        let last = entries.len() - 1;
        if before.push(last).contains(k) {
            let i = choose|i: int| 0 <= i < before.len() + 1 && before.push(last)[i] == k;
            if i < before.len() {
                assert(before[i] == k);
            }
        }
        if before.contains(k) {
            let i = choose|i: int| 0 <= i < before.len() && before[i] == k;
            assert(before.push(last)[i] == k);
        }
        assert(before.push(last)[before.len() as int] == last);
        if 0 <= k < rest.len() {
            assert(rest[k] == entries[k]);
        }
    }
}

/// Positions stay what they are.
pub proof fn positions_stay(items: Seq<usize>, i: int)
    ensures
        positions(items).len() == items.len(),
        0 <= i < items.len() ==> positions(items)[i] == items[i],
{
}

} // verus!
