//! What holds of chat intents, of who may use them and of what is told of them.
use crate::allowlist::lowered_all;
use crate::daemon::chat::{
    caller_reasons, doc_items, doc_labels, doc_notes, effective_iterations, entry_label,
    entry_notes, guardrail_reasons, intent_note, intents_in, iteration_reasons, listed_intents,
    map_label, map_rule, missing_tags, normal_intent, normal_list, owner_reasons, plain_rule,
    route_lines, routes_of, same_rules, tag_reasons, value_note, value_notes, with_intent,
    ChatIntentConfig, ChatIntentDoc, ChatIntentEntry, ChatIntentMapValue, RouteView, RuleView,
};
use crate::daemon::flows::not_in;
use crate::number::decimal;
use crate::order::{sorted_distinct_spec, text_less};
use crate::ranking::{ranked, ranked_spec, RankView};
use crate::strmap::{lookup, put_spec};
use crate::text::laws::filled_pieces_are_kept;
use crate::text::{blank, joined, lowered, split_at_first, trimmed, trimmed_pieces};
use vstd::prelude::*;

verus! {

// ---------------------------------------------------------------- reading

/// A list holds what is said in it, without blanks and case.
pub proof fn lists_hold_what_is_said(values: Seq<Seq<char>>, value: Seq<char>)
    ensures
        normal_list(values).contains(value) <==> exists|i: int|
            0 <= i < values.len() && !blank(#[trigger] values[i]) && lowered(trimmed(values[i]))
                == value,
{
    let kept = trimmed_pieces(values);
    let low = lowered_all(kept);
    sorted_distinct_spec(low);
    if low.contains(value) {
        let k = choose|k: int| 0 <= k < low.len() && low[k] == value;
        assert(kept.contains(kept[k]));
        filled_pieces_are_kept(values, kept[k]);
    }
    if exists|i: int|
        0 <= i < values.len() && !blank(#[trigger] values[i]) && lowered(trimmed(values[i]))
            == value {
        let i = choose|i: int|
            0 <= i < values.len() && !blank(#[trigger] values[i]) && lowered(trimmed(values[i]))
                == value;
        filled_pieces_are_kept(values, trimmed(values[i]));
        let k = choose|k: int| 0 <= k < kept.len() && kept[k] == trimmed(values[i]);
        assert(low[k] == value);
    }
}

/// An intent counts where it has a name and a flow, and its cap lets something run.
pub proof fn whole_intents_count(intent: Seq<char>, rule: RuleView)
    ensures
        blank(intent) ==> normal_intent(intent, rule) is None,
        blank(rule.workflow) ==> normal_intent(intent, rule) is None,
        rule.max_iterations_cap == Some(0u32) ==> normal_intent(intent, rule) is None,
        !blank(intent) && !blank(rule.workflow) && rule.max_iterations_cap != Some(0u32) ==> (
        normal_intent(intent, rule) matches Some((key, normal)) && key == lowered(trimmed(intent))
            && normal.workflow == trimmed(rule.workflow) && normal.allowed_callers == normal_list(
            rule.allowed_callers,
        ) && normal.allowed_owners == normal_list(rule.allowed_owners) && normal.required_tags
            == normal_list(rule.required_tags) && normal.max_iterations_cap
            == rule.max_iterations_cap),
{
}

/// An intent that counts is found under its name, and no other intent changes.
pub proof fn intents_are_found(
    intents: Seq<(Seq<char>, RuleView)>,
    intent: Seq<char>,
    rule: RuleView,
    other: Seq<char>,
)
    ensures
        !blank(intent) && !blank(rule.workflow) && rule.max_iterations_cap != Some(0u32) ==> {
            let all = with_intent(intents, intent, rule);
            &&& lookup(all, lowered(trimmed(intent))) is Some
            &&& lookup(all, lowered(trimmed(intent)))->0.workflow == trimmed(rule.workflow)
            &&& other != lowered(trimmed(intent)) ==> lookup(all, other) == lookup(intents, other)
        },
        blank(intent) || blank(rule.workflow) || rule.max_iterations_cap == Some(0u32)
            ==> with_intent(intents, intent, rule) == intents,
{
    if let Some((key, rule)) = normal_intent(intent, rule) {
        put_spec(intents, key, rule);
    }
}

/// Entries are taken one after another, so that a later one goes before an earlier
/// one.
pub proof fn later_intents_win(
    items: Seq<Seq<char>>,
    item: Seq<char>,
    entries: Seq<(Seq<char>, RuleView)>,
    entry: (Seq<char>, RuleView),
)
    ensures
        intents_in(Seq::empty()).len() == 0,
        split_at_first(item, "="@) is None ==> intents_in(items.push(item)) == intents_in(items),
        split_at_first(item, "="@) matches Some((intent, workflow)) ==> intents_in(
            items.push(item),
        ) == with_intent(
            intents_in(items),
            intent,
            (RuleView {
                workflow,
                allowed_callers: Seq::empty(),
                allowed_owners: Seq::empty(),
                required_tags: Seq::empty(),
                max_iterations_cap: None,
            }),
        ),
        listed_intents(Seq::empty()).len() == 0,
        listed_intents(entries.push(entry)) == with_intent(
            listed_intents(entries),
            entry.0,
            entry.1,
        ),
{
    assert(items.push(item).drop_last() =~= items);
    assert(entries.push(entry).drop_last() =~= entries);
}

/// A flow alone is a rule for everybody, without a cap.
pub proof fn flows_alone_are_open(workflow: String, config: ChatIntentConfig)
    ensures
        map_rule(ChatIntentMapValue::Workflow(workflow)) == plain_rule(workflow@),
        map_rule(ChatIntentMapValue::Config(config)) == config@,
        plain_rule(workflow@).workflow == workflow@,
        plain_rule(workflow@).allowed_callers.len() == 0,
        plain_rule(workflow@).allowed_owners.len() == 0,
        plain_rule(workflow@).required_tags.len() == 0,
        plain_rule(workflow@).max_iterations_cap is None,
{
}

// ---------------------------------------------------------------- what is told

/// What is told of an ignored entry names it and where it comes from.
pub proof fn ignored_entries_are_named(
    intent: Seq<char>,
    rule: RuleView,
    source: Seq<char>,
    label: Seq<char>,
)
    ensures
        blank(intent) || blank(rule.workflow) ==> intent_note(intent, rule, source, label) == Some(
            "anna-rs daemon: ignoring invalid chat intent entry '"@ + label + "' from "@ + source,
        ),
        !blank(intent) && !blank(rule.workflow) && rule.max_iterations_cap == Some(0u32)
            ==> intent_note(intent, rule, source, label) == Some(
            "anna-rs daemon: ignoring invalid chat intent entry '"@ + label + "' from "@ + source
                + " (max_iterations_cap must be >=1)"@,
        ),
{
}

/// An entry of a list is told of if and only if it is not taken.
pub proof fn skipped_items_are_told(items: Seq<Seq<char>>, item: Seq<char>)
    ensures
        split_at_first(item, "="@) is None ==> value_note(item) == Some(
            "anna-rs daemon: ignoring invalid ANNA_CHAT_INTENTS entry '"@ + item + "'"@,
        ),
        split_at_first(item, "="@) matches Some((intent, workflow)) ==> (value_note(item) is Some
            <==> blank(intent) || blank(workflow)),
        value_note(item) matches Some(note) ==> value_notes(items.push(item)) == value_notes(
            items,
        ).push(note),
        value_note(item) is None ==> value_notes(items.push(item)) == value_notes(items),
        value_notes(Seq::empty()).len() == 0,
{
    assert(items.push(item).drop_last() =~= items);
}

/// An entry of a document is told of if and only if it is not taken.
pub proof fn skipped_entries_are_told(
    items: Seq<(Seq<char>, RuleView)>,
    labels: Seq<Seq<char>>,
    source: Seq<char>,
    n: nat,
)
    ensures
        entry_notes(items, labels, source, 0).len() == 0,
        ({
            let note = intent_note(items[n as int].0, items[n as int].1, source, labels[n as int]);
            let before = entry_notes(items, labels, source, n);
            &&& note is None ==> entry_notes(items, labels, source, n + 1) == before
            &&& note is Some ==> entry_notes(items, labels, source, n + 1) == before.push(note->0)
        }),
{
}

/// Entries are told apart by their intent and their flow.
pub proof fn entries_have_labels(intent: Seq<char>, workflow: String, config: ChatIntentConfig)
    ensures
        entry_label(intent, workflow@) == "intent='"@ + intent + "' workflow='"@ + workflow@
            + "'"@,
        map_label(intent, ChatIntentMapValue::Workflow(workflow)) == intent + "="@ + workflow@,
        map_label(intent, ChatIntentMapValue::Config(config)) == "intent='"@ + intent
            + "' workflow='"@ + config.workflow@ + "'"@,
{
}

/// Every intent has its route and its line.
pub proof fn intents_have_routes(intents: Seq<(Seq<char>, RuleView)>, i: int)
    ensures
        routes_of(intents).len() == intents.len(),
        route_lines(intents).len() == intents.len(),
        0 <= i < intents.len() ==> routes_of(intents)[i].intent == intents[i].0
            && routes_of(intents)[i].rule == intents[i].1 && route_lines(intents)[i]
            == intents[i].0 + "="@ + intents[i].1.workflow,
{
}

// ---------------------------------------------------------------- guardrails

/// A tag is missing if and only if the rule asks for it and the flow does not have it,
/// up to case and blanks.
pub proof fn lacking_tags_are_missing(
    required: Seq<Seq<char>>,
    tags: Seq<Seq<char>>,
    tag: Seq<char>,
)
    ensures
        missing_tags(required, tags).contains(tag) <==> required.contains(tag) && !(exists|i: int|
            0 <= i < tags.len() && !blank(#[trigger] tags[i]) && lowered(trimmed(tags[i]))
                == tag),
{
    let have = lowered_all(trimmed_pieces(tags));
    lists_hold_what_is_said(tags, tag);
    sorted_distinct_spec(have);
    sorted_distinct_spec(not_in(required, have.to_set()));
    kept_are_not_in(required, have.to_set(), tag);
}

proof fn kept_are_not_in(names: Seq<Seq<char>>, set: Set<Seq<char>>, name: Seq<char>)
    ensures
        not_in(names, set).contains(name) <==> names.contains(name) && !set.contains(name),
    decreases names.len(),
{
    if names.len() > 0 {
        let rest = names.drop_last();
        kept_are_not_in(rest, set, name);
        let before = not_in(rest, set);
        let own = names.last();
        if names.contains(name) {
            let k = choose|k: int| 0 <= k < names.len() && names[k] == name;
            if k < rest.len() {
                assert(rest[k] == name);
            }
        }
        if rest.contains(name) {
            let k = choose|k: int| 0 <= k < rest.len() && rest[k] == name;
            assert(names[k] == name);
        }
        assert(names[names.len() - 1] == own);
        if before.push(own).contains(name) {
            let k = choose|k: int| 0 <= k < before.len() + 1 && before.push(own)[k] == name;
            if k < before.len() {
                assert(before[k] == name);
            }
        }
        if before.contains(name) {
            let k = choose|k: int| 0 <= k < before.len() && before[k] == name;
            assert(before.push(own)[k] == name);
        }
        assert(before.push(own)[before.len() as int] == own);
    }
}

/// A request is let through if and only if its caller and the owner of the flow are
/// allowed, the flow has the tags, and the cap is kept.
pub proof fn let_through_where_allowed(
    rule: RuleView,
    owner: Option<Seq<char>>,
    tags: Seq<Seq<char>>,
    requested: Option<u32>,
    caller: Option<Seq<char>>,
)
    ensures
        guardrail_reasons(rule, owner, tags, requested, caller).len() == 0 <==> {
            &&& rule.allowed_callers.len() > 0 ==> (caller matches Some(name) && !blank(name)
                && rule.allowed_callers.contains(lowered(trimmed(name))))
            &&& rule.allowed_owners.len() > 0 ==> (owner matches Some(name) && !blank(name)
                && rule.allowed_owners.contains(lowered(trimmed(name))))
            &&& missing_tags(rule.required_tags, tags).len() == 0
            &&& rule.max_iterations_cap matches Some(cap) ==> (requested matches Some(n) ==> n
                <= cap)
        },
{
}

/// A run gets the iterations that are asked for, and those of the cap where none are.
pub proof fn requested_iterations_are_given(cap: Option<u32>, requested: u32)
    ensures
        effective_iterations(cap, Some(requested)) == Some(requested),
        effective_iterations(cap, None) == cap,
{
}

/// Every reason names what is wrong and what would do.
pub proof fn reasons_name_what_is_wrong(
    rule: RuleView,
    owner: Seq<char>,
    tags: Seq<Seq<char>>,
    cap: u32,
    requested: u32,
    caller: Seq<char>,
)
    ensures
        rule.allowed_callers.len() > 0 && !blank(caller) && !rule.allowed_callers.contains(
            lowered(trimmed(caller)),
        ) ==> caller_reasons(rule, Some(caller)) == seq![
            "caller '"@ + lowered(trimmed(caller)) + "' is not allowed (allowed callers: "@
                + joined(rule.allowed_callers, ", "@) + ")"@,
        ],
        rule.allowed_owners.len() > 0 && !blank(owner) && !rule.allowed_owners.contains(
            lowered(trimmed(owner)),
        ) ==> owner_reasons(rule, Some(owner)) == seq![
            "workflow owner '"@ + owner + "' is not allowed (allowed owners: "@ + joined(
                rule.allowed_owners,
                ", "@,
            ) + ")"@,
        ],
        missing_tags(rule.required_tags, tags).len() > 0 ==> tag_reasons(rule, tags) == seq![
            "workflow missing required chat tags: "@ + joined(
                missing_tags(rule.required_tags, tags),
                ", "@,
            ),
        ],
        requested > cap ==> iteration_reasons(Some(cap), Some(requested)) == seq![
            "requested max_iterations="@ + decimal(requested as nat) + " exceeds chat cap="@
                + decimal(cap as nat),
        ],
{
}

/// Routes come in the order of their intents.
pub proof fn routes_are_ordered(routes: Seq<RouteView>, i: int, j: int)
    requires
        0 <= i < j < routes.len(),
    ensures
        ranked(routes).len() == routes.len(),
        !text_less(ranked(routes)[j].intent, ranked(routes)[i].intent),
{
    ranked_spec(routes);
    assert(!RankView::precedes(ranked(routes)[j], ranked(routes)[i]));
}

/// Each entry of a document counts, in its order, whatever form the document has.
pub proof fn documents_hold_entries(
    items: Vec<ChatIntentEntry>,
    pairs: Vec<(String, ChatIntentMapValue)>,
    source: Seq<char>,
    i: int,
)
    ensures
        doc_items(ChatIntentDoc::List(items)).len() == items@.len(),
        doc_items(ChatIntentDoc::Wrapped(items)) == doc_items(ChatIntentDoc::List(items)),
        doc_labels(ChatIntentDoc::Wrapped(items)) == doc_labels(ChatIntentDoc::List(items)),
        0 <= i < items@.len() ==> doc_items(ChatIntentDoc::List(items))[i] == (
            items@[i].intent@,
            items@[i].config@,
        ) && doc_labels(ChatIntentDoc::List(items))[i] == entry_label(
            items@[i].intent@,
            items@[i].config.workflow@,
        ),
        doc_items(ChatIntentDoc::Keyed(pairs)).len() == pairs@.len(),
        0 <= i < pairs@.len() ==> doc_items(ChatIntentDoc::Keyed(pairs))[i] == (
            pairs@[i].0@,
            map_rule(pairs@[i].1),
        ) && doc_labels(ChatIntentDoc::Keyed(pairs))[i] == map_label(pairs@[i].0@, pairs@[i].1),
        doc_notes(ChatIntentDoc::List(items), source) == entry_notes(
            doc_items(ChatIntentDoc::List(items)),
            doc_labels(ChatIntentDoc::List(items)),
            source,
            items@.len(),
        ),
{
}

/// Rules are the same where every intent has the same rule.
pub proof fn equal_rules_are_same(
    a: Seq<(Seq<char>, RuleView)>,
    b: Seq<(Seq<char>, RuleView)>,
    intent: Seq<char>,
)
    ensures
        same_rules(a, a),
        same_rules(a, b) ==> same_rules(b, a) && lookup(a, intent) == lookup(b, intent),
        lookup(a, intent) != lookup(b, intent) ==> !same_rules(a, b),
{
}

} // verus!
