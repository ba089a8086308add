//! Chat intents: names for flows, with guardrails on who may use them and how.
use crate::allowlist::{lower_all, lowered_all};
use crate::daemon::flows::{
    keep_not_in, not_in, opt_refusal, owner_key, owner_key_of, FlowReadiness, WorkflowEntry,
};
use crate::daemon::sessions::{refuse, Refusal, RefusalView};
use crate::number::{decimal, u64_text};
use crate::order::{
    less, sort, sort_distinct, sorted_distinct, sorted_texts, text_less, text_less_total,
    text_less_transitive,
};
use crate::ranking::{rank_all, ranked, views, Rank, RankView};
use crate::strmap::{distinct_keys, lookup, lookup_at, lookup_found, put, put_spec, StrMap, StrSet};
use crate::text::{
    as_str_opt, blank, cat2, cat3, cat4, cat5, clone_texts, group_texts, holds, is_blank, join,
    joined, list_items, lowered, opt_str, opt_text, same, same_texts, split_at_first, split_list,
    split_once, texts, to_lower, trim, trim_pieces, trimmed, trimmed_pieces, CharSet,
};
use vstd::prelude::*;
use vstd::string::*;

pub mod laws;

verus! {

/// The flow that an intent stands for, and who may use it how.
pub struct ChatIntentConfig {
    pub workflow: String,
    pub allowed_callers: Vec<String>,
    pub allowed_owners: Vec<String>,
    pub required_tags: Vec<String>,
    pub max_iterations_cap: Option<u32>,
}

/// A rule for an intent, as plain values.
pub struct RuleView {
    pub workflow: Seq<char>,
    pub allowed_callers: Seq<Seq<char>>,
    pub allowed_owners: Seq<Seq<char>>,
    pub required_tags: Seq<Seq<char>>,
    pub max_iterations_cap: Option<u32>,
}

impl View for ChatIntentConfig {
    type V = RuleView;

    open spec fn view(&self) -> RuleView {
        RuleView {
            workflow: self.workflow@,
            allowed_callers: texts(self.allowed_callers@),
            allowed_owners: texts(self.allowed_owners@),
            required_tags: texts(self.required_tags@),
            max_iterations_cap: self.max_iterations_cap,
        }
    }
}

impl ChatIntentConfig {
    /// The same rule.
    pub fn copied(&self) -> (r: Self)
        ensures
            r@ == self@,
    {
        ChatIntentConfig {
            workflow: self.workflow.clone(),
            allowed_callers: clone_texts(&self.allowed_callers),
            allowed_owners: clone_texts(&self.allowed_owners),
            required_tags: clone_texts(&self.required_tags),
            max_iterations_cap: self.max_iterations_cap,
        }
    }
}

/// The rule that names a flow alone.
pub open spec fn plain_rule(workflow: Seq<char>) -> RuleView {
    RuleView {
        workflow,
        allowed_callers: Seq::empty(),
        allowed_owners: Seq::empty(),
        required_tags: Seq::empty(),
        max_iterations_cap: None,
    }
}

fn flow_alone(workflow: &str) -> (r: ChatIntentConfig)
    ensures
        r@ == plain_rule(workflow@),
{
    broadcast use group_texts;

    ChatIntentConfig {
        workflow: workflow.to_owned(),
        allowed_callers: Vec::new(),
        allowed_owners: Vec::new(),
        required_tags: Vec::new(),
        max_iterations_cap: None,
    }
}

// ---------------------------------------------------------------- reading

/// The texts trimmed, in lower case, without blank ones, in ascending order.
pub open spec fn normal_list(values: Seq<Seq<char>>) -> Seq<Seq<char>> {
    sorted_distinct(lowered_all(trimmed_pieces(values)))
}

pub fn normalize_sorted_dedup(values: &Vec<String>) -> (r: Vec<String>)
    ensures
        texts(r@) == normal_list(texts(values@)),
{
    let pieces = trim_pieces(values);
    let names = lower_all(&pieces);
    sort_distinct(&names)
}

pub fn normalize_owner_list(values: &Vec<String>) -> (r: Vec<String>)
    ensures
        texts(r@) == normal_list(texts(values@)),
{
    normalize_sorted_dedup(values)
}

/// An intent and its rule in normal form; `None` where the intent or the flow
/// is blank, or the cap is zero.
pub open spec fn normal_intent(intent: Seq<char>, rule: RuleView) -> Option<(Seq<char>, RuleView)> {
    if blank(intent) || blank(rule.workflow) || rule.max_iterations_cap == Some(0u32) {
        None
    } else {
        Some(
            (
                lowered(trimmed(intent)),
                RuleView {
                    workflow: trimmed(rule.workflow),
                    allowed_callers: normal_list(rule.allowed_callers),
                    allowed_owners: normal_list(rule.allowed_owners),
                    required_tags: normal_list(rule.required_tags),
                    max_iterations_cap: rule.max_iterations_cap,
                },
            ),
        )
    }
}

pub fn normalized_chat_intent_entry(intent_raw: &str, config: &ChatIntentConfig) -> (r: Option<
    (String, ChatIntentConfig),
>)
    ensures
        match r {
            Some((intent, rule)) => normal_intent(intent_raw@, config@) == Some((intent@, rule@)),
            None => normal_intent(intent_raw@, config@) is None,
        },
{
    let intent = trim(intent_raw);
    let workflow = trim(config.workflow.as_str());
    if intent.is_empty() || workflow.is_empty() {
        return None;
    }
    if let Some(cap) = config.max_iterations_cap {
        if cap == 0 {
            return None;
        }
    }
    Some(
        (
            to_lower(intent),
            ChatIntentConfig {
                workflow: workflow.to_owned(),
                allowed_callers: normalize_sorted_dedup(&config.allowed_callers),
                allowed_owners: normalize_owner_list(&config.allowed_owners),
                required_tags: normalize_sorted_dedup(&config.required_tags),
                max_iterations_cap: config.max_iterations_cap,
            },
        ),
    )
}

/// The intents with one more, where it has a normal form.
pub open spec fn with_intent(
    intents: Seq<(Seq<char>, RuleView)>,
    intent: Seq<char>,
    rule: RuleView,
) -> Seq<(Seq<char>, RuleView)> {
    match normal_intent(intent, rule) {
        Some((key, rule)) => put(intents, key, rule),
        None => intents,
    }
}

pub fn insert_chat_intent_entry(
    out: &mut StrMap<ChatIntentConfig>,
    intent_raw: &str,
    config: &ChatIntentConfig,
)
    ensures
        final(out).entries() == with_intent(old(out).entries(), intent_raw@, config@),
{
    if let Some((intent, rule)) = normalized_chat_intent_entry(intent_raw, config) {
        out.insert(intent, rule);
    }
}

/// The intents that a list of `intent=flow` entries names; others do not count.
pub open spec fn intents_in(items: Seq<Seq<char>>) -> Seq<(Seq<char>, RuleView)>
    decreases items.len(),
{
    if items.len() == 0 {
        Seq::empty()
    } else {
        let before = intents_in(items.drop_last());
        match split_at_first(items.last(), "="@) {
            Some((intent, workflow)) => with_intent(before, intent, plain_rule(workflow)),
            None => before,
        }
    }
}

/// Reads intents from a text: `intent=flow` entries between commas, semicolons
/// and line ends.
pub fn parse_chat_intents_value(raw: &str) -> (r: StrMap<ChatIntentConfig>)
    ensures
        r.entries() == intents_in(list_items(raw@, CharSet::EntrySep)),
{
    let mut out: StrMap<ChatIntentConfig> = StrMap::new();
    let items = split_list(raw, CharSet::EntrySep);
    let ghost all = texts(items@);
    let mut i: usize = 0;
    assert(all.take(0) =~= Seq::<Seq<char>>::empty());
    while i < items.len()
        invariant
            i <= items.len(),
            all == texts(items@),
            out.entries() == intents_in(all.take(i as int)),
        decreases items.len() - i,
    {
        assert(all.take(i + 1).drop_last() =~= all.take(i as int));
        assert(all.take(i + 1).last() == items@[i as int]@);
        if let Some((intent, workflow)) = split_once(items[i].as_str(), "=") {
            let rule = flow_alone(workflow);
            insert_chat_intent_entry(&mut out, intent, &rule);
        }
        i += 1;
    }
    assert(all.take(i as int) =~= all);
    out
}

/// An intent of a document with its rule.
pub struct ChatIntentEntry {
    pub intent: String,
    pub config: ChatIntentConfig,
}

/// The rule of an intent in a document: a flow alone, or more.
pub enum ChatIntentMapValue {
    Workflow(String),
    Config(ChatIntentConfig),
}

/// A document of intents: a list, one under `intents`, or a map in the order of
/// its keys.
pub enum ChatIntentDoc {
    Wrapped(Vec<ChatIntentEntry>),
    List(Vec<ChatIntentEntry>),
    Keyed(Vec<(String, ChatIntentMapValue)>),
}

/// The rule that a value of a map stands for.
pub open spec fn map_rule(value: ChatIntentMapValue) -> RuleView {
    match value {
        ChatIntentMapValue::Workflow(workflow) => plain_rule(workflow@),
        ChatIntentMapValue::Config(config) => config@,
    }
}

pub fn parse_chat_intent_map_entry(value: &ChatIntentMapValue) -> (r: ChatIntentConfig)
    ensures
        r@ == map_rule(*value),
{
    match value {
        ChatIntentMapValue::Workflow(workflow) => flow_alone(workflow.as_str()),
        ChatIntentMapValue::Config(config) => config.copied(),
    }
}

/// The intents that a list of entries names.
pub open spec fn listed_intents(items: Seq<(Seq<char>, RuleView)>) -> Seq<(Seq<char>, RuleView)>
    decreases items.len(),
{
    if items.len() == 0 {
        Seq::empty()
    } else {
        with_intent(listed_intents(items.drop_last()), items.last().0, items.last().1)
    }
}

/// The entries of a list.
pub open spec fn list_entries(items: Seq<ChatIntentEntry>) -> Seq<(Seq<char>, RuleView)> {
    Seq::new(items.len(), |i: int| (items[i].intent@, items[i].config@))
}

/// The entries of a map.
pub open spec fn map_entries(items: Seq<(String, ChatIntentMapValue)>) -> Seq<
    (Seq<char>, RuleView),
> {
    Seq::new(items.len(), |i: int| (items[i].0@, map_rule(items[i].1)))
}

/// The entries of a document.
pub open spec fn doc_items(doc: ChatIntentDoc) -> Seq<(Seq<char>, RuleView)> {
    match doc {
        ChatIntentDoc::Wrapped(items) => list_entries(items@),
        ChatIntentDoc::List(items) => list_entries(items@),
        ChatIntentDoc::Keyed(items) => map_entries(items@),
    }
}

/// The intents that a list names.
fn insert_list_chat_intents(items: &Vec<ChatIntentEntry>) -> (r: StrMap<ChatIntentConfig>)
    ensures
        r.entries() == listed_intents(list_entries(items@)),
{
    let mut out: StrMap<ChatIntentConfig> = StrMap::new();
    let ghost all = list_entries(items@);
    assert(all.take(0) =~= Seq::<(Seq<char>, RuleView)>::empty());
    let mut i: usize = 0;
    while i < items.len()
        invariant
            i <= items@.len(),
            all == list_entries(items@),
            out.entries() == listed_intents(all.take(i as int)),
        decreases items@.len() - i,
    {
        assert(all.take(i + 1).drop_last() =~= all.take(i as int));
        insert_chat_intent_entry(&mut out, items[i].intent.as_str(), &items[i].config);
        i += 1;
    }
    assert(all.take(i as int) =~= all);
    out
}

/// The intents that a map names.
fn insert_map_chat_intents(items: &Vec<(String, ChatIntentMapValue)>) -> (r: StrMap<
    ChatIntentConfig,
>)
    ensures
        r.entries() == listed_intents(map_entries(items@)),
{
    let mut out: StrMap<ChatIntentConfig> = StrMap::new();
    let ghost all = map_entries(items@);
    assert(all.take(0) =~= Seq::<(Seq<char>, RuleView)>::empty());
    let mut i: usize = 0;
    while i < items.len()
        invariant
            i <= items@.len(),
            all == map_entries(items@),
            out.entries() == listed_intents(all.take(i as int)),
        decreases items@.len() - i,
    {
        assert(all.take(i + 1).drop_last() =~= all.take(i as int));
        let rule = parse_chat_intent_map_entry(&items[i].1);
        insert_chat_intent_entry(&mut out, items[i].0.as_str(), &rule);
        i += 1;
    }
    assert(all.take(i as int) =~= all);
    out
}

/// The intents of a document. A document without one that counts is an error.
pub fn parse_chat_intents_doc(doc: &ChatIntentDoc, source: &str) -> (r: Result<
    StrMap<ChatIntentConfig>,
    String,
>)
    ensures
        match r {
            Ok(intents) => intents.entries() == listed_intents(doc_items(*doc))
                && intents.entries().len() > 0,
            Err(message) => listed_intents(doc_items(*doc)).len() == 0 && message@
                == "chat intents source '"@ + source@ + "' has no valid entries"@,
        },
{
    let out = match doc {
        ChatIntentDoc::Wrapped(items) => insert_list_chat_intents(items),
        ChatIntentDoc::List(items) => insert_list_chat_intents(items),
        ChatIntentDoc::Keyed(items) => insert_map_chat_intents(items),
    };
    if out.is_empty() {
        return Err(cat3("chat intents source '", source, "' has no valid entries"));
    }
    Ok(out)
}

// ---------------------------------------------------------------- ignored entries

/// What the operator is told where an entry is ignored. `label` names the entry,
/// `source` where it comes from.
pub open spec fn intent_note(
    intent: Seq<char>,
    rule: RuleView,
    source: Seq<char>,
    label: Seq<char>,
) -> Option<Seq<char>> {
    if blank(intent) || blank(rule.workflow) {
        Some(
            "anna-rs daemon: ignoring invalid chat intent entry '"@ + label + "' from "@ + source,
        )
    } else if rule.max_iterations_cap == Some(0u32) {
        Some(
            "anna-rs daemon: ignoring invalid chat intent entry '"@ + label + "' from "@ + source
                + " (max_iterations_cap must be >=1)"@,
        )
    } else {
        None
    }
}

fn note_on_chat_intent(
    intent_raw: &str,
    config: &ChatIntentConfig,
    source: &str,
    label: &str,
) -> (r: Option<String>)
    ensures
        opt_text(r) == intent_note(intent_raw@, config@, source@, label@),
{
    if is_blank(intent_raw) || is_blank(config.workflow.as_str()) {
        return Some(
            cat4(
                "anna-rs daemon: ignoring invalid chat intent entry '",
                label,
                "' from ",
                source,
            ),
        );
    }
    match config.max_iterations_cap {
        Some(0) => Some(
            cat5(
                "anna-rs daemon: ignoring invalid chat intent entry '",
                label,
                "' from ",
                source,
                " (max_iterations_cap must be >=1)",
            ),
        ),
        _ => None,
    }
}

/// An entry is told of if and only if it has no normal form.
pub proof fn ignored_intents_are_noted(
    intent: Seq<char>,
    rule: RuleView,
    source: Seq<char>,
    label: Seq<char>,
)
    ensures
        intent_note(intent, rule, source, label) is Some <==> normal_intent(intent, rule) is None,
{
}

/// What the operator is told where an entry `intent=flow` of a list is ignored.
pub open spec fn value_note(item: Seq<char>) -> Option<Seq<char>> {
    match split_at_first(item, "="@) {
        Some((intent, workflow)) => intent_note(
            intent,
            plain_rule(workflow),
            "ANNA_CHAT_INTENTS"@,
            item,
        ),
        None => Some("anna-rs daemon: ignoring invalid ANNA_CHAT_INTENTS entry '"@ + item + "'"@),
    }
}

/// What the operator is told of a list of `intent=flow` entries.
pub open spec fn value_notes(items: Seq<Seq<char>>) -> Seq<Seq<char>>
    decreases items.len(),
{
    if items.len() == 0 {
        Seq::empty()
    } else {
        let before = value_notes(items.drop_last());
        match value_note(items.last()) {
            Some(note) => before.push(note),
            None => before,
        }
    }
}

/// What the operator is told of the entries that `parse_chat_intents_value` ignores.
pub fn chat_intents_value_notes(raw: &str) -> (r: Vec<String>)
    ensures
        texts(r@) == value_notes(list_items(raw@, CharSet::EntrySep)),
{
    broadcast use group_texts;

    let mut notes: Vec<String> = Vec::new();
    let items = split_list(raw, CharSet::EntrySep);
    let ghost all = texts(items@);
    let mut i: usize = 0;
    assert(all.take(0) =~= Seq::<Seq<char>>::empty());
    while i < items.len()
        invariant
            i <= items.len(),
            all == texts(items@),
            texts(notes@) == value_notes(all.take(i as int)),
        decreases items.len() - i,
    {
        assert(all.take(i + 1).drop_last() =~= all.take(i as int));
        assert(all.take(i + 1).last() == items@[i as int]@);
        let item = items[i].as_str();
        let note = match split_once(item, "=") {
            Some((intent, workflow)) => {
                let rule = flow_alone(workflow);
                note_on_chat_intent(intent, &rule, "ANNA_CHAT_INTENTS", item)
            },
            None => Some(
                cat3("anna-rs daemon: ignoring invalid ANNA_CHAT_INTENTS entry '", item, "'"),
            ),
        };
        if let Some(note) = note {
            notes.push(note);
        }
        i += 1;
    }
    assert(all.take(i as int) =~= all);
    notes
}

/// How an entry of a document is named.
pub open spec fn entry_label(intent: Seq<char>, workflow: Seq<char>) -> Seq<char> {
    "intent='"@ + intent + "' workflow='"@ + workflow + "'"@
}

/// How an entry of a map is named.
pub open spec fn map_label(intent: Seq<char>, value: ChatIntentMapValue) -> Seq<char> {
    match value {
        ChatIntentMapValue::Workflow(workflow) => intent + "="@ + workflow@,
        ChatIntentMapValue::Config(config) => entry_label(intent, config.workflow@),
    }
}

/// The names of the entries of a document.
pub open spec fn doc_labels(doc: ChatIntentDoc) -> Seq<Seq<char>> {
    match doc {
        ChatIntentDoc::Wrapped(items) => list_labels(items@),
        ChatIntentDoc::List(items) => list_labels(items@),
        ChatIntentDoc::Keyed(items) => map_labels(items@),
    }
}

pub open spec fn list_labels(items: Seq<ChatIntentEntry>) -> Seq<Seq<char>> {
    Seq::new(items.len(), |i: int| entry_label(items[i].intent@, items[i].config.workflow@))
}

pub open spec fn map_labels(items: Seq<(String, ChatIntentMapValue)>) -> Seq<Seq<char>> {
    Seq::new(items.len(), |i: int| map_label(items[i].0@, items[i].1))
}

/// What the operator is told of the first `n` entries of a document.
pub open spec fn entry_notes(
    items: Seq<(Seq<char>, RuleView)>,
    labels: Seq<Seq<char>>,
    source: Seq<char>,
    n: nat,
) -> Seq<Seq<char>>
    decreases n,
{
    if n == 0 {
        Seq::empty()
    } else {
        let i = n - 1;
        let before = entry_notes(items, labels, source, i as nat);
        match intent_note(items[i].0, items[i].1, source, labels[i]) {
            Some(note) => before.push(note),
            None => before,
        }
    }
}

/// What the operator is told of a document.
pub open spec fn doc_notes(doc: ChatIntentDoc, source: Seq<char>) -> Seq<Seq<char>> {
    entry_notes(doc_items(doc), doc_labels(doc), source, doc_items(doc).len())
}

fn list_chat_intent_notes(items: &Vec<ChatIntentEntry>, source: &str) -> (r: Vec<String>)
    ensures
        texts(r@) == entry_notes(
            list_entries(items@),
            list_labels(items@),
            source@,
            items@.len(),
        ),
{
    broadcast use group_texts;

    let mut notes: Vec<String> = Vec::new();
    let mut i: usize = 0;
    while i < items.len()
        invariant
            i <= items@.len(),
            texts(notes@) == entry_notes(
                list_entries(items@),
                list_labels(items@),
                source@,
                i as nat,
            ),
        decreases items@.len() - i,
    {
        let entry = &items[i];
        let label = cat5(
            "intent='",
            entry.intent.as_str(),
            "' workflow='",
            entry.config.workflow.as_str(),
            "'",
        );
        let note = note_on_chat_intent(
            entry.intent.as_str(),
            &entry.config,
            source,
            label.as_str(),
        );
        if let Some(note) = note {
            notes.push(note);
        }
        i += 1;
    }
    notes
}

fn map_chat_intent_notes(items: &Vec<(String, ChatIntentMapValue)>, source: &str) -> (r: Vec<
    String,
>)
    ensures
        texts(r@) == entry_notes(map_entries(items@), map_labels(items@), source@, items@.len()),
{
    broadcast use group_texts;

    let mut notes: Vec<String> = Vec::new();
    let mut i: usize = 0;
    while i < items.len()
        invariant
            i <= items@.len(),
            texts(notes@) == entry_notes(
                map_entries(items@),
                map_labels(items@),
                source@,
                i as nat,
            ),
        decreases items@.len() - i,
    {
        let intent = items[i].0.as_str();
        let label = match &items[i].1 {
            ChatIntentMapValue::Workflow(workflow) => cat3(intent, "=", workflow.as_str()),
            ChatIntentMapValue::Config(config) => cat5(
                "intent='",
                intent,
                "' workflow='",
                config.workflow.as_str(),
                "'",
            ),
        };
        let rule = parse_chat_intent_map_entry(&items[i].1);
        if let Some(note) = note_on_chat_intent(intent, &rule, source, label.as_str()) {
            notes.push(note);
        }
        i += 1;
    }
    notes
}

/// What the operator is told of the entries that `parse_chat_intents_doc` ignores.
pub fn chat_intents_doc_notes(doc: &ChatIntentDoc, source: &str) -> (r: Vec<String>)
    ensures
        texts(r@) == doc_notes(*doc, source@),
{
    match doc {
        ChatIntentDoc::Wrapped(items) => list_chat_intent_notes(items, source),
        ChatIntentDoc::List(items) => list_chat_intent_notes(items, source),
        ChatIntentDoc::Keyed(items) => map_chat_intent_notes(items, source),
    }
}

// ---------------------------------------------------------------- merging

/// `intents` with those of `more` over them.
pub open spec fn with_intents(
    intents: Seq<(Seq<char>, RuleView)>,
    more: Seq<(Seq<char>, RuleView)>,
) -> Seq<(Seq<char>, RuleView)>
    decreases more.len(),
{
    if more.len() == 0 {
        intents
    } else {
        put(with_intents(intents, more.drop_last()), more.last().0, more.last().1)
    }
}

/// The intents of the daemon: those of its file, over them those of its
/// environment.
pub fn merge_chat_intents(
    from_file: StrMap<ChatIntentConfig>,
    from_env: &StrMap<ChatIntentConfig>,
) -> (r: StrMap<ChatIntentConfig>)
    ensures
        r.entries() == with_intents(from_file.entries(), from_env.entries()),
{
    let mut out = from_file;
    let n: usize = from_env.len();
    let ghost all = from_env.entries();
    let ghost start = from_file.entries();
    let mut i: usize = 0;
    assert(all.take(0) =~= Seq::<(Seq<char>, RuleView)>::empty());
    while i < n
        invariant
            i <= n,
            n == all.len(),
            all == from_env.entries(),
            out.entries() == with_intents(start, all.take(i as int)),
        decreases n - i,
    {
        assert(all.take(i + 1).drop_last() =~= all.take(i as int));
        out.insert(from_env.key_at(i).to_owned(), from_env.value_at(i).copied());
        i += 1;
    }
    assert(all.take(n as int) =~= all);
    out
}

/// An intent of the environment goes before one of the file.
pub proof fn env_intent_wins(
    from_file: Seq<(Seq<char>, RuleView)>,
    from_env: Seq<(Seq<char>, RuleView)>,
    intent: Seq<char>,
)
    ensures
        lookup(with_intents(from_file, from_env), intent) == match lookup(from_env, intent) {
            Some(rule) => Some(rule),
            None => lookup(from_file, intent),
        },
    decreases from_env.len(),
{
    if from_env.len() > 0 {
        let d = from_env.drop_last();
        env_intent_wins(from_file, d, intent);
        put_spec(
            with_intents(from_file, d),
            from_env.last().0,
            from_env.last().1,
        );
    }
}

// ---------------------------------------------------------------- routes

/// An intent with its rule.
pub struct ChatIntentRoute {
    pub intent: String,
    pub rule: ChatIntentConfig,
}

/// A route, as plain values.
pub struct RouteView {
    pub intent: Seq<char>,
    pub rule: RuleView,
}

impl View for ChatIntentRoute {
    type V = RouteView;

    open spec fn view(&self) -> RouteView {
        RouteView { intent: self.intent@, rule: self.rule@ }
    }
}

impl RankView for RouteView {
    /// Routes come in the order of their intents.
    open spec fn precedes(self, other: Self) -> bool {
        text_less(self.intent, other.intent)
    }

    proof fn asymmetric(self, other: Self) {
        text_less_total(self.intent, other.intent);
    }

    proof fn passes_on(self, middle: Self, last: Self) {
        text_less_total(self.intent, middle.intent);
        text_less_total(middle.intent, last.intent);
        if text_less(self.intent, last.intent) && !text_less(self.intent, middle.intent)
            && !text_less(middle.intent, last.intent) {
            text_less_total(self.intent, last.intent);
            if self.intent != middle.intent {
                text_less_transitive(middle.intent, self.intent, last.intent);
            }
        }
    }
}

impl Rank for ChatIntentRoute {
    fn goes_before(&self, other: &Self) -> (r: bool) {
        less(self.intent.as_str(), other.intent.as_str())
    }
}

pub open spec fn routes_of(intents: Seq<(Seq<char>, RuleView)>) -> Seq<RouteView> {
    Seq::new(intents.len(), |i: int| RouteView { intent: intents[i].0, rule: intents[i].1 })
}

/// The intents in ascending order.
pub fn chat_routes(intents: &StrMap<ChatIntentConfig>) -> (r: Vec<ChatIntentRoute>)
    ensures
        views(r@) == ranked(routes_of(intents.entries())),
{
    let mut out: Vec<ChatIntentRoute> = Vec::new();
    let n: usize = intents.len();
    let ghost all = routes_of(intents.entries());
    let mut i: usize = 0;
    while i < n
        invariant
            i <= n,
            n == all.len(),
            n == intents.entries().len(),
            all == routes_of(intents.entries()),
            out@.len() == i,
            forall|j: int| 0 <= j < i ==> (#[trigger] out@[j])@ == all[j],
        decreases n - i,
    {
        out.push(
            ChatIntentRoute {
                intent: intents.key_at(i).to_owned(),
                rule: intents.value_at(i).copied(),
            },
        );
        i += 1;
    }
    assert(views(out@) =~= all);
    rank_all(out)
}

/// Whether two rules are the same.
fn same_rule(a: &ChatIntentConfig, b: &ChatIntentConfig) -> (r: bool)
    ensures
        r == (a@ == b@),
{
    same(a.workflow.as_str(), b.workflow.as_str()) && same_texts(
        &a.allowed_callers,
        &b.allowed_callers,
    ) && same_texts(&a.allowed_owners, &b.allowed_owners) && same_texts(
        &a.required_tags,
        &b.required_tags,
    ) && a.max_iterations_cap == b.max_iterations_cap
}

/// Whether every intent has the same rule in both, or is in neither.
pub open spec fn same_rules(
    a: Seq<(Seq<char>, RuleView)>,
    b: Seq<(Seq<char>, RuleView)>,
) -> bool {
    forall|intent: Seq<char>| #[trigger] lookup(a, intent) == lookup(b, intent)
}

/// Whether all intents of `a` have in `b` the rule that they have in `a`.
fn rules_within(a: &StrMap<ChatIntentConfig>, b: &StrMap<ChatIntentConfig>) -> (r: bool)
    ensures
        r == (forall|intent: Seq<char>|
            lookup(a.entries(), intent) is Some ==> #[trigger] lookup(a.entries(), intent)
                == lookup(b.entries(), intent)),
{
    let ghost all = a.entries();
    let n: usize = a.len();
    let mut i: usize = 0;
    while i < n
        invariant
            i <= n,
            n == all.len(),
            all == a.entries(),
            distinct_keys(all),
            forall|j: int|
                0 <= j < i ==> lookup(b.entries(), (#[trigger] all[j]).0) == Some(all[j].1),
        decreases n - i,
    {
        let agrees = match b.get(a.key_at(i)) {
            Some(rule) => same_rule(a.value_at(i), rule),
            None => false,
        };
        proof {
            lookup_at(all, i as int);
        }
        if !agrees {
            assert(lookup(all, all[i as int].0) != lookup(b.entries(), all[i as int].0));
            return false;
        }
        i += 1;
    }
    assert forall|intent: Seq<char>| lookup(all, intent) is Some implies #[trigger] lookup(
        all,
        intent,
    ) == lookup(b.entries(), intent) by {
        lookup_found(all, intent);
    }
    true
}

/// Whether the intents have other rules than before.
pub fn rules_changed(
    before: &StrMap<ChatIntentConfig>,
    after: &StrMap<ChatIntentConfig>,
) -> (r: bool)
    ensures
        r == !same_rules(before.entries(), after.entries()),
{
    let kept = rules_within(before, after);
    let known = rules_within(after, before);
    proof {
        let a = before.entries();
        let b = after.entries();
        if kept && known {
            assert forall|intent: Seq<char>| #[trigger] lookup(a, intent) == lookup(b, intent) by {
                if lookup(a, intent) is None && lookup(b, intent) is Some {
                    assert(lookup(b, intent) == lookup(a, intent));
                }
            }
        } else if !kept {
            let intent = choose|intent: Seq<char>|
                lookup(a, intent) is Some && #[trigger] lookup(a, intent) != lookup(b, intent);
            assert(lookup(a, intent) != lookup(b, intent));
        } else {
            let intent = choose|intent: Seq<char>|
                lookup(b, intent) is Some && #[trigger] lookup(b, intent) != lookup(a, intent);
            assert(lookup(a, intent) != lookup(b, intent));
        }
    }
    !(kept && known)
}

/// The intents with their flows, as lines.
pub open spec fn route_lines(intents: Seq<(Seq<char>, RuleView)>) -> Seq<Seq<char>> {
    Seq::new(intents.len(), |i: int| intents[i].0 + "="@ + intents[i].1.workflow)
}

/// The intents with their flows, as lines in ascending order.
pub fn route_texts(intents: &StrMap<ChatIntentConfig>) -> (r: Vec<String>)
    ensures
        texts(r@) == sorted_texts(route_lines(intents.entries())),
{
    let mut out: Vec<String> = Vec::new();
    let ghost all = intents.entries();
    let n: usize = intents.len();
    let mut i: usize = 0;
    while i < n
        invariant
            i <= n,
            n == all.len(),
            all == intents.entries(),
            out@.len() == i,
            forall|j: int| 0 <= j < i ==> (#[trigger] out@[j])@ == route_lines(all)[j],
        decreases n - i,
    {
        out.push(cat3(intents.key_at(i), "=", intents.value_at(i).workflow.as_str()));
        i += 1;
    }
    assert(texts(out@) =~= route_lines(all));
    sort(&out)
}

/// Why no intent can be used: there are none.
pub fn gateway_refusal(intents: &StrMap<ChatIntentConfig>) -> (r: Option<Refusal>)
    ensures
        opt_refusal(r) == if intents.entries().len() == 0 {
            Some(
                RefusalView {
                    status: 503,
                    message:
                        "chat gateway disabled: set ANNA_CHAT_INTENTS or ANNA_CHAT_INTENTS_FILE"@,
                },
            )
        } else {
            None
        },
{
    if intents.is_empty() {
        Some(
            refuse(503, "chat gateway disabled: set ANNA_CHAT_INTENTS or ANNA_CHAT_INTENTS_FILE"),
        )
    } else {
        None
    }
}

/// The rule of an intent, which is known up to case and blanks at its ends.
pub fn resolve_chat_intent_rule(intents: &StrMap<ChatIntentConfig>, raw_intent: &str) -> (r: Result<
    (String, ChatIntentConfig),
    Refusal,
>)
    ensures
        match lookup(intents.entries(), lowered(trimmed(raw_intent@))) {
            Some(rule) => r is Ok && r->Ok_0.0@ == lowered(trimmed(raw_intent@)) && r->Ok_0.1@
                == rule,
            None => r is Err && r->Err_0@ == (RefusalView {
                status: 404,
                message: "chat intent '"@ + raw_intent@ + "' is not configured"@,
            }),
        },
{
    let intent = to_lower(trim(raw_intent));
    match intents.get(intent.as_str()) {
        Some(rule) => {
            let rule = rule.copied();
            Ok((intent, rule))
        },
        None => Err(
            Refusal {
                status: 404,
                message: cat3("chat intent '", raw_intent, "' is not configured"),
            },
        ),
    }
}

/// Why an intent cannot be used: its flow is not there.
pub fn missing_flow_refusal(raw_intent: &str, workflow: &str) -> (r: Refusal)
    ensures
        r@ == (RefusalView {
            status: 404,
            message: "chat intent '"@ + raw_intent@ + "' maps to missing workflow '"@ + workflow@
                + "'"@,
        }),
{
    Refusal {
        status: 404,
        message: cat5(
            "chat intent '",
            raw_intent,
            "' maps to missing workflow '",
            workflow,
            "'",
        ),
    }
}

// ---------------------------------------------------------------- guardrails

/// What the guardrails of an intent say.
pub struct ChatIntentGuardrailOutcome {
    pub reasons: Vec<String>,
    pub effective_max_iterations: Option<u32>,
}

/// A caller as it is compared.
pub open spec fn caller_name(caller: Option<Seq<char>>) -> Option<Seq<char>> {
    owner_key_of(caller)
}

/// Why the caller may not use the intent.
pub open spec fn caller_reasons(rule: RuleView, caller: Option<Seq<char>>) -> Seq<Seq<char>> {
    let name = caller_name(caller);
    if rule.allowed_callers.len() == 0 || (name is Some && rule.allowed_callers.contains(
        name->0,
    )) {
        Seq::empty()
    } else {
        seq![
            "caller '"@ + (match name {
                Some(name) => name,
                None => Seq::empty(),
            }) + "' is not allowed (allowed callers: "@ + joined(rule.allowed_callers, ", "@) + ")"@,
        ]
    }
}

/// Why the flow's owner does not go with the intent.
pub open spec fn owner_reasons(rule: RuleView, owner: Option<Seq<char>>) -> Seq<Seq<char>> {
    let key = owner_key_of(owner);
    if rule.allowed_owners.len() == 0 || (key is Some && rule.allowed_owners.contains(key->0)) {
        Seq::empty()
    } else {
        seq![
            "workflow owner '"@ + (match owner {
                Some(owner) => owner,
                None => Seq::empty(),
            }) + "' is not allowed (allowed owners: "@ + joined(rule.allowed_owners, ", "@) + ")"@,
        ]
    }
}

/// The tags that the rule asks for and the flow lacks.
pub open spec fn missing_tags(required: Seq<Seq<char>>, tags: Seq<Seq<char>>) -> Seq<Seq<char>> {
    sorted_distinct(
        not_in(required, lowered_all(trimmed_pieces(tags)).to_set()),
    )
}

/// Why the flow's tags do not go with the intent.
pub open spec fn tag_reasons(rule: RuleView, tags: Seq<Seq<char>>) -> Seq<Seq<char>> {
    let missing = missing_tags(rule.required_tags, tags);
    if missing.len() == 0 {
        Seq::empty()
    } else {
        seq!["workflow missing required chat tags: "@ + joined(missing, ", "@)]
    }
}

/// Why the request asks for too many iterations.
pub open spec fn iteration_reasons(cap: Option<u32>, requested: Option<u32>) -> Seq<Seq<char>> {
    if cap is Some && requested is Some && requested->0 > cap->0 {
        seq![
            "requested max_iterations="@ + decimal(requested->0 as nat) + " exceeds chat cap="@
                + decimal(cap->0 as nat),
        ]
    } else {
        Seq::empty()
    }
}

/// How many iterations the run gets: what is asked for, else the cap.
pub open spec fn effective_iterations(cap: Option<u32>, requested: Option<u32>) -> Option<u32> {
    match requested {
        Some(n) => Some(n),
        None => cap,
    }
}

/// Why a request may not use an intent.
pub open spec fn guardrail_reasons(
    rule: RuleView,
    owner: Option<Seq<char>>,
    tags: Seq<Seq<char>>,
    requested: Option<u32>,
    caller: Option<Seq<char>>,
) -> Seq<Seq<char>> {
    caller_reasons(rule, caller) + owner_reasons(rule, owner) + tag_reasons(rule, tags)
        + iteration_reasons(rule.max_iterations_cap, requested)
}

fn guardrail_allowed_caller_reasons(
    rule: &ChatIntentConfig,
    caller: Option<&str>,
    reasons: &mut Vec<String>,
)
    ensures
        texts(final(reasons)@) == texts(old(reasons)@) + caller_reasons(rule@, opt_str(caller)),
{
    broadcast use group_texts;

    let ghost before = texts(reasons@);
    assert(before + Seq::<Seq<char>>::empty() =~= before);
    if rule.allowed_callers.len() == 0 {
        return;
    }
    let name = owner_key(caller);
    let allowed = match &name {
        Some(name) => holds(&rule.allowed_callers, name.as_str()),
        None => false,
    };
    if !allowed {
        let shown = match name {
            Some(name) => name,
            None => String::new(),
        };
        let list = join(&rule.allowed_callers, ", ");
        reasons.push(
            cat5(
                "caller '",
                shown.as_str(),
                "' is not allowed (allowed callers: ",
                list.as_str(),
                ")",
            ),
        );
        assert(texts(reasons@) =~= before + caller_reasons(rule@, opt_str(caller)));
    }
}

fn guardrail_allowed_owner_reasons(
    rule: &ChatIntentConfig,
    entry: &WorkflowEntry,
    reasons: &mut Vec<String>,
)
    ensures
        texts(final(reasons)@) == texts(old(reasons)@) + owner_reasons(rule@, entry@.owner),
{
    broadcast use group_texts;

    let ghost before = texts(reasons@);
    assert(before + Seq::<Seq<char>>::empty() =~= before);
    if rule.allowed_owners.len() == 0 {
        return;
    }
    let key = owner_key(as_str_opt(&entry.owner));
    let allowed = match &key {
        Some(key) => holds(&rule.allowed_owners, key.as_str()),
        None => false,
    };
    if !allowed {
        let shown = match &entry.owner {
            Some(owner) => owner.clone(),
            None => String::new(),
        };
        let list = join(&rule.allowed_owners, ", ");
        reasons.push(
            cat5(
                "workflow owner '",
                shown.as_str(),
                "' is not allowed (allowed owners: ",
                list.as_str(),
                ")",
            ),
        );
        assert(texts(reasons@) =~= before + owner_reasons(rule@, entry@.owner));
    }
}

fn guardrail_required_tag_reasons(
    rule: &ChatIntentConfig,
    entry: &WorkflowEntry,
    reasons: &mut Vec<String>,
)
    ensures
        texts(final(reasons)@) == texts(old(reasons)@) + tag_reasons(rule@, entry@.tags),
{
    broadcast use group_texts;

    let ghost before = texts(reasons@);
    assert(before + Seq::<Seq<char>>::empty() =~= before);
    let pieces = trim_pieces(&entry.tags);
    let names = lower_all(&pieces);
    let tags = StrSet::of(&names);
    let absent = keep_not_in(&rule.required_tags, &tags);
    let missing = sort_distinct(&absent);
    if missing.len() > 0 {
        let list = join(&missing, ", ");
        reasons.push(cat2("workflow missing required chat tags: ", list.as_str()));
        assert(texts(reasons@) =~= before + tag_reasons(rule@, entry@.tags));
    }
}

fn guardrail_effective_max_iterations(
    max_iterations_cap: Option<u32>,
    requested_max_iterations: Option<u32>,
    reasons: &mut Vec<String>,
) -> (r: Option<u32>)
    ensures
        r == effective_iterations(max_iterations_cap, requested_max_iterations),
        texts(final(reasons)@) == texts(old(reasons)@) + iteration_reasons(
            max_iterations_cap,
            requested_max_iterations,
        ),
{
    broadcast use group_texts;

    let ghost before = texts(reasons@);
    assert(before + Seq::<Seq<char>>::empty() =~= before);
    match (max_iterations_cap, requested_max_iterations) {
        (Some(cap), Some(value)) => {
            if value > cap {
                let asked = u64_text(value as u64);
                let limit = u64_text(cap as u64);
                reasons.push(
                    cat4(
                        "requested max_iterations=",
                        asked.as_str(),
                        " exceeds chat cap=",
                        limit.as_str(),
                    ),
                );
                assert(texts(reasons@) =~= before + iteration_reasons(
                    max_iterations_cap,
                    requested_max_iterations,
                ));
            }
            Some(value)
        },
        (Some(cap), None) => Some(cap),
        (None, requested) => requested,
    }
}

/// Why a request may not use an intent, and how many iterations it gets.
pub fn evaluate_chat_intent_guardrails(
    rule: &ChatIntentConfig,
    entry: &WorkflowEntry,
    requested_max_iterations: Option<u32>,
    caller: Option<&str>,
) -> (r: ChatIntentGuardrailOutcome)
    ensures
        texts(r.reasons@) == guardrail_reasons(
            rule@,
            entry@.owner,
            entry@.tags,
            requested_max_iterations,
            opt_str(caller),
        ),
        r.effective_max_iterations == effective_iterations(
            rule@.max_iterations_cap,
            requested_max_iterations,
        ),
{
    broadcast use group_texts;

    let mut reasons: Vec<String> = Vec::new();
    guardrail_allowed_caller_reasons(rule, caller, &mut reasons);
    assert(texts(reasons@) =~= caller_reasons(rule@, opt_str(caller)));
    guardrail_allowed_owner_reasons(rule, entry, &mut reasons);
    guardrail_required_tag_reasons(rule, entry, &mut reasons);
    let effective = guardrail_effective_max_iterations(
        rule.max_iterations_cap,
        requested_max_iterations,
        &mut reasons,
    );
    ChatIntentGuardrailOutcome { reasons, effective_max_iterations: effective }
}

/// A request that the guardrails let through never runs beyond the cap of its
/// intent, and always has a limit where the intent has a cap.
pub proof fn chat_cap_holds(
    rule: RuleView,
    owner: Option<Seq<char>>,
    tags: Seq<Seq<char>>,
    requested: Option<u32>,
    caller: Option<Seq<char>>,
)
    requires
        rule.max_iterations_cap is Some,
        guardrail_reasons(rule, owner, tags, requested, caller).len() == 0,
    ensures
        effective_iterations(rule.max_iterations_cap, requested) is Some,
        effective_iterations(rule.max_iterations_cap, requested)->0
            <= rule.max_iterations_cap->0,
{
    assert(iteration_reasons(rule.max_iterations_cap, requested).len() == 0);
}

/// A request that the guardrails let through comes from an allowed caller, for
/// a flow of an allowed owner, where the intent names any.
pub proof fn guardrails_hold(
    rule: RuleView,
    owner: Option<Seq<char>>,
    tags: Seq<Seq<char>>,
    requested: Option<u32>,
    caller: Option<Seq<char>>,
)
    requires
        guardrail_reasons(rule, owner, tags, requested, caller).len() == 0,
    ensures
        rule.allowed_callers.len() > 0 ==> caller_name(caller) is Some
            && rule.allowed_callers.contains(caller_name(caller)->0),
        rule.allowed_owners.len() > 0 ==> owner_key_of(owner) is Some
            && rule.allowed_owners.contains(owner_key_of(owner)->0),
        missing_tags(rule.required_tags, tags).len() == 0,
{
    assert(caller_reasons(rule, caller).len() == 0);
    assert(owner_reasons(rule, owner).len() == 0);
    assert(tag_reasons(rule, tags).len() == 0);
}

/// Why a request is turned down by the guardrails.
pub fn guardrail_refusal(raw_intent: &str, reasons: &Vec<String>) -> (r: Option<Refusal>)
    ensures
        opt_refusal(r) == if reasons@.len() == 0 {
            None::<RefusalView>
        } else {
            Some(
                RefusalView {
                    status: 403,
                    message: "chat intent '"@ + raw_intent@ + "' blocked by guardrails: "@ + joined(
                        texts(reasons@),
                        "; "@,
                    ),
                },
            )
        },
{
    if reasons.len() == 0 {
        return None;
    }
    let list = join(reasons, "; ");
    Some(
        Refusal {
            status: 403,
            message: cat4(
                "chat intent '",
                raw_intent,
                "' blocked by guardrails: ",
                list.as_str(),
            ),
        },
    )
}

/// Whether an intent can be used now: its flow may run, and no guardrail stands
/// in the way.
pub fn chat_intent_can_run(readiness: &FlowReadiness, guardrails: &ChatIntentGuardrailOutcome) -> (r:
    bool)
    ensures
        r == (readiness@.ready() && guardrails.reasons@.len() == 0),
{
    readiness.can_run() && guardrails.reasons.len() == 0
}

// ---------------------------------------------------------------- requests

/// A request to run an intent.
pub struct ChatRunRequest {
    pub intent: String,
    pub vars: StrMap<String>,
    pub max_iterations: Option<u32>,
}

/// Checks a request to run an intent: its body, and what the body was read as.
pub fn check_chat_run_request(body: &str, read: Option<ChatRunRequest>) -> (r: Result<
    ChatRunRequest,
    String,
>)
    ensures
        if blank(body@) {
            r is Err && r->Err_0@ == "chat run body is required, expected {\"intent\":\"...\"}"@
        } else {
            match read {
                None => r is Err && r->Err_0@
                    == "invalid chat run json body, expected {\"intent\":\"...\",\"vars\":{...},\"max_iterations\":N}"@,
                Some(request) => if blank(request.intent@) {
                    r is Err && r->Err_0@ == "chat run requires non-empty 'intent'"@
                } else {
                    r == Ok::<ChatRunRequest, String>(request)
                },
            }
        },
{
    if is_blank(body) {
        return Err("chat run body is required, expected {\"intent\":\"...\"}".to_owned());
    }
    match read {
        None => Err(
            "invalid chat run json body, expected {\"intent\":\"...\",\"vars\":{...},\"max_iterations\":N}".to_owned(),
        ),
        Some(request) => {
            if is_blank(request.intent.as_str()) {
                return Err("chat run requires non-empty 'intent'".to_owned());
            }
            Ok(request)
        },
    }
}

} // verus!
