//! What a workflow remembers of its earlier runs.
use crate::result::RunResult;
use crate::paths::{join_path, joined_path};
use crate::strmap::{lookup, put, put_spec, StrMap};
use crate::text::{
    blank, cat2, char_is_alnum, chars_of, is_alnum, is_blank, matches_at, opt_str, same,
    starts_with,
};
use vstd::prelude::*;

verus! {

/// The outputs and successes of one run, with the time of its end.
pub struct MemoryEntry {
    pub ts: u64,
    pub out: StrMap<String>,
    pub ok: StrMap<bool>,
}

/// What an entry holds.
pub struct EntryView {
    pub ts: u64,
    pub out: Seq<(Seq<char>, Seq<char>)>,
    pub ok: Seq<(Seq<char>, bool)>,
}

impl View for MemoryEntry {
    type V = EntryView;

    open spec fn view(&self) -> EntryView {
        EntryView { ts: self.ts, out: self.out.entries(), ok: self.ok.entries() }
    }
}

pub open spec fn entry_views(entries: Seq<MemoryEntry>) -> Seq<EntryView> {
    Seq::new(entries.len(), |i: int| entries[i]@)
}

/// The remembered runs of a workflow, the latest last.
pub struct WorkflowMemory {
    pub name: String,
    pub entries: Vec<MemoryEntry>,
}

impl WorkflowMemory {
    /// No remembered run, which is what a workflow without a memory file has.
    pub fn empty(workflow_name: &str) -> (r: Self)
        ensures
            r.name@ == workflow_name@,
            r.entries@.len() == 0,
    {
        WorkflowMemory { name: workflow_name.to_owned(), entries: Vec::new() }
    }
}

/// Where memories are kept, and how many runs of a workflow.
pub struct MemoryStore {
    pub root: String,
    pub max_entries: usize,
}

/// Whether an output is remembered: not the session id, nor what was
/// remembered before.
pub open spec fn remembered(key: Seq<char>) -> bool {
    key != "SESSION"@ && !matches_at(key, "memory."@, 0)
}

/// The outputs that are remembered.
pub open spec fn kept_outputs(outputs: Seq<(Seq<char>, Seq<char>)>) -> Seq<(Seq<char>, Seq<char>)>
    decreases outputs.len(),
{
    if outputs.len() == 0 {
        Seq::empty()
    } else if remembered(outputs.last().0) {
        put(kept_outputs(outputs.drop_last()), outputs.last().0, outputs.last().1)
    } else {
        kept_outputs(outputs.drop_last())
    }
}

/// The last `max` of `all`.
pub open spec fn last_entries<T>(all: Seq<T>, max: nat) -> Seq<T> {
    if all.len() > max {
        all.skip(all.len() - max)
    } else {
        all
    }
}

/// `outputs` with each remembered output `k` under the name `memory.k`.
pub open spec fn injected(
    outputs: Seq<(Seq<char>, Seq<char>)>,
    out: Seq<(Seq<char>, Seq<char>)>,
) -> Seq<(Seq<char>, Seq<char>)>
    decreases out.len(),
{
    if out.len() == 0 {
        outputs
    } else {
        put(injected(outputs, out.drop_last()), "memory."@ + out.last().0, out.last().1)
    }
}

/// `name` with every character but ASCII letters, digits, `-` and `_` replaced
/// by `_`.
pub open spec fn sanitized(name: Seq<char>) -> Seq<char> {
    Seq::new(
        name.len(),
        |i: int|
            if is_alnum(name[i]) || name[i] == '-' || name[i] == '_' {
                name[i]
            } else {
                '_'
            },
    )
}

/// `name` as a file name.
pub fn sanitize_name(name: &str) -> (r: String)
    ensures
        r@ == sanitized(name@),
{
    let chars = chars_of(name);
    let mut out = String::new();
    let mut i: usize = 0;
    while i < chars.len()
        invariant
            i <= chars.len(),
            chars@ == name@,
            out@ =~= sanitized(name@).take(i as int),
        decreases chars.len() - i,
    {
        let c = chars[i];
        if char_is_alnum(c) || c == '-' || c == '_' {
            out.push(c);
        } else {
            out.push('_');
        }
        i += 1;
    }
    assert(sanitized(name@).take(i as int) =~= sanitized(name@));
    out
}

/// A file name made this way holds no `/`, so that it stays in its directory.
pub proof fn sanitized_has_no_slash(name: Seq<char>)
    ensures
        !sanitized(name).contains('/'),
{
}

/// The directory of memories for a home directory.
pub open spec fn memory_root_path(home: Option<Seq<char>>) -> Seq<char> {
    match home {
        Some(home) => if blank(home) {
            "/tmp/anna-memory"@
        } else {
            joined_path(home, ".anna/memory"@)
        },
        None => "/tmp/anna-memory"@,
    }
}

pub fn default_memory_root(home: Option<&str>) -> (r: String)
    ensures
        r@ == memory_root_path(opt_str(home)),
{
    match home {
        Some(home) => {
            if is_blank(home) {
                "/tmp/anna-memory".to_owned()
            } else {
                join_path(home, ".anna/memory")
            }
        },
        None => "/tmp/anna-memory".to_owned(),
    }
}

fn keep_outputs(outputs: &StrMap<String>) -> (r: StrMap<String>)
    ensures
        r.entries() == kept_outputs(outputs.entries()),
{
    let mut out: StrMap<String> = StrMap::new();
    let n: usize = outputs.len();
    let mut i: usize = 0;
    assert(outputs.entries().take(0) =~= Seq::<(Seq<char>, Seq<char>)>::empty());
    while i < n
        invariant
            i <= n,
            n == outputs.entries().len(),
            out.entries() == kept_outputs(outputs.entries().take(i as int)),
        decreases n - i,
    {
        assert(outputs.entries().take(i + 1).drop_last() =~= outputs.entries().take(i as int));
        let key = outputs.key_at(i);
        if !same(key, "SESSION") && !starts_with(key, "memory.") {
            out.insert(key.to_owned(), outputs.value_at(i).clone());
        }
        i += 1;
    }
    assert(outputs.entries().take(n as int) =~= outputs.entries());
    out
}

impl MemoryStore {
    pub fn new(root: String, max_entries: usize) -> (r: Self)
        ensures
            r.root == root,
            r.max_entries == max_entries,
    {
        MemoryStore { root, max_entries }
    }

    /// The store under the home directory, with ten runs for each workflow.
    pub fn default_for(home: Option<&str>) -> (r: Self)
        ensures
            r.root@ == memory_root_path(opt_str(home)),
            r.max_entries == 10,
    {
        MemoryStore { root: default_memory_root(home), max_entries: 10 }
    }

    /// The file of a workflow's memory.
    pub fn memory_file(&self, workflow_name: &str) -> (r: String)
        ensures
            r@ == joined_path(self.root@, sanitized(workflow_name@) + ".json"@),
    {
        let name = sanitize_name(workflow_name);
        let file = cat2(name.as_str(), ".json");
        join_path(self.root.as_str(), file.as_str())
    }

    /// Adds the run to the memory, of which the last `max_entries` runs stay.
    pub fn record_snapshot(
        &self,
        memory: &mut WorkflowMemory,
        workflow_name: &str,
        result: &RunResult,
        now: u64,
    )
        ensures
            final(memory).name@ == workflow_name@,
            entry_views(final(memory).entries@) == last_entries(
                entry_views(old(memory).entries@).push(
                    EntryView {
                        ts: now,
                        out: kept_outputs(result.outputs.entries()),
                        ok: result.success.entries(),
                    },
                ),
                self.max_entries as nat,
            ),
    {
        let entry = MemoryEntry {
            ts: now,
            out: keep_outputs(&result.outputs),
            ok: result.success.copied(),
        };
        let ghost view = entry@;
        let ghost before = entry_views(memory.entries@);
        memory.entries.push(entry);
        let ghost all = memory.entries@;
        assert(entry_views(all) =~= before.push(view));
        let total: usize = memory.entries.len();
        let mut dropped: usize = 0;
        assert(all.skip(0) =~= all);
        while memory.entries.len() > self.max_entries
            invariant
                total == all.len(),
                dropped <= total,
                memory.entries@ == all.skip(dropped as int),
                dropped > 0 ==> memory.entries@.len() >= self.max_entries,
                memory.name == old(memory).name,
            decreases memory.entries@.len(),
        {
            let _ = memory.entries.remove(0);
            dropped += 1;
            assert(memory.entries@ =~= all.skip(dropped as int));
        }
        assert(entry_views(memory.entries@) =~= last_entries(
            entry_views(all),
            self.max_entries as nat,
        ));
        memory.name = workflow_name.to_owned();
    }
}

impl WorkflowMemory {
    /// Makes each output `k` of the latest run known as `memory.k`.
    pub fn inject_last(&self, outputs: &mut StrMap<String>)
        ensures
            final(outputs).entries() == if self.entries@.len() == 0 {
                old(outputs).entries()
            } else {
                injected(old(outputs).entries(), self.entries@.last()@.out)
            },
    {
        if self.entries.len() == 0 {
            return;
        }
        let last = &self.entries[self.entries.len() - 1];
        let n: usize = last.out.len();
        let ghost out = last.out.entries();
        let ghost before = outputs.entries();
        let mut i: usize = 0;
        assert(out.take(0) =~= Seq::<(Seq<char>, Seq<char>)>::empty());
        while i < n
            invariant
                i <= n,
                n == out.len(),
                out == last.out.entries(),
                outputs.entries() == injected(before, out.take(i as int)),
            decreases n - i,
        {
            assert(out.take(i + 1).drop_last() =~= out.take(i as int));
            outputs.insert(cat2("memory.", last.out.key_at(i)), last.out.value_at(i).clone());
            i += 1;
        }
        assert(out.take(n as int) =~= out);
    }
}

proof fn memory_key_injective(a: Seq<char>, b: Seq<char>)
    requires
        "memory."@ + a == "memory."@ + b,
    ensures
        a == b,
{
    let m = "memory."@;
    assert(a =~= (m + a).skip(m.len() as int));
    assert(b =~= (m + b).skip(m.len() as int));
}

proof fn injected_value(
    outputs: Seq<(Seq<char>, Seq<char>)>,
    out: Seq<(Seq<char>, Seq<char>)>,
    key: Seq<char>,
)
    ensures
        lookup(out, key) is Some ==> lookup(injected(outputs, out), "memory."@ + key) == lookup(
            out,
            key,
        ),
    decreases out.len(),
{
    if out.len() > 0 {
        let d = out.drop_last();
        injected_value(outputs, d, key);
        put_spec(injected(outputs, d), "memory."@ + out.last().0, out.last().1);
        if out.last().0 != key && "memory."@ + out.last().0 == "memory."@ + key {
            memory_key_injective(out.last().0, key);
        }
    }
}

proof fn kept_value(outputs: Seq<(Seq<char>, Seq<char>)>, key: Seq<char>)
    ensures
        remembered(key) ==> lookup(kept_outputs(outputs), key) == lookup(outputs, key),
        !remembered(key) ==> lookup(kept_outputs(outputs), key) is None,
    decreases outputs.len(),
{
    if outputs.len() > 0 {
        kept_value(outputs.drop_last(), key);
        put_spec(kept_outputs(outputs.drop_last()), outputs.last().0, outputs.last().1);
    }
}

/// What a run saved is what the next run is given: each remembered output `k`
/// of the saved run comes back as `memory.k`.
pub proof fn saved_outputs_come_back(
    saved: Seq<(Seq<char>, Seq<char>)>,
    outputs: Seq<(Seq<char>, Seq<char>)>,
    key: Seq<char>,
)
    requires
        remembered(key),
        lookup(saved, key) is Some,
    ensures
        lookup(injected(outputs, kept_outputs(saved)), "memory."@ + key) == lookup(saved, key),
{
    kept_value(saved, key);
    injected_value(outputs, kept_outputs(saved), key);
}

/// The session id and what was itself remembered are not saved.
pub proof fn memory_does_not_nest(saved: Seq<(Seq<char>, Seq<char>)>, key: Seq<char>)
    ensures
        lookup(kept_outputs(saved), "SESSION"@) is None,
        lookup(kept_outputs(saved), "memory."@ + key) is None,
{
    kept_value(saved, "SESSION"@);
    kept_value(saved, "memory."@ + key);
    let m = "memory."@;
    assert((m + key).subrange(0, m.len() as int) =~= m);
}

/// A memory never grows beyond the limit.
pub proof fn memory_is_bounded<T>(all: Seq<T>, max: nat)
    ensures
        last_entries(all, max).len() <= max,
        all.len() > 0 && max > 0 ==> last_entries(all, max).len() > 0 && last_entries(
            all,
            max,
        ).last() == all.last(),
{
}

/// Every output but the session id and what was remembered is saved, and nothing
/// else is.
pub proof fn other_outputs_are_saved(outputs: Seq<(Seq<char>, Seq<char>)>, key: Seq<char>)
    requires
        key != "SESSION"@,
        !(key.len() >= 7 && key.take(7) == "memory."@),
    ensures
        lookup(kept_outputs(outputs), key) == lookup(outputs, key),
{
    reveal_strlit("memory.");
    assert(!matches_at(key, "memory."@, 0)) by {
        if matches_at(key, "memory."@, 0) {
            assert(key.subrange(0, 7) =~= key.take(7));
        }
    }
    kept_value(outputs, key);
}

/// What is given back leaves every other output as it is.
pub proof fn memory_hides_no_output(
    outputs: Seq<(Seq<char>, Seq<char>)>,
    out: Seq<(Seq<char>, Seq<char>)>,
    key: Seq<char>,
)
    requires
        !(key.len() >= 7 && key.take(7) == "memory."@),
    ensures
        lookup(injected(outputs, out), key) == lookup(outputs, key),
    decreases out.len(),
{
    reveal_strlit("memory.");
    if out.len() > 0 {
        memory_hides_no_output(outputs, out.drop_last(), key);
        let name = "memory."@ + out.last().0;
        assert(name.take(7) =~= "memory."@);
        put_spec(injected(outputs, out.drop_last()), name, out.last().1);
    }
}

/// Of the runs of a workflow the latest stay, in their order.
pub proof fn latest_runs_stay<T>(all: Seq<T>, max: nat, k: int)
    ensures
        all.len() <= max ==> last_entries(all, max) == all,
        all.len() > max && 0 <= k < max ==> last_entries(all, max)[k] == all[all.len() - max + k],
        all.len() > max ==> last_entries(all, max).len() == max,
{
}

/// The name of a memory file keeps letters, digits, `-` and `_`; everything else is
/// an underscore.
pub proof fn names_are_kept(name: Seq<char>, i: int)
    requires
        0 <= i < name.len(),
    ensures
        sanitized(name).len() == name.len(),
        'a' <= name[i] <= 'z' || 'A' <= name[i] <= 'Z' || '0' <= name[i] <= '9' || name[i] == '-'
            || name[i] == '_' ==> sanitized(name)[i] == name[i],
        !('a' <= name[i] <= 'z' || 'A' <= name[i] <= 'Z' || '0' <= name[i] <= '9' || name[i] == '-'
            || name[i] == '_') ==> sanitized(name)[i] == '_',
{
}

/// Memories are kept below the home directory, where there is one.
pub proof fn memories_live_at_home(home: Seq<char>)
    ensures
        memory_root_path(None) == "/tmp/anna-memory"@,
        blank(home) ==> memory_root_path(Some(home)) == "/tmp/anna-memory"@,
        !blank(home) && home.last() != '/' ==> memory_root_path(Some(home)) == home
            + "/.anna/memory"@,
{
    reveal_strlit("/");
    reveal_strlit(".anna/memory");
    reveal_strlit("/.anna/memory");
    if !blank(home) && home.last() != '/' {
        assert(home.len() > 0);
        assert(home + "/"@ + ".anna/memory"@ =~= home + "/.anna/memory"@);
    }
}

} // verus!
