//! Which providers a run may use: the allowlist and the ceiling of offline
//! mode.
use crate::order::{sort_distinct, sorted_distinct};
use crate::strmap::StrSet;
use crate::text::{
    blank, join, joined, lowered, opt_str, same, split, split_by, texts, to_lower, trim,
    trim_pieces, trimmed, trimmed_pieces, CharSet,
};
use vstd::prelude::*;

verus! {

/// The set of an optional allowlist; no allowlist allows everything.
pub open spec fn opt_set(allowed: Option<StrSet>) -> Option<Set<Seq<char>>> {
    match allowed {
        Some(set) => Some(set@),
        None => None,
    }
}

/// The texts in lower case.
pub open spec fn lowered_all(items: Seq<Seq<char>>) -> Seq<Seq<char>> {
    Seq::new(items.len(), |i: int| lowered(items[i]))
}

/// Whether a name stands for every provider.
pub open spec fn wildcard(name: Seq<char>) -> bool {
    name == "*"@ || name == "all"@
}

/// Whether one of the names stands for every provider.
pub open spec fn any_wildcard(names: Seq<Seq<char>>) -> bool {
    exists|i: int| 0 <= i < names.len() && wildcard(#[trigger] names[i])
}

/// The allowlist that a list of names makes: none where it is empty or holds a
/// wildcard.
pub open spec fn allowlist_of(names: Seq<Seq<char>>) -> Option<Set<Seq<char>>> {
    if names.len() == 0 || any_wildcard(names) {
        None
    } else {
        Some(names.to_set())
    }
}

/// The allowlist that a list of raw names makes: blanks at their ends and case
/// do not count, nor do blank names.
pub open spec fn allowlist_from(pieces: Seq<Seq<char>>) -> Option<Set<Seq<char>>> {
    allowlist_of(lowered_all(trimmed_pieces(pieces)))
}

/// The texts in lower case.
pub fn lower_all(items: &Vec<String>) -> (r: Vec<String>)
    ensures
        texts(r@) == lowered_all(texts(items@)),
{
    let mut out: Vec<String> = Vec::new();
    let mut i: usize = 0;
    while i < items.len()
        invariant
            i <= items.len(),
            out@.len() == i,
            forall|j: int| 0 <= j < i ==> (#[trigger] out@[j])@ == lowered(items@[j]@),
        decreases items.len() - i,
    {
        out.push(to_lower(items[i].as_str()));
        i += 1;
    }
    assert(texts(out@) =~= lowered_all(texts(items@)));
    out
}

fn build_allowlist(pieces: &Vec<String>) -> (r: Option<StrSet>)
    ensures
        opt_set(r) == allowlist_from(texts(pieces@)),
{
    let items = trim_pieces(pieces);
    let names = lower_all(&items);
    if names.len() == 0 {
        return None;
    }
    let ghost all = texts(names@);
    let mut i: usize = 0;
    while i < names.len()
        invariant
            i <= names.len(),
            all == texts(names@),
            all == lowered_all(trimmed_pieces(texts(pieces@))),
            forall|j: int| 0 <= j < i ==> !wildcard(#[trigger] all[j]),
        decreases names.len() - i,
    {
        if same(names[i].as_str(), "*") || same(names[i].as_str(), "all") {
            assert(wildcard(all[i as int]));
            return None;
        }
        i += 1;
    }
    Some(StrSet::of(&names))
}

/// Reads an allowlist from a comma-separated text.
pub fn parse_allowed_providers(raw: Option<&str>) -> (r: Option<StrSet>)
    ensures
        opt_set(r) == match opt_str(raw) {
            Some(raw) => allowlist_from(split_by(trimmed(raw), CharSet::Only(','))),
            None => None,
        },
{
    match raw {
        Some(raw) => {
            let pieces = split(trim(raw), CharSet::Only(','));
            build_allowlist(&pieces)
        },
        None => None,
    }
}

/// The allowlist of a set of raw names.
pub fn normalize_allowed_provider_set(providers: Option<&StrSet>) -> (r: Option<StrSet>)
    ensures
        opt_set(r) == match providers {
            Some(set) => allowlist_from(set.elems()),
            None => None,
        },
{
    match providers {
        Some(set) => {
            let pieces = set.to_vec();
            build_allowlist(&pieces)
        },
        None => None,
    }
}

/// The providers that work without a network.
pub open spec fn offline_providers() -> Set<Seq<char>> {
    set!["shell"@, "cli"@, "vault"@]
}

pub fn is_offline_provider(name: &str) -> (r: bool)
    ensures
        r == offline_providers().contains(name@),
{
    same(name, "shell") || same(name, "cli") || same(name, "vault")
}

/// The allowlist under the ceiling of offline mode.
pub open spec fn under_ceiling(allowed: Option<Set<Seq<char>>>, offline: bool) -> Option<
    Set<Seq<char>>,
> {
    if !offline {
        allowed
    } else {
        match allowed {
            None => Some(offline_providers()),
            Some(set) => Some(set.intersect(offline_providers())),
        }
    }
}

/// Cuts an allowlist down to what offline mode leaves.
pub fn apply_offline_provider_ceiling(providers: Option<StrSet>, offline_mode: bool) -> (r: Option<
    StrSet,
>)
    ensures
        opt_set(r) == under_ceiling(opt_set(providers), offline_mode),
{
    if !offline_mode {
        return providers;
    }
    match providers {
        None => {
            let mut set = StrSet::new();
            set.insert("shell".to_owned());
            set.insert("cli".to_owned());
            set.insert("vault".to_owned());
            assert(set@ =~= offline_providers());
            Some(set)
        },
        Some(set) => {
            let mut kept = StrSet::new();
            let n: usize = set.len();
            let ghost all = set.elems();
            let mut i: usize = 0;
            assert(all.take(0).to_set() =~= Set::<Seq<char>>::empty());
            assert(kept@ =~= all.take(0).to_set().intersect(offline_providers()));
            while i < n
                invariant
                    i <= n,
                    n == all.len(),
                    all == set.elems(),
                    kept@ == all.take(i as int).to_set().intersect(offline_providers()),
                decreases n - i,
            {
                let name = set.at(i);
                let ghost before = all.take(i as int);
                let ghost after = all.take(i + 1);
                assert(after =~= before.push(all[i as int]));
                assert(after.to_set() =~= before.to_set().insert(all[i as int])) by {
                    assert forall|y: Seq<char>| #![auto] after.contains(y) <==> before.contains(y)
                        || y == all[i as int] by {
                        if before.contains(y) {
                            let k = choose|k: int| 0 <= k < before.len() && before[k] == y;
                            assert(after[k] == y);
                        }
                        if y == all[i as int] {
                            assert(after[i as int] == y);
                        }
                    }
                }
                if is_offline_provider(name) {
                    kept.insert(name.to_owned());
                }
                assert(kept@ =~= after.to_set().intersect(offline_providers()));
                i += 1;
            }
            assert(all.take(n as int) =~= all);
            Some(kept)
        },
    }
}

/// Whether an allowlist lets a provider run.
pub open spec fn allows_provider(allowed: Option<Set<Seq<char>>>, name: Seq<char>) -> bool {
    match allowed {
        None => true,
        Some(set) => set.contains(lowered(name)),
    }
}

pub fn provider_allowed(provider_name: &str, allowed: &Option<StrSet>) -> (r: bool)
    ensures
        r == allows_provider(opt_set(*allowed), provider_name@),
{
    match allowed {
        None => true,
        Some(set) => {
            let name = to_lower(provider_name);
            set.contains(name.as_str())
        },
    }
}

/// An allowlist in one line.
pub open spec fn allowlist_text(names: Seq<Seq<char>>) -> Seq<char> {
    if names.len() == 0 {
        "(none)"@
    } else {
        joined(sorted_distinct(names), ","@)
    }
}

pub fn allowed_providers_display(allowed: &StrSet) -> (r: String)
    ensures
        r@ == allowlist_text(allowed.elems()),
{
    let names = allowed.to_vec();
    if names.len() == 0 {
        return "(none)".to_owned();
    }
    let sorted = sort_distinct(&names);
    join(&sorted, ",")
}

/// Offline, no allowlist lets any other provider run than those that work
/// without a network.
pub proof fn offline_ceiling_holds(allowed: Option<Set<Seq<char>>>, name: Seq<char>)
    ensures
        allows_provider(under_ceiling(allowed, true), name) ==> offline_providers().contains(
            lowered(name),
        ),
{
}

/// The ceiling never adds a provider to an allowlist.
pub proof fn ceiling_never_adds(
    allowed: Option<Set<Seq<char>>>,
    offline: bool,
    name: Seq<char>,
)
    ensures
        allows_provider(under_ceiling(allowed, offline), name) ==> allows_provider(allowed, name),
{
}

/// The ceiling under the ceiling is the ceiling.
pub proof fn ceiling_idempotent(allowed: Option<Set<Seq<char>>>, offline: bool)
    ensures
        under_ceiling(under_ceiling(allowed, offline), offline) == under_ceiling(
            allowed,
            offline,
        ),
{
    if offline {
        match allowed {
            None => {
                assert(offline_providers().intersect(offline_providers()) =~= offline_providers());
            },
            Some(set) => {
                assert(set.intersect(offline_providers()).intersect(offline_providers())
                    =~= set.intersect(offline_providers()));
            },
        }
    }
}

/// An allowlist lets exactly the providers run that it names, whatever their case;
/// none lets every provider run.
pub proof fn named_providers_are_allowed(names: Seq<Seq<char>>, name: Seq<char>)
    requires
        names.len() > 0,
        !names.contains("*"@),
        !names.contains("all"@),
    ensures
        allows_provider(allowlist_of(names), name) <==> names.contains(lowered(name)),
        allows_provider(None, name),
{
    assert(!any_wildcard(names)) by {
        if any_wildcard(names) {
            let i = choose|i: int| 0 <= i < names.len() && wildcard(#[trigger] names[i]);
            assert(names.contains(names[i]));
        }
    }
}

/// A wildcard among the names lets every provider run, as does an empty list.
pub proof fn wildcards_allow_all(names: Seq<Seq<char>>, name: Seq<char>)
    requires
        names.len() == 0 || names.contains("*"@) || names.contains("all"@),
    ensures
        allows_provider(allowlist_of(names), name),
{
    if names.contains("*"@) {
        let i = choose|i: int| 0 <= i < names.len() && names[i] == "*"@;
        assert(wildcard(names[i]));
    } else if names.contains("all"@) {
        let i = choose|i: int| 0 <= i < names.len() && names[i] == "all"@;
        assert(wildcard(names[i]));
    }
}

/// Offline, the shell, cli and vault providers run where the allowlist lets them, and
/// no other.
pub proof fn offline_leaves_three(allowed: Option<Set<Seq<char>>>, name: Seq<char>)
    ensures
        allows_provider(under_ceiling(allowed, true), name) <==> allows_provider(allowed, name) && (
        lowered(name) == "shell"@ || lowered(name) == "cli"@ || lowered(name) == "vault"@),
        under_ceiling(allowed, false) == allowed,
{
}

/// The providers of a list are told in order between commas, and none as such.
pub proof fn lists_are_told(names: Seq<Seq<char>>, pieces: Seq<Seq<char>>, i: int)
    ensures
        lowered_all(names).len() == names.len(),
        0 <= i < names.len() ==> lowered_all(names)[i] == lowered(names[i]),
        names.len() == 0 ==> allowlist_text(names) == "(none)"@,
        names.len() > 0 ==> allowlist_text(names) == joined(sorted_distinct(names), ","@),
        allowlist_from(pieces) == allowlist_of(lowered_all(trimmed_pieces(pieces))),
{
}

} // verus!
