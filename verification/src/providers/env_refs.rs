//! References in the variables of a workflow: `${env:NAME}` stands for a variable
//! of the environment, `${vault:path}` for a stored secret.
use crate::providers::{
    entries_outcome, fault, outcome, resolve_vault_secret, vault_secret, ErrorView, ProviderError,
    SecretSources, SourcesView,
};
use crate::strmap::{lookup, put, StrMap};
use crate::text::{
    after_prefix, cat3, cat7, contains, find_from, find_is_first, holds_text, matches_at,
    split_at_first, split_once, strip_prefix,
};
use crate::workflow::{Stage, Workflow};
use vstd::prelude::*;

verus! {

/// What stands between `${` and `}` refers to, where it refers to anything.
pub open spec fn ref_value(stage_id: Seq<char>, body: Seq<char>, sources: SourcesView) -> Option<
    Result<Seq<char>, ErrorView>,
> {
    match after_prefix(body, "env:"@) {
        Some(name) => Some(
            match lookup(sources.env, name) {
                Some(value) => Ok(value),
                None => Err(
                    fault(
                        "provider_secret_not_found"@,
                        "stage '"@ + stage_id + "' missing environment variable '"@ + name
                            + "' for '${"@ + body + "}'"@,
                    ),
                ),
            },
        ),
        None => match after_prefix(body, "vault:"@) {
            Some(path) => Some(vault_secret(stage_id, path, sources)),
            None => None,
        },
    }
}

/// What a reference stands for.
pub fn resolve_ref(stage_id: &str, body: &str, sources: &SecretSources) -> (r: Option<
    Result<String, ProviderError>,
>)
    ensures
        match r {
            Some(value) => ref_value(stage_id@, body@, sources@) == Some(outcome(value)),
            None => ref_value(stage_id@, body@, sources@) is None,
        },
{
    if let Some(name) = strip_prefix(body, "env:") {
        return Some(
            match sources.env.get(name) {
                Some(value) => Ok(value.clone()),
                None => Err(
                    ProviderError::new(
                        "provider_secret_not_found",
                        cat7(
                            "stage '",
                            stage_id,
                            "' missing environment variable '",
                            name,
                            "' for '${",
                            body,
                            "}'",
                        ),
                    ),
                ),
            },
        );
    }
    match strip_prefix(body, "vault:") {
        Some(path) => Some(resolve_vault_secret(stage_id, path, sources)),
        None => None,
    }
}

/// A text with its references resolved, or the error of the first that cannot be.
/// What is no reference stays.
pub open spec fn resolved_refs(stage_id: Seq<char>, s: Seq<char>, sources: SourcesView) -> Result<
    Seq<char>,
    ErrorView,
>
    decreases s.len(),
{
    match split_at_first(s, "${"@) {
        None => Ok(s),
        Some((before, rest)) => match split_at_first(rest, "}"@) {
            None => Ok(s),
            Some((body, tail)) => if tail.len() >= s.len() || rest.len() >= s.len() {
                Ok(s)
            } else {
                match ref_value(stage_id, body, sources) {
                    Some(Err(e)) => Err(e),
                    Some(Ok(value)) => match resolved_refs(stage_id, tail, sources) {
                        Ok(end) => Ok(before + value + end),
                        Err(e) => Err(e),
                    },
                    None => match resolved_refs(stage_id, rest, sources) {
                        Ok(end) => Ok(before + "${"@ + end),
                        Err(e) => Err(e),
                    },
                }
            },
        },
    }
}

/// Resolves the references of a text.
pub fn resolve_refs(stage_id: &str, text: &str, sources: &SecretSources) -> (r: Result<
    String,
    ProviderError,
>)
    ensures
        outcome(r) == resolved_refs(stage_id@, text@, sources@),
    decreases text@.len(),
{
    proof {
        reveal_strlit("${");
        find_is_first(text@, "${"@, 0);
    }
    match split_once(text, "${") {
        None => Ok(text.to_owned()),
        Some((before, rest)) => {
            proof {
                reveal_strlit("}");
                find_is_first(rest@, "}"@, 0);
            }
            match split_once(rest, "}") {
                None => Ok(text.to_owned()),
                Some((body, tail)) => match resolve_ref(stage_id, body, sources) {
                    Some(Err(err)) => Err(err),
                    Some(Ok(value)) => match resolve_refs(stage_id, tail, sources) {
                        Ok(end) => Ok(cat3(before, value.as_str(), end.as_str())),
                        Err(err) => Err(err),
                    },
                    None => match resolve_refs(stage_id, rest, sources) {
                        Ok(end) => Ok(cat3(before, "${", end.as_str())),
                        Err(err) => Err(err),
                    },
                },
            }
        },
    }
}

/// Variables with the references in their values resolved, or the error of the
/// first that cannot be.
pub open spec fn resolved_env(
    stage_id: Seq<char>,
    env: Seq<(Seq<char>, Seq<char>)>,
    sources: SourcesView,
) -> Result<Seq<(Seq<char>, Seq<char>)>, ErrorView>
    decreases env.len(),
{
    if env.len() == 0 {
        Ok(Seq::empty())
    } else {
        match resolved_env(stage_id, env.drop_last(), sources) {
            Err(e) => Err(e),
            Ok(done) => match resolved_refs(stage_id, env.last().1, sources) {
                Err(e) => Err(e),
                Ok(value) => Ok(put(done, env.last().0, value)),
            },
        }
    }
}

proof fn env_error_sticks(
    stage_id: Seq<char>,
    env: Seq<(Seq<char>, Seq<char>)>,
    n: int,
    sources: SourcesView,
)
    requires
        0 <= n <= env.len(),
        resolved_env(stage_id, env.take(n), sources) is Err,
    ensures
        resolved_env(stage_id, env, sources) == resolved_env(stage_id, env.take(n), sources),
    decreases env.len() - n,
{
    if n == env.len() {
        assert(env.take(n) =~= env);
    } else {
        assert(env.take(n + 1).drop_last() =~= env.take(n));
        env_error_sticks(stage_id, env, n + 1, sources);
    }
}

/// Resolves the references in the values of variables.
pub fn resolve_env(stage_id: &str, env: &StrMap<String>, sources: &SecretSources) -> (r: Result<
    StrMap<String>,
    ProviderError,
>)
    ensures
        entries_outcome(r) == resolved_env(stage_id@, env.entries(), sources@),
{
    let ghost all = env.entries();
    let mut out: StrMap<String> = StrMap::new();
    let n: usize = env.len();
    assert(all.take(0) =~= Seq::<(Seq<char>, Seq<char>)>::empty());
    let mut i: usize = 0;
    while i < n
        invariant
            i <= n,
            n == all.len(),
            all == env.entries(),
            resolved_env(stage_id@, all.take(i as int), sources@) == Ok::<
                Seq<(Seq<char>, Seq<char>)>,
                ErrorView,
            >(out.entries()),
        decreases n - i,
    {
        assert(all.take(i + 1).drop_last() =~= all.take(i as int));
        match resolve_refs(stage_id, env.value_at(i).as_str(), sources) {
            Ok(value) => {
                out.insert(env.key_at(i).to_owned(), value);
            },
            Err(err) => {
                proof {
                    env_error_sticks(stage_id@, all, i + 1, sources@);
                }
                return Err(err);
            },
        }
        i += 1;
    }
    assert(all.take(n as int) =~= all);
    Ok(out)
}

/// A value without references stays as it is.
pub proof fn plain_value_stays(stage_id: Seq<char>, value: Seq<char>, sources: SourcesView)
    requires
        !holds_text(value, "${"@),
    ensures
        resolved_refs(stage_id, value, sources) == Ok::<Seq<char>, ErrorView>(value),
{
}

/// A value that is a reference to a variable of the environment is that variable's
/// value; one that is a reference to a stored secret is the secret.
pub proof fn reference_is_resolved(
    stage_id: Seq<char>,
    name: Seq<char>,
    sources: SourcesView,
)
    requires
        !name.contains('}'),
    ensures
        lookup(sources.env, name) matches Some(value) ==> resolved_refs(
            stage_id,
            "${env:"@ + name + "}"@,
            sources,
        ) == Ok::<Seq<char>, ErrorView>(value),
        resolved_refs(stage_id, "${vault:"@ + name + "}"@, sources) == vault_secret(
            stage_id,
            name,
            sources,
        ),
{
    reveal_strlit("${env:");
    reveal_strlit("${vault:");
    reveal_strlit("env:");
    reveal_strlit("vault:");
    whole_reference(stage_id, "env:"@ + name, sources);
    whole_reference(stage_id, "vault:"@ + name, sources);
    reveal_strlit("${");
    reveal_strlit("}");
    assert("${env:"@ + name + "}"@ =~= "${"@ + ("env:"@ + name) + "}"@);
    assert("${vault:"@ + name + "}"@ =~= "${"@ + ("vault:"@ + name) + "}"@);
    let env_ref = "env:"@ + name;
    let vault_ref = "vault:"@ + name;
    assert(env_ref.subrange(0, 4) =~= "env:"@);
    assert(env_ref.skip(4) =~= name);
    assert(vault_ref.subrange(0, 6) =~= "vault:"@);
    assert(vault_ref.skip(6) =~= name);
    assert(vault_ref[0] == 'v');
    assert(after_prefix(vault_ref, "env:"@) is None) by {
        assert(vault_ref.subrange(0, 4)[0] == 'v');
        assert("env:"@[0] == 'e');
    }
}

proof fn whole_reference(stage_id: Seq<char>, body: Seq<char>, sources: SourcesView)
    requires
        !body.contains('}'),
    ensures
        ref_value(stage_id, body, sources) matches Some(value) ==> resolved_refs(
            stage_id,
            "${"@ + body + "}"@,
            sources,
        ) == value,
{
    reveal_strlit("${");
    reveal_strlit("}");
    let s = "${"@ + body + "}"@;
    let rest = body + "}"@;
    find_is_first(s, "${"@, 0);
    assert(s.subrange(0, 2) =~= "${"@);
    assert(matches_at(s, "${"@, 0));
    assert(s.skip(2) =~= rest);
    assert(s.take(0) =~= Seq::<char>::empty());
    find_is_first(rest, "}"@, 0);
    assert(rest.subrange(body.len() as int, body.len() as int + 1) =~= "}"@);
    assert(matches_at(rest, "}"@, body.len() as int));
    let k = find_from(rest, "}"@, 0)->0;
    if k < body.len() {
        assert(rest.subrange(k, k + 1)[0] == body[k]);
        assert(body.contains(body[k]));
    }
    assert(rest.take(k) =~= body);
    let tail = rest.skip(k + 1);
    assert(tail =~= Seq::<char>::empty());
    find_is_first(tail, "${"@, 0);
    assert(resolved_refs(stage_id, tail, sources) == Ok::<Seq<char>, ErrorView>(tail));
    if let Some(Ok(value)) = ref_value(stage_id, body, sources) {
        assert(Seq::<char>::empty() + value + tail =~= value);
    }
}

/// Whether one of the values refers to a stored secret.
pub open spec fn refers_to_secrets(env: Seq<(Seq<char>, Seq<char>)>) -> bool {
    exists|i: int| 0 <= i < env.len() && holds_text(#[trigger] env[i].1, "${vault:"@)
}

/// Whether the stored secrets are needed for the variables of a stage: it maps some,
/// or a variable of the workflow refers to one.
pub fn needs_secrets(stage: &Stage, workflow: &Workflow) -> (r: bool)
    ensures
        r == (stage@.secrets.len() > 0 || refers_to_secrets(workflow@.env)),
{
    if !stage.secrets.is_empty() {
        return true;
    }
    let ghost all = workflow.env.entries();
    let n: usize = workflow.env.len();
    let mut i: usize = 0;
    while i < n
        invariant
            i <= n,
            n == all.len(),
            all == workflow.env.entries(),
            forall|j: int| 0 <= j < i ==> !holds_text(#[trigger] all[j].1, "${vault:"@),
        decreases n - i,
    {
        if contains(workflow.env.value_at(i).as_str(), "${vault:") {
            assert(holds_text(all[i as int].1, "${vault:"@));
            return true;
        }
        i += 1;
    }
    false
}

/// A reference in a text is filled in where it stands, and what follows it is filled in
/// too; what is no reference stays.
pub proof fn references_are_filled_in(
    stage_id: Seq<char>,
    s: Seq<char>,
    before: Seq<char>,
    rest: Seq<char>,
    body: Seq<char>,
    tail: Seq<char>,
    sources: SourcesView,
)
    requires
        split_at_first(s, "${"@) == Some((before, rest)),
        split_at_first(rest, "}"@) == Some((body, tail)),
    ensures
        ({
            let end = resolved_refs(stage_id, tail, sources);
            let known = if after_prefix(body, "env:"@) is Some {
                lookup(sources.env, after_prefix(body, "env:"@)->0)
            } else {
                None
            };
            &&& known is Some && end is Ok ==> resolved_refs(stage_id, s, sources) == Ok::<
                Seq<char>,
                ErrorView,
            >(before + known->0 + end->Ok_0)
            &&& after_prefix(body, "env:"@) is Some && known is None ==> resolved_refs(
                stage_id,
                s,
                sources,
            ) == Err::<Seq<char>, ErrorView>(
                fault(
                    "provider_secret_not_found"@,
                    "stage '"@ + stage_id + "' missing environment variable '"@ + after_prefix(
                        body,
                        "env:"@,
                    )->0 + "' for '${"@ + body + "}'"@,
                ),
            )
            &&& known is Some && end is Err ==> resolved_refs(stage_id, s, sources) == end
            &&& after_prefix(body, "env:"@) is None && after_prefix(body, "vault:"@) is None && (
            resolved_refs(stage_id, rest, sources) is Ok) ==> resolved_refs(stage_id, s, sources)
                == Ok::<Seq<char>, ErrorView>(
                before + "${"@ + resolved_refs(stage_id, rest, sources)->Ok_0,
            )
        }),
{
    crate::text::laws::sides_make_up_text(s, "${"@);
    crate::text::laws::sides_make_up_text(rest, "}"@);
    reveal_strlit("${");
    reveal_strlit("}");
    assert("${"@.len() == 2 && "}"@.len() == 1);
}

/// A reference that is not closed stays as it is.
pub proof fn open_references_stay(
    stage_id: Seq<char>,
    s: Seq<char>,
    before: Seq<char>,
    rest: Seq<char>,
    sources: SourcesView,
)
    requires
        split_at_first(s, "${"@) == Some((before, rest)),
        split_at_first(rest, "}"@) is None,
    ensures
        resolved_refs(stage_id, s, sources) == Ok::<Seq<char>, ErrorView>(s),
{
}

/// Every variable has the value that its text stands for; one that cannot be resolved
/// fails them all.
pub proof fn variables_are_resolved(
    stage_id: Seq<char>,
    env: Seq<(Seq<char>, Seq<char>)>,
    entry: (Seq<char>, Seq<char>),
    sources: SourcesView,
    other: Seq<char>,
)
    ensures
        resolved_env(stage_id, Seq::empty(), sources) matches Ok(none) && none.len() == 0,
        resolved_env(stage_id, env, sources) is Err ==> resolved_env(
            stage_id,
            env.push(entry),
            sources,
        ) == resolved_env(stage_id, env, sources),
        resolved_env(stage_id, env, sources) matches Ok(done) ==> {
            let value = resolved_refs(stage_id, entry.1, sources);
            let all = resolved_env(stage_id, env.push(entry), sources);
            &&& value is Err ==> all is Err && all->Err_0 == value->Err_0
            &&& value is Ok ==> all is Ok && lookup(all->Ok_0, entry.0) == Some(value->Ok_0) && (
            other != entry.0 ==> lookup(all->Ok_0, other) == lookup(done, other))
        },
{
    assert(env.push(entry).drop_last() =~= env);
    if let Ok(done) = resolved_env(stage_id, env, sources) {
        if let Ok(value) = resolved_refs(stage_id, entry.1, sources) {
            crate::strmap::put_spec(done, entry.0, value);
        }
    }
}

/// Secrets are needed where a value refers to one.
pub proof fn references_need_secrets(env: Seq<(Seq<char>, Seq<char>)>, i: int)
    ensures
        0 <= i < env.len() && holds_text(env[i].1, "${vault:"@) ==> refers_to_secrets(env),
        (forall|k: int| 0 <= k < env.len() ==> !holds_text(#[trigger] env[k].1, "${vault:"@))
            ==> !refers_to_secrets(env),
{
}

} // verus!
