//! What holds of the settings of the daemon.
use crate::daemon::settings::{
    node_name, number_or, off, owner_limit_note, owner_limit_notes, owner_limits, reload_note,
    reload_seconds, state_file_path, switched, with_owner_limit, OwnerLimitsView,
};
use crate::number::{decimal, number_value};
use crate::paths::joined_path;
use crate::strmap::{lookup, put_spec};
use crate::text::{blank, lowered, split_at_first, trimmed};
use vstd::prelude::*;

verus! {

/// A setting is switched off by nothing, by `off` and by `false`, and by nothing else.
pub proof fn off_switches(value: Seq<char>)
    ensures
        off(value) <==> blank(value) || lowered(trimmed(value)) == "off"@ || lowered(
            trimmed(value),
        ) == "false"@,
{
    reveal_strlit("off");
    reveal_strlit("false");
    assert(lowered("off"@) =~= "off"@);
    assert(lowered("false"@) =~= "false"@);
    if blank(value) {
        assert(lowered(trimmed(value)).len() == 0);
    } else {
        assert(lowered(trimmed(value)).len() == trimmed(value).len());
    }
}

/// A setting that is not switched off has the value that is set, without blanks.
pub proof fn settings_have_values(env: Seq<(Seq<char>, Seq<char>)>, key: Seq<char>)
    ensures
        lookup(env, key) is None ==> switched(env, key) is None,
        lookup(env, key) matches Some(value) ==> (if off(value) {
            switched(env, key) is None
        } else {
            switched(env, key) == Some(trimmed(value))
        }),
{
}

/// The state lies where it is told to, nowhere where it is switched off, and else
/// below the home directory.
pub proof fn state_lies_at_home(env: Seq<(Seq<char>, Seq<char>)>)
    ensures
        lookup(env, "ANNA_DAEMON_STATE_FILE"@) matches Some(file) ==> (if blank(file) || lowered(
            trimmed(file),
        ) == "off"@ {
            state_file_path(env) is None
        } else {
            state_file_path(env) == Some(trimmed(file))
        }),
        lookup(env, "ANNA_DAEMON_STATE_FILE"@) is None ==> (match lookup(env, "HOME"@) {
            Some(home) => state_file_path(env) == Some(
                joined_path(home, ".anna/daemon-state.json"@),
            ),
            None => state_file_path(env) is None,
        }),
{
    reveal_strlit("off");
    assert(lowered("off"@) =~= "off"@);
}

/// A node has the name that is set, else that of its host with the number of its
/// process.
pub proof fn nodes_are_told_apart(env: Seq<(Seq<char>, Seq<char>)>, pid: u32)
    ensures
        lookup(env, "ANNA_DAEMON_NODE_ID"@) is Some && !blank(
            lookup(env, "ANNA_DAEMON_NODE_ID"@)->0,
        ) ==> node_name(env, pid) == trimmed(lookup(env, "ANNA_DAEMON_NODE_ID"@)->0),
        lookup(env, "ANNA_DAEMON_NODE_ID"@) is None ==> {
            &&& lookup(env, "HOSTNAME"@) is Some && !blank(lookup(env, "HOSTNAME"@)->0)
                ==> node_name(env, pid) == trimmed(lookup(env, "HOSTNAME"@)->0) + "-"@ + decimal(
                pid as nat,
            )
            &&& lookup(env, "HOSTNAME"@) is None && lookup(env, "COMPUTERNAME"@) is Some && !blank(
                lookup(env, "COMPUTERNAME"@)->0,
            ) ==> node_name(env, pid) == trimmed(
                lookup(env, "COMPUTERNAME"@)->0,
            ) + "-"@ + decimal(pid as nat)
            &&& lookup(env, "HOSTNAME"@) is None && lookup(env, "COMPUTERNAME"@) is None
                ==> node_name(env, pid) == "node"@ + "-"@ + decimal(pid as nat)
        },
{
}

/// A number that is large enough is taken; else the default is.
pub proof fn numbers_are_taken(value: Seq<char>, max: nat, least: nat, default_value: nat)
    ensures
        number_or(None, max, least, default_value) == default_value,
        number_value(trimmed(value), max) is Err ==> number_or(
            Some(value),
            max,
            least,
            default_value,
        ) == default_value,
        number_value(trimmed(value), max) matches Ok(n) ==> (if n >= least {
            number_or(Some(value), max, least, default_value) == n
        } else {
            number_or(Some(value), max, least, default_value) == default_value
        }),
{
}

/// Intents are read again every two seconds, or as often as it is said, or never.
pub proof fn reload_can_be_set(value: Seq<char>)
    ensures
        reload_seconds(None) == Some(2u64),
        off(value) || trimmed(value) == "0"@ ==> reload_seconds(Some(value)) is None,
        !off(value) && trimmed(value) != "0"@ ==> (number_value(
            trimmed(value),
            u64::MAX as nat,
        ) matches Ok(n) ==> (n >= 1 ==> reload_seconds(Some(value)) == Some(n as u64))),
        !off(value) && trimmed(value) != "0"@ && number_value(trimmed(value), u64::MAX as nat)
            is Err ==> reload_seconds(Some(value)) == Some(2u64),
        reload_note(None) is None,
        off(value) || trimmed(value) == "0"@ ==> reload_note(Some(value)) is None,
        !off(value) && trimmed(value) != "0"@ && number_value(trimmed(value), u64::MAX as nat)
            is Err ==> reload_note(Some(value)) == Some(
            "anna-rs daemon: invalid ANNA_CHAT_INTENTS_RELOAD_SEC='"@ + trimmed(value)
                + "' (expected integer >=1, or off/false/0)"@,
        ),
        number_value(trimmed(value), u64::MAX as nat) matches Ok(n) ==> (n >= 1 ==> reload_note(
            Some(value),
        ) is None),
{
}

/// An entry `owner=limit` sets the limit of that owner alone; `*` sets that of all who
/// have none of their own.
pub proof fn owners_get_limits(
    limits: OwnerLimitsView,
    item: Seq<char>,
    owner: Seq<char>,
    limit: Seq<char>,
    other: Seq<char>,
)
    requires
        split_at_first(item, "="@) == Some((owner, limit)),
    ensures
        ({
            let after = with_owner_limit(limits, item);
            let key = lowered(trimmed(owner));
            &&& number_value(trimmed(limit), usize::MAX as nat) is Err ==> after == limits
            &&& number_value(trimmed(limit), usize::MAX as nat) matches Ok(n) ==> {
                &&& n == 0 ==> after == limits
                &&& n >= 1 && key == "*"@ ==> after.default_limit == Some(n as usize)
                    && after.per_owner == limits.per_owner
                &&& n >= 1 && key != "*"@ && key.len() > 0 ==> lookup(after.per_owner, key) == Some(
                    n as usize,
                ) && after.default_limit == limits.default_limit
                &&& key.len() == 0 && key != "*"@ ==> after == limits
                &&& other != key ==> lookup(after.per_owner, other) == lookup(
                    limits.per_owner,
                    other,
                )
            }
        }),
{
    if let Ok(n) = number_value(trimmed(limit), usize::MAX as nat) {
        put_spec(limits.per_owner, lowered(trimmed(owner)), n as usize);
    }
}

/// Entries are taken one after another; what is no entry is passed over.
pub proof fn limits_are_taken_in_order(items: Seq<Seq<char>>, item: Seq<char>)
    ensures
        owner_limits(Seq::empty()).per_owner.len() == 0,
        owner_limits(Seq::empty()).default_limit is None,
        owner_limits(items.push(item)) == with_owner_limit(owner_limits(items), item),
        split_at_first(item, "="@) is None ==> owner_limits(items.push(item)) == owner_limits(
            items,
        ),
{
    assert(items.push(item).drop_last() =~= items);
}

/// The operator is told of every entry that is no limit.
pub proof fn bad_limits_are_told(
    items: Seq<Seq<char>>,
    item: Seq<char>,
    owner: Seq<char>,
    limit: Seq<char>,
)
    ensures
        split_at_first(item, "="@) is None ==> owner_limit_note(item) == Some(
            "anna-rs daemon: ignoring invalid ANNA_OWNER_MAX_CONCURRENCY entry '"@ + item + "'"@,
        ),
        split_at_first(item, "="@) == Some((owner, limit)) ==> {
            let n = number_value(trimmed(limit), usize::MAX as nat);
            &&& n is Ok && n->Ok_0 >= 1 ==> owner_limit_note(item) is None
            &&& n is Err || n->Ok_0 == 0 ==> owner_limit_note(item) == Some(
                "anna-rs daemon: ignoring invalid owner limit '"@ + trimmed(owner) + "="@ + trimmed(
                    limit,
                ) + "' (expected >=1)"@,
            )
        },
        owner_limit_notes(Seq::empty()).len() == 0,
        owner_limit_note(item) is None ==> owner_limit_notes(items.push(item))
            == owner_limit_notes(items),
        owner_limit_note(item) matches Some(note) ==> owner_limit_notes(items.push(item))
            == owner_limit_notes(items).push(note),
{
    assert(items.push(item).drop_last() =~= items);
}

} // verus!
