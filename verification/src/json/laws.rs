//! What holds of JSON values and of their members.
use crate::json::{
    compact_object, insert_member, inserted, json_normal, json_text, json_texts, normal_items,
    normal_items_at, normal_members, number_or_null, object_result, other_number, put_pairs,
    put_pairs_value, text_member, text_or_null, wide, JsonView,
};
use crate::number::decimal;
use crate::order::{text_less, text_less_irreflexive, text_less_total, text_less_transitive};
use crate::strmap::lookup;
use vstd::prelude::*;

verus! {

/// The members of an object; none of anything else.
pub open spec fn members_of(value: JsonView) -> Seq<(Seq<char>, JsonView)> {
    match value {
        JsonView::Object(members) => members,
        _ => Seq::empty(),
    }
}

/// Whether an object has a member of a name and a value.
pub open spec fn holds(object: JsonView, name: Seq<char>, value: JsonView) -> bool {
    exists|i: int|
        0 <= i < members_of(object).len() && (#[trigger] members_of(object)[i]).0 == name
            && members_of(object)[i].1 == value
}

// ---------------------------------------------------------------- normal form

/// Whether members come in the order of their keys, each key once.
pub open spec fn keys_ascend(members: Seq<(Seq<char>, JsonView)>) -> bool {
    forall|i: int, j: int|
        0 <= i < j < members.len() ==> text_less(
            (#[trigger] members[i]).0,
            (#[trigger] members[j]).0,
        )
}

/// A member that is put in is found under its key, every other is as before, and the
/// keys stay in order.
pub proof fn members_are_put_in(
    members: Seq<(Seq<char>, JsonView)>,
    key: Seq<char>,
    value: JsonView,
    other: Seq<char>,
)
    requires
        keys_ascend(members),
    ensures
        keys_ascend(insert_member(members, key, value)),
        lookup(insert_member(members, key, value), key) == Some(value),
        other != key ==> lookup(insert_member(members, key, value), other) == lookup(
            members,
            other,
        ),
        forall|i: int|
            0 <= i < insert_member(members, key, value).len() ==> (#[trigger] insert_member(
                members,
                key,
                value,
            )[i]).0 == key || exists|j: int|
                0 <= j < members.len() && (#[trigger] members[j]).0 == insert_member(
                    members,
                    key,
                    value,
                )[i].0,
    decreases members.len(),
{
    let put = insert_member(members, key, value);
    if members.len() == 0 || text_less(members.last().0, key) {
        assert(put.drop_last() =~= members);
        assert forall|i: int, j: int| 0 <= i < j < put.len() implies text_less(
            (#[trigger] put[i]).0,
            (#[trigger] put[j]).0,
        ) by {
            if j == members.len() && i < members.len() - 1 {
                text_less_transitive(members[i].0, members.last().0, key);
            }
        }
        assert forall|i: int| 0 <= i < put.len() implies (#[trigger] put[i]).0 == key || exists|j:
            int| 0 <= j < members.len() && (#[trigger] members[j]).0 == put[i].0 by {
            if i < members.len() {
                assert(members[i].0 == put[i].0);
            }
        }
    } else if members.last().0 == key {
        assert(put.drop_last() =~= members.drop_last());
        assert forall|i: int| 0 <= i < put.len() implies (#[trigger] put[i]).0 == key || exists|j:
            int| 0 <= j < members.len() && (#[trigger] members[j]).0 == put[i].0 by {
            assert(members[i].0 == put[i].0);
        }
    } else {
        let rest = members.drop_last();
        let last = members.last();
        assert(keys_ascend(rest)) by {
            assert forall|i: int, j: int| 0 <= i < j < rest.len() implies text_less(
                (#[trigger] rest[i]).0,
                (#[trigger] rest[j]).0,
            ) by {
                assert(rest[i] == members[i] && rest[j] == members[j]);
            }
        }
        members_are_put_in(rest, key, value, other);
        text_less_total(last.0, key);
        let inner = insert_member(rest, key, value);
        assert(put.drop_last() =~= inner);
        assert forall|i: int| 0 <= i < inner.len() implies text_less(
            (#[trigger] inner[i]).0,
            last.0,
        ) by {
            if inner[i].0 != key {
                let j = choose|j: int| 0 <= j < rest.len() && (#[trigger] rest[j]).0 == inner[i].0;
                assert(members[j] == rest[j]);
                assert(text_less(members[j].0, members[members.len() - 1].0));
            }
        }
        assert forall|i: int, j: int| 0 <= i < j < put.len() implies text_less(
            (#[trigger] put[i]).0,
            (#[trigger] put[j]).0,
        ) by {
            assert(put[i] == inner[i]);
            if j < inner.len() {
                assert(put[j] == inner[j]);
            }
        }
        assert forall|i: int| 0 <= i < put.len() implies (#[trigger] put[i]).0 == key || exists|j:
            int| 0 <= j < members.len() && (#[trigger] members[j]).0 == put[i].0 by {
            if i < inner.len() {
                assert(put[i] == inner[i]);
                if inner[i].0 != key {
                    let j = choose|j: int|
                        0 <= j < rest.len() && (#[trigger] rest[j]).0 == inner[i].0;
                    assert(members[j].0 == put[i].0);
                }
            } else {
                assert(members[members.len() - 1].0 == put[i].0);
            }
        }
        if last.0 == key {
            text_less_irreflexive(key);
        }
    }
}

/// In its normal form an object has every key that it had, with the normal form of the
/// value that it had last, and its keys are in order.
pub proof fn objects_keep_their_members(members: Seq<(Seq<char>, JsonView)>, key: Seq<char>)
    ensures
        keys_ascend(normal_members(members)),
        lookup(members, key) is None ==> lookup(normal_members(members), key) is None,
        lookup(members, key) matches Some(value) ==> lookup(normal_members(members), key) == Some(
            json_normal(value),
        ),
        json_normal(JsonView::Object(members)) == JsonView::Object(normal_members(members)),
    decreases members.len(),
{
    if members.len() > 0 {
        let rest = members.drop_last();
        objects_keep_their_members(rest, key);
        members_are_put_in(
            normal_members(rest),
            members.last().0,
            json_normal(members.last().1),
            key,
        );
    }
}

/// Members put in one after another leave the last value of each key.
pub proof fn last_members_stay(members: Seq<(Seq<char>, JsonView)>, key: Seq<char>)
    ensures
        keys_ascend(inserted(members)),
        lookup(inserted(members), key) == lookup(members, key),
    decreases members.len(),
{
    if members.len() > 0 {
        last_members_stay(members.drop_last(), key);
        members_are_put_in(
            inserted(members.drop_last()),
            members.last().0,
            members.last().1,
            key,
        );
    }
}

/// An array keeps its items in their order; what is neither array nor object nor number
/// stays as it is, and a whole number is written in its digits.
pub proof fn arrays_keep_their_items(
    items: Seq<JsonView>,
    i: int,
    n: u64,
    text: Seq<char>,
    b: bool,
)
    ensures
        json_normal(JsonView::Array(items)) == JsonView::Array(normal_items(items)),
        normal_items(items).len() == items.len(),
        0 <= i < items.len() ==> normal_items(items)[i] == json_normal(items[i]),
        json_normal(JsonView::Number(Some(n), text)) == JsonView::Number(
            Some(n),
            decimal(n as nat),
        ),
        json_normal(JsonView::Number(None, text)) == other_number(text),
        json_normal(JsonView::Text(text)) == JsonView::Text(text),
        json_normal(JsonView::Bool(b)) == JsonView::Bool(b),
        json_normal(JsonView::Null) == JsonView::Null,
{
    normal_items_at(items);
}

// ---------------------------------------------------------------- values

/// A member is read where an object has it, and as a text where it is one.
pub proof fn members_are_read(
    members: Seq<(Seq<char>, JsonView)>,
    key: Seq<char>,
    text: Seq<char>,
)
    ensures
        JsonView::Object(members).member(key) == lookup(members, key),
        JsonView::Null.member(key) is None,
        lookup(members, key) == Some(JsonView::Text(text)) ==> text_member(
            JsonView::Object(members),
            key,
        ) == Some(text),
        lookup(members, key) is None ==> text_member(JsonView::Object(members), key) is None,
        lookup(members, key) == Some(JsonView::Null) ==> text_member(
            JsonView::Object(members),
            key,
        ) is None,
{
}

/// What is there is written, what is not there is null.
pub proof fn absent_values_are_null(text: Seq<char>, n: u64, m: u32, items: Seq<Seq<char>>, i: int)
    ensures
        text_or_null(Some(text)) == JsonView::Text(text),
        text_or_null(None) is Null,
        number_or_null(Some(n)) == JsonView::Number(Some(n), decimal(n as nat)),
        number_or_null(None) is Null,
        wide(Some(m)) == Some(m as u64),
        wide(None) is None,
        json_texts(items).len() == items.len(),
        0 <= i < items.len() ==> json_texts(items)[i] == JsonView::Text(items[i]),
{
}

/// Objects pass, and nothing else does.
pub proof fn only_objects_pass(value: JsonView, text: Seq<char>, message: Seq<char>)
    ensures
        value is Object ==> object_result(value, text) == Ok::<Seq<char>, Seq<char>>(text),
        !(value is Object) ==> object_result(value, text) == Err::<Seq<char>, Seq<char>>(
            "expected a JSON object"@,
        ),
        compact_object(Err(message)) == Err::<Seq<char>, Seq<char>>(message),
        value is Object ==> compact_object(Ok(value)) == Ok::<Seq<char>, Seq<char>>(
            json_text(value),
        ),
        !(value is Object) ==> compact_object(Ok(value)) == Err::<Seq<char>, Seq<char>>(
            "expected a JSON object"@,
        ),
{
}

/// Pairs leave for each key its last value.
pub proof fn last_pairs_stay(items: Seq<(Seq<char>, Seq<char>)>, key: Seq<char>)
    ensures
        lookup(put_pairs(items), key) == lookup(items, key),
{
    put_pairs_value(items, key);
}

} // verus!
