//! JSON values, and their text by way of `serde_json`.
use crate::number::{decimal, u64_text};
use crate::order::text_less;
use crate::strmap::{lookup, put, put_spec, StrMap};
use crate::text::{opt_str, opt_text, same, texts};
use vstd::prelude::*;

pub mod laws;

verus! {

/// A JSON number: its text, and its value where that is an unsigned integer.
pub struct JsonNumber {
    pub unsigned: Option<u64>,
    pub text: String,
}

/// A JSON value. An object lists its members in the order of their keys.
pub enum Json {
    Null,
    Bool(bool),
    Number(JsonNumber),
    Text(String),
    Array(Vec<Json>),
    Object(Vec<(String, Json)>),
}

/// What a JSON value is, mathematically.
#[verifier::ext_equal]
pub enum JsonView {
    Null,
    Bool(bool),
    Number(Option<u64>, Seq<char>),
    Text(Seq<char>),
    Array(Seq<JsonView>),
    Object(Seq<(Seq<char>, JsonView)>),
}

impl View for Json {
    type V = JsonView;

    open spec fn view(&self) -> JsonView {
        json_view(*self)
    }
}

pub open spec fn json_view(j: Json) -> JsonView
    decreases j,
{
    match j {
        Json::Null => JsonView::Null,
        Json::Bool(b) => JsonView::Bool(b),
        Json::Number(n) => JsonView::Number(n.unsigned, n.text@),
        Json::Text(t) => JsonView::Text(t@),
        Json::Array(items) => JsonView::Array(json_items(items@)),
        Json::Object(members) => JsonView::Object(json_members(members@)),
    }
}

/// The views of the items of an array.
pub open spec fn json_items(items: Seq<Json>) -> Seq<JsonView>
    decreases items,
{
    if items.len() == 0 {
        Seq::empty()
    } else {
        json_items(items.drop_last()).push(json_view(items.last()))
    }
}

/// The views of the members of an object.
pub open spec fn json_members(members: Seq<(String, Json)>) -> Seq<(Seq<char>, JsonView)>
    decreases members,
{
    if members.len() == 0 {
        Seq::empty()
    } else {
        json_members(members.drop_last()).push((members.last().0@, json_view(members.last().1)))
    }
}

pub proof fn json_items_at(items: Seq<Json>)
    ensures
        json_items(items).len() == items.len(),
        forall|i: int| 0 <= i < items.len() ==> #[trigger] json_items(items)[i] == items[i]@,
    decreases items.len(),
{
    if items.len() > 0 {
        json_items_at(items.drop_last());
    }
}

pub proof fn json_members_at(members: Seq<(String, Json)>)
    ensures
        json_members(members).len() == members.len(),
        forall|i: int|
            0 <= i < members.len() ==> #[trigger] json_members(members)[i] == (
                members[i].0@,
                members[i].1@,
            ),
    decreases members.len(),
{
    if members.len() > 0 {
        json_members_at(members.drop_last());
    }
}

impl JsonView {
    /// The member `key` of an object.
    pub open spec fn member(self, key: Seq<char>) -> Option<JsonView> {
        match self {
            JsonView::Object(members) => lookup(members, key),
            _ => None,
        }
    }

    pub open spec fn as_text(self) -> Option<Seq<char>> {
        match self {
            JsonView::Text(t) => Some(t),
            _ => None,
        }
    }
}

/// The text of a member that is a string.
pub open spec fn text_member(j: JsonView, key: Seq<char>) -> Option<Seq<char>> {
    match j.member(key) {
        Some(m) => m.as_text(),
        None => None,
    }
}

pub open spec fn opt_json(j: Option<&Json>) -> Option<JsonView> {
    match j {
        Some(j) => Some(j@),
        None => None,
    }
}

impl Json {
    /// The member `key`, where this is an object that has it.
    pub fn get(&self, key: &str) -> (r: Option<&Json>)
        ensures
            opt_json(r) == self@.member(key@),
    {
        match self {
            Json::Object(members) => {
                let ghost all = members@;
                proof {
                    json_members_at(all);
                }
                let mut i: usize = members.len();
                assert(all.take(i as int) =~= all);
                while i > 0
                    invariant
                        i <= members.len(),
                        all == members@,
                        self@ == JsonView::Object(json_members(all)),
                        lookup(json_members(all), key@) == lookup(
                            json_members(all.take(i as int)),
                            key@,
                        ),
                    decreases i,
                {
                    let ghost head = all.take(i as int);
                    assert(head.drop_last() =~= all.take(i - 1));
                    assert(head.last() == all[i - 1]);
                    assert(json_members(head).drop_last() =~= json_members(head.drop_last()));
                    if same(members[i - 1].0.as_str(), key) {
                        return Some(&members[i - 1].1);
                    }
                    i -= 1;
                }
                assert(all.take(0) =~= Seq::<(String, Json)>::empty());
                None
            },
            _ => None,
        }
    }

    pub fn as_str(&self) -> (r: Option<&str>)
        ensures
            opt_str(r) == self@.as_text(),
    {
        match self {
            Json::Text(t) => Some(t.as_str()),
            _ => None,
        }
    }

    /// The text of the member `key`, where it is a string.
    pub fn get_str(&self, key: &str) -> (r: Option<&str>)
        ensures
            opt_str(r) == text_member(self@, key@),
    {
        match self.get(key) {
            Some(m) => m.as_str(),
            None => None,
        }
    }

    /// The same value.
    pub fn copied(&self) -> (r: Json)
        ensures
            r@ == self@,
        decreases self,
    {
        match self {
            Json::Null => Json::Null,
            Json::Bool(b) => Json::Bool(*b),
            Json::Number(n) => Json::Number(
                JsonNumber { unsigned: n.unsigned, text: n.text.clone() },
            ),
            Json::Text(t) => Json::Text(t.clone()),
            Json::Array(items) => {
                let mut out: Vec<Json> = Vec::new();
                let mut i: usize = 0;
                while i < items.len()
                    invariant
                        i <= items.len(),
                        *self == Json::Array(*items),
                        out@.len() == i,
                        forall|k: int| 0 <= k < i ==> #[trigger] out@[k]@ == items@[k]@,
                    decreases items.len() - i,
                {
                    assert(decreases_to!(*self => self->Array_0));
                    assert(decreases_to!(*items => items[i as int]));
                    out.push(items[i].copied());
                    i += 1;
                }
                proof {
                    json_items_at(items@);
                    json_items_at(out@);
                    assert(json_items(out@) =~= json_items(items@));
                }
                Json::Array(out)
            },
            Json::Object(members) => {
                let mut out: Vec<(String, Json)> = Vec::new();
                let mut i: usize = 0;
                while i < members.len()
                    invariant
                        i <= members.len(),
                        *self == Json::Object(*members),
                        out@.len() == i,
                        forall|k: int|
                            0 <= k < i ==> (#[trigger] out@[k]).0@ == members@[k].0@ && out@[k].1@
                                == members@[k].1@,
                    decreases members.len() - i,
                {
                    assert(decreases_to!(*self => self->Object_0));
                    assert(decreases_to!(*members => members[i as int]));
                    assert(decreases_to!(members[i as int] => members[i as int].1));
                    out.push((members[i].0.clone(), members[i].1.copied()));
                    i += 1;
                }
                proof {
                    json_members_at(members@);
                    json_members_at(out@);
                    assert(json_members(out@) =~= json_members(members@));
                }
                Json::Object(out)
            },
        }
    }
}

// ---------------------------------------------------------------- text

#[verifier::external_type_specification]
#[verifier::external_body]
pub struct ExValue(serde_json::Value);

/// The JSON value that a `serde_json::Value` holds.
pub uninterp spec fn json_tree(value: serde_json::Value) -> JsonView;

/// What `serde_json::from_str` reads from a text: the value, or the message of
/// its error.
pub uninterp spec fn json_read(text: Seq<char>) -> Result<JsonView, Seq<char>>;

/// The number that `serde_json::Number` reads from a text, where it is one.
pub uninterp spec fn number_read(text: Seq<char>) -> Option<JsonView>;

/// A number that is known by its text alone; null where the text is no number.
pub open spec fn other_number(text: Seq<char>) -> JsonView {
    match number_read(text) {
        Some(number) => number,
        None => JsonView::Null,
    }
}

/// The members with one more, in the order of the keys; the value of a key that
/// is there is replaced.
pub open spec fn insert_member(
    members: Seq<(Seq<char>, JsonView)>,
    key: Seq<char>,
    value: JsonView,
) -> Seq<(Seq<char>, JsonView)>
    decreases members.len(),
{
    if members.len() == 0 || text_less(members.last().0, key) {
        members.push((key, value))
    } else if members.last().0 == key {
        members.drop_last().push((key, value))
    } else {
        insert_member(members.drop_last(), key, value).push(members.last())
    }
}

/// The JSON value that a `serde_json::Value` holds once it is put together
/// from the given one: members in the order of their keys, the last of equal
/// keys alone.
pub open spec fn json_normal(value: JsonView) -> JsonView
    decreases value,
{
    match value {
        JsonView::Number(Some(n), _) => JsonView::Number(Some(n), decimal(n as nat)),
        JsonView::Number(None, text) => other_number(text),
        JsonView::Array(items) => JsonView::Array(normal_items(items)),
        JsonView::Object(members) => JsonView::Object(normal_members(members)),
        _ => value,
    }
}

pub open spec fn normal_items(items: Seq<JsonView>) -> Seq<JsonView>
    decreases items,
{
    if items.len() == 0 {
        Seq::empty()
    } else {
        normal_items(items.drop_last()).push(json_normal(items.last()))
    }
}

pub open spec fn normal_members(members: Seq<(Seq<char>, JsonView)>) -> Seq<(Seq<char>, JsonView)>
    decreases members,
{
    if members.len() == 0 {
        Seq::empty()
    } else {
        insert_member(
            normal_members(members.drop_last()),
            members.last().0,
            json_normal(members.last().1),
        )
    }
}

/// The compact text of a JSON value, as `serde_json` writes it.
pub uninterp spec fn json_text(value: JsonView) -> Seq<char>;

/// The indented text of a JSON value, as `serde_json` writes it.
pub uninterp spec fn json_pretty(value: JsonView) -> Seq<char>;

/// What reading returned, in views.
pub open spec fn read_view(r: Result<Json, String>) -> Result<JsonView, Seq<char>> {
    match r {
        Ok(j) => Ok(j@),
        Err(e) => Err(e@),
    }
}

/// `serde_json::from_str` on a text, read as a `serde_json::Value`. What it
/// reads depends on the text alone; an error comes as its message.
#[verifier::external_body]
fn read_value(text: &str) -> (r: Result<serde_json::Value, String>)
    ensures
        match r {
            Ok(value) => json_read(text@) == Ok::<JsonView, Seq<char>>(json_tree(value)),
            Err(message) => json_read(text@) == Err::<JsonView, Seq<char>>(message@),
        },
{
    match serde_json::from_str::<serde_json::Value>(text) {
        Ok(value) => Ok(value),
        Err(err) => Err(err.to_string()),
    }
}

/// What a `serde_json::Value` is made of.
enum Parts<'a> {
    Null,
    Bool(bool),
    Number(Option<u64>, String),
    Text(&'a String),
    Array(&'a Vec<serde_json::Value>),
    Object(Vec<(&'a String, &'a serde_json::Value)>),
}

/// The JSON value with the given parts.
spec fn parts_tree(parts: Parts) -> JsonView {
    match parts {
        Parts::Null => JsonView::Null,
        Parts::Bool(b) => JsonView::Bool(b),
        Parts::Number(unsigned, text) => JsonView::Number(unsigned, text@),
        Parts::Text(t) => JsonView::Text(t@),
        Parts::Array(items) => JsonView::Array(trees(items@)),
        Parts::Object(members) => JsonView::Object(part_trees(members@)),
    }
}

spec fn part_trees(members: Seq<(&String, &serde_json::Value)>) -> Seq<(Seq<char>, JsonView)> {
    Seq::new(members.len(), |i: int| (members[i].0@, json_tree(*members[i].1)))
}

/// Takes a `serde_json::Value` apart, variant for variant: `json_tree` is what
/// its parts hold. Of a number, `as_u64` gives the unsigned integer that it is and
/// `Display` its text.
#[verifier::external_body]
fn parts_of(value: &serde_json::Value) -> (r: Parts<'_>)
    ensures
        parts_tree(r) == json_tree(*value),
{
    match value {
        serde_json::Value::Null => Parts::Null,
        serde_json::Value::Bool(b) => Parts::Bool(*b),
        serde_json::Value::Number(n) => Parts::Number(n.as_u64(), n.to_string()),
        serde_json::Value::String(t) => Parts::Text(t),
        serde_json::Value::Array(items) => Parts::Array(items),
        serde_json::Value::Object(members) => Parts::Object(members.iter().collect()),
    }
}

/// The JSON value that a `serde_json::Value` holds.
fn json_of(value: &serde_json::Value) -> (r: Json)
    ensures
        r@ == json_tree(*value),
    decreases json_tree(*value),
{
    match parts_of(value) {
        Parts::Null => Json::Null,
        Parts::Bool(b) => Json::Bool(b),
        Parts::Number(unsigned, text) => Json::Number(JsonNumber { unsigned, text }),
        Parts::Text(t) => Json::Text(t.clone()),
        Parts::Array(items) => {
            let mut out: Vec<Json> = Vec::new();
            let ghost held = trees(items@);
            let mut i: usize = 0;
            while i < items.len()
                invariant
                    i <= items.len(),
                    held == trees(items@),
                    json_tree(*value) == JsonView::Array(held),
                    out@.len() == i,
                    forall|k: int| 0 <= k < i ==> #[trigger] out@[k]@ == held[k],
                decreases items.len() - i,
            {
                assert(decreases_to!(json_tree(*value) => json_tree(*value)->Array_0));
                assert(decreases_to!(held => held[i as int]));
                out.push(json_of(&items[i]));
                i += 1;
            }
            proof {
                json_items_at(out@);
                assert(json_items(out@) =~= held);
            }
            Json::Array(out)
        },
        Parts::Object(members) => {
            let mut out: Vec<(String, Json)> = Vec::new();
            let ghost held = part_trees(members@);
            let mut i: usize = 0;
            while i < members.len()
                invariant
                    i <= members.len(),
                    held == part_trees(members@),
                    json_tree(*value) == JsonView::Object(held),
                    out@.len() == i,
                    forall|k: int|
                        0 <= k < i ==> (#[trigger] out@[k]).0@ == held[k].0 && out@[k].1@
                            == held[k].1,
                decreases members.len() - i,
            {
                assert(decreases_to!(json_tree(*value) => json_tree(*value)->Object_0));
                assert(decreases_to!(held => held[i as int]));
                assert(decreases_to!(held[i as int] => held[i as int].1));
                out.push((members[i].0.clone(), json_of(members[i].1)));
                i += 1;
            }
            proof {
                json_members_at(out@);
                assert(json_members(out@) =~= held);
            }
            Json::Object(out)
        },
    }
}

/// `serde_json::Value::Null`.
#[verifier::external_body]
fn null_value() -> (r: serde_json::Value)
    ensures
        json_tree(r) == JsonView::Null,
{
    serde_json::Value::Null
}

/// `serde_json::Value::Bool`.
#[verifier::external_body]
fn bool_value(b: bool) -> (r: serde_json::Value)
    ensures
        json_tree(r) == JsonView::Bool(b),
{
    serde_json::Value::Bool(b)
}

/// `serde_json::Value::from` on an unsigned integer, whose text is its digits.
#[verifier::external_body]
fn unsigned_value(n: u64) -> (r: serde_json::Value)
    ensures
        json_tree(r) == JsonView::Number(Some(n), decimal(n as nat)),
{
    serde_json::Value::from(n)
}

/// `serde_json::Number`'s `FromStr`: the number that a text is, which depends on
/// the text alone.
#[verifier::external_body]
fn number_value(text: &str) -> (r: Option<serde_json::Value>)
    ensures
        match r {
            Some(value) => number_read(text@) == Some(json_tree(value)),
            None => number_read(text@) is None,
        },
{
    match text.parse::<serde_json::Number>() {
        Ok(number) => Some(serde_json::Value::Number(number)),
        Err(_) => None,
    }
}

/// `serde_json::Value::String`.
#[verifier::external_body]
fn text_value(text: String) -> (r: serde_json::Value)
    ensures
        json_tree(r) == JsonView::Text(text@),
{
    serde_json::Value::String(text)
}

/// `serde_json::Value::Array`: the items in their order.
#[verifier::external_body]
fn array_value(items: Vec<serde_json::Value>) -> (r: serde_json::Value)
    ensures
        json_tree(r) == JsonView::Array(trees(items@)),
{
    serde_json::Value::Array(items)
}

/// `serde_json::Value::Object`: its `serde_json::Map` keeps the members in the
/// order of their keys, and of members with equal keys the last.
#[verifier::external_body]
fn object_value(members: Vec<(String, serde_json::Value)>) -> (r: serde_json::Value)
    ensures
        json_tree(r) == JsonView::Object(inserted(member_trees(members@))),
{
    serde_json::Value::Object(members.into_iter().collect())
}

/// What values of `serde_json` hold.
pub open spec fn trees(items: Seq<serde_json::Value>) -> Seq<JsonView> {
    Seq::new(items.len(), |i: int| json_tree(items[i]))
}

/// What members with values of `serde_json` hold.
pub open spec fn member_trees(members: Seq<(String, serde_json::Value)>) -> Seq<
    (Seq<char>, JsonView),
> {
    Seq::new(members.len(), |i: int| (members[i].0@, json_tree(members[i].1)))
}

/// Members inserted one after the other.
pub open spec fn inserted(members: Seq<(Seq<char>, JsonView)>) -> Seq<(Seq<char>, JsonView)>
    decreases members.len(),
{
    if members.len() == 0 {
        Seq::empty()
    } else {
        insert_member(
            inserted(members.drop_last()),
            members.last().0,
            members.last().1,
        )
    }
}

proof fn normal_items_at(items: Seq<JsonView>)
    ensures
        normal_items(items).len() == items.len(),
        forall|i: int|
            0 <= i < items.len() ==> #[trigger] normal_items(items)[i] == json_normal(items[i]),
    decreases items.len(),
{
    if items.len() > 0 {
        normal_items_at(items.drop_last());
    }
}

/// Members whose values are in their normal form, inserted one after the other.
proof fn normal_members_inserted(
    members: Seq<(Seq<char>, JsonView)>,
    normal: Seq<(Seq<char>, JsonView)>,
)
    requires
        members.len() == normal.len(),
        forall|i: int|
            0 <= i < members.len() ==> #[trigger] normal[i] == (
                members[i].0,
                json_normal(members[i].1),
            ),
    ensures
        inserted(normal) == normal_members(members),
    decreases members.len(),
{
    if members.len() > 0 {
        normal_members_inserted(members.drop_last(), normal.drop_last());
    }
}

/// Puts a `serde_json::Value` together.
fn value_of(json: &Json) -> (r: serde_json::Value)
    ensures
        json_tree(r) == json_normal(json@),
    decreases json,
{
    match json {
        Json::Null => null_value(),
        Json::Bool(b) => bool_value(*b),
        Json::Number(n) => match n.unsigned {
            Some(unsigned) => unsigned_value(unsigned),
            None => match number_value(n.text.as_str()) {
                Some(value) => value,
                None => null_value(),
            },
        },
        Json::Text(t) => text_value(t.clone()),
        Json::Array(items) => {
            let mut out: Vec<serde_json::Value> = Vec::new();
            let mut i: usize = 0;
            while i < items.len()
                invariant
                    i <= items.len(),
                    *json == Json::Array(*items),
                    out@.len() == i,
                    forall|k: int|
                        0 <= k < i ==> json_tree(#[trigger] out@[k]) == json_normal(items@[k]@),
                decreases items.len() - i,
            {
                assert(decreases_to!(*json => json->Array_0));
                assert(decreases_to!(*items => items[i as int]));
                out.push(value_of(&items[i]));
                i += 1;
            }
            proof {
                json_items_at(items@);
                normal_items_at(json_items(items@));
                assert(trees(out@) =~= normal_items(json_items(items@)));
            }
            array_value(out)
        },
        Json::Object(members) => {
            let mut out: Vec<(String, serde_json::Value)> = Vec::new();
            let mut i: usize = 0;
            while i < members.len()
                invariant
                    i <= members.len(),
                    *json == Json::Object(*members),
                    out@.len() == i,
                    forall|k: int|
                        0 <= k < i ==> (#[trigger] out@[k]).0@ == members@[k].0@ && json_tree(
                            out@[k].1,
                        ) == json_normal(members@[k].1@),
                decreases members.len() - i,
            {
                assert(decreases_to!(*json => json->Object_0));
                assert(decreases_to!(*members => members[i as int]));
                assert(decreases_to!(members[i as int] => members[i as int].1));
                out.push((members[i].0.clone(), value_of(&members[i].1)));
                i += 1;
            }
            proof {
                json_members_at(members@);
                normal_members_inserted(json_members(members@), member_trees(out@));
            }
            object_value(out)
        },
    }
}

/// Reads a JSON value; an error is the message that `serde_json` gives.
pub fn parse_json(text: &str) -> (r: Result<Json, String>)
    ensures
        read_view(r) == json_read(text@),
{
    match read_value(text) {
        Ok(value) => Ok(json_of(&value)),
        Err(message) => Err(message),
    }
}

/// `serde_json::Value`'s `Display`: the compact text, which depends on what the
/// value holds alone.
#[verifier::external_body]
fn value_text(value: &serde_json::Value) -> (r: String)
    ensures
        r@ == json_text(json_tree(*value)),
{
    value.to_string()
}

/// `serde_json::Value`'s alternate `Display`: the text with two blanks of
/// indentation, which `serde_json::to_string_pretty` gives too.
#[verifier::external_body]
fn value_pretty(value: &serde_json::Value) -> (r: String)
    ensures
        r@ == json_pretty(json_tree(*value)),
{
    format!("{:#}", value)
}

/// What `serde_json::from_str` reads from a text as a map from strings to
/// strings, in the order of the keys, or the message of its error.
pub uninterp spec fn text_map_read(text: Seq<char>) -> Result<
    Seq<(Seq<char>, Seq<char>)>,
    Seq<char>,
>;

/// `serde_json::from_str` on a text, read as a map from strings to strings. What
/// it reads depends on the text alone; an error comes as its message.
#[verifier::external_body]
fn read_text_map(text: &str) -> (r: Result<Vec<(String, String)>, String>)
    ensures
        match r {
            Ok(items) => text_map_read(text@) == Ok::<Seq<(Seq<char>, Seq<char>)>, Seq<char>>(
                text_pairs(items@),
            ),
            Err(message) => text_map_read(text@) == Err::<
                Seq<(Seq<char>, Seq<char>)>,
                Seq<char>,
            >(message@),
        },
{
    match serde_json::from_str::<std::collections::BTreeMap<String, String>>(text) {
        Ok(items) => Ok(items.into_iter().collect()),
        Err(err) => Err(err.to_string()),
    }
}

/// `serde_json::to_string_pretty` on a map from strings to strings. It fails only
/// on keys that are no strings and on types that refuse to be written, so never
/// here. Reading the text gives every key the value that it has, the last of
/// several.
#[verifier::external_body]
fn write_text_map(items: Vec<(String, String)>) -> (r: Result<String, String>)
    ensures
        r is Ok,
        text_map_read(r->Ok_0@) is Ok,
        forall|key: Seq<char>|
            #[trigger] lookup(text_map_read(r->Ok_0@)->Ok_0, key) == lookup(
                text_pairs(items@),
                key,
            ),
{
    let map: std::collections::BTreeMap<String, String> = items.into_iter().collect();
    match serde_json::to_string_pretty(&map) {
        Ok(text) => Ok(text),
        Err(err) => Err(err.to_string()),
    }
}

/// Pairs of texts, as plain values.
pub open spec fn text_pairs(items: Seq<(String, String)>) -> Seq<(Seq<char>, Seq<char>)> {
    Seq::new(items.len(), |i: int| (items[i].0@, items[i].1@))
}

/// The entries that pairs put one after the other into an empty map leave.
pub open spec fn put_pairs(items: Seq<(Seq<char>, Seq<char>)>) -> Seq<(Seq<char>, Seq<char>)>
    decreases items.len(),
{
    if items.len() == 0 {
        Seq::empty()
    } else {
        put(put_pairs(items.drop_last()), items.last().0, items.last().1)
    }
}

proof fn put_pairs_value(items: Seq<(Seq<char>, Seq<char>)>, key: Seq<char>)
    ensures
        lookup(put_pairs(items), key) == lookup(items, key),
    decreases items.len(),
{
    if items.len() > 0 {
        put_pairs_value(items.drop_last(), key);
        put_spec(put_pairs(items.drop_last()), items.last().0, items.last().1);
    }
}

/// Reads a JSON object of strings; an error is the message that `serde_json`
/// gives.
pub fn parse_text_map(text: &str) -> (r: Result<StrMap<String>, String>)
    ensures
        match r {
            Ok(map) => text_map_read(text@) is Ok && map.entries() == put_pairs(
                text_map_read(text@)->Ok_0,
            ),
            Err(message) => text_map_read(text@) == Err::<
                Seq<(Seq<char>, Seq<char>)>,
                Seq<char>,
            >(message@),
        },
{
    match read_text_map(text) {
        Err(message) => Err(message),
        Ok(items) => {
            let mut map: StrMap<String> = StrMap::new();
            let ghost all = text_pairs(items@);
            assert(all.take(0) =~= Seq::empty());
            let mut i: usize = 0;
            while i < items.len()
                invariant
                    i <= items@.len(),
                    all == text_pairs(items@),
                    map.entries() == put_pairs(all.take(i as int)),
                decreases items@.len() - i,
            {
                assert(all.take(i + 1).drop_last() =~= all.take(i as int));
                map.insert(items[i].0.clone(), items[i].1.clone());
                i += 1;
            }
            assert(all.take(i as int) =~= all);
            Ok(map)
        },
    }
}

/// Writes a map as a JSON object, indented. What `parse_text_map` reads from the
/// text holds for every key what the map holds.
pub fn text_map_json(map: &StrMap<String>) -> (r: Result<String, String>)
    ensures
        r matches Ok(text) && text_map_read(text@) is Ok && forall|key: Seq<char>|
            #[trigger] lookup(put_pairs(text_map_read(text@)->Ok_0), key) == lookup(
                map.entries(),
                key,
            ),
{
    let mut items: Vec<(String, String)> = Vec::new();
    let n: usize = map.len();
    let mut i: usize = 0;
    while i < n
        invariant
            i <= n,
            n == map.entries().len(),
            items@.len() == i,
            forall|j: int|
                0 <= j < i ==> (#[trigger] items@[j]).0@ == map.entries()[j].0 && items@[j].1@
                    == map.entries()[j].1,
        decreases n - i,
    {
        items.push((map.key_at(i).to_owned(), map.value_at(i).clone()));
        i += 1;
    }
    assert(text_pairs(items@) =~= map.entries());
    let r = write_text_map(items);
    proof {
        if r is Ok {
            let read = text_map_read(r->Ok_0@)->Ok_0;
            assert forall|key: Seq<char>| #[trigger] lookup(put_pairs(read), key) == lookup(
                map.entries(),
                key,
            ) by {
                put_pairs_value(read, key);
            }
        }
    }
    r
}

/// The compact text of a value.
pub fn compact_json(json: &Json) -> (r: String)
    ensures
        r@ == json_text(json_normal(json@)),
{
    let value = value_of(json);
    value_text(&value)
}

/// The indented text of a value.
pub fn pretty_json(json: &Json) -> (r: String)
    ensures
        r@ == json_pretty(json_normal(json@)),
{
    let value = value_of(json);
    value_pretty(&value)
}

/// The text of a value that is a JSON object, or why it is refused.
pub open spec fn object_result(value: JsonView, text: Seq<char>) -> Result<Seq<char>, Seq<char>> {
    match value {
        JsonView::Object(_) => Ok(text),
        _ => Err("expected a JSON object"@),
    }
}

/// What a text or a message is, in views.
pub open spec fn text_result(r: Result<String, String>) -> Result<Seq<char>, Seq<char>> {
    match r {
        Ok(text) => Ok(text@),
        Err(message) => Err(message@),
    }
}

/// Lets the text of a value pass where the value is a JSON object.
pub fn object_text(value: &Json, text: String) -> (r: Result<String, String>)
    ensures
        text_result(r) == object_result(value@, text@),
{
    match value {
        Json::Object(_) => Ok(text),
        _ => Err("expected a JSON object".to_owned()),
    }
}

/// The compact form of a text that is a JSON object, or why it is none.
pub open spec fn compact_object(read: Result<JsonView, Seq<char>>) -> Result<Seq<char>, Seq<char>> {
    match read {
        Ok(value) => object_result(value, json_text(value)),
        Err(message) => Err(message),
    }
}

/// Reads a JSON object and writes it in its compact form; where the text is no
/// JSON, the error is the message that `serde_json` gives.
pub fn compact_object_text(text: &str) -> (r: Result<String, String>)
    ensures
        text_result(r) == compact_object(json_read(text@)),
{
    match read_value(text) {
        Ok(value) => {
            let out = value_text(&value);
            let read = json_of(&value);
            object_text(&read, out)
        },
        Err(message) => Err(message),
    }
}

/// Reads a JSON text and writes the value in its indented form; `None` where
/// the text is not JSON.
pub fn pretty_text(text: &str) -> (r: Option<String>)
    ensures
        match r {
            Some(out) => json_read(text@) is Ok && out@ == json_pretty(json_read(text@)->Ok_0),
            None => json_read(text@) is Err,
        },
{
    match read_value(text) {
        Ok(value) => Some(value_pretty(&value)),
        Err(_) => None,
    }
}

/// Reads a JSON value, and writes it in its indented form; an error is the
/// message that `serde_json` gives.
pub fn parse_and_show(text: &str) -> (r: Result<(Json, String), String>)
    ensures
        match r {
            Ok((json, shown)) => json_read(text@) == Ok::<JsonView, Seq<char>>(json@) && shown@
                == json_pretty(json@),
            Err(message) => json_read(text@) == Err::<JsonView, Seq<char>>(message@),
        },
{
    match read_value(text) {
        Ok(value) => {
            let shown = value_pretty(&value);
            Ok((json_of(&value), shown))
        },
        Err(message) => Err(message),
    }
}

/// The JSON number `n`.
pub fn number(n: u64) -> (r: Json)
    ensures
        r@ == JsonView::Number(Some(n), decimal(n as nat)),
{
    Json::Number(JsonNumber { unsigned: Some(n), text: u64_text(n) })
}

/// The JSON string `text`.
pub fn text(value: &str) -> (r: Json)
    ensures
        r@ == JsonView::Text(value@),
{
    Json::Text(value.to_owned())
}

/// The JSON string, or null.
pub open spec fn text_or_null(value: Option<Seq<char>>) -> JsonView {
    match value {
        Some(t) => JsonView::Text(t),
        None => JsonView::Null,
    }
}

/// The JSON object with no members.
pub fn empty_object() -> (r: Json)
    ensures
        r@ == JsonView::Object(Seq::empty()),
{
    Json::Object(Vec::new())
}

/// The JSON object with one member.
pub fn object1(key: &str, value: Json) -> (r: Json)
    ensures
        r@ == JsonView::Object(seq![(key@, value@)]),
{
    let mut members: Vec<(String, Json)> = Vec::new();
    members.push((key.to_owned(), value));
    proof {
        json_members_at(members@);
        assert(json_members(members@) =~= seq![(key@, value@)]);
    }
    Json::Object(members)
}

/// The object with one member more.
pub fn with_member(object: Json, key: &str, value: Json) -> (r: Json)
    ensures
        match object@ {
            JsonView::Object(members) => r@ == JsonView::Object(members.push((key@, value@))),
            _ => r@ == JsonView::Object(seq![(key@, value@)]),
        },
{
    match object {
        Json::Object(mut members) => {
            let ghost before = members@;
            members.push((key.to_owned(), value));
            assert(members@.drop_last() =~= before);
            Json::Object(members)
        },
        _ => object1(key, value),
    }
}

/// The JSON texts of strings.
pub open spec fn json_texts(items: Seq<Seq<char>>) -> Seq<JsonView> {
    Seq::new(items.len(), |i: int| JsonView::Text(items[i]))
}

/// The JSON array of strings.
pub fn text_array(items: &Vec<String>) -> (r: Json)
    ensures
        r@ == JsonView::Array(json_texts(texts(items@))),
{
    let mut out: Vec<Json> = Vec::new();
    let mut i: usize = 0;
    while i < items.len()
        invariant
            i <= items.len(),
            out@.len() == i,
            forall|j: int| 0 <= j < i ==> (#[trigger] out@[j])@ == JsonView::Text(items@[j]@),
        decreases items.len() - i,
    {
        out.push(text(items[i].as_str()));
        i += 1;
    }
    proof {
        json_items_at(out@);
        assert(json_items(out@) =~= json_texts(texts(items@)));
    }
    Json::Array(out)
}

/// The JSON string, or null.
pub fn opt_text_value(value: &Option<String>) -> (r: Json)
    ensures
        r@ == text_or_null(opt_text(*value)),
{
    match value {
        Some(t) => text(t.as_str()),
        None => Json::Null,
    }
}

/// The JSON number, or null.
pub open spec fn number_or_null(value: Option<u64>) -> JsonView {
    match value {
        Some(n) => JsonView::Number(Some(n), decimal(n as nat)),
        None => JsonView::Null,
    }
}

pub fn opt_number(value: Option<u64>) -> (r: Json)
    ensures
        r@ == number_or_null(value),
{
    match value {
        Some(n) => number(n),
        None => Json::Null,
    }
}

/// A number in 64 bits.
pub open spec fn wide(n: Option<u32>) -> Option<u64> {
    match n {
        Some(n) => Some(n as u64),
        None => None,
    }
}

pub fn widened(n: Option<u32>) -> (r: Option<u64>)
    ensures
        r == wide(n),
{
    match n {
        Some(n) => Some(n as u64),
        None => None,
    }
}

} // verus!
