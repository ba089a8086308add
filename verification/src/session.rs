//! Session ids and where a session's files lie.
use crate::json::{
    json_items, json_items_at, json_members, json_members_at, object1, opt_text_value, text,
    text_or_null, with_member, Json, JsonView,
};
use crate::paths::{extension, extension_of, file_stem, join_path, joined_path, stem_of};
use crate::policy_crypto::{hex_encode, hex_text, hex_value};
use crate::text::{cat2, opt_text, same};
use rand::TryRngCore;
use vstd::prelude::*;

verus! {

/// `OsRng::try_fill_bytes` of the `rand` crate on four bytes; `None` where the
/// system has no randomness to give. The bytes depend on chance.
#[verifier::external_body]
fn random_bytes() -> (r: Option<[u8; 4]>) {
    let mut bytes = [0u8; 4];
    match rand::rngs::OsRng.try_fill_bytes(&mut bytes) {
        Ok(()) => Some(bytes),
        Err(_) => None,
    }
}

/// `SystemTime::elapsed` since the Unix epoch, in nanoseconds; zero where the
/// clock stands before it. The value depends on the clock.
#[verifier::external_body]
fn clock_nanos() -> (r: u64) {
    match std::time::UNIX_EPOCH.elapsed() {
        Ok(elapsed) => elapsed.as_nanos() as u64,
        Err(_) => 0,
    }
}

/// The four bytes of a number, the highest first.
pub open spec fn low_bytes(n: u64) -> Seq<u8> {
    seq![
        (n as int / 0x1000000 % 0x100) as u8,
        (n as int / 0x10000 % 0x100) as u8,
        (n as int / 0x100 % 0x100) as u8,
        (n as int % 0x100) as u8,
    ]
}

/// The id that random bytes give, or the low 32 bits of the clock without
/// them: eight hexadecimal digits.
pub fn session_id_from(random: Option<[u8; 4]>, nanos: u64) -> (r: String)
    ensures
        r@ == hex_text(
            match random {
                Some(bytes) => bytes@,
                None => low_bytes(nanos),
            },
        ),
        r@.len() == 8,
{
    match random {
        Some(bytes) => hex_encode(&bytes),
        None => {
            let mut bytes: Vec<u8> = Vec::new();
            bytes.push((nanos / 0x1000000 % 0x100) as u8);
            bytes.push((nanos / 0x10000 % 0x100) as u8);
            bytes.push((nanos / 0x100 % 0x100) as u8);
            bytes.push((nanos % 0x100) as u8);
            assert(bytes@ =~= low_bytes(nanos));
            hex_encode(bytes.as_slice())
        },
    }
}

/// Whether `id` is eight lower-case hexadecimal digits.
pub open spec fn is_session_id(id: Seq<char>) -> bool {
    exists|bytes: Seq<u8>| bytes.len() == 4 && id == #[trigger] hex_text(bytes)
}

/// A new session id.
pub fn gen_session_id() -> (r: String)
    ensures
        is_session_id(r@),
{
    let random = random_bytes();
    let nanos: u64 = clock_nanos();
    session_id_from(random, nanos)
}

/// The directory of a session.
pub open spec fn session_path(id: Seq<char>) -> Seq<char> {
    joined_path("/tmp/anna"@, id)
}

/// The directory of the session `session_id`.
pub fn session_dir(session_id: &str) -> (r: String)
    ensures
        r@ == session_path(session_id@),
{
    join_path("/tmp/anna", session_id)
}

/// The file that the log of a stage goes to.
pub fn stage_log_path(session_id: &str, stage_id: &str) -> (r: String)
    ensures
        r@ == joined_path(session_path(session_id@), stage_id@ + ".log"@),
{
    let dir = session_dir(session_id);
    let name = cat2(stage_id, ".log");
    join_path(dir.as_str(), name.as_str())
}

/// The stage whose log a file is, where it is one.
pub fn log_stage(path: &str) -> (r: Option<String>)
    ensures
        opt_text(r) == if extension_of(path@) == Some("log"@) {
            stem_of(path@)
        } else {
            None
        },
{
    match extension(path) {
        Some(ext) => if same(ext.as_str(), "log") {
            file_stem(path)
        } else {
            None
        },
        None => None,
    }
}

/// The file that the data of a session go to.
pub fn session_meta_path(session_id: &str) -> (r: String)
    ensures
        r@ == joined_path(session_path(session_id@), "_meta.json"@),
{
    let dir = session_dir(session_id);
    join_path(dir.as_str(), "_meta.json")
}

/// The data of a session that starts: its workflow and its parent.
pub open spec fn meta_json(
    session_id: Seq<char>,
    workflow: Seq<char>,
    parent_id: Option<Seq<char>>,
) -> JsonView {
    JsonView::Object(
        seq![
            ("session_id"@, JsonView::Text(session_id)),
            ("workflow"@, JsonView::Text(workflow)),
            ("parent_id"@, text_or_null(parent_id)),
            ("children"@, JsonView::Array(Seq::empty())),
        ],
    )
}

/// The data of a session that starts.
pub fn session_meta(session_id: &str, workflow: &str, parent_id: &Option<String>) -> (r: Json)
    ensures
        r@ == meta_json(session_id@, workflow@, opt_text(*parent_id)),
{
    let data = object1("session_id", text(session_id));
    let data = with_member(data, "workflow", text(workflow));
    let data = with_member(data, "parent_id", opt_text_value(parent_id));
    let none: Vec<Json> = Vec::new();
    let data = with_member(data, "children", Json::Array(none));
    assert(json_items(none@) =~= Seq::<JsonView>::empty());
    assert(data@->Object_0 =~= meta_json(
        session_id@,
        workflow@,
        opt_text(*parent_id),
    )->Object_0);
    data
}

/// A child as the data of its parent name it.
pub open spec fn child_json(child_id: Seq<char>, workflow: Seq<char>) -> JsonView {
    JsonView::Object(
        seq![("session_id"@, JsonView::Text(child_id)), ("workflow"@, JsonView::Text(workflow))],
    )
}

/// A member of a session's data with one more child.
pub open spec fn grown_member(member: (Seq<char>, JsonView), child: JsonView) -> (
    Seq<char>,
    JsonView,
) {
    match member.1 {
        JsonView::Array(items) => if member.0 == "children"@ {
            (member.0, JsonView::Array(items.push(child)))
        } else {
            member
        },
        _ => member,
    }
}

/// The data of a session with one more child; data without a list of children
/// stay as they are.
pub open spec fn grown_json(meta: JsonView, child: JsonView) -> JsonView {
    match meta {
        JsonView::Object(members) => JsonView::Object(
            Seq::new(members.len(), |i: int| grown_member(members[i], child)),
        ),
        _ => meta,
    }
}

/// The data of a session with one more child.
pub fn with_child(meta: &Json, child_id: &str, workflow: &str) -> (r: Json)
    ensures
        r@ == grown_json(meta@, child_json(child_id@, workflow@)),
{
    let ghost child = child_json(child_id@, workflow@);
    match meta {
        Json::Object(members) => {
            let mut out: Vec<(String, Json)> = Vec::new();
            proof {
                json_members_at(members@);
            }
            let mut i: usize = 0;
            while i < members.len()
                invariant
                    i <= members@.len(),
                    child == child_json(child_id@, workflow@),
                    out@.len() == i,
                    json_members(members@).len() == members@.len(),
                    forall|k: int|
                        0 <= k < members@.len() ==> #[trigger] json_members(members@)[k] == (
                            members@[k].0@,
                            members@[k].1@,
                        ),
                    forall|k: int|
                        0 <= k < i ==> ((#[trigger] out@[k]).0@, out@[k].1@) == grown_member(
                            json_members(members@)[k],
                            child,
                        ),
                decreases members@.len() - i,
            {
                let value = match &members[i].1 {
                    Json::Array(items) => {
                        let mut all = clone_items(items);
                        if same(members[i].0.as_str(), "children") {
                            let ghost before = all@;
                            let item = with_member(
                                object1("session_id", text(child_id)),
                                "workflow",
                                text(workflow),
                            );
                            assert(item@->Object_0 =~= child->Object_0);
                            all.push(item);
                            assert(all@.drop_last() =~= before);
                        }
                        Json::Array(all)
                    },
                    other => other.copied(),
                };
                assert(json_members(members@)[i as int] == (
                    members@[i as int].0@,
                    members@[i as int].1@,
                ));
                out.push((members[i].0.clone(), value));
                i += 1;
            }
            proof {
                json_members_at(out@);
                assert(json_members(out@) =~= grown_json(meta@, child)->Object_0);
            }
            Json::Object(out)
        },
        other => other.copied(),
    }
}

fn clone_items(items: &Vec<Json>) -> (r: Vec<Json>)
    ensures
        json_items(r@) == json_items(items@),
{
    let mut out: Vec<Json> = Vec::new();
    let mut i: usize = 0;
    while i < items.len()
        invariant
            i <= items@.len(),
            out@.len() == i,
            forall|k: int| 0 <= k < i ==> (#[trigger] out@[k])@ == items@[k]@,
        decreases items@.len() - i,
    {
        out.push(items[i].copied());
        i += 1;
    }
    proof {
        json_items_at(out@);
        json_items_at(items@);
        assert(json_items(out@) =~= json_items(items@));
    }
    out
}

/// The first child that is added to the data of a session that starts is its only
/// one.
pub proof fn first_child_is_listed(
    session_id: Seq<char>,
    workflow: Seq<char>,
    parent_id: Option<Seq<char>>,
    child: JsonView,
)
    ensures
        grown_json(meta_json(session_id, workflow, parent_id), child).member("children"@) == Some(
            JsonView::Array(seq![child]),
        ),
{
    let members = grown_json(meta_json(session_id, workflow, parent_id), child)->Object_0;
    assert(members.last().0 == "children"@);
    assert(members.last().1->Array_0 =~= seq![child]);
}

/// The files of a session lie in a directory of its own.
pub proof fn sessions_have_directories(id: Seq<char>)
    requires
        id.len() > 0,
        id[0] != '/',
    ensures
        session_path(id) == "/tmp/anna/"@ + id,
{
    reveal_strlit("/tmp/anna");
    reveal_strlit("/tmp/anna/");
    reveal_strlit("/");
    assert("/tmp/anna"@ + "/"@ + id =~= "/tmp/anna/"@ + id);
}

/// The data of a session that starts name it, its workflow and its parent, and no
/// child.
pub proof fn new_sessions_are_described(
    session_id: Seq<char>,
    workflow: Seq<char>,
    parent_id: Option<Seq<char>>,
)
    ensures
        ({
            let meta = meta_json(session_id, workflow, parent_id);
            &&& meta.member("session_id"@) == Some(JsonView::Text(session_id))
            &&& meta.member("workflow"@) == Some(JsonView::Text(workflow))
            &&& parent_id matches Some(parent) ==> meta.member("parent_id"@) == Some(
                JsonView::Text(parent),
            )
            &&& parent_id is None ==> meta.member("parent_id"@) == Some(JsonView::Null)
            &&& meta.member("children"@) == Some(JsonView::Array(Seq::empty()))
        }),
{
    reveal_strlit("session_id");
    reveal_strlit("workflow");
    reveal_strlit("parent_id");
    reveal_strlit("children");
    assert("session_id"@.len() == 10 && "workflow"@.len() == 8 && "parent_id"@.len() == 9
        && "children"@.len() == 8);
    assert("workflow"@[0] == 'w' && "children"@[0] == 'c');
    reveal_with_fuel(crate::strmap::lookup, 5);
}

/// One more child stands behind those before it; everything else stays.
pub proof fn children_are_appended(
    members: Seq<(Seq<char>, JsonView)>,
    child: JsonView,
    i: int,
)
    requires
        0 <= i < members.len(),
    ensures
        ({
            let grown = grown_json(JsonView::Object(members), child);
            &&& grown is Object && grown->Object_0.len() == members.len()
            &&& grown->Object_0[i].0 == members[i].0
            &&& members[i].0 != "children"@ ==> grown->Object_0[i] == members[i]
            &&& members[i].0 == "children"@ ==> (members[i].1 matches JsonView::Array(items)
                ==> grown->Object_0[i].1 == JsonView::Array(items.push(child)))
        }),
{
}

/// Four bytes name a session: the low ones of a number, the highest first.
pub proof fn sessions_are_named(bytes: Seq<u8>, n: u64)
    ensures
        bytes.len() == 4 ==> is_session_id(hex_text(bytes)),
        low_bytes(n).len() == 4,
        n < 0x1_0000_0000 ==> low_bytes(n)[0] * 0x1000000 + low_bytes(n)[1] * 0x10000
            + low_bytes(n)[2] * 0x100 + low_bytes(n)[3] == n,
{
}

/// The id of a session is eight digits of hexadecimal.
pub proof fn ids_have_eight_digits(id: Seq<char>)
    requires
        is_session_id(id),
    ensures
        id.len() == 8,
        forall|i: int| 0 <= i < id.len() ==> hex_value(#[trigger] id[i]) is Some,
{
    let bytes = choose|bytes: Seq<u8>| bytes.len() == 4 && id == #[trigger] hex_text(bytes);
    assert forall|i: int| 0 <= i < id.len() implies hex_value(#[trigger] id[i]) is Some by {
        assert(0 <= bytes[i / 2] as int / 16 < 16);
        assert(0 <= bytes[i / 2] as int % 16 < 16);
    }
}

} // verus!
