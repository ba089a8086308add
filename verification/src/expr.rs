//! Variable substitution and the conditions of `when` and `break_when`.
use crate::strmap::{keys_of, lookup, StrMap};
use crate::text::{
    after_prefix, byte_len, cat2, cat3, char_is_alnum, char_is_space, chars_of, contains,
    find_is_first, group_texts, holds_text, is_alnum, is_space, len_in_bytes, matches_at, opt_str,
    opt_text, replace, replaced, replaced_absent, same, split_at_first, split_once, starts_with,
    string_of, strip_prefix, texts, trim, trim_idempotent, trim_start_by, trim_text_start_by,
    trimmed, CharSet,
};
use vstd::prelude::*;
use vstd::string::*;

pub mod laws;
pub mod outputs;
pub mod sides;

verus! {

// ---------------------------------------------------------------- key order

/// `key` put behind all keys that are at least as long in UTF-8.
pub open spec fn insert_by_length(keys: Seq<Seq<char>>, key: Seq<char>) -> Seq<Seq<char>>
    decreases keys.len(),
{
    if keys.len() == 0 || byte_len(keys.last()) >= byte_len(key) {
        keys.push(key)
    } else {
        insert_by_length(keys.drop_last(), key).push(keys.last())
    }
}

/// The keys from the longest to the shortest; equally long keys keep their order.
pub open spec fn longest_first(keys: Seq<Seq<char>>) -> Seq<Seq<char>>
    decreases keys.len(),
{
    if keys.len() == 0 {
        Seq::empty()
    } else {
        insert_by_length(longest_first(keys.drop_last()), keys.last())
    }
}

/// `keys` without those that equal their left neighbour.
pub open spec fn dedup(keys: Seq<Seq<char>>) -> Seq<Seq<char>>
    decreases keys.len(),
{
    if keys.len() < 2 {
        keys
    } else if keys[keys.len() - 2] == keys.last() {
        dedup(keys.drop_last())
    } else {
        dedup(keys.drop_last()).push(keys.last())
    }
}

/// No key is longer than one before it.
pub open spec fn by_length(keys: Seq<Seq<char>>) -> bool {
    forall|i: int, j: int|
        0 <= i < j < keys.len() ==> byte_len(#[trigger] keys[i]) >= byte_len(#[trigger] keys[j])
}

proof fn insert_by_length_spec(keys: Seq<Seq<char>>, key: Seq<char>)
    requires
        by_length(keys),
    ensures
        by_length(insert_by_length(keys, key)),
        insert_by_length(keys, key).to_multiset() =~= keys.to_multiset().insert(key),
        insert_by_length(keys, key).len() == keys.len() + 1,
    decreases keys.len(),
{
    broadcast use vstd::seq_lib::group_to_multiset_ensures;

    let r = insert_by_length(keys, key);
    if keys.len() == 0 || byte_len(keys.last()) >= byte_len(key) {
        assert forall|i: int, j: int| 0 <= i < j < r.len() implies byte_len(#[trigger] r[i])
            >= byte_len(#[trigger] r[j]) by {
            if j == keys.len() && i < keys.len() - 1 {
                assert(byte_len(keys[i]) >= byte_len(keys[keys.len() - 1]));
            }
        }
    } else {
        let d = keys.drop_last();
        let q = insert_by_length(d, key);
        assert(by_length(d)) by {
            assert forall|i: int, j: int| 0 <= i < j < d.len() implies byte_len(#[trigger] d[i])
                >= byte_len(#[trigger] d[j]) by {
                assert(d[i] == keys[i] && d[j] == keys[j]);
            }
        }
        insert_by_length_spec(d, key);
        assert(keys =~= d.push(keys.last()));
        assert forall|i: int, j: int| 0 <= i < j < r.len() implies byte_len(#[trigger] r[i])
            >= byte_len(#[trigger] r[j]) by {
            if j == q.len() {
                assert(q.to_multiset().count(q[i]) > 0) by {
                    assert(q.contains(q[i]));
                }
                if q[i] != key {
                    assert(d.to_multiset().count(q[i]) > 0);
                    assert(d.contains(q[i]));
                    let k = choose|k: int| 0 <= k < d.len() && d[k] == q[i];
                    assert(byte_len(keys[k]) >= byte_len(keys[keys.len() - 1]));
                }
            }
        }
    }
}

/// `longest_first` rearranges its argument so that no key comes after a
/// shorter one: a key is substituted before every key that is a prefix of it.
pub proof fn longest_first_spec(keys: Seq<Seq<char>>)
    ensures
        by_length(longest_first(keys)),
        longest_first(keys).to_multiset() =~= keys.to_multiset(),
        longest_first(keys).len() == keys.len(),
    decreases keys.len(),
{
    broadcast use vstd::seq_lib::group_to_multiset_ensures;

    if keys.len() > 0 {
        longest_first_spec(keys.drop_last());
        insert_by_length_spec(longest_first(keys.drop_last()), keys.last());
        assert(keys =~= keys.drop_last().push(keys.last()));
    } else {
        assert(longest_first(keys) =~= keys);
    }
}

fn sort_longest_first(keys: &Vec<String>) -> (r: Vec<String>)
    ensures
        texts(r@) == longest_first(texts(keys@)),
{
    broadcast use group_texts;

    let mut out: Vec<String> = Vec::new();
    let mut n: usize = 0;
    assert(texts(keys@).take(0) =~= Seq::<Seq<char>>::empty());
    while n < keys.len()
        invariant
            n <= keys.len(),
            texts(out@) == longest_first(texts(keys@).take(n as int)),
        decreases keys.len() - n,
    {
        let ghost next = texts(keys@).take(n + 1);
        assert(next.drop_last() =~= texts(keys@).take(n as int));
        let item = keys[n].clone();
        let length: usize = len_in_bytes(item.as_str());
        let ghost all = texts(out@);
        let ghost x = item@;
        let mut i: usize = out.len();
        assert(all.take(i as int) =~= all);
        assert(insert_by_length(all, x) =~= insert_by_length(all.take(i as int), x) + all.skip(
            i as int,
        ));
        while i > 0 && len_in_bytes(out[i - 1].as_str()) < length
            invariant
                i <= out.len(),
                x == item@,
                length == byte_len(x),
                all == texts(out@),
                insert_by_length(all, x) == insert_by_length(all.take(i as int), x) + all.skip(
                    i as int,
                ),
            decreases i,
        {
            let ghost head = all.take(i as int);
            assert(head.drop_last() =~= all.take(i - 1));
            assert(head.last() == all[i - 1]);
            assert(insert_by_length(all.take(i - 1), x).push(all[i - 1]) + all.skip(i as int)
                =~= insert_by_length(all.take(i - 1), x) + all.skip(i - 1));
            i -= 1;
        }
        proof {
            if i > 0 {
                assert(all.take(i as int).last() == all[i - 1]);
            }
            assert(texts(out@.insert(i as int, item)) =~= all.take(i as int).push(x) + all.skip(
                i as int,
            ));
        }
        out.insert(i, item);
        n += 1;
    }
    assert(texts(keys@).take(n as int) =~= texts(keys@));
    out
}

fn dedup_keys(keys: &Vec<String>) -> (r: Vec<String>)
    ensures
        texts(r@) == dedup(texts(keys@)),
{
    broadcast use group_texts;

    let mut out: Vec<String> = Vec::new();
    let mut n: usize = 0;
    assert(texts(keys@).take(0) =~= Seq::<Seq<char>>::empty());
    while n < keys.len()
        invariant
            n <= keys.len(),
            texts(out@) == dedup(texts(keys@).take(n as int)),
        decreases keys.len() - n,
    {
        let ghost next = texts(keys@).take(n + 1);
        assert(next.drop_last() =~= texts(keys@).take(n as int));
        if n == 0 {
            out.push(keys[0].clone());
            assert(texts(out@) =~= next);
        } else if !same(keys[n - 1].as_str(), keys[n].as_str()) {
            out.push(keys[n].clone());
        }
        n += 1;
    }
    assert(texts(keys@).take(n as int) =~= texts(keys@));
    out
}

// ---------------------------------------------------------------- substitution

/// The value of a variable: that of `outputs` before that of `vars`.
pub open spec fn value_of(
    vars: Seq<(Seq<char>, Seq<char>)>,
    outputs: Seq<(Seq<char>, Seq<char>)>,
    key: Seq<char>,
) -> Option<Seq<char>> {
    match lookup(outputs, key) {
        Some(value) => Some(value),
        None => lookup(vars, key),
    }
}

/// The names that are substituted, in turn.
pub open spec fn subst_keys(
    vars: Seq<(Seq<char>, Seq<char>)>,
    outputs: Seq<(Seq<char>, Seq<char>)>,
) -> Seq<Seq<char>> {
    dedup(longest_first(keys_of(vars) + keys_of(outputs)))
}

/// `text` with `$key` replaced for each of `keys` in turn.
pub open spec fn subst_each(
    text: Seq<char>,
    keys: Seq<Seq<char>>,
    vars: Seq<(Seq<char>, Seq<char>)>,
    outputs: Seq<(Seq<char>, Seq<char>)>,
) -> Seq<char>
    decreases keys.len(),
{
    if keys.len() == 0 {
        text
    } else {
        let before = subst_each(text, keys.drop_last(), vars, outputs);
        match value_of(vars, outputs, keys.last()) {
            Some(value) => replaced(before, "$"@ + keys.last(), value),
            None => before,
        }
    }
}

/// `text` with every `$name` replaced by its value, longer names first.
pub open spec fn substituted(
    text: Seq<char>,
    vars: Seq<(Seq<char>, Seq<char>)>,
    outputs: Seq<(Seq<char>, Seq<char>)>,
) -> Seq<char> {
    subst_each(text, subst_keys(vars, outputs), vars, outputs)
}

fn push_keys<V: View>(out: &mut Vec<String>, map: &StrMap<V>)
    ensures
        texts(final(out)@) == texts(old(out)@) + keys_of(map.entries()),
{
    broadcast use group_texts;

    let n: usize = map.len();
    let mut i: usize = 0;
    let ghost start = texts(out@);
    assert(start + keys_of(map.entries()).take(0) =~= start);
    while i < n
        invariant
            i <= n,
            n == map.entries().len(),
            texts(out@) == start + keys_of(map.entries()).take(i as int),
        decreases n - i,
    {
        assert(start + keys_of(map.entries()).take(i + 1) =~= (start + keys_of(map.entries()).take(
            i as int,
        )).push(map.entries()[i as int].0));
        out.push(map.key_at(i).to_owned());
        i += 1;
    }
    assert(keys_of(map.entries()).take(n as int) =~= keys_of(map.entries()));
}

/// Replaces every `$name` in `input` by the value of the variable `name`.
///
/// Longer names are replaced first, and a value in `outputs` goes before one
/// in `vars`.
pub fn subst(input: &str, vars: &StrMap<String>, outputs: &StrMap<String>) -> (r: String)
    ensures
        r@ == substituted(input@, vars.entries(), outputs.entries()),
{
    broadcast use group_texts;

    let mut all: Vec<String> = Vec::new();
    push_keys(&mut all, vars);
    push_keys(&mut all, outputs);
    assert(texts(all@) =~= keys_of(vars.entries()) + keys_of(outputs.entries()));
    let sorted = sort_longest_first(&all);
    let keys = dedup_keys(&sorted);
    let mut out = input.to_owned();
    let mut i: usize = 0;
    let ghost names = texts(keys@);
    assert(names.take(0) =~= Seq::<Seq<char>>::empty());
    while i < keys.len()
        invariant
            i <= keys.len(),
            names == texts(keys@),
            out@ == subst_each(
                input@,
                names.take(i as int),
                vars.entries(),
                outputs.entries(),
            ),
        decreases keys.len() - i,
    {
        let ghost next = names.take(i + 1);
        assert(next.drop_last() =~= names.take(i as int));
        assert(next.last() == keys@[i as int]@);
        let marker = cat2("$", keys[i].as_str());
        proof {
            reveal_strlit("$");
        }
        match outputs.get(keys[i].as_str()) {
            Some(value) => {
                out = replace(out.as_str(), marker.as_str(), value.as_str());
            },
            None => match vars.get(keys[i].as_str()) {
                Some(value) => {
                    out = replace(out.as_str(), marker.as_str(), value.as_str());
                },
                None => {},
            },
        }
        i += 1;
    }
    assert(names.take(i as int) =~= names);
    out
}

/// Text without a `$` has nothing to substitute.
pub proof fn subst_plain_text(
    text: Seq<char>,
    vars: Seq<(Seq<char>, Seq<char>)>,
    outputs: Seq<(Seq<char>, Seq<char>)>,
)
    requires
        !text.contains('$'),
    ensures
        substituted(text, vars, outputs) == text,
{
    subst_plain_each(text, subst_keys(vars, outputs), vars, outputs);
}

proof fn subst_plain_each(
    text: Seq<char>,
    keys: Seq<Seq<char>>,
    vars: Seq<(Seq<char>, Seq<char>)>,
    outputs: Seq<(Seq<char>, Seq<char>)>,
)
    requires
        !text.contains('$'),
    ensures
        subst_each(text, keys, vars, outputs) == text,
    decreases keys.len(),
{
    if keys.len() > 0 {
        subst_plain_each(text, keys.drop_last(), vars, outputs);
        let p = "$"@ + keys.last();
        reveal_strlit("$");
        assert forall|i: int| !matches_at(text, p, i) by {
            if matches_at(text, p, i) {
                assert(p[0] == '$');
                assert(text.subrange(i, i + p.len())[0] == text[i]);
            }
        }
        match value_of(vars, outputs, keys.last()) {
            Some(value) => replaced_absent(text, p, value),
            None => {},
        }
    }
}

/// A name that both hold has the value of the output.
pub proof fn outputs_override_vars(
    vars: Seq<(Seq<char>, Seq<char>)>,
    outputs: Seq<(Seq<char>, Seq<char>)>,
    key: Seq<char>,
)
    requires
        lookup(outputs, key) is Some,
    ensures
        value_of(vars, outputs, key) == lookup(outputs, key),
{
}

// ---------------------------------------------------------------- splitting

/// The trimmed pieces of `s[start..]` between the operators at or after `i`
/// that stand outside single quotes.
pub open spec fn pieces_from(
    s: Seq<char>,
    op: Seq<char>,
    i: int,
    start: int,
    quoted: bool,
) -> Seq<Seq<char>>
    decreases s.len() - i,
{
    if op.len() == 0 || i < 0 || i >= s.len() {
        seq![trimmed(s.skip(start))]
    } else if s[i] == '\'' {
        pieces_from(s, op, i + 1, start, !quoted)
    } else if !quoted && matches_at(s, op, i) {
        seq![trimmed(s.subrange(start, i))] + pieces_from(
            s,
            op,
            i + op.len(),
            i + op.len(),
            quoted,
        )
    } else {
        pieces_from(s, op, i + 1, start, quoted)
    }
}

/// The pieces between the operators of `s`, where it has any.
pub open spec fn split_outside(s: Seq<char>, op: Seq<char>) -> Option<Seq<Seq<char>>> {
    let pieces = pieces_from(s, op, 0, 0, false);
    if op.len() == 0 || pieces.len() < 2 {
        None
    } else {
        Some(pieces)
    }
}

/// Splits `input` at every `op` outside single quotes and trims the pieces;
/// `None` where there is no such `op`.
pub fn split_outside_quotes(input: &str, op: &str) -> (r: Option<Vec<String>>)
    ensures
        match r {
            Some(parts) => split_outside(input@, op@) == Some(texts(parts@)),
            None => split_outside(input@, op@) is None,
        },
{
    broadcast use group_texts;

    let s = chars_of(input);
    let n: usize = s.len();
    let width: usize = op.unicode_len();
    if width == 0 {
        return None;
    }
    let mut parts: Vec<String> = Vec::new();
    let mut i: usize = 0;
    let mut start: usize = 0;
    let mut quoted = false;
    assert(texts(parts@) + pieces_from(input@, op@, 0, 0, false) =~= pieces_from(
        input@,
        op@,
        0,
        0,
        false,
    ));
    while i < n
        invariant
            start <= i <= n,
            n == s@.len(),
            s@ == input@,
            width == op@.len(),
            width > 0,
            texts(parts@) + pieces_from(input@, op@, i as int, start as int, quoted) == pieces_from(
                input@,
                op@,
                0,
                0,
                false,
            ),
        decreases n - i,
    {
        if s[i] == '\'' {
            quoted = !quoted;
            i += 1;
            continue ;
        }
        if !quoted && width <= n - i && same(input.substring_char(i, i + width), op) {
            let part = trim(input.substring_char(start, i));
            let ghost before = texts(parts@);
            parts.push(part.to_owned());
            assert(texts(parts@) + pieces_from(
                input@,
                op@,
                i + op@.len(),
                i + op@.len(),
                quoted,
            ) =~= before + (seq![part@] + pieces_from(
                input@,
                op@,
                i + op@.len(),
                i + op@.len(),
                quoted,
            )));
            i += width;
            start = i;
            continue ;
        }
        i += 1;
    }
    let last = trim(input.substring_char(start, n));
    assert(input@.subrange(start as int, n as int) =~= input@.skip(start as int));
    if parts.len() == 0 {
        assert(pieces_from(input@, op@, 0, 0, false).len() == 1);
        return None;
    }
    parts.push(last.to_owned());
    assert(texts(parts@) =~= pieces_from(input@, op@, 0, 0, false));
    Some(parts)
}

/// Every piece of a text that splits is shorter than the text.
pub proof fn pieces_shorter(s: Seq<char>, op: Seq<char>)
    requires
        split_outside(s, op) is Some,
    ensures
        forall|k: int|
            0 <= k < split_outside(s, op)->0.len() ==> (#[trigger] split_outside(
                s,
                op,
            )->0[k]).len() < s.len(),
{
    pieces_bounded(s, op, 0, 0, false);
}

proof fn pieces_bounded(s: Seq<char>, op: Seq<char>, i: int, start: int, quoted: bool)
    requires
        op.len() > 0,
        0 <= start <= i <= s.len(),
    ensures
        forall|k: int|
            0 <= k < pieces_from(s, op, i, start, quoted).len() ==> (#[trigger] pieces_from(
                s,
                op,
                i,
                start,
                quoted,
            )[k]).len() <= s.len() - start,
        pieces_from(s, op, i, start, quoted).len() >= 2 ==> forall|k: int|
            0 <= k < pieces_from(s, op, i, start, quoted).len() ==> (#[trigger] pieces_from(
                s,
                op,
                i,
                start,
                quoted,
            )[k]).len() < s.len() - start,
        pieces_from(s, op, i, start, quoted).len() >= 1,
    decreases s.len() - i,
{
    if i >= s.len() {
        trim_idempotent(s.skip(start), CharSet::Space);
    } else if s[i] == '\'' {
        pieces_bounded(s, op, i + 1, start, !quoted);
    } else if !quoted && matches_at(s, op, i) {
        let n = i + op.len();
        trim_idempotent(s.subrange(start, i), CharSet::Space);
        pieces_bounded(s, op, n, n, quoted);
        let rest = pieces_from(s, op, n, n, quoted);
        let all = pieces_from(s, op, i, start, quoted);
        assert forall|k: int| 0 <= k < all.len() implies (#[trigger] all[k]).len() < s.len()
            - start by {
            if k > 0 {
                assert(all[k] == rest[k - 1]);
            }
        }
    } else {
        pieces_bounded(s, op, i + 1, start, quoted);
    }
}

/// A text that does not hold the operator does not split.
pub proof fn no_operator_no_split(s: Seq<char>, op: Seq<char>)
    requires
        !holds_text(s, op),
    ensures
        split_outside(s, op) is None,
{
    find_is_first(s, op, 0);
    if op.len() > 0 {
        no_operator_one_piece(s, op, 0, 0, false);
    }
}

proof fn no_operator_one_piece(s: Seq<char>, op: Seq<char>, i: int, start: int, quoted: bool)
    requires
        op.len() > 0,
        0 <= i,
        forall|j: int| 0 <= j ==> !matches_at(s, op, j),
    ensures
        pieces_from(s, op, i, start, quoted).len() == 1,
    decreases s.len() - i,
{
    if i < s.len() {
        if s[i] == '\'' {
            no_operator_one_piece(s, op, i + 1, start, !quoted);
        } else {
            assert(!matches_at(s, op, i));
            no_operator_one_piece(s, op, i + 1, start, quoted);
        }
    }
}

// ---------------------------------------------------------------- conditions

/// Whether `c` can stand in a marker after the `$`.
pub open spec fn marker_char(c: char) -> bool {
    is_alnum(c) || c == '_' || c == '.'
}

/// `s` without the marker characters at its start.
pub open spec fn after_marker(s: Seq<char>) -> Seq<char>
    decreases s.len(),
{
    if s.len() > 0 && marker_char(s[0]) {
        after_marker(s.skip(1))
    } else {
        s
    }
}

pub proof fn after_marker_len(s: Seq<char>)
    ensures
        after_marker(s).len() <= s.len(),
    decreases s.len(),
{
    if s.len() > 0 && marker_char(s[0]) {
        after_marker_len(s.skip(1));
    }
}

/// Where the characters of `chars[from..]` that can stand in a marker end.
fn marker_end(chars: &Vec<char>, from: usize) -> (r: usize)
    requires
        from <= chars@.len(),
    ensures
        from <= r <= chars@.len(),
        chars@.skip(r as int) == after_marker(chars@.skip(from as int)),
{
    let mut i: usize = from;
    while i < chars.len() && (char_is_alnum(chars[i]) || chars[i] == '_' || chars[i] == '.')
        invariant
            from <= i <= chars@.len(),
            after_marker(chars@.skip(i as int)) == after_marker(chars@.skip(from as int)),
        decreases chars@.len() - i,
    {
        assert(chars@.skip(i as int).skip(1) =~= chars@.skip(i + 1));
        i += 1;
    }
    i
}

/// `s` without its markers: each `$` and the marker characters behind it.
pub open spec fn cleared(s: Seq<char>) -> Seq<char>
    decreases s.len(),
{
    if s.len() == 0 {
        s
    } else if s[0] == '$' {
        proof {
            after_marker_len(s.skip(1));
        }
        cleared(after_marker(s.skip(1)))
    } else {
        seq![s[0]] + cleared(s.skip(1))
    }
}

fn clear_unresolved_markers(input: &str) -> (r: String)
    ensures
        r@ == cleared(input@),
{
    let chars = chars_of(input);
    let mut out = String::new();
    let mut i: usize = 0;
    assert(input@.skip(0) =~= input@);
    assert(out@ + cleared(input@) =~= cleared(input@));
    while i < chars.len()
        invariant
            i <= chars.len(),
            chars@ == input@,
            out@ + cleared(input@.skip(i as int)) == cleared(input@),
        decreases chars.len() - i,
    {
        let ghost rest = input@.skip(i as int);
        if chars[i] == '$' {
            i += 1;
            assert(rest.skip(1) =~= input@.skip(i as int));
            i = marker_end(&chars, i);
        } else {
            let ghost before = out@;
            out.push(chars[i]);
            assert(rest.skip(1) =~= input@.skip(i + 1));
            assert(out@ + cleared(input@.skip(i + 1)) =~= before + (seq![rest[0]] + cleared(
                input@.skip(i + 1),
            )));
            i += 1;
        }
    }
    assert(input@.skip(i as int) =~= Seq::<char>::empty());
    assert(out@ + Seq::<char>::empty() =~= out@);
    out
}

/// A cleared text holds no `$`.
pub proof fn cleared_has_no_marker(s: Seq<char>)
    ensures
        !cleared(s).contains('$'),
    decreases s.len(),
{
    if s.len() > 0 {
        if s[0] == '$' {
            after_marker_len(s.skip(1));
            cleared_has_no_marker(after_marker(s.skip(1)));
        } else {
            cleared_has_no_marker(s.skip(1));
            let r = cleared(s);
            if r.contains('$') {
                let k = choose|k: int| 0 <= k < r.len() && r[k] == '$';
                assert(cleared(s.skip(1))[k - 1] == '$');
            }
        }
    }
}

pub open spec fn flag_text(flag: bool) -> Seq<char> {
    if flag {
        "true"@
    } else {
        "false"@
    }
}

/// `text` with `$key.success` replaced for each of `keys` in turn.
pub open spec fn flags_each(
    text: Seq<char>,
    keys: Seq<Seq<char>>,
    success: Seq<(Seq<char>, bool)>,
) -> Seq<char>
    decreases keys.len(),
{
    if keys.len() == 0 {
        text
    } else {
        let flag = match lookup(success, keys.last()) {
            Some(flag) => flag,
            None => false,
        };
        replaced(
            flags_each(text, keys.drop_last(), success),
            "$"@ + keys.last() + ".success"@,
            flag_text(flag),
        )
    }
}

/// A condition with its values filled in: first whether stages succeeded,
/// then outputs, longer names first; what is left of markers goes.
pub open spec fn condition_text(
    cond: Seq<char>,
    outputs: Seq<(Seq<char>, Seq<char>)>,
    success: Seq<(Seq<char>, bool)>,
) -> Seq<char> {
    let flagged = flags_each(cond, longest_first(keys_of(success)), success);
    cleared(subst_each(flagged, longest_first(keys_of(outputs)), Seq::empty(), outputs))
}

fn substitute_condition_values(
    cond: &str,
    outputs: &StrMap<String>,
    success: &StrMap<bool>,
) -> (r: String)
    ensures
        r@ == condition_text(cond@, outputs.entries(), success.entries()),
{
    broadcast use group_texts;

    let mut out = cond.to_owned();
    let mut flags: Vec<String> = Vec::new();
    push_keys(&mut flags, success);
    assert(texts(flags@) =~= keys_of(success.entries()));
    let flag_keys = sort_longest_first(&flags);
    let ghost names = texts(flag_keys@);
    let mut i: usize = 0;
    assert(names.take(0) =~= Seq::<Seq<char>>::empty());
    while i < flag_keys.len()
        invariant
            i <= flag_keys.len(),
            names == texts(flag_keys@),
            out@ == flags_each(cond@, names.take(i as int), success.entries()),
        decreases flag_keys.len() - i,
    {
        let ghost next = names.take(i + 1);
        assert(next.drop_last() =~= names.take(i as int));
        assert(next.last() == flag_keys@[i as int]@);
        let marker = cat3("$", flag_keys[i].as_str(), ".success");
        proof {
            reveal_strlit("$");
        }
        let flag = match success.get(flag_keys[i].as_str()) {
            Some(flag) => *flag,
            None => false,
        };
        let value = if flag {
            "true"
        } else {
            "false"
        };
        out = replace(out.as_str(), marker.as_str(), value);
        i += 1;
    }
    assert(names.take(i as int) =~= names);
    let ghost flagged = out@;
    let mut all: Vec<String> = Vec::new();
    push_keys(&mut all, outputs);
    assert(texts(all@) =~= keys_of(outputs.entries()));
    let keys = sort_longest_first(&all);
    let ghost names = texts(keys@);
    let ghost none = Seq::<(Seq<char>, Seq<char>)>::empty();
    let mut i: usize = 0;
    assert(names.take(0) =~= Seq::<Seq<char>>::empty());
    while i < keys.len()
        invariant
            i <= keys.len(),
            names == texts(keys@),
            none == Seq::<(Seq<char>, Seq<char>)>::empty(),
            out@ == subst_each(flagged, names.take(i as int), none, outputs.entries()),
        decreases keys.len() - i,
    {
        let ghost next = names.take(i + 1);
        assert(next.drop_last() =~= names.take(i as int));
        assert(next.last() == keys@[i as int]@);
        let marker = cat2("$", keys[i].as_str());
        proof {
            reveal_strlit("$");
        }
        if let Some(value) = outputs.get(keys[i].as_str()) {
            out = replace(out.as_str(), marker.as_str(), value.as_str());
        }
        i += 1;
    }
    assert(names.take(i as int) =~= names);
    clear_unresolved_markers(out.as_str())
}

/// An operand without blanks at its ends and without the quotes round it;
/// `None` where it is a quote alone.
pub open spec fn operand(v: Seq<char>) -> Option<Seq<char>> {
    let s = trimmed(v);
    if s.len() > 0 && s[0] == s.last() && (s[0] == '\'' || s[0] == '"') {
        if s.len() < 2 {
            None
        } else {
            Some(s.subrange(1, s.len() - 1))
        }
    } else {
        Some(s)
    }
}

fn normalize_value(v: &str) -> (r: Option<String>)
    ensures
        opt_text(r) == operand(v@),
{
    let s = chars_of(trim(v));
    let n: usize = s.len();
    if n > 0 && s[0] == s[n - 1] && (s[0] == '\'' || s[0] == '"') {
        if n < 2 {
            None
        } else {
            Some(string_of(&s, 1, n - 1))
        }
    } else {
        assert(s@.subrange(0, n as int) =~= s@);
        Some(string_of(&s, 0, n))
    }
}

/// The two operands round the first `op` in `s`, where there is one; the
/// inner `None` says that an operand is a quote alone.
pub open spec fn operands(s: Seq<char>, op: Seq<char>) -> Option<
    Option<(Seq<char>, Seq<char>)>,
> {
    match split_at_first(s, op) {
        Some((left, right)) => match (operand(left), operand(right)) {
            (Some(a), Some(b)) => Some(Some((a, b))),
            _ => Some(None),
        },
        None => None,
    }
}

/// The value of a condition whose values are filled in; `None` where an operand is
/// a quote alone.
pub open spec fn text_value(expr: Seq<char>) -> Option<bool> {
    let e = trimmed(expr);
    match operands(e, " contains "@) {
        Some(Some((a, b))) => Some(holds_text(a, b)),
        Some(None) => None,
        None => match operands(e, "!="@) {
            Some(Some((a, b))) => Some(a != b),
            Some(None) => None,
            None => match operands(e, "=="@) {
                Some(Some((a, b))) => Some(a == b),
                Some(None) => None,
                None => match operand(e) {
                    Some(a) => Some(a == "true"@ || (a != "false"@ && a.len() > 0)),
                    None => None,
                },
            },
        },
    }
}

fn split_operands(expr: &str, op: &str) -> (r: Option<Option<(String, String)>>)
    ensures
        match r {
            Some(Some((a, b))) => operands(expr@, op@) == Some(Some((a@, b@))),
            Some(None) => operands(expr@, op@) == Some(None::<(Seq<char>, Seq<char>)>),
            None => operands(expr@, op@) is None,
        },
{
    match split_once(expr, op) {
        Some((left, right)) => {
            let a = normalize_value(left);
            let b = normalize_value(right);
            match (a, b) {
                (Some(a), Some(b)) => Some(Some((a, b))),
                _ => Some(None),
            }
        },
        None => None,
    }
}

fn eval_text(expr: &str) -> (r: Option<bool>)
    ensures
        r == text_value(expr@),
{
    let e = trim(expr);
    match split_operands(e, " contains ") {
        Some(Some((a, b))) => {
            return Some(contains(a.as_str(), b.as_str()));
        },
        Some(None) => {
            return None;
        },
        None => {},
    }
    match split_operands(e, "!=") {
        Some(Some((a, b))) => {
            return Some(!same(a.as_str(), b.as_str()));
        },
        Some(None) => {
            return None;
        },
        None => {},
    }
    match split_operands(e, "==") {
        Some(Some((a, b))) => {
            return Some(same(a.as_str(), b.as_str()));
        },
        Some(None) => {
            return None;
        },
        None => {},
    }
    match normalize_value(e) {
        Some(a) => {
            Some(same(a.as_str(), "true") || (!same(a.as_str(), "false") && !a.as_str().is_empty()))
        },
        None => None,
    }
}

// ---------------------------------------------------------------- one output

/// The longest of the keys that `s` starts with, with `suffix` behind it.
pub open spec fn longest_named(keys: Seq<Seq<char>>, s: Seq<char>, suffix: Seq<char>) -> Option<
    Seq<char>,
>
    decreases keys.len(),
{
    if keys.len() == 0 {
        None
    } else {
        let before = longest_named(keys.drop_last(), s, suffix);
        let key = keys.last();
        if !matches_at(s, key + suffix, 0) {
            before
        } else {
            match before {
                Some(other) if other.len() >= key.len() => before,
                _ => Some(key),
            }
        }
    }
}

/// What a marker stands for, and what follows it, where `s` is what follows its
/// `$`: whether a stage succeeded, else an output, the longer name first; a marker
/// that names nothing stands for nothing.
pub open spec fn marker_value(
    s: Seq<char>,
    outputs: Seq<(Seq<char>, Seq<char>)>,
    success: Seq<(Seq<char>, bool)>,
) -> (Seq<char>, Seq<char>) {
    match longest_named(keys_of(success), s, ".success"@) {
        Some(key) => (
            flag_text(lookup(success, key) == Some(true)),
            s.skip((key + ".success"@).len() as int),
        ),
        None => match longest_named(keys_of(outputs), s, ""@) {
            Some(key) => (
                match lookup(outputs, key) {
                    Some(value) => value,
                    None => Seq::empty(),
                },
                s.skip(key.len() as int),
            ),
            None => (Seq::empty(), after_marker(s)),
        },
    }
}

pub proof fn longest_named_matches(keys: Seq<Seq<char>>, s: Seq<char>, suffix: Seq<char>)
    ensures
        longest_named(keys, s, suffix) matches Some(key) ==> matches_at(s, key + suffix, 0)
            && keys.contains(key),
    decreases keys.len(),
{
    if keys.len() > 0 {
        longest_named_matches(keys.drop_last(), s, suffix);
        if longest_named(keys, s, suffix) is Some {
            let key = longest_named(keys, s, suffix)->0;
            if key == keys.last() {
                assert(keys[keys.len() - 1] == key);
            } else {
                let i = choose|i: int|
                    0 <= i < keys.drop_last().len() && keys.drop_last()[i] == key;
                assert(keys[i] == key);
            }
        }
    }
}

/// The text that a marker stands for, with what follows its name.
pub open spec fn marker_text(
    name: Seq<char>,
    outputs: Seq<(Seq<char>, Seq<char>)>,
    success: Seq<(Seq<char>, bool)>,
) -> Seq<char> {
    let (value, rest) = marker_value(name, outputs, success);
    value + rest
}

fn find_longest<V: View>(map: &StrMap<V>, s: &str, suffix: &str) -> (r: Option<String>)
    ensures
        opt_text(r) == longest_named(keys_of(map.entries()), s@, suffix@),
{
    let ghost keys = keys_of(map.entries());
    let mut best: Option<String> = None;
    let n: usize = map.len();
    assert(keys.take(0) =~= Seq::<Seq<char>>::empty());
    let mut i: usize = 0;
    while i < n
        invariant
            i <= n,
            n == keys.len(),
            keys == keys_of(map.entries()),
            opt_text(best) == longest_named(keys.take(i as int), s@, suffix@),
        decreases n - i,
    {
        assert(keys.take(i + 1).drop_last() =~= keys.take(i as int));
        let key = map.key_at(i);
        let marker = cat2(key, suffix);
        if starts_with(s, marker.as_str()) {
            let longer = match &best {
                Some(other) => other.as_str().unicode_len() < key.unicode_len(),
                None => true,
            };
            if longer {
                best = Some(key.to_owned());
            }
        }
        i += 1;
    }
    assert(keys.take(i as int) =~= keys);
    best
}

/// Fills in one marker, whose name is what follows its `$`.
fn fill_marker(name: &str, outputs: &StrMap<String>, success: &StrMap<bool>) -> (r: String)
    ensures
        r@ == marker_text(name@, outputs.entries(), success.entries()),
{
    let n: usize = name.unicode_len();
    proof {
        longest_named_matches(keys_of(success.entries()), name@, ".success"@);
        longest_named_matches(keys_of(outputs.entries()), name@, ""@);
        reveal_strlit("");
    }
    if let Some(key) = find_longest(success, name, ".success") {
        let flag = match success.get(key.as_str()) {
            Some(flag) => *flag,
            None => false,
        };
        let value = if flag {
            "true"
        } else {
            "false"
        };
        let width: usize = key.as_str().unicode_len() + ".success".unicode_len();
        assert((key@ + ".success"@).len() == width);
        let rest = name.substring_char(width, n);
        assert(rest@ =~= name@.skip(width as int));
        return cat2(value, rest);
    }
    if let Some(key) = find_longest(outputs, name, "") {
        assert(key@ + ""@ =~= key@);
        let width: usize = key.as_str().unicode_len();
        let rest = name.substring_char(width, n);
        assert(rest@ =~= name@.skip(width as int));
        return match outputs.get(key.as_str()) {
            Some(value) => cat2(value.as_str(), rest),
            None => cat2("", rest),
        };
    }
    let chars = chars_of(name);
    assert(chars@.skip(0) =~= name@);
    let end: usize = marker_end(&chars, 0);
    let rest = name.substring_char(end, n);
    assert(rest@ =~= name@.skip(end as int));
    assert(Seq::<char>::empty() + rest@ =~= rest@);
    rest.to_owned()
}

/// How an output is compared.
#[derive(Clone, Copy, Debug, PartialEq, Eq, Structural)]
pub enum Comparison {
    Contains,
    Differs,
    Equals,
}

/// Whether a comparison holds of two values.
pub open spec fn compared(comparison: Comparison, a: Seq<char>, b: Seq<char>) -> bool {
    match comparison {
        Comparison::Contains => holds_text(a, b),
        Comparison::Differs => a != b,
        Comparison::Equals => a == b,
    }
}

/// Whether a character can stand in the name of a marker that is compared.
pub open spec fn name_char(c: char) -> bool {
    !is_space(c) && c != '\'' && c != '"' && c != '$' && c != '=' && c != '!'
}

/// Where the name that starts at `i` ends.
pub open spec fn name_end(s: Seq<char>, i: int) -> int
    decreases s.len() - i,
{
    if 0 <= i < s.len() && name_char(s[i]) {
        name_end(s, i + 1)
    } else {
        i
    }
}

/// The comparison that a text starts with, and what follows it.
pub open spec fn leading_comparison(s: Seq<char>) -> Option<(Comparison, Seq<char>)> {
    match after_prefix(s, " contains "@) {
        Some(rest) => Some((Comparison::Contains, rest)),
        None => match after_prefix(trim_start_by(s, CharSet::Space), "!="@) {
            Some(rest) => Some((Comparison::Differs, rest)),
            None => match after_prefix(trim_start_by(s, CharSet::Space), "=="@) {
                Some(rest) => Some((Comparison::Equals, rest)),
                None => None,
            },
        },
    }
}

/// The text that an output is compared with: what stands between apostrophes, where
/// it holds neither an apostrophe nor a marker, or the word `true` or `false`.
pub open spec fn literal_text(s: Seq<char>) -> Option<Seq<char>> {
    let t = trimmed(s);
    if t == "true"@ || t == "false"@ {
        Some(t)
    } else if t.len() >= 2 && t[0] == '\'' && t.last() == '\'' {
        let inner = t.subrange(1, t.len() - 1);
        if inner.contains('\'') || inner.contains('$') {
            None
        } else {
            Some(inner)
        }
    } else {
        None
    }
}

/// The name, the comparison and the text of a condition that compares one output
/// with one text, such as `$check contains 'FAIL'`.
pub open spec fn output_comparison(cond: Seq<char>) -> Option<
    (Seq<char>, Comparison, Seq<char>),
> {
    let n = name_end(cond, 1);
    if cond.len() > 0 && cond[0] == '$' && 1 < n <= cond.len() {
        match leading_comparison(cond.skip(n)) {
            Some((comparison, rest)) => match literal_text(rest) {
                Some(literal) => Some((cond.subrange(1, n), comparison, literal)),
                None => None,
            },
            None => None,
        }
    } else {
        None
    }
}

fn find_name_end(chars: &Vec<char>) -> (r: usize)
    requires
        chars@.len() > 0,
    ensures
        r == name_end(chars@, 1),
        1 <= r <= chars@.len(),
{
    let mut i: usize = 1;
    while i < chars.len() && !char_is_space(chars[i]) && chars[i] != '\'' && chars[i] != '"'
        && chars[i] != '$' && chars[i] != '=' && chars[i] != '!'
        invariant
            1 <= i <= chars@.len(),
            name_end(chars@, 1) == name_end(chars@, i as int),
        decreases chars@.len() - i,
    {
        i += 1;
    }
    i
}

fn read_comparison<'a>(s: &'a str) -> (r: Option<(Comparison, &'a str)>)
    ensures
        match r {
            Some((comparison, rest)) => leading_comparison(s@) == Some((comparison, rest@)),
            None => leading_comparison(s@) is None,
        },
{
    if let Some(rest) = strip_prefix(s, " contains ") {
        return Some((Comparison::Contains, rest));
    }
    let t = trim_text_start_by(s, CharSet::Space);
    if let Some(rest) = strip_prefix(t, "!=") {
        return Some((Comparison::Differs, rest));
    }
    match strip_prefix(t, "==") {
        Some(rest) => Some((Comparison::Equals, rest)),
        None => None,
    }
}

fn read_literal(s: &str) -> (r: Option<String>)
    ensures
        opt_text(r) == literal_text(s@),
{
    let t = trim(s);
    if same(t, "true") || same(t, "false") {
        return Some(t.to_owned());
    }
    let chars = chars_of(t);
    let n: usize = chars.len();
    if n < 2 || chars[0] != '\'' || chars[n - 1] != '\'' {
        return None;
    }
    let ghost inner = t@.subrange(1, n - 1);
    let mut i: usize = 1;
    while i < n - 1
        invariant
            1 <= i <= n - 1,
            n == chars@.len(),
            chars@ == t@,
            inner == t@.subrange(1, n - 1),
            inner.contains('\'') || inner.contains('$') ==> literal_text(s@) is None,
            forall|j: int| 1 <= j < i ==> t@[j] != '\'' && t@[j] != '$',
        decreases n - i,
    {
        if chars[i] == '\'' || chars[i] == '$' {
            assert(inner[i - 1] == t@[i as int]);
            assert(inner.contains(inner[i - 1]));
            return None;
        }
        i += 1;
    }
    proof {
        assert forall|k: int| 0 <= k < inner.len() implies inner[k] != '\'' && inner[k] != '$' by {
            assert(inner[k] == t@[k + 1]);
        }
    }
    Some(string_of(&chars, 1, n - 1))
}

fn read_output_comparison(cond: &str) -> (r: Option<(String, Comparison, String)>)
    ensures
        match r {
            Some((name, comparison, literal)) => output_comparison(cond@) == Some(
                (name@, comparison, literal@),
            ),
            None => output_comparison(cond@) is None,
        },
{
    let chars = chars_of(cond);
    if chars.len() == 0 || chars[0] != '$' {
        return None;
    }
    let n: usize = find_name_end(&chars);
    if n == 1 {
        return None;
    }
    let rest = cond.substring_char(n, chars.len());
    assert(rest@ =~= cond@.skip(n as int));
    match read_comparison(rest) {
        Some((comparison, behind)) => match read_literal(behind) {
            Some(literal) => Some((string_of(&chars, 1, n), comparison, literal)),
            None => None,
        },
        None => None,
    }
}

// ---------------------------------------------------------------- atoms

/// The value of a condition without connectives; `None` where an operand is
/// a quote alone. One output that is compared with one text is compared as it is,
/// whatever it holds. In any other condition the values are filled in first, and
/// the text that this gives is taken apart.
pub open spec fn atom_value(
    cond: Seq<char>,
    outputs: Seq<(Seq<char>, Seq<char>)>,
    success: Seq<(Seq<char>, bool)>,
) -> Option<bool> {
    match output_comparison(cond) {
        Some((name, comparison, literal)) => Some(
            compared(comparison, trimmed(marker_text(name, outputs, success)), literal),
        ),
        None => text_value(condition_text(cond, outputs, success)),
    }
}

fn eval_atomic(cond: &str, outputs: &StrMap<String>, success: &StrMap<bool>) -> (r: Option<bool>)
    ensures
        r == atom_value(cond@, outputs.entries(), success.entries()),
{
    match read_output_comparison(cond) {
        Some((name, comparison, literal)) => {
            let text = fill_marker(name.as_str(), outputs, success);
            let value = trim(text.as_str());
            Some(
                match comparison {
                    Comparison::Contains => contains(value, literal.as_str()),
                    Comparison::Differs => !same(value, literal.as_str()),
                    Comparison::Equals => same(value, literal.as_str()),
                },
            )
        },
        None => {
            let text = substitute_condition_values(cond, outputs, success);
            eval_text(text.as_str())
        },
    }
}

// ---------------------------------------------------------------- connectives

/// The value of a condition, or `None` where its evaluation reaches an operand
/// that is a quote alone, which has no value.
///
/// A blank condition holds. `||` outside quotes binds loosest and `&&` next;
/// both stop at the first piece that decides.
pub open spec fn condition_value(
    cond: Seq<char>,
    outputs: Seq<(Seq<char>, Seq<char>)>,
    success: Seq<(Seq<char>, bool)>,
) -> Option<bool>
    decreases cond.len(), 1nat, 0nat,
{
    let raw = trimmed(cond);
    if raw.len() == 0 {
        Some(true)
    } else {
        match split_outside(raw, "||"@) {
            Some(parts) => any_holds(parts, 0, cond.len(), outputs, success),
            None => match split_outside(raw, "&&"@) {
                Some(parts) => all_hold(parts, 0, cond.len(), outputs, success),
                None => atom_value(raw, outputs, success),
            },
        }
    }
}

/// Whether one of `parts[i..]` holds. The parts are shorter than `limit`.
pub open spec fn any_holds(
    parts: Seq<Seq<char>>,
    i: int,
    limit: nat,
    outputs: Seq<(Seq<char>, Seq<char>)>,
    success: Seq<(Seq<char>, bool)>,
) -> Option<bool>
    decreases limit, 0nat, parts.len() - i,
{
    if i < 0 || i >= parts.len() {
        Some(false)
    } else if parts[i].len() < limit {
        match condition_value(parts[i], outputs, success) {
            Some(false) => any_holds(parts, i + 1, limit, outputs, success),
            decided => decided,
        }
    } else {
        None
    }
}

/// Whether all of `parts[i..]` hold. The parts are shorter than `limit`.
pub open spec fn all_hold(
    parts: Seq<Seq<char>>,
    i: int,
    limit: nat,
    outputs: Seq<(Seq<char>, Seq<char>)>,
    success: Seq<(Seq<char>, bool)>,
) -> Option<bool>
    decreases limit, 0nat, parts.len() - i,
{
    if i < 0 || i >= parts.len() {
        Some(true)
    } else if parts[i].len() < limit {
        match condition_value(parts[i], outputs, success) {
            Some(true) => all_hold(parts, i + 1, limit, outputs, success),
            decided => decided,
        }
    } else {
        None
    }
}

/// The value of an optional condition; no condition holds.
pub open spec fn when_value(
    cond: Option<Seq<char>>,
    outputs: Seq<(Seq<char>, Seq<char>)>,
    success: Seq<(Seq<char>, bool)>,
) -> Option<bool> {
    match cond {
        Some(cond) => condition_value(cond, outputs, success),
        None => Some(true),
    }
}

fn eval_condition(cond: &str, outputs: &StrMap<String>, success: &StrMap<bool>) -> (r: Option<bool>)
    ensures
        r == condition_value(cond@, outputs.entries(), success.entries()),
    decreases cond@.len(),
{
    let raw = trim(cond);
    if raw.is_empty() {
        return Some(true);
    }
    proof {
        trim_idempotent(cond@, CharSet::Space);
    }
    if let Some(parts) = split_outside_quotes(raw, "||") {
        proof {
            pieces_shorter(raw@, "||"@);
        }
        let mut i: usize = 0;
        while i < parts.len()
            invariant
                i <= parts.len(),
                split_outside(raw@, "||"@) == Some(texts(parts@)),
                raw@.len() <= cond@.len(),
                forall|k: int| 0 <= k < texts(parts@).len() ==> (#[trigger] texts(parts@)[k]).len()
                    < raw@.len(),
                condition_value(cond@, outputs.entries(), success.entries()) == any_holds(
                    texts(parts@),
                    i as int,
                    cond@.len(),
                    outputs.entries(),
                    success.entries(),
                ),
            decreases parts.len() - i,
        {
            assert(texts(parts@)[i as int].len() < raw@.len());
            match eval_condition(parts[i].as_str(), outputs, success) {
                Some(false) => {},
                decided => {
                    return decided;
                },
            }
            i += 1;
        }
        return Some(false);
    }
    if let Some(parts) = split_outside_quotes(raw, "&&") {
        proof {
            pieces_shorter(raw@, "&&"@);
        }
        let mut i: usize = 0;
        while i < parts.len()
            invariant
                i <= parts.len(),
                split_outside(raw@, "&&"@) == Some(texts(parts@)),
                raw@.len() <= cond@.len(),
                forall|k: int| 0 <= k < texts(parts@).len() ==> (#[trigger] texts(parts@)[k]).len()
                    < raw@.len(),
                condition_value(cond@, outputs.entries(), success.entries()) == all_hold(
                    texts(parts@),
                    i as int,
                    cond@.len(),
                    outputs.entries(),
                    success.entries(),
                ),
            decreases parts.len() - i,
        {
            assert(texts(parts@)[i as int].len() < raw@.len());
            match eval_condition(parts[i].as_str(), outputs, success) {
                Some(true) => {},
                decided => {
                    return decided;
                },
            }
            i += 1;
        }
        return Some(true);
    }
    eval_atomic(raw, outputs, success)
}

/// Evaluates a condition; `None` where its evaluation reaches an operand that
/// is a quote alone.
pub fn try_eval_when(
    cond: Option<&str>,
    outputs: &StrMap<String>,
    success: &StrMap<bool>,
) -> (r: Option<bool>)
    ensures
        r == when_value(opt_str(cond), outputs.entries(), success.entries()),
{
    match cond {
        Some(cond) => eval_condition(cond, outputs, success),
        None => Some(true),
    }
}

/// Evaluates a condition whose evaluation meets no operand that is a quote
/// alone.
pub fn eval_when(cond: Option<&str>, outputs: &StrMap<String>, success: &StrMap<bool>) -> (r: bool)
    requires
        when_value(opt_str(cond), outputs.entries(), success.entries()) is Some,
    ensures
        Some(r) == when_value(opt_str(cond), outputs.entries(), success.entries()),
{
    match try_eval_when(cond, outputs, success) {
        Some(value) => value,
        None => false,
    }
}

/// Every variable and every output is filled in, the longest name first.
pub proof fn all_names_are_filled_in(
    vars: Seq<(Seq<char>, Seq<char>)>,
    outputs: Seq<(Seq<char>, Seq<char>)>,
    name: Seq<char>,
)
    ensures
        subst_keys(vars, outputs).contains(name) <==> keys_of(vars).contains(name) || keys_of(
            outputs,
        ).contains(name),
{
    broadcast use vstd::seq_lib::group_to_multiset_ensures;

    let names = keys_of(vars) + keys_of(outputs);
    longest_first_spec(names);
    let sorted = longest_first(names);
    once_is_enough(sorted, name);
    assert(sorted.contains(name) <==> sorted.to_multiset().count(name) > 0);
    assert(names.contains(name) <==> names.to_multiset().count(name) > 0);
    if names.contains(name) {
        let i = choose|i: int| 0 <= i < names.len() && names[i] == name;
        if i < keys_of(vars).len() {
            assert(keys_of(vars)[i] == name);
        } else {
            assert(keys_of(outputs)[i - keys_of(vars).len()] == name);
        }
    }
    if keys_of(vars).contains(name) {
        let i = choose|i: int| 0 <= i < keys_of(vars).len() && keys_of(vars)[i] == name;
        assert(names[i] == name);
    }
    if keys_of(outputs).contains(name) {
        let i = choose|i: int| 0 <= i < keys_of(outputs).len() && keys_of(outputs)[i] == name;
        assert(names[keys_of(vars).len() + i] == name);
    }
}

proof fn once_is_enough(keys: Seq<Seq<char>>, key: Seq<char>)
    ensures
        dedup(keys).contains(key) <==> keys.contains(key),
    decreases keys.len(),
{
    if keys.len() >= 2 {
        let rest = keys.drop_last();
        let last = keys.last();
        once_is_enough(rest, key);
        let kept = dedup(rest);
        assert(rest[keys.len() - 2] == keys[keys.len() - 2]);
        if keys.contains(key) {
            let i = choose|i: int| 0 <= i < keys.len() && keys[i] == key;
            if i < rest.len() {
                assert(rest[i] == key);
            }
        }
        if rest.contains(key) {
            let i = choose|i: int| 0 <= i < rest.len() && rest[i] == key;
            assert(keys[i] == key);
        }
        if kept.push(last).contains(key) {
            let i = choose|i: int| 0 <= i < kept.len() + 1 && kept.push(last)[i] == key;
            if i < kept.len() {
                assert(kept[i] == key);
            }
        }
        if kept.contains(key) {
            let i = choose|i: int| 0 <= i < kept.len() && kept[i] == key;
            assert(kept.push(last)[i] == key);
        }
        assert(kept.push(last)[kept.len() as int] == last);
        assert(keys[keys.len() - 1] == last);
    }
}

/// Whether a stage succeeded is told in a word.
pub proof fn success_is_a_word()
    ensures
        flag_text(true) == "true"@,
        flag_text(false) == "false"@,
{
}

/// Whether a character can stand in a marker: a letter, a digit, an underscore or a dot.
pub open spec fn in_marker(c: char) -> bool {
    ||| 'A' <= c && c <= 'Z'
    ||| 'a' <= c && c <= 'z'
    ||| '0' <= c && c <= '9'
    ||| c == '_' || c == '.'
}

proof fn marker_goes(name: Seq<char>, b: Seq<char>)
    requires
        forall|i: int| 0 <= i < name.len() ==> in_marker(#[trigger] name[i]),
        b.len() > 0 ==> !in_marker(b[0]),
    ensures
        after_marker(name + b) == b,
    decreases name.len(),
{
    let s = name + b;
    if name.len() > 0 {
        assert(s[0] == name[0]);
        assert(s.skip(1) =~= name.skip(1) + b);
        assert forall|i: int| 0 <= i < name.skip(1).len() implies in_marker(
            #[trigger] name.skip(1)[i],
        ) by {
            assert(name.skip(1)[i] == name[i + 1]);
        }
        marker_goes(name.skip(1), b);
    } else {
        assert(s =~= b);
    }
}

proof fn start_stays(a: Seq<char>, s: Seq<char>)
    requires
        forall|i: int| 0 <= i < a.len() ==> #[trigger] a[i] != '$',
    ensures
        cleared(a + s) == a + cleared(s),
    decreases a.len(),
{
    let all = a + s;
    if a.len() > 0 {
        assert(all[0] == a[0]);
        assert(all.skip(1) =~= a.skip(1) + s);
        assert forall|i: int| 0 <= i < a.skip(1).len() implies #[trigger] a.skip(1)[i] != '$' by {
            assert(a.skip(1)[i] == a[i + 1]);
        }
        start_stays(a.skip(1), s);
        assert(seq![a[0]] + (a.skip(1) + cleared(s)) =~= a + cleared(s));
    } else {
        assert(all =~= s);
        assert(a + cleared(s) =~= cleared(s));
    }
}

/// A marker that nothing stands for goes, whole and alone.
pub proof fn unknown_markers_go(a: Seq<char>, name: Seq<char>, b: Seq<char>)
    requires
        forall|i: int| 0 <= i < a.len() ==> #[trigger] a[i] != '$',
        forall|i: int| 0 <= i < name.len() ==> in_marker(#[trigger] name[i]),
        b.len() > 0 ==> !in_marker(b[0]),
    ensures
        cleared(a + seq!['$'] + name + b) == a + cleared(b),
{
    let rest = seq!['$'] + name + b;
    assert(a + seq!['$'] + name + b =~= a + rest);
    start_stays(a, rest);
    assert(rest[0] == '$');
    assert(rest.skip(1) =~= name + b);
    marker_goes(name, b);
}

} // verus!
