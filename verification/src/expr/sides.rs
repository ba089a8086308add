//! What holds of variables in texts, and of conditions that compare two sides.
use crate::expr::outputs::{plain_char, plain_name, written};
use crate::expr::{
    after_marker, after_marker_len, by_length, cleared, compared, condition_text, condition_value,
    dedup, flags_each, leading_comparison, literal_text, longest_first, longest_first_spec,
    name_char, name_end, no_operator_no_split, operand, operands, output_comparison, split_outside,
    subst_each, substituted, text_value, value_of, Comparison,
};
use crate::strmap::{keys_of, lookup, lookup_found};
use crate::text::laws::{held_text_stands_somewhere, tight_text_stays};
use crate::text::{
    byte_len, find_from, find_is_first, holds_text, is_space, matches_at, replaced, replaced_absent,
    trim_start_by, trimmed, CharSet,
};
use vstd::prelude::*;
use vstd::utf8::{encode_scalar, encode_utf8};

verus! {

type Texts = Seq<(Seq<char>, Seq<char>)>;

type Flags = Seq<(Seq<char>, bool)>;

// ---------------------------------------------------------------- one marker

proof fn no_match_before(s: Seq<char>, p: Seq<char>, i: int)
    requires
        p.len() > 0,
        0 <= i < s.len(),
        s[i] != p[0],
    ensures
        !matches_at(s, p, i),
{
    if matches_at(s, p, i) {
        assert(s.subrange(i, i + p.len())[0] == p[0]);
    }
}

proof fn nothing_to_replace(s: Seq<char>, p: Seq<char>, with: Seq<char>)
    requires
        p.len() > 0,
        !s.contains(p[0]),
    ensures
        replaced(s, p, with) == s,
{
    assert forall|i: int| !matches_at(s, p, i) by {
        if matches_at(s, p, i) {
            assert(s.subrange(i, i + p.len())[0] == p[0]);
            assert(s[i] == p[0]);
        }
    }
    replaced_absent(s, p, with);
}

/// What stands before the only place where a pattern can start stays.
proof fn replaced_behind(pre: Seq<char>, s: Seq<char>, p: Seq<char>, with: Seq<char>)
    requires
        p.len() > 0,
        !pre.contains(p[0]),
    ensures
        replaced(pre + s, p, with) == pre + replaced(s, p, with),
    decreases pre.len(),
{
    if pre.len() == 0 {
        assert(pre + s =~= s);
        assert(pre + replaced(s, p, with) =~= replaced(s, p, with));
    } else {
        let t = pre + s;
        assert(t[0] == pre[0]);
        assert(pre.contains(pre[0]));
        no_match_before(t, p, 0);
        assert(t.skip(1) =~= pre.skip(1) + s);
        assert(!pre.skip(1).contains(p[0])) by {
            if pre.skip(1).contains(p[0]) {
                let k = choose|k: int| 0 <= k < pre.skip(1).len() && pre.skip(1)[k] == p[0];
                assert(pre[k + 1] == p[0]);
            }
        }
        replaced_behind(pre.skip(1), s, p, with);
        assert(seq![t[0]] + (pre.skip(1) + replaced(s, p, with)) =~= pre + replaced(s, p, with));
    }
}

/// A marker is replaced by a name only where the name is what it starts with.
proof fn marker_or_not(x: Seq<char>, post: Seq<char>, key: Seq<char>, with: Seq<char>)
    requires
        !x.contains('$'),
        !post.contains('$'),
    ensures
        !matches_at(x + post, key, 0) ==> replaced(seq!['$'] + x + post, "$"@ + key, with)
            == seq!['$'] + x + post,
        key == x ==> replaced(seq!['$'] + x + post, "$"@ + key, with) == with + post,
{
    reveal_strlit("$");
    let p = "$"@ + key;
    let s = seq!['$'] + x + post;
    let rest = x + post;
    assert(p[0] == '$');
    assert(s.skip(1) =~= rest);
    assert(!rest.contains('$')) by {
        if rest.contains('$') {
            let k = choose|k: int| 0 <= k < rest.len() && rest[k] == '$';
            if k < x.len() {
                assert(x[k] == '$');
            } else {
                assert(post[k - x.len()] == '$');
            }
        }
    }
    if !matches_at(rest, key, 0) {
        assert(!matches_at(s, p, 0)) by {
            if matches_at(s, p, 0) {
                assert(rest.subrange(0, key.len() as int) =~= s.subrange(0, p.len() as int).skip(1));
                assert(p.skip(1) =~= key);
            }
        }
        nothing_to_replace(rest, p, with);
        assert(seq![s[0]] + rest =~= s);
    }
    if key == x {
        assert(s.subrange(0, p.len() as int) =~= p);
        assert(s.skip(p.len() as int) =~= post);
        nothing_to_replace(post, p, with);
    }
}

/// A text is longer in bytes than every text that it goes on from.
proof fn prefix_is_shorter(a: Seq<char>, b: Seq<char>)
    requires
        a.len() < b.len(),
        b.take(a.len() as int) == a,
    ensures
        byte_len(a) < byte_len(b),
    decreases a.len(),
{
    if a.len() == 0 {
        assert(encode_utf8(a).len() == 0);
        assert(encode_scalar(b[0] as u32).len() > 0);
    } else {
        assert(a[0] == b.take(a.len() as int)[0]);
        assert(b.drop_first().take(a.len() - 1) =~= b.take(a.len() as int).drop_first());
        prefix_is_shorter(a.drop_first(), b.drop_first());
    }
}

/// The marker of a name that no earlier name takes stands for its value once all
/// names have been replaced in turn.
proof fn marker_in_turn(
    pre: Seq<char>,
    x: Seq<char>,
    post: Seq<char>,
    keys: Seq<Seq<char>>,
    vars: Texts,
    outputs: Texts,
)
    requires
        !pre.contains('$'),
        !x.contains('$'),
        !post.contains('$'),
        by_length(keys),
        value_of(vars, outputs, x) matches Some(value) && !value.contains('$'),
        forall|k: int|
            0 <= k < keys.len() && matches_at(x + post, #[trigger] keys[k], 0) ==> keys[k].len()
                <= x.len(),
    ensures
        subst_each(pre + seq!['$'] + x + post, keys, vars, outputs) == if keys.contains(x) {
            pre + value_of(vars, outputs, x)->0 + post
        } else {
            subst_each(pre + seq!['$'] + x + post, keys, vars, outputs)
        },
        !keys.contains(x) && (forall|k: int|
            0 <= k < keys.len() ==> byte_len(#[trigger] keys[k]) >= byte_len(x)) ==> subst_each(
            pre + seq!['$'] + x + post,
            keys,
            vars,
            outputs,
        ) == pre + seq!['$'] + x + post,
    decreases keys.len(),
{
    reveal_strlit("$");
    let s = pre + seq!['$'] + x + post;
    let value = value_of(vars, outputs, x)->0;
    let done = pre + value + post;
    if keys.len() > 0 {
        let before = keys.drop_last();
        let key = keys.last();
        assert(keys[keys.len() - 1] == key);
        assert forall|k: int|
            0 <= k < before.len() && matches_at(x + post, #[trigger] before[k], 0) implies before[k].len()
            <= x.len() by {
            assert(before[k] == keys[k]);
        }
        assert(by_length(before)) by {
            assert forall|i: int, j: int| 0 <= i < j < before.len() implies byte_len(
                #[trigger] before[i],
            ) >= byte_len(#[trigger] before[j]) by {
                assert(before[i] == keys[i] && before[j] == keys[j]);
            }
        }
        marker_in_turn(pre, x, post, before, vars, outputs);
        assert(!done.contains('$')) by {
            if done.contains('$') {
                let k = choose|k: int| 0 <= k < done.len() && done[k] == '$';
                if k < pre.len() {
                    assert(pre[k] == '$');
                } else if k < pre.len() + value.len() {
                    assert(value[k - pre.len()] == '$');
                } else {
                    assert(post[k - pre.len() - value.len()] == '$');
                }
            }
        }
        let p = "$"@ + key;
        assert(p[0] == '$');
        if before.contains(x) {
            let k = choose|k: int| 0 <= k < before.len() && before[k] == x;
            assert(keys[k] == x);
            if let Some(with) = value_of(vars, outputs, key) {
                nothing_to_replace(done, p, with);
            }
        } else if key == x {
            assert forall|k: int| 0 <= k < before.len() implies byte_len(#[trigger] before[k])
                >= byte_len(x) by {
                assert(before[k] == keys[k]);
            }
            let tail = seq!['$'] + x + post;
            assert(s =~= pre + tail);
            replaced_behind(pre, tail, p, value);
            marker_or_not(x, post, key, value);
            assert(pre + (value + post) =~= done);
        } else {
            assert(!keys.contains(x)) by {
                if keys.contains(x) {
                    let k = choose|k: int| 0 <= k < keys.len() && keys[k] == x;
                    assert(before[k] == x);
                }
            }
            if forall|k: int| 0 <= k < keys.len() ==> byte_len(#[trigger] keys[k]) >= byte_len(x) {
                assert forall|k: int| 0 <= k < before.len() implies byte_len(#[trigger] before[k])
                    >= byte_len(x) by {
                    assert(before[k] == keys[k]);
                }
                if matches_at(x + post, key, 0) {
                    assert((x + post).subrange(0, key.len() as int) =~= x.take(key.len() as int));
                    if key.len() < x.len() {
                        prefix_is_shorter(key, x);
                    } else {
                        assert(key =~= x);
                    }
                }
                let tail = seq!['$'] + x + post;
                assert(s =~= pre + tail);
                if let Some(with) = value_of(vars, outputs, key) {
                    replaced_behind(pre, tail, p, with);
                    marker_or_not(x, post, key, with);
                }
            }
        }
    }
}

proof fn dedup_keeps(keys: Seq<Seq<char>>)
    requires
        by_length(keys),
    ensures
        by_length(dedup(keys)),
        keys.len() > 0 ==> dedup(keys).len() > 0 && dedup(keys).last() == keys.last(),
        forall|k: Seq<char>| dedup(keys).contains(k) <==> keys.contains(k),
    decreases keys.len(),
{
    if keys.len() >= 2 {
        let before = keys.drop_last();
        assert(by_length(before)) by {
            assert forall|i: int, j: int| 0 <= i < j < before.len() implies byte_len(
                #[trigger] before[i],
            ) >= byte_len(#[trigger] before[j]) by {
                assert(before[i] == keys[i] && before[j] == keys[j]);
            }
        }
        dedup_keeps(before);
        assert(before.last() == keys[keys.len() - 2]);
        assert forall|k: Seq<char>| keys.contains(k) <==> before.contains(k) || k == keys.last() by {
            if keys.contains(k) {
                let i = choose|i: int| 0 <= i < keys.len() && keys[i] == k;
                if i < before.len() {
                    assert(before[i] == k);
                }
            }
            if before.contains(k) {
                let i = choose|i: int| 0 <= i < before.len() && before[i] == k;
                assert(keys[i] == k);
            }
            assert(keys[keys.len() - 1] == keys.last());
        }
        if keys[keys.len() - 2] == keys.last() {
            assert(before.contains(before[before.len() - 1]));
        } else {
            let d = dedup(before);
            let all = dedup(keys);
            assert(all == d.push(keys.last()));
            assert forall|k: Seq<char>| all.contains(k) <==> d.contains(k) || k == keys.last() by {
                if all.contains(k) {
                    let i = choose|i: int| 0 <= i < all.len() && all[i] == k;
                    if i < d.len() {
                        assert(d[i] == k);
                    }
                }
                if d.contains(k) {
                    let i = choose|i: int| 0 <= i < d.len() && d[i] == k;
                    assert(all[i] == k);
                }
                assert(all[d.len() as int] == keys.last());
            }
            assert forall|i: int, j: int| 0 <= i < j < all.len() implies byte_len(
                #[trigger] all[i],
            ) >= byte_len(#[trigger] all[j]) by {
                if j < d.len() {
                    assert(all[i] == d[i] && all[j] == d[j]);
                } else {
                    assert(all[i] == d[i]);
                    assert(before.contains(d[i])) by {
                        assert(d.contains(d[i]));
                    }
                    let k = choose|k: int| 0 <= k < before.len() && before[k] == d[i];
                    assert(keys[k] == d[i]);
                    assert(keys[keys.len() - 1] == all[j]);
                }
            }
        }
    }
}

proof fn rearranged_holds_same(a: Seq<Seq<char>>, b: Seq<Seq<char>>, k: Seq<char>)
    requires
        a.to_multiset() =~= b.to_multiset(),
    ensures
        a.contains(k) == b.contains(k),
{
    broadcast use vstd::seq_lib::group_to_multiset_ensures;

    assert(a.contains(k) <==> a.to_multiset().count(k) > 0);
    assert(b.contains(k) <==> b.to_multiset().count(k) > 0);
}

/// A marker stands for the value of the longest name that it starts with: what stands
/// round it stays. The value goes in as it is.
pub proof fn variables_are_substituted(
    pre: Seq<char>,
    name: Seq<char>,
    post: Seq<char>,
    vars: Seq<(Seq<char>, Seq<char>)>,
    outputs: Seq<(Seq<char>, Seq<char>)>,
    value: Seq<char>,
)
    requires
        !pre.contains('$') && !name.contains('$') && !post.contains('$') && !value.contains('$'),
        lookup(outputs, name) == Some(value) || lookup(outputs, name) is None && lookup(vars, name)
            == Some(value),
        forall|k: Seq<char>|
            (#[trigger] lookup(vars, k) is Some || lookup(outputs, k) is Some) && matches_at(
                name + post,
                k,
                0,
            ) ==> k.len() <= name.len(),
    ensures
        substituted(pre + seq!['$'] + name + post, vars, outputs) == pre + value + post,
{
    let all = keys_of(vars) + keys_of(outputs);
    let sorted = longest_first(all);
    let keys = dedup(sorted);
    longest_first_spec(all);
    dedup_keeps(sorted);
    assert forall|k: Seq<char>| keys.contains(k) <==> all.contains(k) by {
        rearranged_holds_same(sorted, all, k);
    }
    assert forall|k: Seq<char>| all.contains(k) <==> lookup(vars, k) is Some || lookup(
        outputs,
        k,
    ) is Some by {
        lookup_found(vars, k);
        lookup_found(outputs, k);
        if all.contains(k) {
            let i = choose|i: int| 0 <= i < all.len() && all[i] == k;
            if i < vars.len() {
                assert(keys_of(vars)[i] == k);
            } else {
                assert(keys_of(outputs)[i - vars.len()] == k);
            }
        }
        if keys_of(vars).contains(k) {
            let i = choose|i: int| 0 <= i < keys_of(vars).len() && keys_of(vars)[i] == k;
            assert(all[i] == k);
        }
        if keys_of(outputs).contains(k) {
            let i = choose|i: int| 0 <= i < keys_of(outputs).len() && keys_of(outputs)[i] == k;
            assert(all[vars.len() + i] == k);
        }
    }
    assert forall|k: int|
        0 <= k < keys.len() && matches_at(name + post, #[trigger] keys[k], 0) implies keys[k].len()
        <= name.len() by {
        assert(keys.contains(keys[k]));
        assert(lookup(vars, keys[k]) is Some || lookup(outputs, keys[k]) is Some);
    }
    marker_in_turn(pre, name, post, keys, vars, outputs);
}

// ---------------------------------------------------------------- two sides

/// Whether a name can stand in a condition: it holds no blank.
pub open spec fn without_blanks(names: Seq<Seq<char>>) -> bool {
    forall|k: int| 0 <= k < names.len() ==> !(#[trigger] names[k]).contains(' ')
}

/// Whether a text can stand between two sides: it starts with a blank and holds no
/// marker.
pub open spec fn parts_sides(mid: Seq<char>) -> bool {
    mid.len() > 0 && mid[0] == ' ' && !mid.contains('$')
}

/// A pattern without blanks is replaced on each side alone.
proof fn replaced_on_sides(
    a: Seq<char>,
    mid: Seq<char>,
    b: Seq<char>,
    p: Seq<char>,
    with: Seq<char>,
)
    requires
        p.len() > 0,
        p[0] == '$',
        !p.contains(' '),
        parts_sides(mid),
    ensures
        replaced(a + mid + b, p, with) == replaced(a, p, with) + mid + replaced(b, p, with),
    decreases a.len(),
{
    let s = a + mid + b;
    let end = mid + replaced(b, p, with);
    if a.len() == 0 {
        assert(s =~= mid + b);
        replaced_behind(mid, b, p, with);
        assert(replaced(a, p, with) + mid + replaced(b, p, with) =~= end);
    } else {
        assert(matches_at(s, p, 0) == matches_at(a, p, 0)) by {
            if matches_at(s, p, 0) {
                if p.len() > a.len() {
                    assert(s[a.len() as int] == ' ');
                    assert(s.subrange(0, p.len() as int)[a.len() as int] == ' ');
                    assert(p.contains(p[a.len() as int]));
                }
                assert(a.subrange(0, p.len() as int) =~= s.subrange(0, p.len() as int));
            }
            if matches_at(a, p, 0) {
                assert(s.subrange(0, p.len() as int) =~= a.subrange(0, p.len() as int));
            }
        }
        if matches_at(a, p, 0) {
            let rest = a.skip(p.len() as int);
            assert(s.skip(p.len() as int) =~= rest + mid + b);
            replaced_on_sides(rest, mid, b, p, with);
            assert(with + (replaced(rest, p, with) + mid + replaced(b, p, with)) =~= with
                + replaced(rest, p, with) + mid + replaced(b, p, with));
        } else {
            let rest = a.skip(1);
            assert(s.skip(1) =~= rest + mid + b);
            replaced_on_sides(rest, mid, b, p, with);
            assert(s[0] == a[0]);
            assert(seq![a[0]] + (replaced(rest, p, with) + mid + replaced(b, p, with)) =~= seq![
                a[0],
            ] + replaced(rest, p, with) + mid + replaced(b, p, with));
        }
    }
}

proof fn marker_is_one_word(key: Seq<char>, behind: Seq<char>)
    requires
        !key.contains(' '),
        !behind.contains(' '),
    ensures
        ("$"@ + key + behind)[0] == '$',
        ("$"@ + key + behind).len() > 0,
        !("$"@ + key + behind).contains(' '),
{
    reveal_strlit("$");
    let p = "$"@ + key + behind;
    if p.contains(' ') {
        let k = choose|k: int| 0 <= k < p.len() && p[k] == ' ';
        if 1 <= k <= key.len() {
            assert(key[k - 1] == ' ');
        } else if k > key.len() {
            assert(behind[k - 1 - key.len()] == ' ');
        }
    }
}

proof fn flags_on_sides(
    a: Seq<char>,
    mid: Seq<char>,
    b: Seq<char>,
    keys: Seq<Seq<char>>,
    success: Flags,
)
    requires
        without_blanks(keys),
        parts_sides(mid),
    ensures
        flags_each(a + mid + b, keys, success) == flags_each(a, keys, success) + mid + flags_each(
            b,
            keys,
            success,
        ),
    decreases keys.len(),
{
    if keys.len() > 0 {
        let before = keys.drop_last();
        assert(without_blanks(before)) by {
            assert forall|k: int| 0 <= k < before.len() implies !(
            #[trigger] before[k]).contains(' ') by {
                assert(before[k] == keys[k]);
            }
        }
        flags_on_sides(a, mid, b, before, success);
        assert(keys[keys.len() - 1] == keys.last());
        reveal_strlit(".success");
        assert(!".success"@.contains(' '));
        marker_is_one_word(keys.last(), ".success"@);
        let flag = match lookup(success, keys.last()) {
            Some(flag) => flag,
            None => false,
        };
        replaced_on_sides(
            flags_each(a, before, success),
            mid,
            flags_each(b, before, success),
            "$"@ + keys.last() + ".success"@,
            crate::expr::flag_text(flag),
        );
    }
}

proof fn values_on_sides(
    a: Seq<char>,
    mid: Seq<char>,
    b: Seq<char>,
    keys: Seq<Seq<char>>,
    vars: Texts,
    outputs: Texts,
)
    requires
        without_blanks(keys),
        parts_sides(mid),
    ensures
        subst_each(a + mid + b, keys, vars, outputs) == subst_each(a, keys, vars, outputs) + mid
            + subst_each(b, keys, vars, outputs),
    decreases keys.len(),
{
    if keys.len() > 0 {
        let before = keys.drop_last();
        assert(without_blanks(before)) by {
            assert forall|k: int| 0 <= k < before.len() implies !(
            #[trigger] before[k]).contains(' ') by {
                assert(before[k] == keys[k]);
            }
        }
        values_on_sides(a, mid, b, before, vars, outputs);
        assert(keys[keys.len() - 1] == keys.last());
        let none = Seq::<char>::empty();
        marker_is_one_word(keys.last(), none);
        assert("$"@ + keys.last() + none =~= "$"@ + keys.last());
        if let Some(value) = value_of(vars, outputs, keys.last()) {
            replaced_on_sides(
                subst_each(a, before, vars, outputs),
                mid,
                subst_each(b, before, vars, outputs),
                "$"@ + keys.last(),
                value,
            );
        }
    }
}

proof fn marker_ends_at_mid(a: Seq<char>, mid: Seq<char>, b: Seq<char>)
    requires
        parts_sides(mid),
    ensures
        after_marker(a + mid + b) == after_marker(a) + mid + b,
    decreases a.len(),
{
    let s = a + mid + b;
    if a.len() == 0 {
        assert(s[0] == ' ');
        assert(s =~= after_marker(a) + mid + b);
    } else {
        assert(s[0] == a[0]);
        assert(s.skip(1) =~= a.skip(1) + mid + b);
        marker_ends_at_mid(a.skip(1), mid, b);
    }
}

proof fn cleared_behind(mid: Seq<char>, b: Seq<char>)
    requires
        !mid.contains('$'),
    ensures
        cleared(mid + b) == mid + cleared(b),
    decreases mid.len(),
{
    if mid.len() == 0 {
        assert(mid + b =~= b);
        assert(mid + cleared(b) =~= cleared(b));
    } else {
        let s = mid + b;
        assert(s[0] == mid[0]);
        assert(mid.contains(mid[0]));
        assert(s.skip(1) =~= mid.skip(1) + b);
        assert(!mid.skip(1).contains('$')) by {
            if mid.skip(1).contains('$') {
                let k = choose|k: int| 0 <= k < mid.skip(1).len() && mid.skip(1)[k] == '$';
                assert(mid[k + 1] == '$');
            }
        }
        cleared_behind(mid.skip(1), b);
        assert(seq![s[0]] + (mid.skip(1) + cleared(b)) =~= mid + cleared(b));
    }
}

proof fn cleared_on_sides(a: Seq<char>, mid: Seq<char>, b: Seq<char>)
    requires
        parts_sides(mid),
    ensures
        cleared(a + mid + b) == cleared(a) + mid + cleared(b),
    decreases a.len(),
{
    let s = a + mid + b;
    if a.len() == 0 {
        assert(s =~= mid + b);
        cleared_behind(mid, b);
        assert(cleared(a) + mid + cleared(b) =~= mid + cleared(b));
    } else if a[0] == '$' {
        assert(s.skip(1) =~= a.skip(1) + mid + b);
        marker_ends_at_mid(a.skip(1), mid, b);
        after_marker_len(a.skip(1));
        after_marker_len(s.skip(1));
        cleared_on_sides(after_marker(a.skip(1)), mid, b);
    } else {
        assert(s[0] == a[0]);
        assert(s.skip(1) =~= a.skip(1) + mid + b);
        cleared_on_sides(a.skip(1), mid, b);
        assert(seq![a[0]] + (cleared(a.skip(1)) + mid + cleared(b)) =~= cleared(a) + mid + cleared(
            b,
        ));
    }
}

proof fn sorted_without_blanks(keys: Seq<Seq<char>>)
    requires
        without_blanks(keys),
    ensures
        without_blanks(longest_first(keys)),
{
    longest_first_spec(keys);
    let sorted = longest_first(keys);
    assert forall|k: int| 0 <= k < sorted.len() implies !(#[trigger] sorted[k]).contains(' ') by {
        rearranged_holds_same(sorted, keys, sorted[k]);
        assert(sorted.contains(sorted[k]));
        let i = choose|i: int| 0 <= i < keys.len() && keys[i] == sorted[k];
        assert(!keys[i].contains(' '));
    }
}

/// The values of a condition are filled in on each side of a comparison alone.
pub proof fn sides_are_filled_alone(
    a: Seq<char>,
    mid: Seq<char>,
    b: Seq<char>,
    outputs: Seq<(Seq<char>, Seq<char>)>,
    success: Seq<(Seq<char>, bool)>,
)
    requires
        without_blanks(keys_of(outputs)),
        without_blanks(keys_of(success)),
        parts_sides(mid),
    ensures
        condition_text(a + mid + b, outputs, success) == condition_text(a, outputs, success) + mid
            + condition_text(b, outputs, success),
{
    let flags = longest_first(keys_of(success));
    let keys = longest_first(keys_of(outputs));
    let none = Seq::<(Seq<char>, Seq<char>)>::empty();
    sorted_without_blanks(keys_of(success));
    sorted_without_blanks(keys_of(outputs));
    flags_on_sides(a, mid, b, flags, success);
    let x = flags_each(a, flags, success);
    let y = flags_each(b, flags, success);
    values_on_sides(x, mid, y, keys, none, outputs);
    cleared_on_sides(
        subst_each(x, keys, none, outputs),
        mid,
        subst_each(y, keys, none, outputs),
    );
}

proof fn no_flag_in(s: Seq<char>, keys: Seq<Seq<char>>, success: Flags)
    requires
        !s.contains('.'),
    ensures
        flags_each(s, keys, success) == s,
    decreases keys.len(),
{
    if keys.len() > 0 {
        no_flag_in(s, keys.drop_last(), success);
        reveal_strlit(".success");
        reveal_strlit("$");
        let p = "$"@ + keys.last() + ".success"@;
        assert(p[1 + keys.last().len() as int] == '.');
        assert forall|i: int| !matches_at(s, p, i) by {
            if matches_at(s, p, i) {
                let j = 1 + keys.last().len() as int;
                assert(s.subrange(i, i + p.len())[j] == '.');
                assert(s[i + j] == '.');
            }
        }
        let flag = match lookup(success, keys.last()) {
            Some(flag) => flag,
            None => false,
        };
        replaced_absent(s, p, crate::expr::flag_text(flag));
    }
}

proof fn plain_text_is_filled(s: Seq<char>, keys: Seq<Seq<char>>, vars: Texts, outputs: Texts)
    requires
        !s.contains('$'),
    ensures
        subst_each(s, keys, vars, outputs) == s,
    decreases keys.len(),
{
    if keys.len() > 0 {
        plain_text_is_filled(s, keys.drop_last(), vars, outputs);
        reveal_strlit("$");
        let p = "$"@ + keys.last();
        assert(p[0] == '$');
        if let Some(value) = value_of(vars, outputs, keys.last()) {
            nothing_to_replace(s, p, value);
        }
    }
}

proof fn nothing_to_clear(s: Seq<char>)
    requires
        !s.contains('$'),
    ensures
        cleared(s) == s,
{
    let none = Seq::<char>::empty();
    cleared_behind(s, none);
    assert(s + none =~= s);
    assert(cleared(none) =~= none);
}

/// A word without a marker stands for itself.
pub proof fn words_stand_for_themselves(
    word: Seq<char>,
    outputs: Seq<(Seq<char>, Seq<char>)>,
    success: Seq<(Seq<char>, bool)>,
)
    requires
        !word.contains('$'),
    ensures
        condition_text(word, outputs, success) == word,
{
    let flags = longest_first(keys_of(success));
    let keys = longest_first(keys_of(outputs));
    no_flag_in_plain(word, flags, success);
    plain_text_is_filled(word, keys, Seq::empty(), outputs);
    nothing_to_clear(word);
}

proof fn no_flag_in_plain(s: Seq<char>, keys: Seq<Seq<char>>, success: Flags)
    requires
        !s.contains('$'),
    ensures
        flags_each(s, keys, success) == s,
    decreases keys.len(),
{
    if keys.len() > 0 {
        no_flag_in_plain(s, keys.drop_last(), success);
        reveal_strlit("$");
        let p = "$"@ + keys.last() + ".success"@;
        assert(p[0] == '$');
        let flag = match lookup(success, keys.last()) {
            Some(flag) => flag,
            None => false,
        };
        nothing_to_replace(s, p, crate::expr::flag_text(flag));
    }
}

proof fn plain_name_has(key: Seq<char>, c: char)
    requires
        plain_name(key),
        !plain_char(c),
    ensures
        !key.contains(c),
{
    if key.contains(c) {
        let k = choose|k: int| 0 <= k < key.len() && key[k] == c;
        assert(plain_char(key[k]));
    }
}

/// The marker of an output stands for that output, whatever other names there are.
pub proof fn markers_stand_for_outputs(
    key: Seq<char>,
    outputs: Seq<(Seq<char>, Seq<char>)>,
    success: Seq<(Seq<char>, bool)>,
    value: Seq<char>,
)
    requires
        plain_name(key),
        lookup(outputs, key) == Some(value),
        !value.contains('$'),
    ensures
        condition_text(seq!['$'] + key, outputs, success) == value,
{
    let s = seq!['$'] + key;
    let none = Seq::<char>::empty();
    let flags = longest_first(keys_of(success));
    let keys = longest_first(keys_of(outputs));
    plain_name_has(key, '.');
    plain_name_has(key, '$');
    assert(!s.contains('.')) by {
        if s.contains('.') {
            let k = choose|k: int| 0 <= k < s.len() && s[k] == '.';
            assert(k >= 1 && key[k - 1] == '.');
        }
    }
    no_flag_in(s, flags, success);
    longest_first_spec(keys_of(outputs));
    lookup_found(outputs, key);
    rearranged_holds_same(keys, keys_of(outputs), key);
    assert(key + none =~= key);
    assert(none + seq!['$'] + key + none =~= s);
    assert forall|k: int|
        0 <= k < keys.len() && matches_at(key + none, #[trigger] keys[k], 0) implies keys[k].len()
        <= key.len() by {}
    marker_in_turn(none, key, none, keys, Seq::empty(), outputs);
    assert(none + value + none =~= value);
    nothing_to_clear(value);
}

// ---------------------------------------------------------------- comparing

/// Whether a text can be compared without a second thought: it neither starts nor
/// ends with a blank, and holds no quote, marker, connective or operator.
pub open spec fn plain_value(v: Seq<char>) -> bool {
    &&& v.len() > 0
    &&& !is_space(v[0]) && !is_space(v.last())
    &&& forall|i: int|
        0 <= i < v.len() ==> #[trigger] v[i] != '\'' && v[i] != '"' && v[i] != '$' && v[i] != '|'
            && v[i] != '&' && v[i] != '=' && v[i] != '!'
    &&& !holds_text(v, "contains"@)
}

/// What a comparison says of two texts.
pub open spec fn relation(comparison: Comparison, a: Seq<char>, b: Seq<char>) -> bool {
    match comparison {
        Comparison::Equals => a =~= b,
        Comparison::Differs => !(a =~= b),
        Comparison::Contains => exists|i: int|
            0 <= i && i + b.len() <= a.len() && #[trigger] a.subrange(i, i + b.len()) == b,
    }
}

/// A plain text, with or without double quotes round it.
pub open spec fn side_text(v: Seq<char>, quoted: bool) -> Seq<char> {
    if quoted {
        seq!['"'] + v + seq!['"']
    } else {
        v
    }
}

proof fn side_is_operand(v: Seq<char>, quoted: bool, blank_before: bool, blank_behind: bool)
    requires
        plain_value(v),
    ensures
        ({
            let a = if blank_before {
                seq![' ']
            } else {
                Seq::empty()
            };
            let b = if blank_behind {
                seq![' ']
            } else {
                Seq::empty()
            };
            operand(a + side_text(v, quoted) + b) == Some(v)
        }),
{
    let t = side_text(v, quoted);
    let a = if blank_before {
        seq![' ']
    } else {
        Seq::empty()
    };
    let b = if blank_behind {
        seq![' ']
    } else {
        Seq::empty()
    };
    assert(t[0] == if quoted {
        '"'
    } else {
        v[0]
    });
    assert(t.last() == if quoted {
        '"'
    } else {
        v.last()
    });
    crate::text::laws::blanks_go(a, t, b);
    if quoted {
        assert(t.subrange(1, t.len() - 1) =~= v);
    } else {
        assert(v[0] != '\'' && v[0] != '"');
    }
}

/// The texts of two sides with a comparison between them.
pub open spec fn side_condition(
    a: Seq<char>,
    comparison: Comparison,
    b: Seq<char>,
) -> Seq<char> {
    a + written(comparison) + b
}

/// Where the characters of an operator stand.
proof fn where_operator_stands(
    a: Seq<char>,
    qa: bool,
    comparison: Comparison,
    b: Seq<char>,
    qb: bool,
    i: int,
)
    requires
        plain_value(a),
        plain_value(b),
        0 <= i,
    ensures
        ({
            let c = side_condition(side_text(a, qa), comparison, side_text(b, qb));
            let n = side_text(a, qa).len();
            &&& matches_at(c, "!="@, i) ==> comparison == Comparison::Differs && i == n + 1
            &&& matches_at(c, "=="@, i) ==> comparison == Comparison::Equals && i == n + 1
        }),
{
    reveal_strlit("!=");
    reveal_strlit("==");
    reveal_strlit(" contains ");
    reveal_strlit(" != ");
    reveal_strlit(" == ");
    let l = side_text(a, qa);
    let r = side_text(b, qb);
    let w = written(comparison);
    let c = side_condition(l, comparison, r);
    assert forall|k: int| 0 <= k < l.len() implies #[trigger] l[k] != '=' && l[k] != '!' by {
        if qa {
            if 1 <= k <= a.len() {
                assert(l[k] == a[k - 1]);
            }
        } else {
            assert(l[k] == a[k]);
        }
    }
    assert forall|k: int| 0 <= k < r.len() implies #[trigger] r[k] != '=' && r[k] != '!' by {
        if qb {
            if 1 <= k <= b.len() {
                assert(r[k] == b[k - 1]);
            }
        } else {
            assert(r[k] == b[k]);
        }
    }
    assert forall|p: Seq<char>|
        (p == "!="@ || p == "=="@) && #[trigger] matches_at(c, p, i) implies c[i] == p[0] && c[i
        + 1] == p[1] by {
        assert(c.subrange(i, i + 2)[0] == p[0]);
        assert(c.subrange(i, i + 2)[1] == p[1]);
    }
    if matches_at(c, "!="@, i) || matches_at(c, "=="@, i) {
        assert(c[i] == '!' || c[i] == '=');
        assert(c[i + 1] == '=');
        if i < l.len() {
            assert(c[i] == l[i]);
        } else if i < l.len() + w.len() {
            assert(c[i] == w[i - l.len()]);
            if i + 1 < l.len() + w.len() {
                assert(c[i + 1] == w[i + 1 - l.len()]);
            } else {
                assert(c[i + 1] == r[i + 1 - l.len() - w.len()]);
            }
        } else {
            assert(c[i] == r[i - l.len() - w.len()]);
        }
    }
}

proof fn word_stands(s: Seq<char>, i: int)
    requires
        matches_at(s, " contains "@, i),
    ensures
        0 <= i,
        i + 10 <= s.len(),
        s[i] == ' ' && s[i + 1] == 'c' && s[i + 2] == 'o' && s[i + 3] == 'n' && s[i + 4] == 't',
        s[i + 5] == 'a' && s[i + 6] == 'i' && s[i + 7] == 'n' && s[i + 8] == 's' && s[i + 9] == ' ',
{
    reveal_strlit(" contains ");
    let p = " contains "@;
    let t = s.subrange(i, i + 10);
    assert(p.len() == 10);
    assert(t == p);
    assert(t[0] == s[i] && t[1] == s[i + 1] && t[2] == s[i + 2] && t[3] == s[i + 3] && t[4] == s[i
        + 4]);
    assert(t[5] == s[i + 5] && t[6] == s[i + 6] && t[7] == s[i + 7] && t[8] == s[i + 8] && t[9]
        == s[i + 9]);
    assert(p[0] == ' ' && p[1] == 'c' && p[2] == 'o' && p[3] == 'n' && p[4] == 't');
    assert(p[5] == 'a' && p[6] == 'i' && p[7] == 'n' && p[8] == 's' && p[9] == ' ');
}

/// Whether the word of a comparison is spelled at a place.
spec fn spells_contains(t: Seq<char>, j: int) -> bool {
    t[j] == 'c' && t[j + 1] == 'o' && t[j + 2] == 'n' && t[j + 3] == 't' && t[j + 4] == 'a' && t[j
        + 5] == 'i' && t[j + 6] == 'n' && t[j + 7] == 's'
}

/// No side holds the word of a comparison.
proof fn no_word_in_side(v: Seq<char>, quoted: bool, j: int)
    requires
        plain_value(v),
        0 <= j,
        j + 8 <= side_text(v, quoted).len(),
    ensures
        !spells_contains(side_text(v, quoted), j),
{
    let t = side_text(v, quoted);
    if !spells_contains(t, j) {
    } else if quoted {
        assert(t[0] == '"' && t[t.len() - 1] == '"');
        assert(j >= 1);
        assert(j + 7 != t.len() - 1);
        assert(v =~= t.subrange(1, t.len() - 1));
        assert(v[j - 1] == t[j] && v[j] == t[j + 1] && v[j + 1] == t[j + 2] && v[j + 2] == t[j + 3]
            && v[j + 3] == t[j + 4] && v[j + 4] == t[j + 5] && v[j + 5] == t[j + 6] && v[j + 6]
            == t[j + 7]);
        holds_the_word(v, j - 1);
    } else {
        holds_the_word(v, j);
    }
}

/// The word of a comparison stands nowhere but between the sides.
proof fn where_contains_stands(
    a: Seq<char>,
    qa: bool,
    comparison: Comparison,
    b: Seq<char>,
    qb: bool,
    i: int,
)
    requires
        plain_value(a),
        plain_value(b),
        0 <= i,
        matches_at(
            side_condition(side_text(a, qa), comparison, side_text(b, qb)),
            " contains "@,
            i,
        ),
    ensures
        comparison == Comparison::Contains,
        i == side_text(a, qa).len(),
{
    let l = side_text(a, qa);
    let r = side_text(b, qb);
    let w = written(comparison);
    let c = side_condition(l, comparison, r);
    let n = l.len() as int;
    let m = n + w.len();
    word_stands(c, i);
    if i + 9 <= n {
        assert(c[i + 1] == l[i + 1] && c[i + 2] == l[i + 2] && c[i + 3] == l[i + 3] && c[i + 4]
            == l[i + 4] && c[i + 5] == l[i + 5] && c[i + 6] == l[i + 6] && c[i + 7] == l[i + 7]
            && c[i + 8] == l[i + 8]);
        no_word_in_side(a, qa, i + 1);
        assert(spells_contains(l, i + 1));
    } else if i + 1 >= m {
        let j = i + 1 - m;
        assert(c.len() == m + r.len());
        assert(c[i + 1] == r[j] && c[i + 2] == r[j + 1] && c[i + 3] == r[j + 2] && c[i + 4] == r[j
            + 3] && c[i + 5] == r[j + 4] && c[i + 6] == r[j + 5] && c[i + 7] == r[j + 6] && c[i + 8]
            == r[j + 7]);
        no_word_in_side(b, qb, j);
        assert(spells_contains(r, j));
    } else {
        written_chars(comparison);
        assert(c[n] == w[0]);
        assert(c[m - 1] == w[w.len() - 1]);
        if comparison == Comparison::Contains {
            assert(n == i || n == i + 1 || n == i + 2 || n == i + 3 || n == i + 4 || n == i + 5 || n
                == i + 6 || n == i + 7 || n == i + 8 || i > n);
            if i > n {
                let e = m - 1;
                assert(e == i + 1 || e == i + 2 || e == i + 3 || e == i + 4 || e == i + 5 || e == i
                    + 6 || e == i + 7 || e == i + 8);
            }
        } else {
            assert(c[n + 1] == w[1] && c[n + 2] == w[2]);
            assert(n == i || n == i + 1 || n == i + 2 || n == i + 3 || n == i + 4 || n == i + 5 || n
                == i + 6 || n == i + 7 || n == i + 8 || i == n + 1 || i == n + 2);
        }
    }
}

/// How a comparison is written.
proof fn written_chars(comparison: Comparison)
    ensures
        ({
            let w = written(comparison);
            match comparison {
                Comparison::Contains => w.len() == 10 && w[0] == ' ' && w[9] == ' ' && w
                    == " contains "@,
                Comparison::Differs => w.len() == 4 && w[0] == ' ' && w[1] == '!' && w[2] == '='
                    && w[3] == ' ',
                Comparison::Equals => w.len() == 4 && w[0] == ' ' && w[1] == '=' && w[2] == '='
                    && w[3] == ' ',
            }
        }),
{
    reveal_strlit(" contains ");
    reveal_strlit(" != ");
    reveal_strlit(" == ");
}

proof fn holds_the_word(v: Seq<char>, i: int)
    requires
        0 <= i,
        i + 8 <= v.len(),
        v[i] == 'c' && v[i + 1] == 'o' && v[i + 2] == 'n' && v[i + 3] == 't' && v[i + 4] == 'a'
            && v[i + 5] == 'i' && v[i + 6] == 'n' && v[i + 7] == 's',
    ensures
        holds_text(v, "contains"@),
{
    reveal_strlit("contains");
    assert(v.subrange(i, i + 8) =~= "contains"@);
    assert(matches_at(v, "contains"@, i));
    find_is_first(v, "contains"@, 0);
}

proof fn contained_sides(a: Seq<char>, qa: bool, b: Seq<char>, qb: bool)
    requires
        plain_value(a),
        plain_value(b),
    ensures
        operands(
            side_condition(side_text(a, qa), Comparison::Contains, side_text(b, qb)),
            " contains "@,
        ) == Some(Some((a, b))),
{
    let l = side_text(a, qa);
    let r = side_text(b, qb);
    let w = " contains "@;
    let c = side_condition(l, Comparison::Contains, r);
    let n = l.len() as int;
    let none = Seq::<char>::empty();
    written_chars(Comparison::Contains);
    find_is_first(c, w, 0);
    assert(c.subrange(n, n + 10) =~= w);
    assert(matches_at(c, w, n));
    let i = find_from(c, w, 0)->0;
    where_contains_stands(a, qa, Comparison::Contains, b, qb, i);
    assert(c.take(n) =~= none + l + none);
    assert(c.skip(n + 10) =~= none + r + none);
    side_is_operand(a, qa, false, false);
    side_is_operand(b, qb, false, false);
}

proof fn operator_sides(
    a: Seq<char>,
    qa: bool,
    comparison: Comparison,
    b: Seq<char>,
    qb: bool,
    op: Seq<char>,
)
    requires
        plain_value(a),
        plain_value(b),
        comparison == Comparison::Differs && op == "!="@ || comparison == Comparison::Equals && op
            == "=="@,
    ensures
        operands(side_condition(side_text(a, qa), comparison, side_text(b, qb)), op) == Some(
            Some((a, b)),
        ),
{
    reveal_strlit("!=");
    reveal_strlit("==");
    let l = side_text(a, qa);
    let r = side_text(b, qb);
    let w = written(comparison);
    let c = side_condition(l, comparison, r);
    let n = l.len() as int;
    let none = Seq::<char>::empty();
    written_chars(comparison);
    find_is_first(c, op, 0);
    assert(c[n] == w[0] && c[n + 1] == w[1] && c[n + 2] == w[2] && c[n + 3] == w[3]);
    assert(c.subrange(n + 1, n + 3) =~= op);
    assert(matches_at(c, op, n + 1));
    let i = find_from(c, op, 0)->0;
    where_operator_stands(a, qa, comparison, b, qb, i);
    assert(c.take(n + 1) =~= none + l + seq![' ']);
    assert(c.skip(n + 3) =~= seq![' '] + r + none);
    side_is_operand(a, qa, false, true);
    side_is_operand(b, qb, true, false);
}

proof fn absent_operator(
    a: Seq<char>,
    qa: bool,
    comparison: Comparison,
    b: Seq<char>,
    qb: bool,
)
    requires
        plain_value(a),
        plain_value(b),
    ensures
        ({
            let c = side_condition(side_text(a, qa), comparison, side_text(b, qb));
            &&& comparison != Comparison::Contains ==> operands(c, " contains "@) is None
            &&& comparison == Comparison::Equals ==> operands(c, "!="@) is None
        }),
{
    let c = side_condition(side_text(a, qa), comparison, side_text(b, qb));
    find_is_first(c, " contains "@, 0);
    find_is_first(c, "!="@, 0);
    if let Some(i) = find_from(c, " contains "@, 0) {
        where_contains_stands(a, qa, comparison, b, qb, i);
    }
    if let Some(i) = find_from(c, "!="@, 0) {
        where_operator_stands(a, qa, comparison, b, qb, i);
    }
}

/// A text that compares two plain values, each with or without double quotes, has the
/// value of the comparison.
pub proof fn plain_values_are_compared(
    a: Seq<char>,
    quoted_a: bool,
    comparison: Comparison,
    b: Seq<char>,
    quoted_b: bool,
)
    requires
        plain_value(a),
        plain_value(b),
    ensures
        text_value(
            side_condition(side_text(a, quoted_a), comparison, side_text(b, quoted_b)),
        ) == Some(relation(comparison, a, b)),
{
    let l = side_text(a, quoted_a);
    let r = side_text(b, quoted_b);
    let c = side_condition(l, comparison, r);
    assert(c[0] == l[0]);
    assert(c.last() == r.last());
    assert(!is_space(c[0]) && !is_space(c.last()));
    tight_text_stays(c);
    absent_operator(a, quoted_a, comparison, b, quoted_b);
    match comparison {
        Comparison::Contains => {
            contained_sides(a, quoted_a, b, quoted_b);
            crate::text::laws::held_text_stands_somewhere(a, b);
        },
        Comparison::Differs => {
            operator_sides(a, quoted_a, comparison, b, quoted_b, "!="@);
        },
        Comparison::Equals => {
            operator_sides(a, quoted_a, comparison, b, quoted_b, "=="@);
        },
    }
}

proof fn sides_do_not_split(
    l: Seq<char>,
    comparison: Comparison,
    r: Seq<char>,
    op: Seq<char>,
)
    requires
        forall|i: int| 0 <= i < l.len() ==> #[trigger] l[i] != '|' && l[i] != '&',
        forall|i: int| 0 <= i < r.len() ==> #[trigger] r[i] != '|' && r[i] != '&',
        op.len() > 0,
        op[0] == '|' || op[0] == '&',
    ensures
        split_outside(side_condition(l, comparison, r), op) is None,
{
    reveal_strlit(" contains ");
    reveal_strlit(" != ");
    reveal_strlit(" == ");
    let c = side_condition(l, comparison, r);
    let w = written(comparison);
    find_is_first(c, op, 0);
    if let Some(i) = find_from(c, op, 0) {
        assert(c.subrange(i, i + op.len())[0] == op[0]);
        assert(c[i] == op[0]);
        if i < l.len() {
            assert(c[i] == l[i]);
        } else if i < l.len() + w.len() {
            assert(c[i] == w[i - l.len()]);
        } else {
            assert(c[i] == r[i - l.len() - w.len()]);
        }
    }
    no_operator_no_split(c, op);
}

/// One side of a comparison: an output, a word, or a word in double quotes.
pub enum Side {
    Output(Seq<char>),
    Word(Seq<char>),
    Quoted(Seq<char>),
}

/// How a side is written.
pub open spec fn written_side(side: Side) -> Seq<char> {
    match side {
        Side::Output(key) => seq!['$'] + key,
        Side::Word(word) => word,
        Side::Quoted(word) => seq!['"'] + word + seq!['"'],
    }
}

/// What a side stands for: the output of that name, or the word.
pub open spec fn side_value(side: Side, outputs: Seq<(Seq<char>, Seq<char>)>) -> Seq<char> {
    match side {
        Side::Output(key) => lookup(outputs, key)->0,
        Side::Word(word) => word,
        Side::Quoted(word) => word,
    }
}

/// Whether a side can be compared without a second thought.
pub open spec fn plain_side(side: Side, outputs: Seq<(Seq<char>, Seq<char>)>) -> bool {
    &&& side matches Side::Output(key) ==> plain_name(key) && lookup(outputs, key) is Some
    &&& plain_value(side_value(side, outputs))
}

proof fn side_is_filled(side: Side, outputs: Texts, success: Flags)
    requires
        plain_side(side, outputs),
    ensures
        condition_text(written_side(side), outputs, success) == side_text(
            side_value(side, outputs),
            side is Quoted,
        ),
        forall|i: int|
            0 <= i < written_side(side).len() ==> #[trigger] written_side(side)[i] != '|'
                && written_side(side)[i] != '&' && written_side(side)[i] != '\'',
        written_side(side).len() > 0,
        !is_space(written_side(side)[0]),
        !is_space(written_side(side).last()),
{
    let v = side_value(side, outputs);
    let s = written_side(side);
    assert(!v.contains('$')) by {
        if v.contains('$') {
            let k = choose|k: int| 0 <= k < v.len() && v[k] == '$';
            assert(v[k] != '$');
        }
    }
    match side {
        Side::Output(key) => {
            markers_stand_for_outputs(key, outputs, success, v);
            assert forall|i: int| 0 <= i < s.len() implies #[trigger] s[i] != '|' && s[i] != '&'
                && s[i] != '\'' by {
                if i > 0 {
                    assert(s[i] == key[i - 1]);
                    assert(plain_char(key[i - 1]));
                }
            }
            assert(s.last() == key.last());
            assert(plain_char(key[key.len() - 1]));
        },
        Side::Word(word) => {
            words_stand_for_themselves(word, outputs, success);
        },
        Side::Quoted(word) => {
            assert(!s.contains('$')) by {
                if s.contains('$') {
                    let k = choose|k: int| 0 <= k < s.len() && s[k] == '$';
                    assert(1 <= k <= word.len());
                    assert(word[k - 1] == '$');
                }
            }
            words_stand_for_themselves(s, outputs, success);
            assert forall|i: int| 0 <= i < s.len() implies #[trigger] s[i] != '|' && s[i] != '&'
                && s[i] != '\'' by {
                if 1 <= i <= word.len() {
                    assert(s[i] == word[i - 1]);
                }
            }
        },
    }
}

/// A condition that compares two sides, each an output or a word, holds where what
/// they stand for is so related: `!=` where the two differ, `==` where they are the
/// same, `contains` where the one holds the other.
pub proof fn sides_are_compared(
    left: Side,
    comparison: Comparison,
    right: Side,
    outputs: Seq<(Seq<char>, Seq<char>)>,
    success: Seq<(Seq<char>, bool)>,
)
    requires
        plain_side(left, outputs),
        plain_side(right, outputs),
        without_blanks(keys_of(outputs)),
        without_blanks(keys_of(success)),
        right != Side::Word("true"@) && right != Side::Word("false"@),
    ensures
        condition_value(
            written_side(left) + written(comparison) + written_side(right),
            outputs,
            success,
        ) == Some(
            relation(comparison, side_value(left, outputs), side_value(right, outputs)),
        ),
{
    reveal_strlit("||");
    reveal_strlit("&&");
    reveal_strlit(" contains ");
    reveal_strlit(" != ");
    reveal_strlit(" == ");
    let l = written_side(left);
    let r = written_side(right);
    let w = written(comparison);
    let c = side_condition(l, comparison, r);
    side_is_filled(left, outputs, success);
    side_is_filled(right, outputs, success);
    assert(c[0] == l[0] && c.last() == r.last());
    tight_text_stays(c);
    sides_do_not_split(l, comparison, r, "||"@);
    sides_do_not_split(l, comparison, r, "&&"@);
    assert(w[0] == ' ');
    assert(!w.contains('$'));
    sides_are_filled_alone(l, w, r, outputs, success);
    not_one_output_and_text(left, comparison, right, outputs, success);
    plain_values_are_compared(
        side_value(left, outputs),
        left is Quoted,
        comparison,
        side_value(right, outputs),
        right is Quoted,
    );
}

proof fn not_one_output_and_text(
    left: Side,
    comparison: Comparison,
    right: Side,
    outputs: Texts,
    success: Flags,
)
    requires
        plain_side(left, outputs),
        plain_side(right, outputs),
        right != Side::Word("true"@) && right != Side::Word("false"@),
    ensures
        output_comparison(side_condition(written_side(left), comparison, written_side(right))) is None,
{
    reveal_strlit(" contains ");
    reveal_strlit(" != ");
    reveal_strlit(" == ");
    reveal_strlit("true");
    reveal_strlit("false");
    let l = written_side(left);
    let r = written_side(right);
    let w = written(comparison);
    let c = side_condition(l, comparison, r);
    side_is_filled(left, outputs, success);
    side_is_filled(right, outputs, success);
    assert(c[0] == l[0]);
    if let Side::Output(key) = left {
        let n = l.len() as int;
        assert forall|j: int| 1 <= j < n implies name_char(#[trigger] c[j]) by {
            assert(c[j] == key[j - 1]);
            assert(plain_char(key[j - 1]));
        }
        assert(c[n] == w[0]);
        crate::expr::outputs::name_ends_at(c, 1, n);
        assert(c.skip(n) =~= w + r);
        crate::expr::outputs::written_is_read(comparison, r);
        tight_text_stays(r);
        let rest = (leading_comparison(w + r)->0).1;
        assert(trimmed(rest) == r);
        assert(r[0] != '\'');
        assert(r != "true"@ && r != "false"@) by {
            match right {
                Side::Output(key) => {
                    assert(r[0] == '$' && "true"@[0] == 't' && "false"@[0] == 'f');
                },
                Side::Word(word) => {},
                Side::Quoted(word) => {
                    assert(r[0] == '"' && "true"@[0] == 't' && "false"@[0] == 'f');
                },
            }
        }
        assert(literal_text(rest) is None);
    } else {
        let v = side_value(left, outputs);
        assert(v[0] != '$');
        assert(c[0] != '$');
    }
}

/// `!=` is the negation of `==`, whatever the two sides stand for.
pub proof fn differing_is_not_being_same(
    left: Side,
    right: Side,
    outputs: Seq<(Seq<char>, Seq<char>)>,
    success: Seq<(Seq<char>, bool)>,
)
    requires
        plain_side(left, outputs),
        plain_side(right, outputs),
        without_blanks(keys_of(outputs)),
        without_blanks(keys_of(success)),
        right != Side::Word("true"@) && right != Side::Word("false"@),
    ensures
        ({
            let same = condition_value(
                written_side(left) + " == "@ + written_side(right),
                outputs,
                success,
            );
            let differ = condition_value(
                written_side(left) + " != "@ + written_side(right),
                outputs,
                success,
            );
            same is Some && differ is Some && (same->0) != (differ->0)
        }),
{
    sides_are_compared(left, Comparison::Equals, right, outputs, success);
    sides_are_compared(left, Comparison::Differs, right, outputs, success);
}

/// A bare output holds where it is neither empty nor the word `false`.
pub proof fn bare_outputs_hold(
    key: Seq<char>,
    outputs: Seq<(Seq<char>, Seq<char>)>,
    success: Seq<(Seq<char>, bool)>,
)
    requires
        plain_name(key),
        lookup(outputs, key) matches Some(value) && (value.len() == 0 || plain_value(value)),
    ensures
        condition_value(seq!['$'] + key, outputs, success) == Some(
            lookup(outputs, key)->0.len() > 0 && lookup(outputs, key)->0 != "false"@,
        ),
{
    reveal_strlit("||");
    reveal_strlit("&&");
    reveal_strlit("!=");
    reveal_strlit("==");
    reveal_strlit(" contains ");
    reveal_strlit("contains");
    reveal_strlit("true");
    reveal_strlit("false");
    let c = seq!['$'] + key;
    let v = lookup(outputs, key)->0;
    assert(!v.contains('$')) by {
        if v.contains('$') {
            let k = choose|k: int| 0 <= k < v.len() && v[k] == '$';
            assert(v[k] != '$');
        }
    }
    markers_stand_for_outputs(key, outputs, success, v);
    assert(c.last() == key.last());
    assert(plain_char(key[key.len() - 1]));
    tight_text_stays(c);
    assert forall|j: int| 1 <= j < c.len() implies name_char(#[trigger] c[j]) && c[j] != '|' && c[j]
        != '&' by {
        assert(c[j] == key[j - 1]);
        assert(plain_char(key[j - 1]));
    }
    no_connective_at_all(c, "||"@);
    no_connective_at_all(c, "&&"@);
    all_name(c, 1);
    assert(c.skip(c.len() as int) =~= Seq::<char>::empty());
    assert(leading_comparison(Seq::<char>::empty()) is None) by {
        let e = Seq::<char>::empty();
        assert(trim_start_by(e, CharSet::Space) == e);
    }
    tight_text_stays(v);
    find_is_first(v, " contains "@, 0);
    find_is_first(v, "!="@, 0);
    find_is_first(v, "=="@, 0);
    if let Some(i) = find_from(v, " contains "@, 0) {
        assert forall|k: int| 0 <= k < 10 implies #[trigger] v[i + k] == " contains "@[k] by {
            assert(v.subrange(i, i + 10)[k] == " contains "@[k]);
        }
        assert(v[i + 1] == 'c' && v[i + 2] == 'o' && v[i + 3] == 'n' && v[i + 4] == 't' && v[i + 5]
            == 'a' && v[i + 6] == 'i' && v[i + 7] == 'n' && v[i + 8] == 's');
        holds_the_word(v, i + 1);
    }
    if let Some(i) = find_from(v, "!="@, 0) {
        assert(v.subrange(i, i + 2)[0] == v[i]);
    }
    if let Some(i) = find_from(v, "=="@, 0) {
        assert(v.subrange(i, i + 2)[0] == v[i]);
    }
    assert("true"@[0] == 't' && "false"@[0] == 'f');
}

proof fn all_name(s: Seq<char>, i: int)
    requires
        0 <= i <= s.len(),
        forall|j: int| i <= j < s.len() ==> name_char(#[trigger] s[j]),
    ensures
        name_end(s, i) == s.len(),
    decreases s.len() - i,
{
    if i < s.len() {
        assert(name_char(s[i]));
        all_name(s, i + 1);
    }
}

proof fn no_connective_at_all(s: Seq<char>, op: Seq<char>)
    requires
        forall|j: int| 1 <= j < s.len() ==> #[trigger] s[j] != '|' && s[j] != '&',
        s.len() > 0 ==> s[0] == '$',
        op.len() > 0,
        op[0] == '|' || op[0] == '&',
    ensures
        split_outside(s, op) is None,
{
    find_is_first(s, op, 0);
    if let Some(i) = find_from(s, op, 0) {
        assert(s.subrange(i, i + op.len())[0] == op[0]);
        assert(s[i] == op[0]);
    }
    no_operator_no_split(s, op);
}

/// Equal texts are equal and not different; a text contains what stands anywhere in it,
/// and nothing longer than itself.
pub proof fn comparisons_compare(x: Seq<char>, a: Seq<char>, y: Seq<char>, b: Seq<char>)
    ensures
        compared(Comparison::Equals, a, a),
        !compared(Comparison::Differs, a, a),
        compared(Comparison::Equals, a, b) ==> a == b,
        compared(Comparison::Differs, a, b) ==> a != b,
        compared(Comparison::Differs, a, b) == !compared(Comparison::Equals, a, b),
        compared(Comparison::Contains, x + a + y, a),
        compared(Comparison::Contains, a, b) ==> b.len() <= a.len(),
{
    let s = x + a + y;
    held_text_stands_somewhere(s, a);
    held_text_stands_somewhere(a, b);
    let at = x.len() as int;
    assert(s.subrange(at, at + a.len()) =~= a);
}

} // verus!
