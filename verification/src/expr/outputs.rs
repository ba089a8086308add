//! What holds of outputs in conditions: each is one value, whatever text it holds.
use crate::expr::laws::trimmed_first;
use crate::expr::{
    compared, condition_value, flag_text, leading_comparison, literal_text, longest_named,
    longest_named_matches, marker_text, marker_value, name_char, name_end, no_operator_no_split,
    output_comparison, split_outside, Comparison,
};
use crate::strmap::{keys_of, lookup, lookup_found};
use crate::text::{
    find_from, find_is_first, holds_text, is_space, matches_at, trim_start_by, trimmed, CharSet,
};
use vstd::prelude::*;

verus! {

/// Whether a name can stand in a condition without a second thought: it holds no
/// white space, no quote, no dot, and no character of an operator.
pub open spec fn plain_name(key: Seq<char>) -> bool {
    &&& key.len() > 0
    &&& forall|i: int| 0 <= i < key.len() ==> plain_char(#[trigger] key[i])
}

pub open spec fn plain_char(c: char) -> bool {
    &&& !is_space(c)
    &&& c != '\'' && c != '"' && c != '.' && c != '$'
    &&& c != '|' && c != '&' && c != '=' && c != '!'
}

/// Whether a text can stand between apostrophes without a second thought: it holds
/// no apostrophe, no marker, and no connective.
pub open spec fn plain_literal(text: Seq<char>) -> bool {
    forall|i: int|
        0 <= i < text.len() ==> #[trigger] text[i] != '\'' && text[i] != '$' && text[i] != '|'
            && text[i] != '&'
}

/// A comparison as it is written between two operands.
pub open spec fn written(comparison: Comparison) -> Seq<char> {
    match comparison {
        Comparison::Contains => " contains "@,
        Comparison::Differs => " != "@,
        Comparison::Equals => " == "@,
    }
}

/// The condition that compares an output with a text in quotes.
pub open spec fn output_condition(
    key: Seq<char>,
    comparison: Comparison,
    text: Seq<char>,
) -> Seq<char> {
    seq!['$'] + key + written(comparison) + seq!['\''] + text + seq!['\'']
}

proof fn longest_is_longest(
    keys: Seq<Seq<char>>,
    s: Seq<char>,
    suffix: Seq<char>,
    key: Seq<char>,
)
    requires
        keys.contains(key),
        matches_at(s, key + suffix, 0),
    ensures
        longest_named(keys, s, suffix) matches Some(best) && best.len() >= key.len(),
    decreases keys.len(),
{
    if keys.last() != key {
        let i = choose|i: int| 0 <= i < keys.len() && keys[i] == key;
        assert(keys.drop_last()[i] == key);
        longest_is_longest(keys.drop_last(), s, suffix, key);
    }
}

/// A marker that is the name of an output stands for that output.
proof fn marker_is_output(
    key: Seq<char>,
    outputs: Seq<(Seq<char>, Seq<char>)>,
    success: Seq<(Seq<char>, bool)>,
)
    requires
        plain_name(key),
        lookup(outputs, key) is Some,
    ensures
        marker_text(key, outputs, success) == lookup(outputs, key)->0,
{
    reveal_strlit("");
    reveal_strlit(".success");
    longest_named_matches(keys_of(success), key, ".success"@);
    if let Some(flag) = longest_named(keys_of(success), key, ".success"@) {
        let marker = flag + ".success"@;
        assert(key.subrange(0, marker.len() as int)[flag.len() as int] == marker[flag.len() as int]);
        assert(marker[flag.len() as int] == '.');
        assert(plain_char(key[flag.len() as int]));
    }
    lookup_found(outputs, key);
    assert(key + ""@ =~= key);
    assert(key.subrange(0, key.len() as int) =~= key);
    longest_is_longest(keys_of(outputs), key, ""@, key);
    longest_named_matches(keys_of(outputs), key, ""@);
    let best = longest_named(keys_of(outputs), key, ""@)->0;
    assert(best + ""@ =~= best);
    assert(best =~= key);
    let none = Seq::<char>::empty();
    assert(key.skip(key.len() as int) =~= none);
    let value = lookup(outputs, key)->0;
    assert(marker_value(key, outputs, success) == (value, none));
    assert(value + none =~= value);
}

/// A name ends where the first character stands that cannot be in one.
pub proof fn name_ends_at(s: Seq<char>, i: int, n: int)
    requires
        0 <= i <= n < s.len(),
        forall|j: int| i <= j < n ==> name_char(#[trigger] s[j]),
        !name_char(s[n]),
    ensures
        name_end(s, i) == n,
    decreases n - i,
{
    if i < n {
        assert(name_char(s[i]));
        name_ends_at(s, i + 1, n);
    }
}

proof fn starts_with_char(s: Seq<char>, p: Seq<char>, j: int, k: int)
    requires
        matches_at(s, p, j),
        0 <= k < p.len(),
    ensures
        s[j + k] == p[k],
{
    assert(s.subrange(j, j + p.len())[k] == s[j + k]);
}

/// A text without bars and ampersands is not split at a connective.
proof fn no_connective_in(c: Seq<char>, op: Seq<char>)
    requires
        forall|j: int| 0 <= j < c.len() ==> #[trigger] c[j] != '|' && c[j] != '&',
        op.len() > 0,
        op[0] == '|' || op[0] == '&',
    ensures
        split_outside(c, op) is None,
{
    find_is_first(c, op, 0);
    if holds_text(c, op) {
        let j = find_from(c, op, 0)->0;
        starts_with_char(c, op, j, 0);
    }
    no_operator_no_split(c, op);
}

proof fn no_connective(key: Seq<char>, comparison: Comparison, text: Seq<char>, op: Seq<char>)
    requires
        plain_name(key),
        plain_literal(text),
        op.len() > 0,
        op[0] == '|' || op[0] == '&',
    ensures
        split_outside(output_condition(key, comparison, text), op) is None,
{
    reveal_strlit(" contains ");
    reveal_strlit(" != ");
    reveal_strlit(" == ");
    let c = output_condition(key, comparison, text);
    let w = written(comparison);
    let n = 1 + key.len() as int;
    let m = n + w.len();
    assert forall|j: int| 0 <= j < c.len() implies #[trigger] c[j] != '|' && c[j] != '&' by {
        if j == 0 || j == m || j == m + 1 + text.len() {
        } else if j < n {
            assert(c[j] == key[j - 1]);
            assert(plain_char(key[j - 1]));
        } else if j < m {
            assert(c[j] == w[j - n]);
        } else {
            assert(c[j] == text[j - m - 1]);
        }
    }
    no_connective_in(c, op);
}

/// A comparison is read as it is written, up to a blank behind it.
pub proof fn written_is_read(comparison: Comparison, behind: Seq<char>)
    requires
        behind.len() > 0,
        !is_space(behind[0]),
    ensures
        leading_comparison(written(comparison) + behind) matches Some((read, rest)) && read
            == comparison && trimmed(rest) == trimmed(behind),
        !name_char(written(comparison)[0]),
        written(comparison).len() > 0,
{
    reveal_strlit(" contains ");
    reveal_strlit(" != ");
    reveal_strlit(" == ");
    reveal_strlit("!=");
    reveal_strlit("==");
    let s = written(comparison) + behind;
    if comparison == Comparison::Contains {
        assert(s.subrange(0, 10) =~= " contains "@);
        assert(s.skip(10) =~= behind);
    } else {
        assert(s[0] == ' ' && s[1] != 'c' && s[3] == ' ');
        assert(!matches_at(s, " contains "@, 0)) by {
            if matches_at(s, " contains "@, 0) {
                assert(s.subrange(0, 10)[1] == " contains "@[1]);
            }
        }
        let t = s.skip(1);
        assert(t[0] != ' ' && t[1] == '=' && t[2] == ' ');
        assert(trim_start_by(t, CharSet::Space) == t);
        assert(trim_start_by(s, CharSet::Space) == t);
        let op = if comparison == Comparison::Differs {
            "!="@
        } else {
            "=="@
        };
        assert(t.subrange(0, 2) =~= op);
        if comparison == Comparison::Equals {
            assert(t.subrange(0, 2)[0] != "!="@[0]);
        }
        let rest = t.skip(2);
        assert(rest[0] == ' ');
        assert(rest.skip(1) =~= behind);
        trimmed_first(rest);
    }
}

proof fn quoted_is_literal(text: Seq<char>)
    requires
        plain_literal(text),
    ensures
        literal_text(seq!['\''] + text + seq!['\'']) == Some(text),
{
    reveal_strlit("true");
    reveal_strlit("false");
    let quoted = seq!['\''] + text + seq!['\''];
    assert(quoted[0] == '\'' && quoted.last() == '\'');
    assert(trimmed(quoted) == quoted);
    assert("true"@[0] == 't' && "false"@[0] == 'f');
    assert(quoted.subrange(1, quoted.len() - 1) =~= text);
}

/// Whatever an output holds, a condition compares it as the one value that it is,
/// without the blanks at its ends: operators, quotes and markers in it do not
/// count.
pub proof fn output_is_one_value(
    key: Seq<char>,
    comparison: Comparison,
    text: Seq<char>,
    outputs: Seq<(Seq<char>, Seq<char>)>,
    success: Seq<(Seq<char>, bool)>,
)
    requires
        plain_name(key),
        plain_literal(text),
        lookup(outputs, key) is Some,
    ensures
        condition_value(output_condition(key, comparison, text), outputs, success) == Some(
            compared(comparison, trimmed(lookup(outputs, key)->0), text),
        ),
{
    let c = output_condition(key, comparison, text);
    let n = 1 + key.len() as int;
    let quoted = seq!['\''] + text + seq!['\''];
    assert(c[0] == '$' && c.last() == '\'');
    assert(trimmed(c) == c);
    reveal_strlit("||");
    reveal_strlit("&&");
    no_connective(key, comparison, text, "||"@);
    no_connective(key, comparison, text, "&&"@);
    written_is_read(comparison, quoted);
    assert(c.skip(n) =~= written(comparison) + quoted);
    assert forall|j: int| 1 <= j < n implies name_char(#[trigger] c[j]) by {
        assert(c[j] == key[j - 1]);
        assert(plain_char(key[j - 1]));
    }
    assert(c[n] == written(comparison)[0]);
    name_ends_at(c, 1, n);
    assert(c.subrange(1, n) =~= key);
    quoted_is_literal(text);
    let rest = (leading_comparison(c.skip(n))->0).1;
    assert(literal_text(rest) == literal_text(quoted));
    assert(output_comparison(c) == Some((key, comparison, text)));
    marker_is_output(key, outputs, success);
}

/// That an output is not empty, or that it is, is said of the output itself.
pub proof fn emptiness_of_outputs(
    key: Seq<char>,
    outputs: Seq<(Seq<char>, Seq<char>)>,
    success: Seq<(Seq<char>, bool)>,
)
    requires
        plain_name(key),
        lookup(outputs, key) is Some,
    ensures
        condition_value("$"@ + key + " != ''"@, outputs, success) == Some(
            trimmed(lookup(outputs, key)->0).len() > 0,
        ),
        condition_value("$"@ + key + " == ''"@, outputs, success) == Some(
            trimmed(lookup(outputs, key)->0).len() == 0,
        ),
{
    reveal_strlit("$");
    reveal_strlit(" != ''");
    reveal_strlit(" == ''");
    reveal_strlit(" != ");
    reveal_strlit(" == ");
    let none = Seq::<char>::empty();
    output_is_one_value(key, Comparison::Differs, none, outputs, success);
    output_is_one_value(key, Comparison::Equals, none, outputs, success);
    assert("$"@ + key + " != ''"@ =~= output_condition(key, Comparison::Differs, none));
    assert("$"@ + key + " == ''"@ =~= output_condition(key, Comparison::Equals, none));
    let value = trimmed(lookup(outputs, key)->0);
    assert(value.len() == 0 ==> value =~= none);
}

/// A marker that names a stage and asks for its success stands for that.
proof fn marker_is_flag(
    key: Seq<char>,
    outputs: Seq<(Seq<char>, Seq<char>)>,
    success: Seq<(Seq<char>, bool)>,
)
    requires
        lookup(success, key) is Some,
    ensures
        marker_text(key + ".success"@, outputs, success) == flag_text(
            lookup(success, key) == Some(true),
        ),
{
    let name = key + ".success"@;
    let keys = keys_of(success);
    lookup_found(success, key);
    assert(name.subrange(0, name.len() as int) =~= name);
    longest_is_longest(keys, name, ".success"@, key);
    longest_named_matches(keys, name, ".success"@);
    let best = longest_named(keys, name, ".success"@)->0;
    assert(best =~= key) by {
        assert(name.subrange(0, (best + ".success"@).len() as int) == best + ".success"@);
        assert(best + ".success"@ =~= name);
        assert(best =~= (best + ".success"@).take(best.len() as int));
    }
    assert(name.skip(name.len() as int) =~= Seq::<char>::empty());
    let flag = flag_text(lookup(success, key) == Some(true));
    assert(flag + Seq::<char>::empty() =~= flag);
}

/// Whether a stage succeeded is read off its flag.
pub proof fn success_is_read(
    key: Seq<char>,
    outputs: Seq<(Seq<char>, Seq<char>)>,
    success: Seq<(Seq<char>, bool)>,
)
    requires
        plain_name(key),
        lookup(success, key) is Some,
    ensures
        condition_value("$"@ + key + ".success == true"@, outputs, success) == lookup(success, key),
{
    reveal_strlit("$");
    reveal_strlit(".success == true");
    reveal_strlit(".success");
    reveal_strlit(" == ");
    reveal_strlit("true");
    reveal_strlit("false");
    reveal_strlit("||");
    reveal_strlit("&&");
    let c = "$"@ + key + ".success == true"@;
    let name = key + ".success"@;
    let n = 1 + name.len() as int;
    assert(c =~= seq!['$'] + name + " == "@ + "true"@);
    assert(c[0] == '$' && c.last() == 'e');
    assert(trimmed(c) == c);
    assert forall|j: int| 1 <= j < n implies name_char(#[trigger] c[j]) by {
        if j <= key.len() {
            assert(c[j] == key[j - 1]);
            assert(plain_char(key[j - 1]));
        }
    }
    assert forall|j: int| 0 <= j < c.len() implies #[trigger] c[j] != '|' && c[j] != '&' by {
        if 1 <= j <= key.len() {
            assert(c[j] == key[j - 1]);
            assert(plain_char(key[j - 1]));
        }
    }
    no_connective_in(c, "||"@);
    no_connective_in(c, "&&"@);
    written_is_read(Comparison::Equals, "true"@);
    assert(c.skip(n) =~= written(Comparison::Equals) + "true"@);
    name_ends_at(c, 1, n);
    assert(c.subrange(1, n) =~= name);
    assert(trimmed("true"@) == "true"@);
    assert(trimmed("false"@) == "false"@);
    assert(output_comparison(c) == Some((name, Comparison::Equals, "true"@)));
    marker_is_flag(key, outputs, success);
    assert("true"@.len() != "false"@.len());
}

} // verus!
