//! What holds of conditions and of splitting them, whatever the outputs are.
use crate::expr::{
    all_hold, any_holds, condition_value, pieces_from, pieces_shorter, split_outside, when_value,
};
use crate::text::{is_space, joined, joined_first, matches_at, trim_idempotent, trimmed, CharSet};
use vstd::prelude::*;

verus! {

// ---------------------------------------------------------------- trimming

/// A blank at the end of a text does not count once it is trimmed.
pub proof fn trimmed_last(s: Seq<char>)
    requires
        s.len() > 0,
        is_space(s.last()),
    ensures
        trimmed(s) == trimmed(s.drop_last()),
    decreases s.len(),
{
    if is_space(s[0]) {
        if s.len() == 1 {
            assert(s.skip(1) =~= s.drop_last());
        } else {
            trimmed_last(s.skip(1));
            assert(s.skip(1).drop_last() =~= s.drop_last().skip(1));
        }
    }
}

/// A blank at the start of a text does not count once it is trimmed.
pub proof fn trimmed_first(s: Seq<char>)
    requires
        s.len() > 0,
        is_space(s[0]),
    ensures
        trimmed(s) == trimmed(s.skip(1)),
{
}

// ---------------------------------------------------------------- pieces

/// Whether an operator can be looked for piece by piece: it is there, and holds
/// neither a quote nor white space.
spec fn plain_operator(op: Seq<char>) -> bool {
    &&& op.len() > 0
    &&& forall|i: int| 0 <= i < op.len() ==> !is_space(#[trigger] op[i])
    &&& forall|i: int| 0 <= i < op.len() ==> #[trigger] op[i] != '\''
}

proof fn matches_shifted(s: Seq<char>, op: Seq<char>, start: int, i: int)
    requires
        0 <= start <= i <= s.len(),
    ensures
        matches_at(s.skip(start), op, i - start) == matches_at(s, op, i),
{
    if i + op.len() <= s.len() {
        assert(s.skip(start).subrange(i - start, i - start + op.len()) =~= s.subrange(
            i,
            i + op.len(),
        ));
    }
}

/// What comes before the piece that is read does not count.
proof fn pieces_shifted(s: Seq<char>, op: Seq<char>, i: int, start: int, quoted: bool)
    requires
        op.len() > 0,
        0 <= start <= i <= s.len(),
    ensures
        pieces_from(s, op, i, start, quoted) == pieces_from(
            s.skip(start),
            op,
            i - start,
            0,
            quoted,
        ),
    decreases s.len() - i,
{
    let t = s.skip(start);
    if i >= s.len() {
        assert(t.skip(0) =~= t);
    } else {
        matches_shifted(s, op, start, i);
        if s[i] == '\'' {
            pieces_shifted(s, op, i + 1, start, !quoted);
        } else if !quoted && matches_at(s, op, i) {
            let n = i + op.len();
            pieces_shifted(s, op, n, n, quoted);
            pieces_shifted(t, op, n - start, n - start, quoted);
            assert(t.skip(n - start) =~= s.skip(n));
            assert(t.subrange(0, i - start) =~= s.subrange(start, i));
        } else {
            pieces_shifted(s, op, i + 1, start, quoted);
        }
    }
}

/// A blank before a piece does not count.
proof fn pieces_start(s: Seq<char>, op: Seq<char>, i: int, start: int, quoted: bool)
    requires
        op.len() > 0,
        0 <= start < i <= s.len(),
        is_space(s[start]),
    ensures
        pieces_from(s, op, i, start, quoted) == pieces_from(s, op, i, start + 1, quoted),
    decreases s.len() - i,
{
    if i >= s.len() {
        trimmed_first(s.skip(start));
        assert(s.skip(start).skip(1) =~= s.skip(start + 1));
    } else if s[i] == '\'' {
        pieces_start(s, op, i + 1, start, !quoted);
    } else if !quoted && matches_at(s, op, i) {
        trimmed_first(s.subrange(start, i));
        assert(s.subrange(start, i).skip(1) =~= s.subrange(start + 1, i));
    } else {
        pieces_start(s, op, i + 1, start, quoted);
    }
}

/// A blank at the end does not count.
proof fn pieces_end(s: Seq<char>, op: Seq<char>, i: int, start: int, quoted: bool)
    requires
        plain_operator(op),
        0 <= start <= i < s.len(),
        is_space(s.last()),
    ensures
        pieces_from(s, op, i, start, quoted) == pieces_from(s.drop_last(), op, i, start, quoted),
    decreases s.len() - i,
{
    let t = s.drop_last();
    assert(matches_at(s, op, i) == matches_at(t, op, i)) by {
        if matches_at(s, op, i) {
            if i + op.len() == s.len() {
                assert(s.subrange(i, i + op.len())[op.len() - 1] == s.last());
                assert(op[op.len() - 1] == s.last());
            }
            assert(t.subrange(i, i + op.len()) =~= s.subrange(i, i + op.len()));
        } else if matches_at(t, op, i) {
            assert(t.subrange(i, i + op.len()) =~= s.subrange(i, i + op.len()));
        }
    }
    if i == s.len() - 1 {
        if matches_at(s, op, i) {
            assert(s.subrange(i, i + op.len())[0] == s[i]);
            assert(op[0] == s[i]);
        }
        assert(pieces_from(s, op, i + 1, start, quoted) == seq![trimmed(s.skip(start))]);
        trimmed_last(s.skip(start));
        assert(s.skip(start).drop_last() =~= t.skip(start));
    } else if s[i] == '\'' {
        pieces_end(s, op, i + 1, start, !quoted);
    } else if !quoted && matches_at(s, op, i) {
        let n = i + op.len();
        pieces_end(s, op, n, n, quoted);
        assert(t.subrange(start, i) =~= s.subrange(start, i));
    } else {
        pieces_end(s, op, i + 1, start, quoted);
    }
}

/// The pieces of a text.
spec fn pieces(s: Seq<char>, op: Seq<char>) -> Seq<Seq<char>> {
    pieces_from(s, op, 0, 0, false)
}

/// Blanks at the ends of a text do not count for its pieces.
proof fn pieces_trimmed(s: Seq<char>, op: Seq<char>)
    requires
        plain_operator(op),
    ensures
        pieces(trimmed(s), op) == pieces(s, op),
    decreases s.len(),
{
    if s.len() > 0 && is_space(s[0]) {
        if matches_at(s, op, 0) {
            assert(s.subrange(0, op.len() as int)[0] == s[0]);
            assert(op[0] == s[0]);
        }
        assert(pieces(s, op) == pieces_from(s, op, 1, 0, false));
        pieces_start(s, op, 1, 0, false);
        pieces_shifted(s, op, 1, 1, false);
        pieces_trimmed(s.skip(1), op);
        trimmed_first(s);
    } else if s.len() > 0 && is_space(s.last()) {
        pieces_end(s, op, 0, 0, false);
        pieces_trimmed(s.drop_last(), op);
        trimmed_last(s);
    } else {
        assert(trimmed(s) == s);
    }
}

/// How many apostrophes a text holds.
pub open spec fn quote_count(s: Seq<char>) -> nat
    decreases s.len(),
{
    if s.len() == 0 {
        0
    } else {
        quote_count(s.skip(1)) + if s[0] == '\'' {
            1nat
        } else {
            0nat
        }
    }
}

/// Whether a quote is open once a text is read on from `i`.
spec fn ends_quoted(s: Seq<char>, i: int, quoted: bool) -> bool
    decreases s.len() - i,
{
    if i < 0 || i >= s.len() {
        quoted
    } else if s[i] == '\'' {
        ends_quoted(s, i + 1, !quoted)
    } else {
        ends_quoted(s, i + 1, quoted)
    }
}

proof fn ends_as_counted(s: Seq<char>, i: int, quoted: bool)
    requires
        0 <= i <= s.len(),
    ensures
        ends_quoted(s, i, quoted) == (quoted != (quote_count(s.skip(i)) % 2 == 1)),
    decreases s.len() - i,
{
    if i < s.len() {
        assert(s.skip(i).skip(1) =~= s.skip(i + 1));
        ends_as_counted(s, i + 1, if s[i] == '\'' {
            !quoted
        } else {
            quoted
        });
    }
}

proof fn ends_past_plain(s: Seq<char>, i: int, n: int, quoted: bool)
    requires
        0 <= i <= n <= s.len(),
        forall|j: int| i <= j < n ==> #[trigger] s[j] != '\'',
    ensures
        ends_quoted(s, i, quoted) == ends_quoted(s, n, quoted),
    decreases n - i,
{
    if i < n {
        assert(s[i] != '\'');
        ends_past_plain(s, i + 1, n, quoted);
    }
}

/// Whether no operator that starts in `a` reaches beyond it.
spec fn stays_within(a: Seq<char>, t: Seq<char>, op: Seq<char>) -> bool {
    forall|i: int| 0 <= i < a.len() && matches_at(t, op, i) ==> i + op.len() <= a.len()
}

/// The pieces of two texts with the operator between them are those of the one and
/// those of the other.
proof fn pieces_of_two(
    a: Seq<char>,
    b: Seq<char>,
    op: Seq<char>,
    i: int,
    start: int,
    quoted: bool,
)
    requires
        op.len() > 0,
        forall|j: int| 0 <= j < op.len() ==> #[trigger] op[j] != '\'',
        0 <= start <= i <= a.len(),
        !ends_quoted(a, i, quoted),
        stays_within(a, a + op + b, op),
    ensures
        pieces_from(a + op + b, op, i, start, quoted) == pieces_from(a, op, i, start, quoted)
            + pieces(b, op),
    decreases a.len() - i,
{
    let t = a + op + b;
    if i == a.len() {
        assert(t.subrange(i, i + op.len()) =~= op);
        assert(t[i] == op[0]);
        let n = i + op.len();
        pieces_shifted(t, op, n, n, false);
        assert(t.skip(n) =~= b);
        assert(t.subrange(start, i) =~= a.skip(start));
    } else {
        assert(t[i] == a[i]);
        assert(matches_at(t, op, i) == matches_at(a, op, i)) by {
            if matches_at(t, op, i) {
                assert(a.subrange(i, i + op.len()) =~= t.subrange(i, i + op.len()));
            } else if matches_at(a, op, i) {
                assert(a.subrange(i, i + op.len()) =~= t.subrange(i, i + op.len()));
            }
        }
        if a[i] == '\'' {
            pieces_of_two(a, b, op, i + 1, start, !quoted);
        } else if !quoted && matches_at(a, op, i) {
            let n = i + op.len();
            assert forall|j: int| i <= j < n implies #[trigger] a[j] != '\'' by {
                assert(a.subrange(i, n)[j - i] == a[j]);
                assert(op[j - i] != '\'');
            }
            ends_past_plain(a, i, n, quoted);
            pieces_of_two(a, b, op, n, n, quoted);
            assert(t.subrange(start, i) =~= a.subrange(start, i));
            let first = seq![trimmed(a.subrange(start, i))];
            assert(first + (pieces_from(a, op, n, n, quoted) + pieces(b, op)) =~= (first
                + pieces_from(a, op, n, n, quoted)) + pieces(b, op));
        } else {
            pieces_of_two(a, b, op, i + 1, start, quoted);
        }
    }
}

/// How many pieces there are does not depend on where the first one starts.
proof fn piece_count_from(
    s: Seq<char>,
    op: Seq<char>,
    i: int,
    start: int,
    other: int,
    quoted: bool,
)
    requires
        op.len() > 0,
        0 <= i,
    ensures
        pieces_from(s, op, i, start, quoted).len() == pieces_from(
            s,
            op,
            i,
            other,
            quoted,
        ).len(),
    decreases s.len() - i,
{
    if i < s.len() {
        if s[i] == '\'' {
            piece_count_from(s, op, i + 1, start, other, !quoted);
        } else if !quoted && matches_at(s, op, i) {
        } else {
            piece_count_from(s, op, i + 1, start, other, quoted);
        }
    }
}

/// Two texts that are not taken apart are not taken apart either with something
/// between them that shares no character with the operator.
proof fn one_piece_of_two(
    a: Seq<char>,
    mid: Seq<char>,
    b: Seq<char>,
    op: Seq<char>,
    i: int,
    quoted: bool,
)
    requires
        op.len() > 0,
        mid.len() > 0,
        forall|j: int| 0 <= j < mid.len() ==> #[trigger] mid[j] != '\'' && !op.contains(mid[j]),
        0 <= i <= a.len() + mid.len(),
        !ends_quoted(a + mid, i, quoted),
        pieces_from(a, op, i, 0, quoted).len() == 1,
        pieces(b, op).len() == 1,
    ensures
        pieces_from(a + mid + b, op, i, 0, quoted).len() == 1,
    decreases a.len() + mid.len() - i,
{
    let t = a + mid + b;
    if i == a.len() + mid.len() {
        piece_count_from(t, op, i, 0, i, quoted);
        pieces_shifted(t, op, i, i, quoted);
        assert(t.skip(i) =~= b);
    } else {
        assert(t[i] == (a + mid)[i]);
        if i >= a.len() {
            assert(t[i] == mid[i - a.len()]);
            if matches_at(t, op, i) {
                assert(t.subrange(i, i + op.len())[0] == t[i]);
                assert(op.contains(t[i]));
            }
            one_piece_of_two(a, mid, b, op, i + 1, quoted);
        } else {
            assert(t[i] == a[i]);
            if matches_at(t, op, i) {
                if i + op.len() > a.len() {
                    assert(t.subrange(i, i + op.len())[a.len() - i] == mid[0]);
                    assert(op[a.len() - i] == mid[0]);
                    assert(op.contains(mid[0]));
                }
                assert(a.subrange(i, i + op.len()) =~= t.subrange(i, i + op.len()));
            }
            if a[i] == '\'' {
                one_piece_of_two(a, mid, b, op, i + 1, !quoted);
            } else if !quoted && matches_at(a, op, i) {
                let n = i + op.len();
                pieces_are_some(a, op, n, n, quoted);
                assert(false);
            } else {
                assert(quoted || !matches_at(t, op, i));
                one_piece_of_two(a, mid, b, op, i + 1, quoted);
            }
        }
    }
}

proof fn pieces_are_some(s: Seq<char>, op: Seq<char>, i: int, start: int, quoted: bool)
    requires
        op.len() > 0,
        0 <= i,
    ensures
        pieces_from(s, op, i, start, quoted).len() >= 1,
    decreases s.len() - i,
{
    if i < s.len() {
        if s[i] == '\'' {
            pieces_are_some(s, op, i + 1, start, !quoted);
        } else if !quoted && matches_at(s, op, i) {
        } else {
            pieces_are_some(s, op, i + 1, start, quoted);
        }
    }
}

// ---------------------------------------------------------------- values

type Outputs = Seq<(Seq<char>, Seq<char>)>;

type Flags = Seq<(Seq<char>, bool)>;

/// The bound on the length of parts does not count for parts that keep to it.
proof fn any_unlimited(
    parts: Seq<Seq<char>>,
    i: int,
    m: nat,
    n: nat,
    outputs: Outputs,
    flags: Flags,
)
    requires
        0 <= i,
        forall|k: int| 0 <= k < parts.len() ==> (#[trigger] parts[k]).len() < m,
        forall|k: int| 0 <= k < parts.len() ==> (#[trigger] parts[k]).len() < n,
    ensures
        any_holds(parts, i, m, outputs, flags) == any_holds(parts, i, n, outputs, flags),
    decreases parts.len() - i,
{
    if i < parts.len() {
        any_unlimited(parts, i + 1, m, n, outputs, flags);
    }
}

proof fn all_unlimited(
    parts: Seq<Seq<char>>,
    i: int,
    m: nat,
    n: nat,
    outputs: Outputs,
    flags: Flags,
)
    requires
        0 <= i,
        forall|k: int| 0 <= k < parts.len() ==> (#[trigger] parts[k]).len() < m,
        forall|k: int| 0 <= k < parts.len() ==> (#[trigger] parts[k]).len() < n,
    ensures
        all_hold(parts, i, m, outputs, flags) == all_hold(parts, i, n, outputs, flags),
    decreases parts.len() - i,
{
    if i < parts.len() {
        all_unlimited(parts, i + 1, m, n, outputs, flags);
    }
}

/// Blanks at the ends of a condition do not count.
proof fn value_trimmed(cond: Seq<char>, outputs: Outputs, flags: Flags)
    ensures
        condition_value(trimmed(cond), outputs, flags) == condition_value(cond, outputs, flags),
{
    let raw = trimmed(cond);
    trim_idempotent(cond, CharSet::Space);
    if raw.len() > 0 {
        match split_outside(raw, "||"@) {
            Some(parts) => {
                pieces_shorter(raw, "||"@);
                any_unlimited(parts, 0, raw.len(), cond.len(), outputs, flags);
            },
            None => {
                if let Some(parts) = split_outside(raw, "&&"@) {
                    pieces_shorter(raw, "&&"@);
                    all_unlimited(parts, 0, raw.len(), cond.len(), outputs, flags);
                }
            },
        }
    }
}

/// The pieces of a trimmed text are no longer than it.
proof fn pieces_fit(raw: Seq<char>, op: Seq<char>)
    requires
        op.len() > 0,
        trimmed(raw) == raw,
    ensures
        pieces(raw, op).len() >= 1,
        forall|k: int| 0 <= k < pieces(raw, op).len() ==> (#[trigger] pieces(raw, op)[k]).len()
            <= raw.len(),
        pieces(raw, op).len() == 1 ==> pieces(raw, op)[0] == raw,
{
    pieces_are_some(raw, op, 0, 0, false);
    let all = pieces(raw, op);
    if all.len() >= 2 {
        pieces_shorter(raw, op);
        assert(split_outside(raw, op) == Some(all));
        assert forall|k: int| 0 <= k < all.len() implies (#[trigger] all[k]).len() <= raw.len() by {
            assert(split_outside(raw, op)->0[k].len() < raw.len());
        }
    } else {
        one_piece_is_all(raw, op, 0, 0, false);
        assert(raw.skip(0) =~= raw);
    }
}

proof fn one_piece_is_all(s: Seq<char>, op: Seq<char>, i: int, start: int, quoted: bool)
    requires
        op.len() > 0,
        0 <= i,
        pieces_from(s, op, i, start, quoted).len() == 1,
    ensures
        pieces_from(s, op, i, start, quoted) == seq![trimmed(s.skip(start))],
    decreases s.len() - i,
{
    if i < s.len() {
        if s[i] == '\'' {
            one_piece_is_all(s, op, i + 1, start, !quoted);
        } else if !quoted && matches_at(s, op, i) {
            pieces_are_some(s, op, i + op.len(), i + op.len(), quoted);
        } else {
            one_piece_is_all(s, op, i + 1, start, quoted);
        }
    }
}

/// A condition holds where one of its pieces round `||` does.
proof fn value_of_pieces(cond: Seq<char>, limit: nat, outputs: Outputs, flags: Flags)
    requires
        cond.len() < limit,
    ensures
        any_holds(pieces(cond, "||"@), 0, limit, outputs, flags) == condition_value(
            cond,
            outputs,
            flags,
        ),
{
    let raw = trimmed(cond);
    let op = "||"@;
    reveal_strlit("||");
    pieces_trimmed(cond, op);
    trim_idempotent(cond, CharSet::Space);
    pieces_fit(raw, op);
    let parts = pieces(raw, op);
    if parts.len() >= 2 {
        pieces_shorter(raw, op);
        if raw.len() == 0 {
            assert(parts[0].len() < raw.len());
        }
        any_unlimited(parts, 0, cond.len(), limit, outputs, flags);
    } else {
        value_trimmed(cond, outputs, flags);
        assert(parts[0] == raw);
        assert(any_holds(parts, 1, limit, outputs, flags) == Some(false));
    }
}

/// A condition without `||` holds where all of its pieces round `&&` do.
proof fn value_of_all_pieces(cond: Seq<char>, limit: nat, outputs: Outputs, flags: Flags)
    requires
        cond.len() < limit,
        split_outside(cond, "||"@) is None,
    ensures
        all_hold(pieces(cond, "&&"@), 0, limit, outputs, flags) == condition_value(
            cond,
            outputs,
            flags,
        ),
{
    let raw = trimmed(cond);
    let op = "&&"@;
    reveal_strlit("&&");
    reveal_strlit("||");
    pieces_trimmed(cond, op);
    pieces_trimmed(cond, "||"@);
    trim_idempotent(cond, CharSet::Space);
    pieces_fit(raw, op);
    let parts = pieces(raw, op);
    if parts.len() >= 2 {
        pieces_shorter(raw, op);
        if raw.len() == 0 {
            assert(parts[0].len() < raw.len());
        }
        all_unlimited(parts, 0, cond.len(), limit, outputs, flags);
    } else {
        value_trimmed(cond, outputs, flags);
        assert(parts[0] == raw);
        assert(all_hold(parts, 1, limit, outputs, flags) == Some(true));
    }
}

proof fn any_of_two(
    p: Seq<Seq<char>>,
    q: Seq<Seq<char>>,
    i: int,
    limit: nat,
    outputs: Outputs,
    flags: Flags,
)
    requires
        0 <= i <= p.len(),
    ensures
        any_holds(p + q, i, limit, outputs, flags) == match any_holds(
            p,
            i,
            limit,
            outputs,
            flags,
        ) {
            Some(false) => any_holds(q, 0, limit, outputs, flags),
            decided => decided,
        },
    decreases p.len() - i,
{
    if i < p.len() {
        assert((p + q)[i] == p[i]);
        any_of_two(p, q, i + 1, limit, outputs, flags);
    } else {
        any_of_rest(p, q, 0, limit, outputs, flags);
    }
}

proof fn any_of_rest(
    p: Seq<Seq<char>>,
    q: Seq<Seq<char>>,
    j: int,
    limit: nat,
    outputs: Outputs,
    flags: Flags,
)
    requires
        0 <= j <= q.len(),
    ensures
        any_holds(p + q, p.len() + j, limit, outputs, flags) == any_holds(
            q,
            j,
            limit,
            outputs,
            flags,
        ),
    decreases q.len() - j,
{
    if j < q.len() {
        assert((p + q)[p.len() + j] == q[j]);
        any_of_rest(p, q, j + 1, limit, outputs, flags);
    }
}

proof fn all_of_two(
    p: Seq<Seq<char>>,
    q: Seq<Seq<char>>,
    i: int,
    limit: nat,
    outputs: Outputs,
    flags: Flags,
)
    requires
        0 <= i <= p.len(),
    ensures
        all_hold(p + q, i, limit, outputs, flags) == match all_hold(
            p,
            i,
            limit,
            outputs,
            flags,
        ) {
            Some(true) => all_hold(q, 0, limit, outputs, flags),
            decided => decided,
        },
    decreases p.len() - i,
{
    if i < p.len() {
        assert((p + q)[i] == p[i]);
        all_of_two(p, q, i + 1, limit, outputs, flags);
    } else {
        all_of_rest(p, q, 0, limit, outputs, flags);
    }
}

proof fn all_of_rest(
    p: Seq<Seq<char>>,
    q: Seq<Seq<char>>,
    j: int,
    limit: nat,
    outputs: Outputs,
    flags: Flags,
)
    requires
        0 <= j <= q.len(),
    ensures
        all_hold(p + q, p.len() + j, limit, outputs, flags) == all_hold(
            q,
            j,
            limit,
            outputs,
            flags,
        ),
    decreases q.len() - j,
{
    if j < q.len() {
        assert((p + q)[p.len() + j] == q[j]);
        all_of_rest(p, q, j + 1, limit, outputs, flags);
    }
}

/// The pieces of two conditions with an operator and blanks between them.
proof fn pieces_joined(a: Seq<char>, b: Seq<char>, op: Seq<char>)
    requires
        plain_operator(op),
        quote_count(a) % 2 == 0,
    ensures
        pieces(a + (" "@ + op + " "@) + b, op) == pieces(a, op) + pieces(b, op),
        trimmed(a + (" "@ + op + " "@) + b).len() > 0,
{
    reveal_strlit(" ");
    let left = a + " "@;
    let right = " "@ + b;
    let t = a + (" "@ + op + " "@) + b;
    assert(t =~= left + op + right);
    assert(left.last() == ' ' && right[0] == ' ');
    assert(left.drop_last() =~= a);
    assert(right.skip(1) =~= b);
    assert(stays_within(left, t, op)) by {
        assert forall|i: int| 0 <= i < left.len() && matches_at(t, op, i) implies i + op.len()
            <= left.len() by {
            if i + op.len() > left.len() {
                let k = left.len() - 1 - i;
                assert(t.subrange(i, i + op.len())[k] == t[i + k]);
                assert(t[i + k] == ' ');
                assert(is_space(op[k]));
            }
        }
    }
    assert(a.skip(0) =~= a);
    ends_as_counted(a, 0, false);
    ends_with_blank(a, 0, false);
    pieces_of_two(left, right, op, 0, 0, false);
    pieces_end(left, op, 0, 0, false);
    pieces_trimmed(right, op);
    pieces_trimmed(b, op);
    trimmed_first(right);
    if trimmed(t).len() == 0 {
        pieces_trimmed(t, op);
        pieces_are_some(left, op, 0, 0, false);
        pieces_are_some(right, op, 0, 0, false);
        assert(pieces(trimmed(t), op).len() == 1);
    }
}

proof fn ends_with_blank(a: Seq<char>, i: int, quoted: bool)
    requires
        0 <= i <= a.len(),
    ensures
        ends_quoted(a + " "@, i, quoted) == ends_quoted(a, i, quoted),
    decreases a.len() - i,
{
    reveal_strlit(" ");
    let t = a + " "@;
    if i < a.len() {
        assert(t[i] == a[i]);
        ends_with_blank(a, i + 1, if a[i] == '\'' {
            !quoted
        } else {
            quoted
        });
    } else {
        assert(t[i] == ' ');
        assert(ends_quoted(t, i + 1, quoted) == quoted);
    }
}

// ---------------------------------------------------------------- the laws

/// A disjunction has the value of its parts, the first part first. The quotes of
/// the first part are in pairs.
pub proof fn either_part_decides(
    a: Seq<char>,
    b: Seq<char>,
    outputs: Seq<(Seq<char>, Seq<char>)>,
    success: Seq<(Seq<char>, bool)>,
)
    requires
        quote_count(a) % 2 == 0,
    ensures
        condition_value(a + " || "@ + b, outputs, success) == match condition_value(
            a,
            outputs,
            success,
        ) {
            Some(false) => condition_value(b, outputs, success),
            decided => decided,
        },
        condition_value(a, outputs, success) is Some && condition_value(b, outputs, success) is Some
            ==> condition_value(a + " || "@ + b, outputs, success) == Some(
            condition_value(a, outputs, success)->0 || condition_value(b, outputs, success)->0,
        ),
{
    reveal_strlit(" || ");
    reveal_strlit("||");
    reveal_strlit(" ");
    let op = "||"@;
    let t = a + " || "@ + b;
    assert(" || "@ =~= " "@ + op + " "@);
    pieces_joined(a, b, op);
    let limit = t.len();
    value_of_pieces(a, limit, outputs, success);
    value_of_pieces(b, limit, outputs, success);
    any_of_two(pieces(a, op), pieces(b, op), 0, limit, outputs, success);
    pieces_trimmed(t, op);
    pieces_are_some(a, op, 0, 0, false);
    pieces_are_some(b, op, 0, 0, false);
    trim_idempotent(t, CharSet::Space);
    assert(split_outside(trimmed(t), op) == Some(pieces(t, op)));
}

/// A conjunction has the value of its parts, the first part first, where neither
/// part is a disjunction: `||` binds looser. The quotes of the first part are in
/// pairs.
pub proof fn both_parts_decide(
    a: Seq<char>,
    b: Seq<char>,
    outputs: Seq<(Seq<char>, Seq<char>)>,
    success: Seq<(Seq<char>, bool)>,
)
    requires
        quote_count(a) % 2 == 0,
        split_outside(a, "||"@) is None,
        split_outside(b, "||"@) is None,
    ensures
        condition_value(a + " && "@ + b, outputs, success) == match condition_value(
            a,
            outputs,
            success,
        ) {
            Some(true) => condition_value(b, outputs, success),
            decided => decided,
        },
        condition_value(a, outputs, success) is Some && condition_value(b, outputs, success) is Some
            ==> condition_value(a + " && "@ + b, outputs, success) == Some(
            condition_value(a, outputs, success)->0 && condition_value(b, outputs, success)->0,
        ),
{
    reveal_strlit(" && ");
    reveal_strlit("&&");
    reveal_strlit("||");
    reveal_strlit(" ");
    let op = "&&"@;
    let t = a + " && "@ + b;
    assert(" && "@ =~= " "@ + op + " "@);
    pieces_joined(a, b, op);
    let limit = t.len();
    value_of_all_pieces(a, limit, outputs, success);
    value_of_all_pieces(b, limit, outputs, success);
    all_of_two(pieces(a, op), pieces(b, op), 0, limit, outputs, success);
    pieces_trimmed(t, op);
    pieces_trimmed(t, "||"@);
    pieces_are_some(a, op, 0, 0, false);
    pieces_are_some(b, op, 0, 0, false);
    pieces_are_some(a, "||"@, 0, 0, false);
    pieces_are_some(b, "||"@, 0, 0, false);
    assert(a.skip(0) =~= a);
    ends_as_counted(a, 0, false);
    ends_past_conjunction(a, 0, false);
    assert forall|j: int| 0 <= j < " && "@.len() implies #[trigger] " && "@[j] != '\''
        && !"||"@.contains(" && "@[j]) by {
        if "||"@.contains(" && "@[j]) {
            let k = choose|k: int| 0 <= k < "||"@.len() && "||"@[k] == " && "@[j];
            assert("||"@[k] == '|');
        }
    }
    one_piece_of_two(a, " && "@, b, "||"@, 0, false);
    trim_idempotent(t, CharSet::Space);
    assert(split_outside(trimmed(t), "||"@) is None);
    assert(split_outside(trimmed(t), op) == Some(pieces(t, op)));
}

proof fn ends_past_conjunction(a: Seq<char>, i: int, quoted: bool)
    requires
        0 <= i <= a.len(),
    ensures
        ends_quoted(a + " && "@, i, quoted) == ends_quoted(a, i, quoted),
    decreases a.len() - i,
{
    reveal_strlit(" && ");
    let t = a + " && "@;
    if i < a.len() {
        assert(t[i] == a[i]);
        ends_past_conjunction(a, i + 1, if a[i] == '\'' {
            !quoted
        } else {
            quoted
        });
    } else {
        ends_past_plain(t, i, t.len() as int, quoted);
    }
}

/// A blank condition holds, and so does none.
pub proof fn no_condition_holds(
    cond: Seq<char>,
    outputs: Seq<(Seq<char>, Seq<char>)>,
    success: Seq<(Seq<char>, bool)>,
)
    requires
        trimmed(cond).len() == 0,
    ensures
        condition_value(cond, outputs, success) == Some(true),
        when_value(None, outputs, success) == Some(true),
{
}

/// Parts that were joined by an operator come apart into the same parts, and a text
/// is never taken apart by an empty operator. The parts have no blanks at their
/// ends, and hold neither quotes nor characters of the operator.
pub proof fn joined_parts_come_apart(parts: Seq<Seq<char>>, op: Seq<char>, s: Seq<char>)
    requires
        parts.len() >= 1,
        op.len() > 0,
        !op.contains('\''),
        forall|i: int| 0 <= i < parts.len() ==> trimmed(#[trigger] parts[i]) == parts[i],
        forall|i: int, j: int|
            0 <= i < parts.len() && 0 <= j < parts[i].len() ==> #[trigger] parts[i][j] != '\''
                && !op.contains(parts[i][j]),
    ensures
        split_outside(joined(parts, op), op) == if parts.len() >= 2 {
            Some(parts)
        } else {
            None
        },
        split_outside(s, ""@) is None,
{
    reveal_strlit("");
    joined_pieces(parts, op);
}

proof fn joined_pieces(parts: Seq<Seq<char>>, op: Seq<char>)
    requires
        parts.len() >= 1,
        op.len() > 0,
        !op.contains('\''),
        forall|i: int| 0 <= i < parts.len() ==> trimmed(#[trigger] parts[i]) == parts[i],
        forall|i: int, j: int|
            0 <= i < parts.len() && 0 <= j < parts[i].len() ==> #[trigger] parts[i][j] != '\''
                && !op.contains(parts[i][j]),
    ensures
        pieces(joined(parts, op), op) == parts,
    decreases parts.len(),
{
    let first = parts[0];
    assert forall|j: int| 0 <= j < op.len() implies #[trigger] op[j] != '\'' by {
        assert(op.contains(op[j]));
    }
    assert forall|j: int| 0 <= j < first.len() implies #[trigger] first[j] != '\''
        && !op.contains(first[j]) by {
        assert(parts[0][j] != '\'');
    }
    plain_text_is_one_piece(first, op, 0);
    assert(first.skip(0) =~= first);
    if parts.len() == 1 {
        assert(parts =~= seq![first]);
    } else {
        let rest = parts.skip(1);
        let b = joined(rest, op);
        joined_first(parts, op);
        assert forall|i: int| 0 <= i < rest.len() implies trimmed(#[trigger] rest[i])
            == rest[i] by {
            assert(rest[i] == parts[i + 1]);
        }
        assert forall|i: int, j: int|
            0 <= i < rest.len() && 0 <= j < rest[i].len() implies #[trigger] rest[i][j] != '\''
            && !op.contains(rest[i][j]) by {
            assert(parts[i + 1][j] != '\'');
        }
        joined_pieces(rest, op);
        let t = first + op + b;
        assert(stays_within(first, t, op)) by {
            assert forall|i: int| 0 <= i < first.len() && matches_at(t, op, i) implies i + op.len()
                <= first.len() by {
                assert(t.subrange(i, i + op.len())[0] == t[i]);
                assert(op.contains(first[i]));
            }
        }
        ends_past_plain(first, 0, first.len() as int, false);
        pieces_of_two(first, b, op, 0, 0, false);
        assert(seq![first] + rest =~= parts);
    }
}

proof fn plain_text_is_one_piece(s: Seq<char>, op: Seq<char>, i: int)
    requires
        op.len() > 0,
        0 <= i <= s.len(),
        forall|j: int| 0 <= j < s.len() ==> #[trigger] s[j] != '\'' && !op.contains(s[j]),
    ensures
        pieces_from(s, op, i, 0, false) == seq![trimmed(s.skip(0))],
    decreases s.len() - i,
{
    if i < s.len() {
        assert(s[i] != '\'');
        if matches_at(s, op, i) {
            assert(s.subrange(i, i + op.len())[0] == s[i]);
            assert(op.contains(s[i]));
        }
        plain_text_is_one_piece(s, op, i + 1);
    }
}

} // verus!
