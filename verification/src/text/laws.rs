//! What holds of trimming, replacing, splitting and joining texts.
use crate::text::{
    blank, find_is_first, holds_text, is_alnum, is_space, joined, list_items, lower_char, lowered,
    matches_at, replaced, split_at_first, split_by, split_by_nonempty, trim_end_by, trim_end_shape,
    trimmed, trimmed_pieces, upper_char, CharSet,
};
use vstd::prelude::*;

verus! {

// ---------------------------------------------------------------- trimming

/// Whether a text is nothing but white space.
pub open spec fn all_space(s: Seq<char>) -> bool {
    forall|i: int| 0 <= i < s.len() ==> is_space(#[trigger] s[i])
}

/// Blanks round a text go when it is trimmed.
pub proof fn blanks_go(before: Seq<char>, said: Seq<char>, behind: Seq<char>)
    requires
        said.len() > 0,
        !is_space(said[0]),
        !is_space(said.last()),
        all_space(before),
        all_space(behind),
    ensures
        trimmed(before + said + behind) == said,
    decreases before.len() + behind.len(),
{
    let s = before + said + behind;
    if before.len() > 0 {
        assert(s[0] == before[0]);
        assert(s.skip(1) =~= before.skip(1) + said + behind);
        blanks_go(before.skip(1), said, behind);
    } else if behind.len() > 0 {
        assert(s =~= said + behind);
        assert(s[0] == said[0]);
        assert(s.last() == behind.last());
        assert(s.drop_last() =~= before + said + behind.drop_last());
        assert(s.drop_last()[0] == said[0]);
        blanks_go(before, said, behind.drop_last());
    } else {
        assert(s =~= said);
    }
}

/// A text of blanks alone is blank.
pub proof fn blanks_alone_are_blank(s: Seq<char>)
    requires
        all_space(s),
    ensures
        blank(s),
    decreases s.len(),
{
    if s.len() > 0 {
        assert(is_space(s[0]));
        blanks_alone_are_blank(s.skip(1));
    }
}

/// A text with something that is no blank in it is not blank.
pub proof fn something_is_not_blank(s: Seq<char>, i: int)
    requires
        0 <= i < s.len(),
        !is_space(s[i]),
    ensures
        !blank(s),
    decreases s.len(),
{
    if is_space(s[0]) {
        something_is_not_blank(s.skip(1), i - 1);
    } else {
        first_stays(s);
    }
}

proof fn first_stays(s: Seq<char>)
    requires
        s.len() > 0,
        !is_space(s[0]),
    ensures
        trim_end_by(s, CharSet::Space).len() > 0,
    decreases s.len(),
{
    if s.len() > 1 && is_space(s.last()) {
        assert(s.drop_last()[0] == s[0]);
        first_stays(s.drop_last());
    }
}

/// A text without blanks at its ends is left as it is.
pub proof fn tight_text_stays(s: Seq<char>)
    requires
        s.len() > 0 ==> !is_space(s[0]) && !is_space(s.last()),
    ensures
        trimmed(s) == s,
{
}

/// A blank at the end of a text does not count once it is trimmed.
pub proof fn last_blank_goes(s: Seq<char>)
    requires
        s.len() > 0,
        is_space(s.last()),
    ensures
        trimmed(s) == trimmed(s.drop_last()),
    decreases s.len(),
{
    if is_space(s[0]) {
        if s.len() == 1 {
            assert(s.skip(1) =~= s.drop_last());
        } else {
            last_blank_goes(s.skip(1));
            assert(s.skip(1).drop_last() =~= s.drop_last().skip(1));
        }
    }
}

/// Trimming the end first changes nothing.
pub proof fn end_goes_first(s: Seq<char>)
    ensures
        trimmed(trim_end_by(s, CharSet::Space)) == trimmed(s),
    decreases s.len(),
{
    if s.len() > 0 && is_space(s.last()) {
        end_goes_first(s.drop_last());
        last_blank_goes(s);
    }
}

/// What stands before a text that is not blank does not count for its end.
pub proof fn end_of_two(a: Seq<char>, b: Seq<char>)
    requires
        !blank(b),
    ensures
        trim_end_by(a + b, CharSet::Space) == a + trim_end_by(b, CharSet::Space),
    decreases b.len(),
{
    if is_space(b.last()) {
        assert((a + b).last() == b.last());
        assert((a + b).drop_last() =~= a + b.drop_last());
        last_blank_goes(b);
        end_of_two(a, b.drop_last());
    } else {
        assert((a + b).last() == b.last());
    }
}

/// What is cut off at the end of a text is of the set, and nothing of the set is left
/// there.
pub proof fn only_the_end_goes(s: Seq<char>, set: CharSet)
    ensures
        ({
            let t = trim_end_by(s, set);
            &&& t.len() <= s.len()
            &&& t == s.take(t.len() as int)
            &&& forall|i: int| t.len() <= i < s.len() ==> set.has(#[trigger] s[i])
            &&& t.len() > 0 ==> !set.has(t.last())
        }),
    decreases s.len(),
{
    trim_end_shape(s, set);
    if s.len() > 0 && set.has(s.last()) {
        only_the_end_goes(s.drop_last(), set);
        let t = trim_end_by(s, set);
        assert forall|i: int| t.len() <= i < s.len() implies set.has(#[trigger] s[i]) by {
            if i < s.len() - 1 {
                assert(s.drop_last()[i] == s[i]);
            }
        }
    }
}

/// A text that neither starts nor ends with a blank outlasts trimming, wherever it
/// stands.
pub proof fn core_survives_trimming(a: Seq<char>, core: Seq<char>, b: Seq<char>)
    requires
        core.len() > 0,
        !is_space(core[0]),
        !is_space(core.last()),
    ensures
        holds_text(trimmed(a + core + b), core),
    decreases a.len() + b.len(),
{
    let s = a + core + b;
    if a.len() > 0 && is_space(a[0]) {
        assert(s[0] == a[0]);
        assert(s.skip(1) =~= a.skip(1) + core + b);
        core_survives_trimming(a.skip(1), core, b);
    } else if b.len() > 0 && is_space(b.last()) {
        assert(s.last() == b.last());
        assert(s.drop_last() =~= a + core + b.drop_last());
        last_blank_goes(s);
        core_survives_trimming(a, core, b.drop_last());
    } else {
        assert(s[0] == if a.len() > 0 {
            a[0]
        } else {
            core[0]
        });
        assert(s.last() == if b.len() > 0 {
            b.last()
        } else {
            core.last()
        });
        tight_text_stays(s);
        assert(s.subrange(a.len() as int, (a.len() + core.len()) as int) =~= core);
        assert(matches_at(s, core, a.len() as int));
        find_is_first(s, core, 0);
    }
}

// ---------------------------------------------------------------- case

/// Lowering a text twice changes no more, and case does not count afterwards.
pub proof fn lowering_is_done_once(s: Seq<char>)
    ensures
        lowered(lowered(s)) == lowered(s),
        lowered(s).len() == s.len(),
        forall|i: int|
            0 <= i < s.len() ==> !('A' <= #[trigger] lowered(s)[i] && lowered(s)[i] <= 'Z'),
        forall|i: int|
            0 <= i < s.len() && !('A' <= s[i] && s[i] <= 'Z') ==> #[trigger] lowered(s)[i] == s[i],
{
    assert(lowered(lowered(s)) =~= lowered(s));
}

// ---------------------------------------------------------------- searching

/// A text holds another where that stands at some place in it.
pub proof fn held_text_stands_somewhere(s: Seq<char>, p: Seq<char>)
    ensures
        holds_text(s, p) <==> exists|i: int|
            0 <= i && i + p.len() <= s.len() && #[trigger] s.subrange(i, i + p.len()) == p,
{
    find_is_first(s, p, 0);
    if exists|i: int| 0 <= i && i + p.len() <= s.len() && #[trigger] s.subrange(i, i + p.len()) == p {
        let i = choose|i: int|
            0 <= i && i + p.len() <= s.len() && #[trigger] s.subrange(i, i + p.len()) == p;
        assert(matches_at(s, p, i));
    }
}

/// A text is taken apart at the first place where the separator stands, and its two
/// sides make it up again.
pub proof fn sides_make_up_text(s: Seq<char>, p: Seq<char>)
    ensures
        match split_at_first(s, p) {
            Some((left, right)) => left + p + right == s && !holds_text(
                left + p.take(p.len() - 1),
                p,
            ) || p.len() == 0,
            None => !holds_text(s, p),
        },
{
    find_is_first(s, p, 0);
    if let Some((left, right)) = split_at_first(s, p) {
        assert(left + p + right =~= s);
        if p.len() > 0 {
            let t = left + p.take(p.len() - 1);
            find_is_first(t, p, 0);
            if holds_text(t, p) {
                held_text_stands_somewhere(t, p);
                let i = choose|i: int|
                    0 <= i && i + p.len() <= t.len() && #[trigger] t.subrange(i, i + p.len()) == p;
                assert(t =~= s.take(t.len() as int));
                assert(s.subrange(i, i + p.len()) =~= p);
                assert(matches_at(s, p, i));
            }
        }
    }
}

// ---------------------------------------------------------------- replacing

/// The first occurrence of a text is replaced, what stands before it stays, and what
/// follows it is replaced in turn.
pub proof fn first_is_replaced(a: Seq<char>, p: Seq<char>, b: Seq<char>, with: Seq<char>)
    requires
        p.len() > 0,
        forall|i: int| 0 <= i < a.len() ==> !#[trigger] matches_at(a + p + b, p, i),
    ensures
        replaced(a + p + b, p, with) == a + with + replaced(b, p, with),
    decreases a.len(),
{
    let s = a + p + b;
    if a.len() == 0 {
        assert(s.subrange(0, p.len() as int) =~= p);
        assert(s.skip(p.len() as int) =~= b);
        assert(a + with =~= with);
    } else {
        assert(!matches_at(s, p, 0));
        let t = a.skip(1) + p + b;
        assert(s.skip(1) =~= t);
        assert forall|i: int| 0 <= i < a.len() - 1 implies !#[trigger] matches_at(t, p, i) by {
            assert(!matches_at(s, p, i + 1));
            if matches_at(t, p, i) {
                assert(s.subrange(i + 1, i + 1 + p.len()) =~= t.subrange(i, i + p.len()));
            }
        }
        first_is_replaced(a.skip(1), p, b, with);
        assert(seq![s[0]] + (a.skip(1) + with + replaced(b, p, with)) =~= a + with + replaced(
            b,
            p,
            with,
        ));
    }
}

// ---------------------------------------------------------------- joining

/// The texts of two lists stand side by side when both are joined.
pub proof fn joined_of_two(p: Seq<Seq<char>>, q: Seq<Seq<char>>, sep: Seq<char>)
    requires
        p.len() > 0,
        q.len() > 0,
    ensures
        joined(p + q, sep) == joined(p, sep) + sep + joined(q, sep),
    decreases q.len(),
{
    assert((p + q).drop_last() =~= p + q.drop_last());
    assert((p + q).last() == q.last());
    if q.len() == 1 {
        assert(p + q.drop_last() =~= p);
    } else {
        joined_of_two(p, q.drop_last(), sep);
        assert(joined(p + q, sep) =~= joined(p, sep) + sep + joined(q, sep));
    }
}

// ---------------------------------------------------------------- splitting

/// A text of two parts round a separator has the pieces of the one and those of the
/// other.
pub proof fn pieces_of_two(a: Seq<char>, c: char, b: Seq<char>, set: CharSet)
    requires
        set.has(c),
    ensures
        split_by(a + seq![c] + b, set) == split_by(a, set) + split_by(b, set),
    decreases b.len(),
{
    let s = a + seq![c] + b;
    if b.len() == 0 {
        assert(s.drop_last() =~= a);
        assert(split_by(s, set) =~= split_by(a, set) + split_by(b, set));
    } else {
        pieces_of_two(a, c, b.drop_last(), set);
        assert(s.drop_last() =~= a + seq![c] + b.drop_last());
        assert(s.last() == b.last());
        split_by_nonempty(b.drop_last(), set);
        assert(split_by(s, set) =~= split_by(a, set) + split_by(b, set));
    }
}

/// A text without a separator is one piece.
pub proof fn one_piece(s: Seq<char>, set: CharSet)
    requires
        forall|i: int| 0 <= i < s.len() ==> !set.has(#[trigger] s[i]),
    ensures
        split_by(s, set) =~= seq![s],
    decreases s.len(),
{
    if s.len() > 0 {
        one_piece(s.drop_last(), set);
        assert(s.drop_last().push(s.last()) =~= s);
    } else {
        assert(s =~= Seq::empty());
    }
}

/// The items of a list are those of its parts round a separator.
pub proof fn items_of_two(a: Seq<char>, c: char, b: Seq<char>, set: CharSet)
    requires
        set.has(c),
    ensures
        list_items(a + seq![c] + b, set) == list_items(a, set) + list_items(b, set),
{
    pieces_of_two(a, c, b, set);
    pieces_trimmed_of_two(split_by(a, set), split_by(b, set));
}

proof fn pieces_trimmed_of_two(p: Seq<Seq<char>>, q: Seq<Seq<char>>)
    ensures
        trimmed_pieces(p + q) == trimmed_pieces(p) + trimmed_pieces(q),
    decreases q.len(),
{
    if q.len() == 0 {
        assert(p + q =~= p);
        assert(trimmed_pieces(p) + Seq::<Seq<char>>::empty() =~= trimmed_pieces(p));
    } else {
        pieces_trimmed_of_two(p, q.drop_last());
        assert((p + q).drop_last() =~= p + q.drop_last());
        assert(trimmed_pieces(p + q) =~= trimmed_pieces(p) + trimmed_pieces(q));
    }
}

/// A part of a list without separators is one item, without the blanks round it;
/// a blank one is none.
pub proof fn one_item(s: Seq<char>, set: CharSet)
    requires
        forall|i: int| 0 <= i < s.len() ==> !set.has(#[trigger] s[i]),
    ensures
        blank(s) ==> list_items(s, set).len() == 0,
        !blank(s) ==> list_items(s, set) == seq![trimmed(s)],
{
    one_piece(s, set);
    let pieces = seq![s];
    assert(pieces.drop_last() =~= Seq::<Seq<char>>::empty());
    assert(trimmed_pieces(pieces.drop_last()) =~= Seq::<Seq<char>>::empty());
    if !blank(s) {
        assert(trimmed_pieces(pieces) =~= seq![trimmed(s)]);
    }
}

/// Every piece that is not blank is kept, trimmed, and nothing else.
pub proof fn filled_pieces_are_kept(pieces: Seq<Seq<char>>, piece: Seq<char>)
    ensures
        trimmed_pieces(pieces).contains(piece) <==> exists|i: int|
            0 <= i < pieces.len() && !blank(#[trigger] pieces[i]) && trimmed(pieces[i]) == piece,
    decreases pieces.len(),
{
    if pieces.len() > 0 {
        let rest = pieces.drop_last();
        let before = trimmed_pieces(rest);
        let own = trimmed(pieces.last());
        filled_pieces_are_kept(rest, piece);
        assert(pieces[pieces.len() - 1] == pieces.last());
        if exists|i: int|
            0 <= i < rest.len() && !blank(#[trigger] rest[i]) && trimmed(rest[i]) == piece {
            let i = choose|i: int|
                0 <= i < rest.len() && !blank(#[trigger] rest[i]) && trimmed(rest[i]) == piece;
            assert(pieces[i] == rest[i]);
        }
        if exists|i: int|
            0 <= i < pieces.len() && !blank(#[trigger] pieces[i]) && trimmed(pieces[i]) == piece {
            let i = choose|i: int|
                0 <= i < pieces.len() && !blank(#[trigger] pieces[i]) && trimmed(pieces[i])
                    == piece;
            if i < rest.len() {
                assert(rest[i] == pieces[i]);
            }
        }
        if before.push(own).contains(piece) {
            let k = choose|k: int| 0 <= k < before.len() + 1 && before.push(own)[k] == piece;
            if k < before.len() {
                assert(before[k] == piece);
            }
        }
        if before.contains(piece) {
            let k = choose|k: int| 0 <= k < before.len() && before[k] == piece;
            assert(before.push(own)[k] == piece);
        }
        assert(before.push(own)[before.len() as int] == own);
    }
}

// ---------------------------------------------------------------- characters

/// The characters that count as white space.
pub proof fn white_space_is_known(c: char)
    ensures
        is_space(c) <==> {
            ||| c == ' ' || c == '\t' || c == '\n' || c == '\r' || c == '\u{b}' || c == '\u{c}'
            ||| c == '\u{85}' || c == '\u{a0}' || c == '\u{1680}' || c == '\u{3000}'
            ||| '\u{2000}' <= c && c <= '\u{200a}'
            ||| c == '\u{2028}' || c == '\u{2029}' || c == '\u{202f}' || c == '\u{205f}'
        },
{
}

/// Latin letters have two cases, each of which leads to the other; nothing else changes.
pub proof fn letters_have_two_cases(c: char)
    ensures
        'A' <= c && c <= 'Z' ==> lower_char(c) as int == c as int + ('a' as int - 'A' as int),
        'a' <= c && c <= 'z' ==> upper_char(c) as int == c as int - ('a' as int - 'A' as int),
        !('A' <= c && c <= 'Z') ==> lower_char(c) == c,
        !('a' <= c && c <= 'z') ==> upper_char(c) == c,
        'A' <= c && c <= 'Z' ==> upper_char(lower_char(c)) == c,
        is_alnum(c) <==> ('A' <= c && c <= 'Z') || ('a' <= c && c <= 'z') || ('0' <= c && c
            <= '9'),
{
}

/// Lists are cut at commas, semicolons and white space, entries at commas, semicolons and
/// line ends.
pub proof fn separators_are_known(c: char, only: char)
    ensures
        CharSet::ListSep.has(c) <==> c == ',' || c == ';' || c == '\n' || c == '\t' || c == ' ',
        CharSet::EntrySep.has(c) <==> c == ',' || c == ';' || c == '\n',
        CharSet::LineEnd.has(c) <==> c == '\n' || c == '\r',
        CharSet::Space.has(c) <==> is_space(c),
        CharSet::Only(only).has(c) <==> c == only,
{
}

} // verus!
