//! What holds of etags, of tokens and of callers.
use crate::daemon::access::{
    bears_token, between_quotes, caller_of, etag_is, etag_of, etag_revision_of, freshness_of,
    header_names, Freshness,
};
use crate::text::{after_prefix, blank, lowered, split_by, trimmed, CharSet};
use vstd::prelude::*;

verus! {

/// What stands in double quotes is found without them; anything else is not quoted.
pub proof fn quotes_are_taken_off(inner: Seq<char>, text: Seq<char>)
    ensures
        between_quotes(seq!['"'] + inner + seq!['"']) == Some(inner),
        text.len() < 2 ==> between_quotes(text) is None,
        text.len() >= 2 && text[0] != '"' ==> between_quotes(text) is None,
        text.len() >= 2 && text.last() != '"' ==> between_quotes(text) is None,
{
    let quoted = seq!['"'] + inner + seq!['"'];
    assert(quoted.subrange(1, quoted.len() - 1) =~= inner);
}

/// An etag holds its revision without blanks, and a weak one holds the same.
pub proof fn weak_etags_count(raw: Seq<char>, rest: Seq<char>, inner: Seq<char>)
    ensures
        etag_of(inner) == "\""@ + trimmed(inner) + "\""@,
        after_prefix(trimmed(raw), "W/"@) == Some(rest) && between_quotes(trimmed(rest)) == Some(
            inner,
        ) && !blank(inner) ==> etag_revision_of(raw) == Some(trimmed(inner)),
        after_prefix(trimmed(raw), "W/"@) is None && between_quotes(trimmed(raw)) == Some(inner)
            && !blank(inner) ==> etag_revision_of(raw) == Some(trimmed(inner)),
        after_prefix(trimmed(raw), "W/"@) is None && between_quotes(trimmed(raw)) is None
            ==> etag_revision_of(raw) is None,
        after_prefix(trimmed(raw), "W/"@) is None && between_quotes(trimmed(raw)) == Some(inner)
            && blank(inner) ==> etag_revision_of(raw) is None,
{
}

/// A header names a revision if and only if one of its candidates is every revision or
/// holds this one.
pub proof fn headers_name_revisions(raw: Seq<char>, revision: Seq<char>, i: int)
    ensures
        ({
            let candidates = split_by(raw, CharSet::Only(','));
            &&& 0 <= i < candidates.len() && trimmed(candidates[i]) == "*"@ ==> header_names(
                raw,
                revision,
            )
            &&& 0 <= i < candidates.len() && etag_revision_of(trimmed(candidates[i])) == Some(
                trimmed(revision),
            ) ==> header_names(raw, revision)
            &&& header_names(raw, revision) ==> exists|k: int|
                0 <= k < candidates.len() && (trimmed(#[trigger] candidates[k]) == "*"@
                    || etag_revision_of(trimmed(candidates[k])) == Some(trimmed(revision)))
        }),
{
    let candidates = split_by(raw, CharSet::Only(','));
    if 0 <= i < candidates.len() && etag_is(candidates[i], revision) {
        assert(header_names(raw, revision));
    }
    if header_names(raw, revision) {
        let k = choose|k: int|
            0 <= k < candidates.len() && etag_is(#[trigger] candidates[k], revision);
        assert(trimmed(candidates[k]) == "*"@ || etag_revision_of(trimmed(candidates[k])) == Some(
            trimmed(revision),
        ));
    }
}

/// A caller that insists on another revision is turned away, one that has this
/// revision is told so, and every other gets the answer.
pub proof fn callers_get_what_they_lack(
    if_match: Option<Seq<char>>,
    if_none_match: Option<Seq<char>>,
    revision: Seq<char>,
)
    ensures
        ({
            let insists = if_match is Some && !header_names(if_match->0, revision);
            let current = if_none_match is Some && header_names(if_none_match->0, revision);
            let told = freshness_of(if_match, if_none_match, revision);
            &&& insists <==> told == Freshness::PreconditionFailed
            &&& !insists && current <==> told == Freshness::NotModified
            &&& !insists && !current <==> told == Freshness::Answer
        }),
{
}

/// The token counts in either header, and in `Authorization` with `Bearer` or without;
/// a request without headers bears none.
pub proof fn tokens_count_in_headers(
    authorization: Option<Seq<char>>,
    anna_token: Option<Seq<char>>,
    expected: Seq<char>,
)
    ensures
        !bears_token(None, None, expected),
        anna_token is Some ==> (bears_token(None, anna_token, expected) <==> trimmed(
            anna_token->0,
        ) == expected),
        authorization is Some ==> (bears_token(authorization, None, expected) <==> trimmed(
            authorization->0,
        ) == expected || (after_prefix(trimmed(authorization->0), "Bearer "@) is Some && trimmed(
            after_prefix(trimmed(authorization->0), "Bearer "@)->0,
        ) == expected)),
        bears_token(authorization, anna_token, expected) <==> bears_token(
            authorization,
            None,
            expected,
        ) || bears_token(None, anna_token, expected),
{
}

/// A request is made for its caller, else for its role, without case and blanks; a
/// blank name is nobody's.
pub proof fn callers_go_before_roles(caller: Seq<char>, role: Option<Seq<char>>)
    ensures
        !blank(caller) ==> caller_of(Some(caller), role) == Some(lowered(trimmed(caller))),
        blank(caller) ==> caller_of(Some(caller), role) is None,
        role is Some && !blank(role->0) ==> caller_of(None, role) == Some(
            lowered(trimmed(role->0)),
        ),
        role is Some && blank(role->0) ==> caller_of(None, role) is None,
        caller_of(None, None) is None,
{
}

} // verus!
