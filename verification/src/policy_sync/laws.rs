//! What holds of taking over a policy, step by step.
use crate::daemon::access::between_quotes;
use crate::json::laws::{holds, members_of};
use crate::json::{json_pretty, json_read, text_member, text_or_null, JsonView};
use crate::number::decimal;
use crate::policy_crypto::{signature_text, verification};
use crate::policy_sync::{
    algorithm_of, body_part, check_json, check_report_json, current_part, current_revision,
    failure_text, header_revision, nonblank, or_empty, passes, payload_check, raw_revision,
    received_of, remote_revision_of, retry_after_mismatch, retry_after_precondition, revision_in,
    sent_revision, signature_check, strong_tag, sync_step, synced_json, unchanged_json, verify_key,
    CheckView, ResponseView, StepView, SyncOptions,
};
use crate::strmap::lookup;
use crate::text::{after_prefix, blank, lowered, trimmed};
use vstd::prelude::*;

verus! {

// ---------------------------------------------------------------- revisions

/// A text counts without the blanks round it, and a blank one does not.
pub proof fn blank_texts_are_none(text: Seq<char>)
    ensures
        nonblank(None) is None,
        blank(text) ==> nonblank(Some(text)) is None,
        !blank(text) ==> nonblank(Some(text)) == Some(trimmed(text)),
        or_empty(None).len() == 0,
        or_empty(Some(text)) == text,
{
}

/// An etag may be marked as weak in either case; the revision is what stands in its
/// quotes.
pub proof fn weak_etags_hold_revisions(raw: Seq<char>, rest: Seq<char>)
    ensures
        after_prefix(raw, "W/"@) == Some(rest) ==> strong_tag(raw) == trimmed(rest),
        after_prefix(raw, "W/"@) is None && after_prefix(raw, "w/"@) == Some(rest) ==> strong_tag(
            raw,
        ) == trimmed(rest),
        after_prefix(raw, "W/"@) is None && after_prefix(raw, "w/"@) is None ==> strong_tag(raw)
            == raw,
        ({
            let quoted = between_quotes(strong_tag(trimmed(raw)));
            &&& quoted is None ==> sent_revision(raw) is None
            &&& quoted is Some && blank(quoted->0) ==> sent_revision(raw) is None
            &&& quoted is Some && !blank(quoted->0) ==> sent_revision(raw) == Some(
                trimmed(quoted->0),
            )
        }),
        header_revision(None) is None,
        header_revision(Some(raw)) == sent_revision(raw),
{
}

/// The revision that a document names goes before that of its etag.
pub proof fn documents_name_revisions(
    payload: JsonView,
    etag: Seq<char>,
    missing: Seq<char>,
    message: Seq<char>,
)
    ensures
        text_member(payload, "policy_revision"@) matches Some(revision) ==> (if blank(revision) {
            revision_in(payload, Some(etag), missing) == Ok::<Seq<char>, Seq<char>>(etag)
        } else {
            revision_in(payload, Some(etag), missing) == Ok::<Seq<char>, Seq<char>>(
                trimmed(revision),
            )
        }),
        text_member(payload, "policy_revision"@) is None ==> {
            &&& revision_in(payload, Some(etag), missing) == Ok::<Seq<char>, Seq<char>>(etag)
            &&& revision_in(payload, None, missing) == Err::<Seq<char>, Seq<char>>(missing)
            &&& raw_revision(Ok(payload)) == Ok::<Option<Seq<char>>, Seq<char>>(None)
        },
        text_member(payload, "policy_revision"@) matches Some(revision) ==> (!blank(revision)
            ==> raw_revision(Ok(payload)) == Ok::<Option<Seq<char>>, Seq<char>>(
            Some(trimmed(revision)),
        )),
        raw_revision(Err(message)) == Err::<Option<Seq<char>>, Seq<char>>(
            "policy snapshot is not valid json"@,
        ),
{
}

/// A failure is told with its status and, where there is one, with the body.
pub proof fn failures_are_told(what: Seq<char>, response: ResponseView)
    ensures
        blank(response.body) ==> failure_text(what, response) == what + " failed with status "@
            + response.status_text,
        !blank(response.body) ==> failure_text(what, response) == what + " failed with status "@
            + response.status_text + ": "@ + response.body,
{
}

// ---------------------------------------------------------------- signatures

/// A key that is given goes before those of the environment, and there the one for
/// verifying before the one for signing.
pub proof fn given_keys_go_first(key: Seq<char>, env: Seq<(Seq<char>, Seq<char>)>)
    ensures
        !blank(key) ==> verify_key(Some(key), env) == Some(trimmed(key)),
        ({
            let verifying = lookup(env, "ANNA_POLICY_VERIFY_KEY"@);
            let signing = lookup(env, "ANNA_POLICY_SIGNING_KEY"@);
            &&& verifying is Some && !blank(verifying->0) ==> verify_key(None, env) == Some(
                trimmed(verifying->0),
            )
            &&& verifying is None && signing is Some && !blank(signing->0) ==> verify_key(
                None,
                env,
            ) == Some(trimmed(signing->0))
            &&& verifying is None && signing is None ==> verify_key(None, env) is None
            &&& blank(key) ==> verify_key(Some(key), env) == verify_key(None, env)
        }),
{
}

/// A policy without a signature passes where that is allowed, and only there.
pub proof fn unsigned_policies_need_leave(
    revision: Seq<char>,
    algorithm: Option<Seq<char>>,
    key: Option<Seq<char>>,
)
    ensures
        signature_check(revision, None, algorithm, key, false) is Err,
        signature_check(revision, None, algorithm, key, true) matches Ok(check) && !check.verified
            && check.status == "unsigned"@ && check.received_signature is None
            && check.expected_signature is None && check.signature_algorithm is None && passes(
            check,
        ),
        received_of(None, true) == Ok::<Option<Seq<char>>, Seq<char>>(None),
        received_of(None, false) == Err::<Option<Seq<char>>, Seq<char>>(
            "policy revision is unsigned; set --allow-unsigned to ignore"@,
        ),
{
}

/// Only one algorithm is known, in any case; it is meant where none is named.
pub proof fn one_algorithm_is_known(name: Seq<char>)
    ensures
        algorithm_of(None) == Ok::<Seq<char>, Seq<char>>("hmac-sha256"@),
        blank(name) ==> algorithm_of(Some(name)) == Ok::<Seq<char>, Seq<char>>("hmac-sha256"@),
        !blank(name) && lowered(trimmed(name)) == "hmac-sha256"@ ==> algorithm_of(Some(name))
            == Ok::<Seq<char>, Seq<char>>(trimmed(name)),
        !blank(name) && lowered(trimmed(name)) != "hmac-sha256"@ ==> algorithm_of(Some(name))
            == Err::<Seq<char>, Seq<char>>(
            "unsupported policy signature algorithm '"@ + trimmed(name) + "'"@,
        ),
{
    reveal_strlit("hmac-sha256");
    assert(lowered("hmac-sha256"@) =~= "hmac-sha256"@);
}

/// A signature is found good or bad under the key, and the outcome tells which
/// signature came and which was expected.
pub proof fn signatures_are_told(
    revision: Seq<char>,
    signature: Seq<char>,
    key: Seq<char>,
    allow_unsigned: bool,
)
    requires
        !blank(signature),
    ensures
        signature_check(revision, Some(signature), None, None, allow_unsigned) is Err,
        ({
            let received = trimmed(signature);
            let outcome = signature_check(revision, Some(signature), None, Some(key), allow_unsigned);
            &&& verification(revision, received, key) is None ==> outcome == Err::<
                CheckView,
                Seq<char>,
            >("policy signature is not valid hexadecimal"@)
            &&& verification(revision, received, key) is Some ==> {
                &&& outcome is Ok
                &&& outcome->Ok_0.verified == verification(revision, received, key)->0
                &&& passes(outcome->Ok_0) <==> verification(revision, received, key) == Some(true)
                &&& outcome->Ok_0.verified ==> outcome->Ok_0.status == "verified"@
                &&& !outcome->Ok_0.verified ==> outcome->Ok_0.status == "invalid_signature"@
                &&& outcome->Ok_0.received_signature == Some(received)
                &&& outcome->Ok_0.expected_signature == Some(signature_text(revision, key))
                &&& outcome->Ok_0.signature_algorithm == Some("hmac-sha256"@)
            }
        }),
{
    one_algorithm_is_known(Seq::empty());
    reveal_strlit("unsigned");
    reveal_strlit("invalid_signature");
    reveal_strlit("verified");
    assert("unsigned"@.len() != "invalid_signature"@.len());
}

/// The signature that is checked is that of the revision which the answer names.
pub proof fn answers_are_checked(payload: JsonView, key: Option<Seq<char>>, allow_unsigned: bool)
    ensures
        text_member(payload, "policy_revision"@) is None ==> payload_check(
            payload,
            key,
            allow_unsigned,
        ) == Err::<(Seq<char>, CheckView), Seq<char>>(
            "policy revision response missing 'policy_revision'"@,
        ),
        text_member(payload, "policy_revision"@) matches Some(revision) ==> (!blank(revision) ==> {
            let outcome = signature_check(
                trimmed(revision),
                nonblank(text_member(payload, "policy_signature"@)),
                nonblank(text_member(payload, "policy_signature_algorithm"@)),
                key,
                allow_unsigned,
            );
            &&& outcome is Ok ==> payload_check(payload, key, allow_unsigned) == Ok::<
                (Seq<char>, CheckView),
                Seq<char>,
            >((trimmed(revision), outcome->Ok_0))
            &&& outcome is Err ==> payload_check(payload, key, allow_unsigned) == Err::<
                (Seq<char>, CheckView),
                Seq<char>,
            >(outcome->Err_0)
        }),
{
}

// ---------------------------------------------------------------- steps

/// Where the policy changed in between, it is asked for again as often as it may be;
/// after that the failure is told.
pub proof fn changed_policies_are_asked_again(
    response: ResponseView,
    attempt: usize,
    retries: usize,
    remote: Seq<char>,
    snapshot: Seq<char>,
)
    ensures
        response.status != 412 ==> retry_after_precondition(response, attempt, retries, remote)
            == Ok::<bool, Seq<char>>(false),
        response.status == 412 && attempt <= retries ==> retry_after_precondition(
            response,
            attempt,
            retries,
            remote,
        ) == Ok::<bool, Seq<char>>(true),
        response.status == 412 && attempt > retries ==> retry_after_precondition(
            response,
            attempt,
            retries,
            remote,
        ) == Err::<bool, Seq<char>>(
            "policy snapshot precondition failed after "@ + decimal(attempt as nat)
                + " attempts (revision endpoint='"@ + remote + "'"@ + current_part(response)
                + body_part(response.body),
        ),
        retry_after_mismatch(remote, remote, attempt, retries) == Ok::<bool, Seq<char>>(false),
        snapshot != remote && attempt <= retries ==> retry_after_mismatch(
            remote,
            snapshot,
            attempt,
            retries,
        ) == Ok::<bool, Seq<char>>(true),
        snapshot != remote && attempt > retries ==> retry_after_mismatch(
            remote,
            snapshot,
            attempt,
            retries,
        ) == Err::<bool, Seq<char>>(
            "policy snapshot revision mismatch after "@ + decimal(attempt as nat)
                + " attempts (revision endpoint='"@ + remote + "', snapshot='"@ + snapshot + "')"@,
        ),
{
}

/// The revision that the daemon has now is told where it is known.
pub proof fn current_revisions_are_told(response: ResponseView)
    ensures
        response.etag is Some ==> current_revision(response) == response.etag,
        response.etag is None && json_read(response.body) is Err ==> current_revision(response)
            is None,
        response.etag is None && json_read(response.body) is Ok ==> current_revision(response)
            == nonblank(text_member(json_read(response.body)->Ok_0, "policy_revision"@)),
        current_revision(response) matches Some(current) ==> current_part(response)
            == ", current='"@ + current + "')"@,
        current_revision(response) is None ==> current_part(response) == ")"@,
        blank(response.body) ==> body_part(response.body).len() == 0,
        !blank(response.body) ==> body_part(response.body) == ": "@ + response.body,
{
}

/// A daemon that has no other policy says so; else its answer names the revision.
pub proof fn daemons_name_their_revision(
    response: ResponseView,
    payload: JsonView,
    message: Seq<char>,
)
    ensures
        response.status == 304 ==> remote_revision_of(response, Ok(payload)) == Ok::<
            Option<Seq<char>>,
            Seq<char>,
        >(None),
        response.status != 304 && !(200 <= response.status < 300) ==> remote_revision_of(
            response,
            Ok(payload),
        ) == Err::<Option<Seq<char>>, Seq<char>>(
            failure_text("policy revision request"@, response),
        ),
        200 <= response.status < 300 ==> remote_revision_of(response, Err(message)) == Err::<
            Option<Seq<char>>,
            Seq<char>,
        >("daemon returned non-json policy revision response"@),
        200 <= response.status < 300 ==> (text_member(payload, "policy_revision"@) matches Some(
            revision,
        ) ==> (!blank(revision) ==> remote_revision_of(response, Ok(payload)) == Ok::<
            Option<Seq<char>>,
            Seq<char>,
        >(Some(trimmed(revision))))),
{
}

/// A snapshot of the revision that was named is kept, checked where that is asked for.
pub proof fn named_snapshots_are_kept(
    options: SyncOptions,
    response: ResponseView,
    snapshot: JsonView,
    attempt: usize,
    remote: Seq<char>,
    key: Option<Seq<char>>,
)
    requires
        200 <= response.status < 300,
        text_member(snapshot, "policy_revision"@) == Some(remote),
        !blank(remote),
        trimmed(remote) == remote,
    ensures
        !options.verify ==> sync_step(options, response, Ok(snapshot), attempt, remote, key)
            == Ok::<StepView, Seq<char>>(StepView::Keep(snapshot, json_pretty(snapshot), None)),
        options.verify ==> ({
            let outcome = signature_check(
                remote,
                nonblank(text_member(snapshot, "policy_signature"@)),
                nonblank(text_member(snapshot, "policy_signature_algorithm"@)),
                key,
                options.allow_unsigned,
            );
            let step = sync_step(options, response, Ok(snapshot), attempt, remote, key);
            &&& outcome is Err ==> step == Err::<StepView, Seq<char>>(outcome->Err_0)
            &&& outcome is Ok && passes(outcome->Ok_0) ==> step == Ok::<StepView, Seq<char>>(
                StepView::Keep(snapshot, json_pretty(snapshot), Some(outcome->Ok_0)),
            )
            &&& outcome is Ok && !passes(outcome->Ok_0) ==> step == Err::<StepView, Seq<char>>(
                "policy snapshot signature verification failed (received='"@ + or_empty(
                    outcome->Ok_0.received_signature,
                ) + "', expected='"@ + or_empty(outcome->Ok_0.expected_signature) + "')"@,
            )
        }),
{
}

/// A snapshot of another revision, or of a policy that changed, is asked for again; an
/// answer that is none is told.
pub proof fn other_snapshots_are_asked_again(
    options: SyncOptions,
    response: ResponseView,
    snapshot: JsonView,
    attempt: usize,
    remote: Seq<char>,
    other: Seq<char>,
    key: Option<Seq<char>>,
    message: Seq<char>,
)
    requires
        attempt <= options.retries,
    ensures
        response.status == 412 ==> sync_step(
            options,
            response,
            Ok(snapshot),
            attempt,
            remote,
            key,
        ) == Ok::<StepView, Seq<char>>(StepView::Again),
        200 <= response.status < 300 && text_member(snapshot, "policy_revision"@) == Some(other)
            && !blank(other) && trimmed(other) != remote ==> sync_step(
            options,
            response,
            Ok(snapshot),
            attempt,
            remote,
            key,
        ) == Ok::<StepView, Seq<char>>(StepView::Again),
        200 <= response.status < 300 ==> sync_step(
            options,
            response,
            Err(message),
            attempt,
            remote,
            key,
        ) == Err::<StepView, Seq<char>>("daemon returned non-json policy snapshot response"@),
        response.status != 412 && !(200 <= response.status < 300) ==> sync_step(
            options,
            response,
            Ok(snapshot),
            attempt,
            remote,
            key,
        ) == Err::<StepView, Seq<char>>(failure_text("policy snapshot request"@, response)),
        200 <= response.status < 300 && response.etag is None && text_member(
            snapshot,
            "policy_revision"@,
        ) is None ==> sync_step(options, response, Ok(snapshot), attempt, remote, key) == Err::<
            StepView,
            Seq<char>,
        >("policy snapshot response missing 'policy_revision'"@),
{
}

// ---------------------------------------------------------------- reports

/// The outcome of a check is reported whole.
pub proof fn checks_are_reported(check: CheckView)
    ensures
        holds(check_json(check), "expected_signature"@, text_or_null(check.expected_signature)),
        holds(check_json(check), "received_signature"@, text_or_null(check.received_signature)),
        holds(check_json(check), "signature_algorithm"@, text_or_null(check.signature_algorithm)),
        holds(check_json(check), "status"@, JsonView::Text(check.status)),
        holds(check_json(check), "verified"@, JsonView::Bool(check.verified)),
        members_of(check_json(check)).len() == 5,
{
    let members = members_of(check_json(check));
    assert(members[0].0 == "expected_signature"@);
    assert(members[1].0 == "received_signature"@);
    assert(members[2].0 == "signature_algorithm"@);
    assert(members[3].0 == "status"@);
    assert(members[4].0 == "verified"@);
}

/// The outcome of a check is reported with the revision that was checked.
pub proof fn checks_are_reported_with_revision(revision: Seq<char>, check: CheckView)
    ensures
        holds(
            check_report_json(revision, check),
            "expected_signature"@,
            text_or_null(check.expected_signature),
        ),
        holds(check_report_json(revision, check), "policy_revision"@, JsonView::Text(revision)),
        holds(
            check_report_json(revision, check),
            "received_signature"@,
            text_or_null(check.received_signature),
        ),
        holds(
            check_report_json(revision, check),
            "signature_algorithm"@,
            text_or_null(check.signature_algorithm),
        ),
        holds(check_report_json(revision, check), "status"@, JsonView::Text(check.status)),
        holds(check_report_json(revision, check), "verified"@, JsonView::Bool(check.verified)),
        members_of(check_report_json(revision, check)).len() == 6,
{
    let members = members_of(check_report_json(revision, check));
    assert(members[0].0 == "expected_signature"@);
    assert(members[1].0 == "policy_revision"@);
    assert(members[2].0 == "received_signature"@);
    assert(members[3].0 == "signature_algorithm"@);
    assert(members[4].0 == "status"@);
    assert(members[5].0 == "verified"@);
}

/// That nothing has changed is reported with the revision and how often it was asked.
pub proof fn unchanged_policies_are_reported(
    path: Seq<char>,
    previous: Option<Seq<char>>,
    attempt: usize,
)
    ensures
        holds(
            unchanged_json(path, previous, attempt),
            "attempts"@,
            JsonView::Number(Some(attempt as u64), decimal(attempt as nat)),
        ),
        holds(unchanged_json(path, previous, attempt), "path"@, JsonView::Text(path)),
        holds(unchanged_json(path, previous, attempt), "policy_revision"@, text_or_null(previous)),
        holds(unchanged_json(path, previous, attempt), "status"@, JsonView::Text("not_modified"@)),
        members_of(unchanged_json(path, previous, attempt)).len() == 4,
{
    let members = members_of(unchanged_json(path, previous, attempt));
    assert(members[0].0 == "attempts"@);
    assert(members[1].0 == "path"@);
    assert(members[2].0 == "policy_revision"@);
    assert(members[3].0 == "status"@);
}

/// A policy that was taken over is reported with its revision and the one before.
pub proof fn taken_policies_are_reported(
    path: Seq<char>,
    previous: Option<Seq<char>>,
    remote: Seq<char>,
    attempt: usize,
    check: Option<CheckView>,
)
    ensures
        ({
            let report = synced_json(path, previous, remote, attempt, check);
            &&& holds(
                report,
                "attempts"@,
                JsonView::Number(Some(attempt as u64), decimal(attempt as nat)),
            )
            &&& holds(report, "path"@, JsonView::Text(path))
            &&& holds(report, "policy_revision"@, JsonView::Text(remote))
            &&& holds(report, "previous_policy_revision"@, text_or_null(previous))
            &&& holds(report, "status"@, JsonView::Text("synced"@))
            &&& check is Some ==> holds(report, "signature_verification"@, check_json(check->0))
            &&& check is None ==> members_of(report).len() == 5
        }),
{
    let members = members_of(synced_json(path, previous, remote, attempt, check));
    assert(members[0].0 == "attempts"@);
    assert(members[1].0 == "path"@);
    assert(members[2].0 == "policy_revision"@);
    assert(members[3].0 == "previous_policy_revision"@);
    assert(members[4].0 == "status"@);
    if check is Some {
        assert(members[5].0 == "signature_verification"@);
    }
}

/// A signature cannot be checked without a key, which is told.
pub proof fn missing_keys_are_told(
    revision: Seq<char>,
    signature: Seq<char>,
    allow_unsigned: bool,
)
    requires
        !blank(signature),
    ensures
        signature_check(revision, Some(signature), None, None, allow_unsigned) == Err::<
            CheckView,
            Seq<char>,
        >(
            "missing verification key; pass --key or set ANNA_POLICY_VERIFY_KEY / ANNA_POLICY_SIGNING_KEY"@,
        ),
{
    one_algorithm_is_known(Seq::empty());
}

} // verus!
