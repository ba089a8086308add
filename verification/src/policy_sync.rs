//! Keeping a local copy of a daemon's policy: revisions, their signatures, and
//! when a copy is taken over.
use crate::daemon::access::{between_quotes, unquote};
use crate::json::{
    json_normal, json_pretty, json_read, number, object1, opt_text_value, parse_and_show,
    parse_json, pretty_json, text, text_member, text_or_null, with_member, Json, JsonView,
};
use crate::number::{decimal, u64_text};
use crate::paths::{join_path, joined_path};
use crate::policy_crypto::{
    hex_round_trip, hmac_sha256, sign_policy_revision_hmac_sha256, signature_text, verification,
    verify_policy_revision_hmac_sha256,
};
use crate::providers::vault_http::{is_success, success_status};
use crate::strmap::{lookup, StrMap};
use crate::text::{
    after_prefix, as_str_opt, blank, cat2, cat3, cat5, cat7, is_blank, is_space, lowered, opt_str,
    opt_text, same, same_ignoring_case, strip_prefix, trim, trim_end_by, trim_start_by, trimmed,
    CharSet,
};
use vstd::prelude::*;
use vstd::string::*;
use vstd::utf8::encode_utf8;

pub mod laws;

verus! {

// ---------------------------------------------------------------- reading

/// The text between its blanks, where it is not blank.
pub open spec fn nonblank(value: Option<Seq<char>>) -> Option<Seq<char>> {
    match value {
        Some(t) => if blank(t) {
            None
        } else {
            Some(trimmed(t))
        },
        None => None,
    }
}

/// The text between its blanks, where it is not blank.
pub fn non_blank(value: Option<&str>) -> (r: Option<String>)
    ensures
        opt_text(r) == nonblank(opt_str(value)),
{
    match value {
        Some(t) => {
            let t = trim(t);
            if t.is_empty() {
                None
            } else {
                Some(t.to_owned())
            }
        },
        None => None,
    }
}

/// An etag without the mark of a weak one.
pub open spec fn strong_tag(raw: Seq<char>) -> Seq<char> {
    match after_prefix(raw, "W/"@) {
        Some(rest) => trimmed(rest),
        None => match after_prefix(raw, "w/"@) {
            Some(rest) => trimmed(rest),
            None => raw,
        },
    }
}

/// The revision in an etag that a daemon sent.
pub open spec fn sent_revision(raw: Seq<char>) -> Option<Seq<char>> {
    nonblank(between_quotes(strong_tag(trimmed(raw))))
}

/// The revision in an etag that a daemon sent, weak or not.
pub fn normalize_etag_value(raw: &str) -> (r: Option<String>)
    ensures
        opt_text(r) == sent_revision(raw@),
{
    let t = trim(raw);
    let tag = match strip_prefix(t, "W/") {
        Some(rest) => trim(rest),
        None => match strip_prefix(t, "w/") {
            Some(rest) => trim(rest),
            None => t,
        },
    };
    non_blank(unquote(tag))
}

/// The revision in an etag header.
pub open spec fn header_revision(header: Option<Seq<char>>) -> Option<Seq<char>> {
    match header {
        Some(raw) => sent_revision(raw),
        None => None,
    }
}

/// The revision in an etag header.
pub fn etag_revision(header: Option<&str>) -> (r: Option<String>)
    ensures
        opt_text(r) == header_revision(opt_str(header)),
{
    match header {
        Some(raw) => normalize_etag_value(raw),
        None => None,
    }
}

/// The revision of a policy document.
pub fn policy_revision_from_json(payload: &Json) -> (r: Option<String>)
    ensures
        opt_text(r) == nonblank(text_member(payload@, "policy_revision"@)),
{
    non_blank(payload.get_str("policy_revision"))
}

/// The signature of a policy document.
pub fn policy_signature_from_json(payload: &Json) -> (r: Option<String>)
    ensures
        opt_text(r) == nonblank(text_member(payload@, "policy_signature"@)),
{
    non_blank(payload.get_str("policy_signature"))
}

/// The algorithm of a policy document's signature.
pub fn policy_signature_algorithm_from_json(payload: &Json) -> (r: Option<String>)
    ensures
        opt_text(r) == nonblank(text_member(payload@, "policy_signature_algorithm"@)),
{
    non_blank(payload.get_str("policy_signature_algorithm"))
}

pub open spec fn texts_result(r: Result<String, String>) -> Result<Seq<char>, Seq<char>> {
    match r {
        Ok(t) => Ok(t@),
        Err(e) => Err(e@),
    }
}

/// The revision that a document names, or else its etag.
pub open spec fn revision_in(
    payload: JsonView,
    etag: Option<Seq<char>>,
    missing: Seq<char>,
) -> Result<Seq<char>, Seq<char>> {
    match nonblank(text_member(payload, "policy_revision"@)) {
        Some(revision) => Ok(revision),
        None => match etag {
            Some(revision) => Ok(revision),
            None => Err(missing),
        },
    }
}

/// The revision that a document names, or else its etag.
pub fn resolve_policy_revision(payload: &Json, etag: Option<&str>, missing_message: &str) -> (r:
    Result<String, String>)
    ensures
        texts_result(r) == revision_in(payload@, opt_str(etag), missing_message@),
{
    match policy_revision_from_json(payload) {
        Some(revision) => Ok(revision),
        None => match etag {
            Some(revision) => Ok(revision.to_owned()),
            None => Err(missing_message.to_owned()),
        },
    }
}

/// The revision of a policy document's text.
pub open spec fn raw_revision(read: Result<JsonView, Seq<char>>) -> Result<
    Option<Seq<char>>,
    Seq<char>,
> {
    match read {
        Ok(payload) => Ok(nonblank(text_member(payload, "policy_revision"@))),
        Err(_) => Err("policy snapshot is not valid json"@),
    }
}

pub open spec fn opt_result(r: Result<Option<String>, String>) -> Result<
    Option<Seq<char>>,
    Seq<char>,
> {
    match r {
        Ok(t) => Ok(opt_text(t)),
        Err(e) => Err(e@),
    }
}

/// The revision of a policy document's text.
pub fn policy_revision_from_raw_json(raw: &str) -> (r: Result<Option<String>, String>)
    ensures
        opt_result(r) == raw_revision(json_read(raw@)),
{
    match parse_json(raw) {
        Ok(payload) => Ok(policy_revision_from_json(&payload)),
        Err(_) => Err("policy snapshot is not valid json".to_owned()),
    }
}

/// What a daemon answered: the status, as a number and in words, the etag's
/// revision and the body.
pub struct DaemonResponse {
    pub status: u16,
    pub status_text: String,
    pub etag: Option<String>,
    pub body: String,
}

/// An answer, as plain values.
pub struct ResponseView {
    pub status: u16,
    pub status_text: Seq<char>,
    pub etag: Option<Seq<char>>,
    pub body: Seq<char>,
}

impl View for DaemonResponse {
    type V = ResponseView;

    open spec fn view(&self) -> ResponseView {
        ResponseView {
            status: self.status,
            status_text: self.status_text@,
            etag: opt_text(self.etag),
            body: self.body@,
        }
    }
}

/// What is said of a request that failed.
pub open spec fn failure_text(what: Seq<char>, response: ResponseView) -> Seq<char> {
    if blank(response.body) {
        what + " failed with status "@ + response.status_text
    } else {
        what + " failed with status "@ + response.status_text + ": "@ + response.body
    }
}

/// What is said of a request that failed.
pub fn failure_message(what: &str, response: &DaemonResponse) -> (r: String)
    ensures
        r@ == failure_text(what@, response@),
{
    if is_blank(response.body.as_str()) {
        cat3(what, " failed with status ", response.status_text.as_str())
    } else {
        cat5(
            what,
            " failed with status ",
            response.status_text.as_str(),
            ": ",
            response.body.as_str(),
        )
    }
}

pub open spec fn unit_result(r: Result<(), String>) -> Result<(), Seq<char>> {
    match r {
        Ok(()) => Ok(()),
        Err(e) => Err(e@),
    }
}

/// Whether an answer is a success; an error says what failed.
pub fn ensure_http_success(response: &DaemonResponse, what: &str) -> (r: Result<(), String>)
    ensures
        unit_result(r) == if success_status(response.status) {
            Ok::<(), Seq<char>>(())
        } else {
            Err(failure_text(what@, response@))
        },
{
    if is_success(response.status) {
        Ok(())
    } else {
        Err(failure_message(what, response))
    }
}

// ---------------------------------------------------------------- signature

/// What came of checking a signature.
pub struct PolicySignatureCheck {
    pub status: String,
    pub verified: bool,
    pub signature_algorithm: Option<String>,
    pub received_signature: Option<String>,
    pub expected_signature: Option<String>,
}

/// What came of checking a signature, as plain values.
pub struct CheckView {
    pub status: Seq<char>,
    pub verified: bool,
    pub signature_algorithm: Option<Seq<char>>,
    pub received_signature: Option<Seq<char>>,
    pub expected_signature: Option<Seq<char>>,
}

impl View for PolicySignatureCheck {
    type V = CheckView;

    open spec fn view(&self) -> CheckView {
        CheckView {
            status: self.status@,
            verified: self.verified,
            signature_algorithm: opt_text(self.signature_algorithm),
            received_signature: opt_text(self.received_signature),
            expected_signature: opt_text(self.expected_signature),
        }
    }
}

/// The outcome where there is no signature.
pub open spec fn unsigned_check() -> CheckView {
    CheckView {
        status: "unsigned"@,
        verified: false,
        signature_algorithm: None,
        received_signature: None,
        expected_signature: None,
    }
}

/// The outcome where there is no signature.
pub fn unsigned_signature_status() -> (r: PolicySignatureCheck)
    ensures
        r@ == unsigned_check(),
{
    PolicySignatureCheck {
        status: "unsigned".to_owned(),
        verified: false,
        signature_algorithm: None,
        received_signature: None,
        expected_signature: None,
    }
}

/// The word for a signature that was checked.
pub open spec fn verified_word(verified: bool) -> Seq<char> {
    if verified {
        "verified"@
    } else {
        "invalid_signature"@
    }
}

/// The word for a signature that was checked.
pub fn signature_status_from_verified(verified: bool) -> (r: &'static str)
    ensures
        r@ == verified_word(verified),
{
    if verified {
        "verified"
    } else {
        "invalid_signature"
    }
}

/// The signature to check; `None` where an unsigned policy is allowed.
pub open spec fn received_of(signature: Option<Seq<char>>, allow_unsigned: bool) -> Result<
    Option<Seq<char>>,
    Seq<char>,
> {
    match nonblank(signature) {
        Some(t) => Ok(Some(t)),
        None => if allow_unsigned {
            Ok(None)
        } else {
            Err("policy revision is unsigned; set --allow-unsigned to ignore"@)
        },
    }
}

/// The signature to check; `None` where an unsigned policy is allowed.
pub fn require_received_signature(signature: Option<&str>, allow_unsigned: bool) -> (r: Result<
    Option<String>,
    String,
>)
    ensures
        opt_result(r) == received_of(opt_str(signature), allow_unsigned),
{
    match non_blank(signature) {
        Some(t) => Ok(Some(t)),
        None => if allow_unsigned {
            Ok(None)
        } else {
            Err("policy revision is unsigned; set --allow-unsigned to ignore".to_owned())
        },
    }
}

/// The algorithm of a signature, HMAC with SHA-256 where none is named.
pub open spec fn algorithm_of(algorithm: Option<Seq<char>>) -> Result<Seq<char>, Seq<char>> {
    let name = match nonblank(algorithm) {
        Some(t) => t,
        None => "hmac-sha256"@,
    };
    if lowered(name) == lowered("hmac-sha256"@) {
        Ok(name)
    } else {
        Err("unsupported policy signature algorithm '"@ + name + "'"@)
    }
}

/// The algorithm of a signature, HMAC with SHA-256 where none is named.
pub fn parse_signature_algorithm(signature_algorithm: Option<&str>) -> (r: Result<String, String>)
    ensures
        texts_result(r) == algorithm_of(opt_str(signature_algorithm)),
{
    let name = match non_blank(signature_algorithm) {
        Some(t) => t,
        None => "hmac-sha256".to_owned(),
    };
    if same_ignoring_case(name.as_str(), "hmac-sha256") {
        Ok(name)
    } else {
        Err(cat3("unsupported policy signature algorithm '", name.as_str(), "'"))
    }
}

/// The key to check signatures with: the given one, or else one from the
/// environment.
pub open spec fn verify_key(key: Option<Seq<char>>, env: Seq<(Seq<char>, Seq<char>)>) -> Option<
    Seq<char>,
> {
    match nonblank(key) {
        Some(key) => Some(key),
        None => match nonblank(lookup(env, "ANNA_POLICY_VERIFY_KEY"@)) {
            Some(key) => Some(key),
            None => nonblank(lookup(env, "ANNA_POLICY_SIGNING_KEY"@)),
        },
    }
}

fn env_key(env: &StrMap<String>, name: &str) -> (r: Option<String>)
    ensures
        opt_text(r) == nonblank(lookup(env.entries(), name@)),
{
    match env.get(name) {
        Some(value) => non_blank(Some(value.as_str())),
        None => None,
    }
}

/// The key to check signatures with: the given one, or else one from the
/// environment.
pub fn resolve_policy_verify_key(key: Option<&str>, env: &StrMap<String>) -> (r: Option<String>)
    ensures
        opt_text(r) == verify_key(opt_str(key), env.entries()),
{
    match non_blank(key) {
        Some(key) => Some(key),
        None => match env_key(env, "ANNA_POLICY_VERIFY_KEY") {
            Some(key) => Some(key),
            None => env_key(env, "ANNA_POLICY_SIGNING_KEY"),
        },
    }
}

/// The outcome of checking the signature of a revision.
pub open spec fn signature_check(
    revision: Seq<char>,
    signature: Option<Seq<char>>,
    algorithm: Option<Seq<char>>,
    key: Option<Seq<char>>,
    allow_unsigned: bool,
) -> Result<CheckView, Seq<char>> {
    match received_of(signature, allow_unsigned) {
        Err(e) => Err(e),
        Ok(None) => Ok(unsigned_check()),
        Ok(Some(received)) => match algorithm_of(algorithm) {
            Err(e) => Err(e),
            Ok(name) => match key {
                None => Err(
                    "missing verification key; pass --key or set ANNA_POLICY_VERIFY_KEY / ANNA_POLICY_SIGNING_KEY"@,
                ),
                Some(key) => match verification(revision, received, key) {
                    None => Err("policy signature is not valid hexadecimal"@),
                    Some(verified) => Ok(
                        CheckView {
                            status: verified_word(verified),
                            verified,
                            signature_algorithm: Some(name),
                            received_signature: Some(received),
                            expected_signature: Some(signature_text(revision, key)),
                        },
                    ),
                },
            },
        },
    }
}

pub open spec fn check_result(r: Result<PolicySignatureCheck, String>) -> Result<
    CheckView,
    Seq<char>,
> {
    match r {
        Ok(check) => Ok(check@),
        Err(e) => Err(e@),
    }
}

/// Checks the signature of a revision.
pub fn verify_policy_signature_fields(
    revision: &str,
    signature: Option<&str>,
    signature_algorithm: Option<&str>,
    key: Option<&str>,
    env: &StrMap<String>,
    allow_unsigned: bool,
) -> (r: Result<PolicySignatureCheck, String>)
    ensures
        check_result(r) == signature_check(
            revision@,
            opt_str(signature),
            opt_str(signature_algorithm),
            verify_key(opt_str(key), env.entries()),
            allow_unsigned,
        ),
{
    let received = match require_received_signature(signature, allow_unsigned) {
        Err(e) => {
            return Err(e);
        },
        Ok(None) => {
            return Ok(unsigned_signature_status());
        },
        Ok(Some(received)) => received,
    };
    let algorithm = match parse_signature_algorithm(signature_algorithm) {
        Err(e) => {
            return Err(e);
        },
        Ok(name) => name,
    };
    let signing_key = match resolve_policy_verify_key(key, env) {
        None => {
            return Err(
                "missing verification key; pass --key or set ANNA_POLICY_VERIFY_KEY / ANNA_POLICY_SIGNING_KEY".to_owned(),
            );
        },
        Some(key) => key,
    };
    let expected = sign_policy_revision_hmac_sha256(revision, signing_key.as_str());
    let verified = match verify_policy_revision_hmac_sha256(
        revision,
        received.as_str(),
        signing_key.as_str(),
    ) {
        None => {
            return Err("policy signature is not valid hexadecimal".to_owned());
        },
        Some(verified) => verified,
    };
    Ok(
        PolicySignatureCheck {
            status: signature_status_from_verified(verified).to_owned(),
            verified,
            signature_algorithm: Some(algorithm),
            received_signature: Some(received),
            expected_signature: expected,
        },
    )
}

/// Whether the outcome of a check lets the policy pass.
pub open spec fn passes(check: CheckView) -> bool {
    check.verified || check.status == "unsigned"@
}

/// Whether the outcome of a check lets the policy pass.
pub fn check_passes(check: &PolicySignatureCheck) -> (r: bool)
    ensures
        r == passes(check@),
{
    check.verified || same(check.status.as_str(), "unsigned")
}

/// The revision that an answer names, with the check of its signature.
pub open spec fn payload_check(
    payload: JsonView,
    key: Option<Seq<char>>,
    allow_unsigned: bool,
) -> Result<(Seq<char>, CheckView), Seq<char>> {
    match revision_in(payload, None, "policy revision response missing 'policy_revision'"@) {
        Err(e) => Err(e),
        Ok(revision) => match signature_check(
            revision,
            nonblank(text_member(payload, "policy_signature"@)),
            nonblank(text_member(payload, "policy_signature_algorithm"@)),
            key,
            allow_unsigned,
        ) {
            Err(e) => Err(e),
            Ok(check) => Ok((revision, check)),
        },
    }
}

pub open spec fn revision_check(r: Result<(String, PolicySignatureCheck), String>) -> Result<
    (Seq<char>, CheckView),
    Seq<char>,
> {
    match r {
        Ok((revision, check)) => Ok((revision@, check@)),
        Err(e) => Err(e@),
    }
}

/// Checks the signature of the revision that an answer names.
pub fn check_revision_payload(
    payload: &Json,
    key: Option<&str>,
    env: &StrMap<String>,
    allow_unsigned: bool,
) -> (r: Result<(String, PolicySignatureCheck), String>)
    ensures
        revision_check(r) == payload_check(
            payload@,
            verify_key(opt_str(key), env.entries()),
            allow_unsigned,
        ),
{
    let revision = match resolve_policy_revision(
        payload,
        None,
        "policy revision response missing 'policy_revision'",
    ) {
        Err(e) => {
            return Err(e);
        },
        Ok(revision) => revision,
    };
    let signature = policy_signature_from_json(payload);
    let algorithm = policy_signature_algorithm_from_json(payload);
    match verify_policy_signature_fields(
        revision.as_str(),
        as_str_opt(&signature),
        as_str_opt(&algorithm),
        key,
        env,
        allow_unsigned,
    ) {
        Err(e) => Err(e),
        Ok(check) => Ok((revision, check)),
    }
}

/// Checks the signature of the revision that the daemon answers with.
pub fn check_revision_response(
    response: &DaemonResponse,
    key: Option<&str>,
    env: &StrMap<String>,
    allow_unsigned: bool,
) -> (r: Result<(String, PolicySignatureCheck), String>)
    ensures
        revision_check(r) == if !success_status(response.status) {
            Err(failure_text("policy revision request"@, response@))
        } else {
            match json_read(response.body@) {
                Err(_) => Err("daemon returned non-json policy revision response"@),
                Ok(payload) => payload_check(
                    payload,
                    verify_key(opt_str(key), env.entries()),
                    allow_unsigned,
                ),
            }
        },
{
    match ensure_http_success(response, "policy revision request") {
        Err(e) => {
            return Err(e);
        },
        Ok(()) => {},
    }
    match parse_json(response.body.as_str()) {
        Err(_) => Err("daemon returned non-json policy revision response".to_owned()),
        Ok(payload) => check_revision_payload(&payload, key, env, allow_unsigned),
    }
}

/// Where the copy of a policy is kept unless it is told otherwise.
pub fn default_local_policy_snapshot_path(home: Option<&str>) -> (r: String)
    ensures
        r@ == match opt_str(home) {
            Some(home) => if blank(home) {
                "/tmp/anna-policy.snapshot.json"@
            } else {
                joined_path(home, ".anna/policy.snapshot.json"@)
            },
            None => "/tmp/anna-policy.snapshot.json"@,
        },
{
    match home {
        Some(home) => if is_blank(home) {
            "/tmp/anna-policy.snapshot.json".to_owned()
        } else {
            join_path(home, ".anna/policy.snapshot.json")
        },
        None => "/tmp/anna-policy.snapshot.json".to_owned(),
    }
}

/// A text that neither starts nor ends with a blank is what it is between its
/// blanks.
proof fn nothing_to_trim(s: Seq<char>)
    requires
        s.len() > 0,
        !is_space(s[0]),
        !is_space(s.last()),
    ensures
        trimmed(s) == s,
        !blank(s),
{
    assert(trim_start_by(s, CharSet::Space) == s);
    assert(trim_end_by(s, CharSet::Space) == s);
}

/// What a daemon signs with a key is found good with that key. (No signature is
/// empty: each has 64 digits.)
pub proof fn daemon_signature_verifies(revision: Seq<char>, key: Seq<char>, allow_unsigned: bool)
    requires
        signature_text(revision, key).len() > 0,
    ensures
        signature_check(
            revision,
            Some(signature_text(revision, key)),
            Some("hmac-sha256"@),
            Some(key),
            allow_unsigned,
        ) matches Ok(check) && check.verified,
{
    let code = hmac_sha256(encode_utf8(key), encode_utf8(revision));
    let signature = signature_text(revision, key);
    hex_round_trip(code);
    nothing_to_trim(signature);
    reveal_strlit("hmac-sha256");
    nothing_to_trim("hmac-sha256"@);
}

/// A policy that passes was signed with the key, or is unsigned where that is
/// allowed.
pub proof fn only_signed_policies_pass(
    revision: Seq<char>,
    signature: Option<Seq<char>>,
    algorithm: Option<Seq<char>>,
    key: Option<Seq<char>>,
    allow_unsigned: bool,
)
    ensures
        signature_check(revision, signature, algorithm, key, allow_unsigned) matches Ok(check)
            ==> passes(check) ==> {
            ||| allow_unsigned && nonblank(signature) is None
            ||| key is Some && nonblank(signature) is Some && verification(
                revision,
                nonblank(signature)->0,
                key->0,
            ) == Some(true)
        },
{
    reveal_strlit("unsigned");
    reveal_strlit("verified");
    reveal_strlit("invalid_signature");
    assert("unsigned"@.len() != "invalid_signature"@.len());
}

// ---------------------------------------------------------------- taking over

/// Whether to ask again after the daemon found that its policy had changed; an
/// error where that was the last attempt.
pub open spec fn retry_after_precondition(
    response: ResponseView,
    attempt: usize,
    retries: usize,
    remote: Seq<char>,
) -> Result<bool, Seq<char>> {
    if response.status != 412 {
        Ok(false)
    } else if attempt <= retries {
        Ok(true)
    } else {
        Err(
            "policy snapshot precondition failed after "@ + decimal(attempt as nat)
                + " attempts (revision endpoint='"@ + remote + "'"@ + current_part(response)
                + body_part(response.body),
        )
    }
}

/// The revision that the daemon has now: the etag's, or else the body's.
pub open spec fn current_revision(response: ResponseView) -> Option<Seq<char>> {
    match response.etag {
        Some(revision) => Some(revision),
        None => match raw_revision(json_read(response.body)) {
            Ok(revision) => revision,
            Err(_) => None,
        },
    }
}

pub open spec fn current_part(response: ResponseView) -> Seq<char> {
    match current_revision(response) {
        Some(current) => ", current='"@ + current + "')"@,
        None => ")"@,
    }
}

pub open spec fn body_part(body: Seq<char>) -> Seq<char> {
    if blank(body) {
        Seq::empty()
    } else {
        ": "@ + body
    }
}

pub open spec fn bool_result(r: Result<bool, String>) -> Result<bool, Seq<char>> {
    match r {
        Ok(b) => Ok(b),
        Err(e) => Err(e@),
    }
}

/// Whether to ask again after the daemon found that its policy had changed.
pub fn should_retry_after_precondition_failure(
    snapshot: &DaemonResponse,
    attempt: usize,
    retries: usize,
    remote_revision: &str,
) -> (r: Result<bool, String>)
    ensures
        bool_result(r) == retry_after_precondition(
            snapshot@,
            attempt,
            retries,
            remote_revision@,
        ),
{
    if snapshot.status != 412 {
        return Ok(false);
    }
    if attempt <= retries {
        return Ok(true);
    }
    let current = match &snapshot.etag {
        Some(revision) => Some(revision.clone()),
        None => match policy_revision_from_raw_json(snapshot.body.as_str()) {
            Ok(revision) => revision,
            Err(_) => None,
        },
    };
    let attempts = u64_text(attempt as u64);
    let head = cat5(
        "policy snapshot precondition failed after ",
        attempts.as_str(),
        " attempts (revision endpoint='",
        remote_revision,
        "'",
    );
    let current_text = match current {
        Some(current) => cat3(", current='", current.as_str(), "')"),
        None => ")".to_owned(),
    };
    let body_text = if is_blank(snapshot.body.as_str()) {
        String::new()
    } else {
        cat2(": ", snapshot.body.as_str())
    };
    Err(cat3(head.as_str(), current_text.as_str(), body_text.as_str()))
}

/// Whether to ask again after the daemon sent another revision than it had
/// named; an error where that was the last attempt.
pub open spec fn retry_after_mismatch(
    remote: Seq<char>,
    snapshot: Seq<char>,
    attempt: usize,
    retries: usize,
) -> Result<bool, Seq<char>> {
    if snapshot == remote {
        Ok(false)
    } else if attempt <= retries {
        Ok(true)
    } else {
        Err(
            "policy snapshot revision mismatch after "@ + decimal(attempt as nat)
                + " attempts (revision endpoint='"@ + remote + "', snapshot='"@ + snapshot + "')"@,
        )
    }
}

/// Whether to ask again after the daemon sent another revision than it had
/// named.
pub fn should_retry_after_revision_mismatch(
    remote_revision: &str,
    snapshot_revision: &str,
    attempt: usize,
    retries: usize,
) -> (r: Result<bool, String>)
    ensures
        bool_result(r) == retry_after_mismatch(
            remote_revision@,
            snapshot_revision@,
            attempt,
            retries,
        ),
{
    if same(snapshot_revision, remote_revision) {
        return Ok(false);
    }
    if attempt <= retries {
        return Ok(true);
    }
    let attempts = u64_text(attempt as u64);
    Err(
        cat7(
            "policy snapshot revision mismatch after ",
            attempts.as_str(),
            " attempts (revision endpoint='",
            remote_revision,
            "', snapshot='",
            snapshot_revision,
            "')",
        ),
    )
}

/// The revision that a daemon names; `None` where it is the one already here.
pub open spec fn remote_revision_of(
    response: ResponseView,
    read: Result<JsonView, Seq<char>>,
) -> Result<Option<Seq<char>>, Seq<char>> {
    if response.status == 304 {
        Ok(None)
    } else if !success_status(response.status) {
        Err(failure_text("policy revision request"@, response))
    } else {
        match read {
            Err(_) => Err("daemon returned non-json policy revision response"@),
            Ok(payload) => match revision_in(
                payload,
                response.etag,
                "policy revision response missing 'policy_revision'"@,
            ) {
                Ok(revision) => Ok(Some(revision)),
                Err(e) => Err(e),
            },
        }
    }
}

/// The revision that a daemon names; `None` where it is the one already here.
pub fn remote_policy_revision(response: &DaemonResponse) -> (r: Result<Option<String>, String>)
    ensures
        opt_result(r) == remote_revision_of(response@, json_read(response.body@)),
{
    if response.status == 304 {
        return Ok(None);
    }
    match ensure_http_success(response, "policy revision request") {
        Err(e) => {
            return Err(e);
        },
        Ok(()) => {},
    }
    match parse_json(response.body.as_str()) {
        Err(_) => Err("daemon returned non-json policy revision response".to_owned()),
        Ok(payload) => match resolve_policy_revision(
            &payload,
            as_str_opt(&response.etag),
            "policy revision response missing 'policy_revision'",
        ) {
            Ok(revision) => Ok(Some(revision)),
            Err(e) => Err(e),
        },
    }
}

/// How to take over a policy.
pub struct SyncOptions {
    pub retries: usize,
    pub verify: bool,
    pub allow_unsigned: bool,
}

/// What came of the check of a snapshot, where one was asked for.
pub open spec fn snapshot_check(
    options: SyncOptions,
    remote: Seq<char>,
    snapshot: JsonView,
    key: Option<Seq<char>>,
) -> Result<Option<CheckView>, Seq<char>> {
    if !options.verify {
        Ok(None)
    } else {
        match signature_check(
            remote,
            nonblank(text_member(snapshot, "policy_signature"@)),
            nonblank(text_member(snapshot, "policy_signature_algorithm"@)),
            key,
            options.allow_unsigned,
        ) {
            Err(e) => Err(e),
            Ok(check) => if passes(check) {
                Ok(Some(check))
            } else {
                Err(
                    "policy snapshot signature verification failed (received='"@ + or_empty(
                        check.received_signature,
                    ) + "', expected='"@ + or_empty(check.expected_signature) + "')"@,
                )
            },
        }
    }
}

pub open spec fn or_empty(t: Option<Seq<char>>) -> Seq<char> {
    match t {
        Some(t) => t,
        None => Seq::empty(),
    }
}

pub open spec fn opt_check(check: Option<PolicySignatureCheck>) -> Option<CheckView> {
    match check {
        Some(check) => Some(check@),
        None => None,
    }
}

pub open spec fn opt_check_result(r: Result<Option<PolicySignatureCheck>, String>) -> Result<
    Option<CheckView>,
    Seq<char>,
> {
    match r {
        Ok(check) => Ok(opt_check(check)),
        Err(e) => Err(e@),
    }
}

/// Checks the signature of a snapshot, where that is asked for.
pub fn verify_sync_snapshot_signature(
    options: &SyncOptions,
    remote_revision: &str,
    snapshot: &Json,
    key: Option<&str>,
    env: &StrMap<String>,
) -> (r: Result<Option<PolicySignatureCheck>, String>)
    ensures
        opt_check_result(r) == snapshot_check(
            *options,
            remote_revision@,
            snapshot@,
            verify_key(opt_str(key), env.entries()),
        ),
{
    if !options.verify {
        return Ok(None);
    }
    let signature = policy_signature_from_json(snapshot);
    let algorithm = policy_signature_algorithm_from_json(snapshot);
    match verify_policy_signature_fields(
        remote_revision,
        as_str_opt(&signature),
        as_str_opt(&algorithm),
        key,
        env,
        options.allow_unsigned,
    ) {
        Err(e) => Err(e),
        Ok(check) => {
            if check_passes(&check) {
                return Ok(Some(check));
            }
            let received = match check.received_signature {
                Some(t) => t,
                None => String::new(),
            };
            let expected = match check.expected_signature {
                Some(t) => t,
                None => String::new(),
            };
            Err(
                cat5(
                    "policy snapshot signature verification failed (received='",
                    received.as_str(),
                    "', expected='",
                    expected.as_str(),
                    "')",
                ),
            )
        },
    }
}

/// What to do with the answer to a request for a snapshot.
pub enum SyncStep {
    /// Ask for the revision and the snapshot again.
    Again,
    /// Keep the snapshot, which is given with its indented text.
    Keep(Json, String, Option<PolicySignatureCheck>),
}

/// What to do with a snapshot, as plain values.
pub enum StepView {
    Again,
    Keep(JsonView, Seq<char>, Option<CheckView>),
}

impl View for SyncStep {
    type V = StepView;

    open spec fn view(&self) -> StepView {
        match self {
            SyncStep::Again => StepView::Again,
            SyncStep::Keep(snapshot, shown, check) => StepView::Keep(
                snapshot@,
                shown@,
                opt_check(*check),
            ),
        }
    }
}

pub open spec fn step_result(r: Result<SyncStep, String>) -> Result<StepView, Seq<char>> {
    match r {
        Ok(step) => Ok(step@),
        Err(e) => Err(e@),
    }
}

/// What to do with a snapshot that was read, where `shown` is its text.
pub open spec fn read_step(
    options: SyncOptions,
    etag: Option<Seq<char>>,
    snapshot: JsonView,
    shown: Seq<char>,
    attempt: usize,
    remote: Seq<char>,
    key: Option<Seq<char>>,
) -> Result<StepView, Seq<char>> {
    match revision_in(snapshot, etag, "policy snapshot response missing 'policy_revision'"@) {
        Err(e) => Err(e),
        Ok(revision) => match retry_after_mismatch(remote, revision, attempt, options.retries) {
            Err(e) => Err(e),
            Ok(true) => Ok(StepView::Again),
            Ok(false) => match snapshot_check(options, remote, snapshot, key) {
                Err(e) => Err(e),
                Ok(check) => Ok(StepView::Keep(snapshot, shown, check)),
            },
        },
    }
}

/// What to do with the answer to a request for the snapshot of the revision
/// `remote`, where `read` is what its body was read as.
pub open spec fn sync_step(
    options: SyncOptions,
    response: ResponseView,
    read: Result<JsonView, Seq<char>>,
    attempt: usize,
    remote: Seq<char>,
    key: Option<Seq<char>>,
) -> Result<StepView, Seq<char>> {
    match retry_after_precondition(response, attempt, options.retries, remote) {
        Err(e) => Err(e),
        Ok(true) => Ok(StepView::Again),
        Ok(false) => if !success_status(response.status) {
            Err(failure_text("policy snapshot request"@, response))
        } else {
            match read {
                Err(_) => Err("daemon returned non-json policy snapshot response"@),
                Ok(snapshot) => read_step(
                    options,
                    response.etag,
                    snapshot,
                    json_pretty(snapshot),
                    attempt,
                    remote,
                    key,
                ),
            }
        },
    }
}

/// Decides on the answer to a request for the snapshot of a revision.
pub fn sync_policy_snapshot_attempt(
    options: &SyncOptions,
    response: &DaemonResponse,
    attempt: usize,
    remote_revision: &str,
    key: Option<&str>,
    env: &StrMap<String>,
) -> (r: Result<SyncStep, String>)
    ensures
        step_result(r) == sync_step(
            *options,
            response@,
            json_read(response.body@),
            attempt,
            remote_revision@,
            verify_key(opt_str(key), env.entries()),
        ),
{
    match should_retry_after_precondition_failure(
        response,
        attempt,
        options.retries,
        remote_revision,
    ) {
        Err(e) => {
            return Err(e);
        },
        Ok(true) => {
            return Ok(SyncStep::Again);
        },
        Ok(false) => {},
    }
    match ensure_http_success(response, "policy snapshot request") {
        Err(e) => {
            return Err(e);
        },
        Ok(()) => {},
    }
    match parse_and_show(response.body.as_str()) {
        Err(_) => Err("daemon returned non-json policy snapshot response".to_owned()),
        Ok((snapshot, shown)) => snapshot_step(
            options,
            as_str_opt(&response.etag),
            snapshot,
            shown,
            attempt,
            remote_revision,
            key,
            env,
        ),
    }
}

/// Decides on a snapshot that was read, where `shown` is its text.
pub fn snapshot_step(
    options: &SyncOptions,
    etag: Option<&str>,
    snapshot: Json,
    shown: String,
    attempt: usize,
    remote_revision: &str,
    key: Option<&str>,
    env: &StrMap<String>,
) -> (r: Result<SyncStep, String>)
    ensures
        step_result(r) == read_step(
            *options,
            opt_str(etag),
            snapshot@,
            shown@,
            attempt,
            remote_revision@,
            verify_key(opt_str(key), env.entries()),
        ),
{
    let revision = match resolve_policy_revision(
        &snapshot,
        etag,
        "policy snapshot response missing 'policy_revision'",
    ) {
        Err(e) => {
            return Err(e);
        },
        Ok(revision) => revision,
    };
    match should_retry_after_revision_mismatch(
        remote_revision,
        revision.as_str(),
        attempt,
        options.retries,
    ) {
        Err(e) => Err(e),
        Ok(true) => Ok(SyncStep::Again),
        Ok(false) => match verify_sync_snapshot_signature(
            options,
            remote_revision,
            &snapshot,
            key,
            env,
        ) {
            Err(e) => Err(e),
            Ok(check) => Ok(SyncStep::Keep(snapshot, shown, check)),
        },
    }
}

/// After `retries` retries no answer makes the loop go on.
pub proof fn retries_are_bounded(
    options: SyncOptions,
    response: ResponseView,
    read: Result<JsonView, Seq<char>>,
    attempt: usize,
    remote: Seq<char>,
    key: Option<Seq<char>>,
)
    requires
        attempt > options.retries,
    ensures
        sync_step(options, response, read, attempt, remote, key) != Ok::<StepView, Seq<char>>(
            StepView::Again,
        ),
{
}

/// A snapshot that is kept is the one that the daemon named, and where a check
/// was asked for it is signed with the key, or unsigned where that is allowed.
pub proof fn kept_snapshot_is_checked(
    options: SyncOptions,
    response: ResponseView,
    read: Result<JsonView, Seq<char>>,
    attempt: usize,
    remote: Seq<char>,
    key: Option<Seq<char>>,
)
    ensures
        sync_step(options, response, read, attempt, remote, key) matches Ok(StepView::Keep(
            snapshot,
            shown,
            check,
        )) ==> {
            &&& read == Ok::<JsonView, Seq<char>>(snapshot)
            &&& shown == json_pretty(snapshot)
            &&& revision_in(snapshot, response.etag, Seq::empty()) == Ok::<Seq<char>, Seq<char>>(
                remote,
            )
            &&& options.verify ==> {
                let signature = nonblank(
                    nonblank(text_member(snapshot, "policy_signature"@)),
                );
                ||| options.allow_unsigned && signature is None
                ||| key is Some && signature is Some && verification(
                    remote,
                    signature->0,
                    key->0,
                ) == Some(true)
            }
        },
{
    if let Ok(snapshot) = read {
        only_signed_policies_pass(
            remote,
            nonblank(text_member(snapshot, "policy_signature"@)),
            nonblank(text_member(snapshot, "policy_signature_algorithm"@)),
            key,
            options.allow_unsigned,
        );
    }
}

// ---------------------------------------------------------------- reports

/// The outcome of a check as JSON.
pub open spec fn check_json(check: CheckView) -> JsonView {
    JsonView::Object(
        seq![
            ("expected_signature"@, text_or_null(check.expected_signature)),
            ("received_signature"@, text_or_null(check.received_signature)),
            ("signature_algorithm"@, text_or_null(check.signature_algorithm)),
            ("status"@, JsonView::Text(check.status)),
            ("verified"@, JsonView::Bool(check.verified)),
        ],
    )
}

/// The outcome of a check as JSON.
pub fn policy_signature_check_json(check: &PolicySignatureCheck) -> (r: Json)
    ensures
        r@ == check_json(check@),
{
    let a = object1("expected_signature", opt_text_value(&check.expected_signature));
    let b = with_member(a, "received_signature", opt_text_value(&check.received_signature));
    let c = with_member(b, "signature_algorithm", opt_text_value(&check.signature_algorithm));
    let d = with_member(c, "status", text(check.status.as_str()));
    let r = with_member(d, "verified", Json::Bool(check.verified));
    assert(r@->Object_0 =~= check_json(check@)->Object_0);
    r
}

/// The report on the check of a revision.
pub open spec fn check_report_json(revision: Seq<char>, check: CheckView) -> JsonView {
    JsonView::Object(
        seq![
            ("expected_signature"@, text_or_null(check.expected_signature)),
            ("policy_revision"@, JsonView::Text(revision)),
            ("received_signature"@, text_or_null(check.received_signature)),
            ("signature_algorithm"@, text_or_null(check.signature_algorithm)),
            ("status"@, JsonView::Text(check.status)),
            ("verified"@, JsonView::Bool(check.verified)),
        ],
    )
}

/// The report on the check of a revision.
pub fn policy_signature_report(revision: &str, check: &PolicySignatureCheck) -> (r: String)
    ensures
        r@ == json_pretty(json_normal(check_report_json(revision@, check@))),
{
    let a = object1("expected_signature", opt_text_value(&check.expected_signature));
    let b = with_member(a, "policy_revision", text(revision));
    let c = with_member(b, "received_signature", opt_text_value(&check.received_signature));
    let d = with_member(c, "signature_algorithm", opt_text_value(&check.signature_algorithm));
    let e = with_member(d, "status", text(check.status.as_str()));
    let doc = with_member(e, "verified", Json::Bool(check.verified));
    assert(doc@->Object_0 =~= check_report_json(revision@, check@)->Object_0);
    pretty_json(&doc)
}

fn opt_str_value(value: Option<&str>) -> (r: Json)
    ensures
        r@ == text_or_null(opt_str(value)),
{
    match value {
        Some(t) => text(t),
        None => Json::Null,
    }
}

/// The report that the local copy is the daemon's policy already.
pub open spec fn unchanged_json(path: Seq<char>, previous: Option<Seq<char>>, attempt: usize) -> JsonView {
    JsonView::Object(
        seq![
            ("attempts"@, JsonView::Number(Some(attempt as u64), decimal(attempt as nat))),
            ("path"@, JsonView::Text(path)),
            ("policy_revision"@, text_or_null(previous)),
            ("status"@, JsonView::Text("not_modified"@)),
        ],
    )
}

/// The report that the local copy is the daemon's policy already.
pub fn sync_unchanged_payload(path: &str, previous_revision: Option<&str>, attempt: usize) -> (r:
    String)
    ensures
        r@ == json_pretty(json_normal(unchanged_json(path@, opt_str(previous_revision), attempt))),
{
    let a = object1("attempts", number(attempt as u64));
    let b = with_member(a, "path", text(path));
    let c = with_member(b, "policy_revision", opt_str_value(previous_revision));
    let doc = with_member(c, "status", text("not_modified"));
    assert(doc@->Object_0 =~= unchanged_json(
        path@,
        opt_str(previous_revision),
        attempt,
    )->Object_0);
    pretty_json(&doc)
}

/// The report that the daemon's policy was taken over.
pub open spec fn synced_json(
    path: Seq<char>,
    previous: Option<Seq<char>>,
    remote: Seq<char>,
    attempt: usize,
    check: Option<CheckView>,
) -> JsonView {
    let members = seq![
        ("attempts"@, JsonView::Number(Some(attempt as u64), decimal(attempt as nat))),
        ("path"@, JsonView::Text(path)),
        ("policy_revision"@, JsonView::Text(remote)),
        ("previous_policy_revision"@, text_or_null(previous)),
        ("status"@, JsonView::Text("synced"@)),
    ];
    match check {
        Some(check) => JsonView::Object(
            members.push(("signature_verification"@, check_json(check))),
        ),
        None => JsonView::Object(members),
    }
}

/// The report that the daemon's policy was taken over.
pub fn sync_success_payload(
    path: &str,
    previous_revision: Option<&str>,
    remote_revision: &str,
    attempt: usize,
    signature_check: &Option<PolicySignatureCheck>,
) -> (r: String)
    ensures
        r@ == json_pretty(
            json_normal(
                synced_json(
                    path@,
                    opt_str(previous_revision),
                    remote_revision@,
                    attempt,
                    opt_check(*signature_check),
                ),
            ),
        ),
{
    let a = object1("attempts", number(attempt as u64));
    let b = with_member(a, "path", text(path));
    let c = with_member(b, "policy_revision", text(remote_revision));
    let d = with_member(c, "previous_policy_revision", opt_str_value(previous_revision));
    let e = with_member(d, "status", text("synced"));
    let doc = match signature_check {
        Some(check) => with_member(
            e,
            "signature_verification",
            policy_signature_check_json(check),
        ),
        None => e,
    };
    assert(doc@->Object_0 =~= synced_json(
        path@,
        opt_str(previous_revision),
        remote_revision@,
        attempt,
        opt_check(*signature_check),
    )->Object_0);
    pretty_json(&doc)
}

} // verus!
