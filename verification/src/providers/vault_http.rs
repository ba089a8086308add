//! Requests to a vault server, and what its responses bring.
use crate::json::{
    compact_json, json_items, json_items_at, json_normal, json_read, json_text, object1, opt_json,
    parse_json, read_view, text, text_member, with_member, Json, JsonView,
};
use crate::order::{sort, sorted_texts};
use crate::providers::vault::{normal_key, normalize_key, texts_outcome, OpView, VaultOpResult};
use crate::providers::vault_config::{AuthView, HttpConfigView, VaultAuthConfig, VaultHttpConfig};
use crate::providers::{fault, outcome, ErrorView, ProviderError};
use crate::text::{
    blank, cat2, cat3, cat4, cat5, clone_opt, group_texts, is_blank, opt_str, opt_text, texts,
    trim_end_by, trim_start_by, trim_text_end_by, trim_text_start_by, CharSet,
};
use vstd::prelude::*;
use vstd::string::*;

verus! {

#[derive(Clone, Copy, Debug, PartialEq, Eq, Structural)]
pub enum VaultMethod {
    Get,
    Post,
    Delete,
    List,
    /// A get with the query `list=true`.
    ListByGet,
}

/// A request to a vault server.
pub struct VaultRequest {
    pub method: VaultMethod,
    pub url: String,
    /// The value of `X-Vault-Token`.
    pub token: Option<String>,
    /// The value of `X-Vault-Namespace`.
    pub namespace: Option<String>,
    pub body: Option<Json>,
}

/// A request, as plain values.
pub struct RequestView {
    pub method: VaultMethod,
    pub url: Seq<char>,
    pub token: Option<Seq<char>>,
    pub namespace: Option<Seq<char>>,
    pub body: Option<JsonView>,
}

impl View for VaultRequest {
    type V = RequestView;

    open spec fn view(&self) -> RequestView {
        RequestView {
            method: self.method,
            url: self.url@,
            token: opt_text(self.token),
            namespace: opt_text(self.namespace),
            body: match self.body {
                Some(body) => Some(body@),
                None => None,
            },
        }
    }
}

// ---------------------------------------------------------------- URLs

/// An address and a path below it, with one slash between them.
pub open spec fn below(addr: Seq<char>, path: Seq<char>) -> Seq<char> {
    trim_end_by(addr, CharSet::Only('/')) + "/"@ + trim_start_by(path, CharSet::Only('/'))
}

pub fn join_addr(addr: &str, path: &str) -> (r: String)
    ensures
        r@ == below(addr@, path@),
{
    cat3(
        trim_text_end_by(addr, CharSet::Only('/')),
        "/",
        trim_text_start_by(path, CharSet::Only('/')),
    )
}

/// Where a key is read, written and deleted.
pub open spec fn key_url(config: HttpConfigView, key: Seq<char>) -> Seq<char> {
    if config.kv_version == 2 {
        below(config.addr, "v1/"@ + config.mount + "/data/"@ + normal_key(key))
    } else {
        below(config.addr, "v1/"@ + config.mount + "/"@ + normal_key(key))
    }
}

/// Where the keys below a prefix are listed.
pub open spec fn list_url(config: HttpConfigView, prefix: Option<Seq<char>>) -> Seq<char> {
    let p = match prefix {
        Some(prefix) => normal_key(prefix),
        None => Seq::empty(),
    };
    if config.kv_version == 2 {
        if p.len() == 0 {
            below(config.addr, "v1/"@ + config.mount + "/metadata"@)
        } else {
            below(config.addr, "v1/"@ + config.mount + "/metadata/"@ + p)
        }
    } else if p.len() == 0 {
        below(config.addr, "v1/"@ + config.mount)
    } else {
        below(config.addr, "v1/"@ + config.mount + "/"@ + p)
    }
}

pub fn build_get_url(config: &VaultHttpConfig, key: &str) -> (r: String)
    ensures
        r@ == key_url(config@, key@),
{
    let key = normalize_key(key);
    let path = if config.kv_version == 2 {
        cat4("v1/", config.mount.as_str(), "/data/", key.as_str())
    } else {
        cat4("v1/", config.mount.as_str(), "/", key.as_str())
    };
    join_addr(config.addr.as_str(), path.as_str())
}

pub fn build_put_url(config: &VaultHttpConfig, key: &str) -> (r: String)
    ensures
        r@ == key_url(config@, key@),
{
    build_get_url(config, key)
}

pub fn build_delete_url(config: &VaultHttpConfig, key: &str) -> (r: String)
    ensures
        r@ == key_url(config@, key@),
{
    build_get_url(config, key)
}

pub fn build_list_url(config: &VaultHttpConfig, prefix: Option<&str>) -> (r: String)
    ensures
        r@ == list_url(config@, opt_str(prefix)),
{
    let p = match prefix {
        Some(prefix) => normalize_key(prefix),
        None => String::new(),
    };
    let path = if config.kv_version == 2 {
        if p.as_str().is_empty() {
            cat3("v1/", config.mount.as_str(), "/metadata")
        } else {
            cat4("v1/", config.mount.as_str(), "/metadata/", p.as_str())
        }
    } else if p.as_str().is_empty() {
        cat2("v1/", config.mount.as_str())
    } else {
        cat4("v1/", config.mount.as_str(), "/", p.as_str())
    };
    join_addr(config.addr.as_str(), path.as_str())
}

// ---------------------------------------------------------------- requests

/// The namespace that requests name.
pub open spec fn namespace_of(config: HttpConfigView) -> Option<Seq<char>> {
    match config.namespace {
        Some(namespace) => if blank(namespace) {
            None
        } else {
            Some(namespace)
        },
        None => None,
    }
}

fn namespace_header(config: &VaultHttpConfig) -> (r: Option<String>)
    ensures
        opt_text(r) == namespace_of(config@),
{
    match &config.namespace {
        Some(namespace) => {
            if is_blank(namespace.as_str()) {
                None
            } else {
                Some(namespace.clone())
            }
        },
        None => None,
    }
}

/// The request that turns an AppRole into a token; none is needed where there
/// is a token.
pub open spec fn login_view(config: HttpConfigView) -> Option<RequestView> {
    match config.auth {
        AuthView::Token(_) => None,
        AuthView::AppRole { role_id, secret_id, auth_path } => Some(
            RequestView {
                method: VaultMethod::Post,
                url: below(config.addr, "v1/"@ + auth_path),
                token: None,
                namespace: namespace_of(config),
                body: Some(
                    JsonView::Object(
                        seq![
                            ("role_id"@, JsonView::Text(role_id)),
                            ("secret_id"@, JsonView::Text(secret_id)),
                        ],
                    ),
                ),
            },
        ),
    }
}

pub open spec fn opt_request(r: Option<VaultRequest>) -> Option<RequestView> {
    match r {
        Some(request) => Some(request@),
        None => None,
    }
}

/// The login request, where one is needed.
pub fn login_request(config: &VaultHttpConfig) -> (r: Option<VaultRequest>)
    ensures
        opt_request(r) == login_view(config@),
{
    match &config.auth {
        VaultAuthConfig::Token(_) => None,
        VaultAuthConfig::AppRole { role_id, secret_id, auth_path } => {
            let path = cat2("v1/", auth_path.as_str());
            let head = object1("role_id", text(role_id.as_str()));
            let body = with_member(head, "secret_id", text(secret_id.as_str()));
            assert(body@->Object_0 =~= seq![
                ("role_id"@, JsonView::Text(role_id@)),
                ("secret_id"@, JsonView::Text(secret_id@)),
            ]);
            Some(
                VaultRequest {
                    method: VaultMethod::Post,
                    url: join_addr(config.addr.as_str(), path.as_str()),
                    token: None,
                    namespace: namespace_header(config),
                    body: Some(body),
                },
            )
        },
    }
}

/// The request that reads a key.
pub fn get_request(config: &VaultHttpConfig, token: &str, key: &str) -> (r: VaultRequest)
    ensures
        r@ == (RequestView {
            method: VaultMethod::Get,
            url: key_url(config@, key@),
            token: Some(token@),
            namespace: namespace_of(config@),
            body: None,
        }),
{
    VaultRequest {
        method: VaultMethod::Get,
        url: build_get_url(config, key),
        token: Some(token.to_owned()),
        namespace: namespace_header(config),
        body: None,
    }
}

/// What is sent to write a value.
pub open spec fn put_body(kv_version: u8, value: Seq<char>) -> JsonView {
    let plain = JsonView::Object(seq![("value"@, JsonView::Text(value))]);
    if kv_version == 2 {
        JsonView::Object(seq![("data"@, plain)])
    } else {
        plain
    }
}

/// The request that writes a key.
pub fn put_request(config: &VaultHttpConfig, token: &str, key: &str, value: &str) -> (r:
    VaultRequest)
    ensures
        r@ == (RequestView {
            method: VaultMethod::Post,
            url: key_url(config@, key@),
            token: Some(token@),
            namespace: namespace_of(config@),
            body: Some(put_body(config@.kv_version, value@)),
        }),
{
    let plain = object1("value", text(value));
    let body = if config.kv_version == 2 {
        object1("data", plain)
    } else {
        plain
    };
    VaultRequest {
        method: VaultMethod::Post,
        url: build_put_url(config, key),
        token: Some(token.to_owned()),
        namespace: namespace_header(config),
        body: Some(body),
    }
}

/// The request that deletes a key.
pub fn delete_request(config: &VaultHttpConfig, token: &str, key: &str) -> (r: VaultRequest)
    ensures
        r@ == (RequestView {
            method: VaultMethod::Delete,
            url: key_url(config@, key@),
            token: Some(token@),
            namespace: namespace_of(config@),
            body: None,
        }),
{
    VaultRequest {
        method: VaultMethod::Delete,
        url: build_delete_url(config, key),
        token: Some(token.to_owned()),
        namespace: namespace_header(config),
        body: None,
    }
}

/// The request that lists the keys below a prefix.
pub fn list_request(config: &VaultHttpConfig, token: &str, prefix: Option<&str>) -> (r:
    VaultRequest)
    ensures
        r@ == (RequestView {
            method: VaultMethod::List,
            url: list_url(config@, opt_str(prefix)),
            token: Some(token@),
            namespace: namespace_of(config@),
            body: None,
        }),
{
    VaultRequest {
        method: VaultMethod::List,
        url: build_list_url(config, prefix),
        token: Some(token.to_owned()),
        namespace: namespace_header(config),
        body: None,
    }
}

/// Whether the status of a list request asks for the other way to list.
pub fn list_needs_fallback(status: u16) -> (r: bool)
    ensures
        r == (status == 405 || status == 400),
{
    status == 405 || status == 400
}

// ---------------------------------------------------------------- responses

/// Whether a status says that a request succeeded.
pub open spec fn success_status(status: u16) -> bool {
    200 <= status < 300
}

pub fn is_success(status: u16) -> (r: bool)
    ensures
        r == success_status(status),
{
    200 <= status && status < 300
}

/// An http response: its status, as a number and in words, and its body.
pub struct VaultResponse {
    pub status: u16,
    pub status_text: String,
    pub body: String,
}

/// The token in the body of a login response.
pub open spec fn login_token_in(value: JsonView) -> Option<Seq<char>> {
    let nested = match value.member("auth"@) {
        Some(auth) => text_member(auth, "client_token"@),
        None => None,
    };
    match nested {
        Some(token) => Some(token),
        None => text_member(value, "client_token"@),
    }
}

pub open spec fn login_token_from(
    stage_id: Seq<char>,
    read: Result<JsonView, Seq<char>>,
) -> Result<Seq<char>, ErrorView> {
    match read {
        Err(message) => Err(
            fault(
                "provider_invalid_response"@,
                "vault AppRole login returned invalid json in stage '"@ + stage_id + "': "@
                    + message,
            ),
        ),
        Ok(value) => match login_token_in(value) {
            Some(token) => Ok(token),
            None => Err(
                fault(
                    "provider_invalid_response"@,
                    "vault AppRole login response missing auth.client_token in stage '"@
                        + stage_id + "'"@,
                ),
            ),
        },
    }
}

/// What a login response brings.
pub open spec fn login_outcome(
    stage_id: Seq<char>,
    status: u16,
    status_text: Seq<char>,
    body: Seq<char>,
) -> Result<Seq<char>, ErrorView> {
    if success_status(status) {
        login_token_from(stage_id, json_read(body))
    } else {
        Err(
            fault(
                "provider_exec_failed"@,
                "vault AppRole login failed in stage '"@ + stage_id + "' with status "@
                    + status_text + ": "@ + body,
            ),
        )
    }
}

/// The token in a login response that was read as JSON.
pub fn login_token(stage_id: &str, read: Result<Json, String>) -> (r: Result<
    String,
    ProviderError,
>)
    ensures
        outcome(r) == login_token_from(stage_id@, read_view(read)),
{
    match read {
        Err(message) => Err(
            ProviderError::new(
                "provider_invalid_response",
                cat4(
                    "vault AppRole login returned invalid json in stage '",
                    stage_id,
                    "': ",
                    message.as_str(),
                ),
            ),
        ),
        Ok(value) => {
            if let Some(auth) = value.get("auth") {
                if let Some(token) = auth.get_str("client_token") {
                    return Ok(token.to_owned());
                }
            }
            if let Some(token) = value.get_str("client_token") {
                return Ok(token.to_owned());
            }
            Err(
                ProviderError::new(
                    "provider_invalid_response",
                    cat3(
                        "vault AppRole login response missing auth.client_token in stage '",
                        stage_id,
                        "'",
                    ),
                ),
            )
        },
    }
}

fn failed_with_status(what: &str, stage_id: &str, response: &VaultResponse) -> (r: ProviderError)
    ensures
        r@ == fault(
            "provider_exec_failed"@,
            "vault "@ + what@ + " failed in stage '"@ + stage_id@ + "' with status "@
                + response.status_text@ + ": "@ + response.body@,
        ),
{
    let head = cat5("vault ", what, " failed in stage '", stage_id, "' with status ");
    ProviderError::new(
        "provider_exec_failed",
        cat4(head.as_str(), response.status_text.as_str(), ": ", response.body.as_str()),
    )
}

proof fn status_message(stage_id: Seq<char>, status: Seq<char>, body: Seq<char>)
    ensures
        "vault "@ + "AppRole login"@ + " failed in stage '"@ + stage_id + "' with status "@ + status
            + ": "@ + body == "vault AppRole login failed in stage '"@ + stage_id
            + "' with status "@ + status + ": "@ + body,
        "vault "@ + "get"@ + " failed in stage '"@ + stage_id + "' with status "@ + status + ": "@
            + body == "vault get failed in stage '"@ + stage_id + "' with status "@ + status
            + ": "@ + body,
        "vault "@ + "put"@ + " failed in stage '"@ + stage_id + "' with status "@ + status + ": "@
            + body == "vault put failed in stage '"@ + stage_id + "' with status "@ + status
            + ": "@ + body,
        "vault "@ + "delete"@ + " failed in stage '"@ + stage_id + "' with status "@ + status
            + ": "@ + body == "vault delete failed in stage '"@ + stage_id + "' with status "@
            + status + ": "@ + body,
        "vault "@ + "list"@ + " failed in stage '"@ + stage_id + "' with status "@ + status + ": "@
            + body == "vault list failed in stage '"@ + stage_id + "' with status "@ + status
            + ": "@ + body,
{
    reveal_strlit("vault ");
    reveal_strlit(" failed in stage '");
    reveal_strlit("AppRole login");
    reveal_strlit("get");
    reveal_strlit("put");
    reveal_strlit("delete");
    reveal_strlit("list");
    reveal_strlit("vault AppRole login failed in stage '");
    reveal_strlit("vault get failed in stage '");
    reveal_strlit("vault put failed in stage '");
    reveal_strlit("vault delete failed in stage '");
    reveal_strlit("vault list failed in stage '");
    assert("vault "@ + "AppRole login"@ + " failed in stage '"@
        =~= "vault AppRole login failed in stage '"@);
    assert("vault "@ + "get"@ + " failed in stage '"@ =~= "vault get failed in stage '"@);
    assert("vault "@ + "put"@ + " failed in stage '"@ =~= "vault put failed in stage '"@);
    assert("vault "@ + "delete"@ + " failed in stage '"@ =~= "vault delete failed in stage '"@);
    assert("vault "@ + "list"@ + " failed in stage '"@ =~= "vault list failed in stage '"@);
}

/// The token that a login response brings.
pub fn login_result(stage_id: &str, response: &VaultResponse) -> (r: Result<
    String,
    ProviderError,
>)
    ensures
        outcome(r) == login_outcome(
            stage_id@,
            response.status,
            response.status_text@,
            response.body@,
        ),
{
    if !is_success(response.status) {
        proof {
            status_message(stage_id@, response.status_text@, response.body@);
        }
        return Err(failed_with_status("AppRole login", stage_id, response));
    }
    let read = parse_json(response.body.as_str());
    login_token(stage_id, read)
}

pub open spec fn member_of(value: Option<JsonView>, key: Seq<char>) -> Option<JsonView> {
    match value {
        Some(value) => value.member(key),
        None => None,
    }
}

/// Where the value of a read response stands.
pub open spec fn value_place(payload: JsonView, kv_version: u8) -> Option<JsonView> {
    let data = payload.member("data"@);
    if kv_version == 2 {
        match member_of(member_of(data, "data"@), "value"@) {
            Some(value) => Some(value),
            None => member_of(data, "value"@),
        }
    } else {
        match member_of(data, "value"@) {
            Some(value) => Some(value),
            None => data,
        }
    }
}

/// The value of a read response: a string as it is, anything but null as JSON.
pub open spec fn value_from(payload: JsonView, kv_version: u8) -> Option<Seq<char>> {
    match value_place(payload, kv_version) {
        None => None,
        Some(JsonView::Null) => None,
        Some(JsonView::Text(value)) => Some(value),
        Some(other) => Some(json_text(json_normal(other))),
    }
}

fn nested<'a>(value: Option<&'a Json>, key: &str) -> (r: Option<&'a Json>)
    ensures
        opt_json(r) == member_of(opt_json(value), key@),
{
    match value {
        Some(value) => value.get(key),
        None => None,
    }
}

/// The value in a read response.
pub fn extract_value_from_get(payload: &Json, kv_version: u8) -> (r: Option<String>)
    ensures
        opt_text(r) == value_from(payload@, kv_version),
{
    let data = payload.get("data");
    let place = if kv_version == 2 {
        let inner = nested(nested(data, "data"), "value");
        if inner.is_some() {
            inner
        } else {
            nested(data, "value")
        }
    } else {
        let inner = nested(data, "value");
        if inner.is_some() {
            inner
        } else {
            data
        }
    };
    match place {
        None => None,
        Some(value) => match value {
            Json::Null => None,
            Json::Text(value) => Some(value.clone()),
            other => Some(compact_json(other)),
        },
    }
}

pub open spec fn get_from(
    stage_id: Seq<char>,
    key: Seq<char>,
    kv_version: u8,
    read: Result<JsonView, Seq<char>>,
) -> Result<OpView, ErrorView> {
    match read {
        Err(message) => Err(
            fault(
                "provider_invalid_response"@,
                "vault get returned invalid json in stage '"@ + stage_id + "': "@ + message,
            ),
        ),
        Ok(payload) => match value_from(payload, kv_version) {
            Some(value) => Ok(OpView::Get { key, value }),
            None => Err(
                fault(
                    "provider_invalid_response"@,
                    "vault get response missing value for key '"@ + key + "' in stage '"@
                        + stage_id + "'"@,
                ),
            ),
        },
    }
}

/// What a read response brings.
pub open spec fn get_outcome(
    stage_id: Seq<char>,
    key: Seq<char>,
    kv_version: u8,
    status: u16,
    status_text: Seq<char>,
    body: Seq<char>,
) -> Result<OpView, ErrorView> {
    if status == 404 {
        Err(
            fault(
                "provider_secret_not_found"@,
                "vault key '"@ + key + "' not found in stage '"@ + stage_id + "'"@,
            ),
        )
    } else if !success_status(status) {
        Err(
            fault(
                "provider_exec_failed"@,
                "vault get failed in stage '"@ + stage_id + "' with status "@ + status_text
                    + ": "@ + body,
            ),
        )
    } else {
        get_from(stage_id, key, kv_version, json_read(body))
    }
}

/// What a read response brings, once its body is read as JSON.
pub fn get_value(stage_id: &str, key: &str, kv_version: u8, read: Result<Json, String>) -> (r:
    Result<VaultOpResult, ProviderError>)
    ensures
        outcome(r) == get_from(stage_id@, key@, kv_version, read_view(read)),
{
    match read {
        Err(message) => Err(
            ProviderError::new(
                "provider_invalid_response",
                cat4(
                    "vault get returned invalid json in stage '",
                    stage_id,
                    "': ",
                    message.as_str(),
                ),
            ),
        ),
        Ok(payload) => match extract_value_from_get(&payload, kv_version) {
            Some(value) => Ok(VaultOpResult::Get { key: key.to_owned(), value }),
            None => Err(
                ProviderError::new(
                    "provider_invalid_response",
                    cat5(
                        "vault get response missing value for key '",
                        key,
                        "' in stage '",
                        stage_id,
                        "'",
                    ),
                ),
            ),
        },
    }
}

/// What a read response brings.
pub fn get_result(stage_id: &str, key: &str, kv_version: u8, response: &VaultResponse) -> (r:
    Result<VaultOpResult, ProviderError>)
    ensures
        outcome(r) == get_outcome(
            stage_id@,
            key@,
            kv_version,
            response.status,
            response.status_text@,
            response.body@,
        ),
{
    if response.status == 404 {
        return Err(
            ProviderError::new(
                "provider_secret_not_found",
                cat5("vault key '", key, "' not found in stage '", stage_id, "'"),
            ),
        );
    }
    if !is_success(response.status) {
        proof {
            status_message(stage_id@, response.status_text@, response.body@);
        }
        return Err(failed_with_status("get", stage_id, response));
    }
    let read = parse_json(response.body.as_str());
    get_value(stage_id, key, kv_version, read)
}

/// What a write response brings.
pub open spec fn put_outcome(
    stage_id: Seq<char>,
    key: Seq<char>,
    status: u16,
    status_text: Seq<char>,
    body: Seq<char>,
) -> Result<OpView, ErrorView> {
    if success_status(status) {
        Ok(OpView::Put { key })
    } else {
        Err(
            fault(
                "provider_exec_failed"@,
                "vault put failed in stage '"@ + stage_id + "' with status "@ + status_text
                    + ": "@ + body,
            ),
        )
    }
}

/// What a write response brings.
pub fn put_result(stage_id: &str, key: &str, response: &VaultResponse) -> (r: Result<
    VaultOpResult,
    ProviderError,
>)
    ensures
        outcome(r) == put_outcome(
            stage_id@,
            key@,
            response.status,
            response.status_text@,
            response.body@,
        ),
{
    if !is_success(response.status) {
        proof {
            status_message(stage_id@, response.status_text@, response.body@);
        }
        return Err(failed_with_status("put", stage_id, response));
    }
    Ok(VaultOpResult::Put { key: key.to_owned() })
}

/// What a delete response brings: a key that is not there is not deleted.
pub open spec fn delete_outcome(
    stage_id: Seq<char>,
    key: Seq<char>,
    status: u16,
    status_text: Seq<char>,
    body: Seq<char>,
) -> Result<OpView, ErrorView> {
    if status == 404 {
        Ok(OpView::Delete { key, deleted: false })
    } else if success_status(status) {
        Ok(OpView::Delete { key, deleted: true })
    } else {
        Err(
            fault(
                "provider_exec_failed"@,
                "vault delete failed in stage '"@ + stage_id + "' with status "@ + status_text
                    + ": "@ + body,
            ),
        )
    }
}

/// What a delete response brings.
pub fn delete_result(stage_id: &str, key: &str, response: &VaultResponse) -> (r: Result<
    VaultOpResult,
    ProviderError,
>)
    ensures
        outcome(r) == delete_outcome(
            stage_id@,
            key@,
            response.status,
            response.status_text@,
            response.body@,
        ),
{
    if response.status == 404 {
        return Ok(VaultOpResult::Delete { key: key.to_owned(), deleted: false });
    }
    if !is_success(response.status) {
        proof {
            status_message(stage_id@, response.status_text@, response.body@);
        }
        return Err(failed_with_status("delete", stage_id, response));
    }
    Ok(VaultOpResult::Delete { key: key.to_owned(), deleted: true })
}

/// The strings among JSON values.
pub open spec fn strings_in(items: Seq<JsonView>) -> Seq<Seq<char>>
    decreases items.len(),
{
    if items.len() == 0 {
        Seq::empty()
    } else {
        let before = strings_in(items.drop_last());
        match items.last() {
            JsonView::Text(t) => before.push(t),
            _ => before,
        }
    }
}

/// The keys in a list response.
pub open spec fn keys_from(payload: JsonView) -> Seq<Seq<char>> {
    match member_of(payload.member("data"@), "keys"@) {
        Some(JsonView::Array(items)) => strings_in(items),
        _ => Seq::empty(),
    }
}

pub open spec fn list_from(stage_id: Seq<char>, read: Result<JsonView, Seq<char>>) -> Result<
    Seq<Seq<char>>,
    ErrorView,
> {
    match read {
        Err(message) => Err(
            fault(
                "provider_invalid_response"@,
                "vault list returned invalid json in stage '"@ + stage_id + "': "@ + message,
            ),
        ),
        Ok(payload) => Ok(keys_from(payload)),
    }
}

/// The keys in a list response that was read as JSON.
pub fn listed_keys_in(stage_id: &str, read: Result<Json, String>) -> (r: Result<
    Vec<String>,
    ProviderError,
>)
    ensures
        texts_outcome(r) == list_from(stage_id@, read_view(read)),
{
    broadcast use group_texts;

    let payload = match read {
        Ok(payload) => payload,
        Err(message) => {
            return Err(
                ProviderError::new(
                    "provider_invalid_response",
                    cat4(
                        "vault list returned invalid json in stage '",
                        stage_id,
                        "': ",
                        message.as_str(),
                    ),
                ),
            );
        },
    };
    let mut out: Vec<String> = Vec::new();
    if let Some(Json::Array(items)) = nested(payload.get("data"), "keys") {
        let ghost all = json_items(items@);
        proof {
            json_items_at(items@);
        }
        let mut i: usize = 0;
        assert(all.take(0) =~= Seq::<JsonView>::empty());
        while i < items.len()
            invariant
                i <= items.len(),
                all == json_items(items@),
                all.len() == items@.len(),
                forall|k: int| 0 <= k < items@.len() ==> #[trigger] all[k] == items@[k]@,
                texts(out@) == strings_in(all.take(i as int)),
            decreases items.len() - i,
        {
            assert(all.take(i + 1).drop_last() =~= all.take(i as int));
            assert(all[i as int] == items@[i as int]@);
            if let Json::Text(t) = &items[i] {
                out.push(t.clone());
            }
            i += 1;
        }
        assert(all.take(i as int) =~= all);
    }
    Ok(out)
}

/// The keys that a list response names.
pub fn parse_list_keys(stage_id: &str, response_body: &str) -> (r: Result<
    Vec<String>,
    ProviderError,
>)
    ensures
        texts_outcome(r) == list_from(stage_id@, json_read(response_body@)),
{
    let read = parse_json(response_body);
    listed_keys_in(stage_id, read)
}

/// What a list response brings: the keys in ascending order, and none where
/// there is nothing below the prefix.
pub open spec fn list_outcome(
    stage_id: Seq<char>,
    prefix: Option<Seq<char>>,
    status: u16,
    status_text: Seq<char>,
    body: Seq<char>,
) -> Result<OpView, ErrorView> {
    if status == 404 {
        Ok(OpView::List { prefix, keys: Seq::empty() })
    } else if !success_status(status) {
        Err(
            fault(
                "provider_exec_failed"@,
                "vault list failed in stage '"@ + stage_id + "' with status "@ + status_text
                    + ": "@ + body,
            ),
        )
    } else {
        match list_from(stage_id, json_read(body)) {
            Ok(keys) => Ok(OpView::List { prefix, keys: sorted_texts(keys) }),
            Err(e) => Err(e),
        }
    }
}

/// What a list response brings.
pub fn list_result(stage_id: &str, prefix: &Option<String>, response: &VaultResponse) -> (r: Result<
    VaultOpResult,
    ProviderError,
>)
    ensures
        outcome(r) == list_outcome(
            stage_id@,
            opt_text(*prefix),
            response.status,
            response.status_text@,
            response.body@,
        ),
{
    broadcast use group_texts;

    if response.status == 404 {
        return Ok(VaultOpResult::List { prefix: clone_opt(prefix), keys: Vec::new() });
    }
    if !is_success(response.status) {
        proof {
            status_message(stage_id@, response.status_text@, response.body@);
        }
        return Err(failed_with_status("list", stage_id, response));
    }
    match parse_list_keys(stage_id, response.body.as_str()) {
        Ok(keys) => Ok(VaultOpResult::List { prefix: clone_opt(prefix), keys: sort(&keys) }),
        Err(err) => Err(err),
    }
}

} // verus!
