//! The settings of the vault provider.
use crate::expr::{subst, substituted};
use crate::number::{decimal, number_value, parse_number, u64_text};
use crate::providers::llm::{non_empty_env, nonblank, set_in};
use crate::providers::{fault, outcome, ErrorView, ProviderError};
use crate::paths::{join_path, joined_path};
use crate::strmap::{lookup, StrMap};
use crate::text::{
    blank, cat3, cat5, cat6, is_blank, list_items, lowered, opt_text, same, split_list, texts,
    to_lower, trim, trim_by, trim_text_by, trimmed, CharSet,
};
use vstd::prelude::*;
use vstd::string::*;

verus! {

#[derive(Debug, Clone, Copy, PartialEq, Eq, Structural)]
pub enum VaultBackend {
    File,
    Http,
}

/// How the provider makes itself known to a vault server.
pub enum VaultAuthConfig {
    Token(String),
    AppRole { role_id: String, secret_id: String, auth_path: String },
}

pub enum AuthView {
    Token(Seq<char>),
    AppRole { role_id: Seq<char>, secret_id: Seq<char>, auth_path: Seq<char> },
}

impl View for VaultAuthConfig {
    type V = AuthView;

    open spec fn view(&self) -> AuthView {
        match self {
            VaultAuthConfig::Token(token) => AuthView::Token(token@),
            VaultAuthConfig::AppRole { role_id, secret_id, auth_path } => AuthView::AppRole {
                role_id: role_id@,
                secret_id: secret_id@,
                auth_path: auth_path@,
            },
        }
    }
}

/// Where a vault server is, and how it is spoken to.
pub struct VaultHttpConfig {
    pub addr: String,
    pub auth: VaultAuthConfig,
    pub namespace: Option<String>,
    pub mount: String,
    pub kv_version: u8,
}

pub struct HttpConfigView {
    pub addr: Seq<char>,
    pub auth: AuthView,
    pub namespace: Option<Seq<char>>,
    pub mount: Seq<char>,
    pub kv_version: u8,
}

impl View for VaultHttpConfig {
    type V = HttpConfigView;

    open spec fn view(&self) -> HttpConfigView {
        HttpConfigView {
            addr: self.addr@,
            auth: self.auth@,
            namespace: opt_text(self.namespace),
            mount: self.mount@,
            kv_version: self.kv_version,
        }
    }
}

/// What the vault provider goes by.
pub struct VaultConfig {
    pub backend: VaultBackend,
    pub kv_file: String,
    pub allow_prefixes: Option<Vec<String>>,
    pub read_only: bool,
    pub http: Option<VaultHttpConfig>,
}

pub struct ConfigView {
    pub backend: VaultBackend,
    pub kv_file: Seq<char>,
    pub allow_prefixes: Option<Seq<Seq<char>>>,
    pub read_only: bool,
    pub http: Option<HttpConfigView>,
}

pub open spec fn opt_texts(items: Option<Vec<String>>) -> Option<Seq<Seq<char>>> {
    match items {
        Some(items) => Some(texts(items@)),
        None => None,
    }
}

impl View for VaultConfig {
    type V = ConfigView;

    open spec fn view(&self) -> ConfigView {
        ConfigView {
            backend: self.backend,
            kv_file: self.kv_file@,
            allow_prefixes: opt_texts(self.allow_prefixes),
            read_only: self.read_only,
            http: match self.http {
                Some(http) => Some(http@),
                None => None,
            },
        }
    }
}

// ---------------------------------------------------------------- settings

/// Where settings are looked up: the stage, the workflow, the environment.
pub struct Settings<'a> {
    pub stage_id: &'a str,
    pub stage_env: &'a StrMap<String>,
    pub workflow_env: &'a StrMap<String>,
    pub vars: &'a StrMap<String>,
    pub outputs: &'a StrMap<String>,
    pub env: &'a StrMap<String>,
}

pub struct SettingsView {
    pub stage_id: Seq<char>,
    pub stage_env: Seq<(Seq<char>, Seq<char>)>,
    pub workflow_env: Seq<(Seq<char>, Seq<char>)>,
    pub vars: Seq<(Seq<char>, Seq<char>)>,
    pub outputs: Seq<(Seq<char>, Seq<char>)>,
    pub env: Seq<(Seq<char>, Seq<char>)>,
}

impl<'a> View for Settings<'a> {
    type V = SettingsView;

    open spec fn view(&self) -> SettingsView {
        SettingsView {
            stage_id: self.stage_id@,
            stage_env: self.stage_env.entries(),
            workflow_env: self.workflow_env.entries(),
            vars: self.vars.entries(),
            outputs: self.outputs.entries(),
            env: self.env.entries(),
        }
    }
}

/// What an `env` section says for a key: its text, substituted and trimmed,
/// where it is not blank.
pub open spec fn section_value(
    section: Seq<(Seq<char>, Seq<char>)>,
    key: Seq<char>,
    vars: Seq<(Seq<char>, Seq<char>)>,
    outputs: Seq<(Seq<char>, Seq<char>)>,
) -> Option<Seq<char>> {
    match lookup(section, key) {
        Some(text) => {
            let rendered = substituted(text, vars, outputs);
            if blank(rendered) {
                None
            } else {
                Some(trimmed(rendered))
            }
        },
        None => None,
    }
}

/// A setting: that of the stage, of the workflow, of the environment, in this
/// order; blank ones do not count.
pub open spec fn setting(settings: SettingsView, key: Seq<char>) -> Option<Seq<char>> {
    match section_value(settings.stage_env, key, settings.vars, settings.outputs) {
        Some(value) => Some(value),
        None => match section_value(
            settings.workflow_env,
            key,
            settings.vars,
            settings.outputs,
        ) {
            Some(value) => Some(value),
            None => set_in(settings.env, key),
        },
    }
}

fn section_setting(
    section: &StrMap<String>,
    key: &str,
    vars: &StrMap<String>,
    outputs: &StrMap<String>,
) -> (r: Option<String>)
    ensures
        opt_text(r) == section_value(section.entries(), key@, vars.entries(), outputs.entries()),
{
    match section.get(key) {
        Some(text) => {
            let rendered = subst(text.as_str(), vars, outputs);
            let value = trim(rendered.as_str());
            if value.is_empty() {
                None
            } else {
                Some(value.to_owned())
            }
        },
        None => None,
    }
}

/// Looks a setting up.
pub fn resolve_setting(key: &str, settings: &Settings) -> (r: Option<String>)
    ensures
        opt_text(r) == setting(settings@, key@),
{
    let of_stage = section_setting(settings.stage_env, key, settings.vars, settings.outputs);
    if of_stage.is_some() {
        return of_stage;
    }
    let of_workflow = section_setting(
        settings.workflow_env,
        key,
        settings.vars,
        settings.outputs,
    );
    if of_workflow.is_some() {
        return of_workflow;
    }
    non_empty_env(settings.env, key)
}

/// Whether a text means yes.
pub open spec fn truthy(value: Seq<char>) -> bool {
    let v = lowered(trimmed(value));
    v == "1"@ || v == "true"@ || v == "yes"@ || v == "on"@
}

pub fn is_truthy(value: &str) -> (r: bool)
    ensures
        r == truthy(value@),
{
    let v = to_lower(trim(value));
    same(v.as_str(), "1") || same(v.as_str(), "true") || same(v.as_str(), "yes") || same(
        v.as_str(),
        "on",
    )
}

/// The backend that a text names.
pub open spec fn backend_named(raw: Seq<char>, stage_id: Seq<char>) -> Result<
    VaultBackend,
    ErrorView,
> {
    let name = lowered(trimmed(raw));
    if name == ""@ || name == "file"@ {
        Ok(VaultBackend::File)
    } else if name == "http"@ || name == "vault"@ || name == "openbao"@ {
        Ok(VaultBackend::Http)
    } else {
        Err(
            fault(
                "provider_start_failed"@,
                "unsupported ANNA_VAULT_BACKEND '"@ + name + "' in stage '"@ + stage_id
                    + "', expected file|http|vault|openbao"@,
            ),
        )
    }
}

pub fn parse_backend(raw: &str, stage_id: &str) -> (r: Result<VaultBackend, ProviderError>)
    ensures
        match r {
            Ok(backend) => backend_named(raw@, stage_id@) == Ok::<VaultBackend, ErrorView>(backend),
            Err(err) => backend_named(raw@, stage_id@) == Err::<VaultBackend, ErrorView>(err@),
        },
{
    let name = to_lower(trim(raw));
    if same(name.as_str(), "") || same(name.as_str(), "file") {
        return Ok(VaultBackend::File);
    }
    if same(name.as_str(), "http") || same(name.as_str(), "vault") || same(
        name.as_str(),
        "openbao",
    ) {
        return Ok(VaultBackend::Http);
    }
    Err(
        ProviderError::new(
            "provider_start_failed",
            cat5(
                "unsupported ANNA_VAULT_BACKEND '",
                name.as_str(),
                "' in stage '",
                stage_id,
                "', expected file|http|vault|openbao",
            ),
        ),
    )
}

/// A setting without slashes at its ends, or the default; an error where
/// nothing is left.
pub open spec fn slashless(
    settings: SettingsView,
    key: Seq<char>,
    default_value: Seq<char>,
    complaint: Seq<char>,
) -> Result<Seq<char>, ErrorView> {
    let raw = match setting(settings, key) {
        Some(value) => value,
        None => default_value,
    };
    let value = trim_by(trimmed(raw), CharSet::Only('/'));
    if value.len() == 0 {
        Err(fault("provider_start_failed"@, complaint))
    } else {
        Ok(value)
    }
}

fn non_empty_setting(
    key: &str,
    default_value: &str,
    complaint: String,
    settings: &Settings,
) -> (r: Result<String, ProviderError>)
    ensures
        outcome(r) == slashless(settings@, key@, default_value@, complaint@),
{
    let raw = match resolve_setting(key, settings) {
        Some(value) => value,
        None => default_value.to_owned(),
    };
    let value = trim_text_by(trim(raw.as_str()), CharSet::Only('/'));
    if value.is_empty() {
        return Err(ProviderError::new("provider_start_failed", complaint));
    }
    Ok(value.to_owned())
}

/// How the settings say the provider makes itself known: by a token, or by the
/// two parts of an AppRole.
pub open spec fn auth_config(settings: SettingsView) -> Result<AuthView, ErrorView> {
    match slashless(
        settings,
        "ANNA_VAULT_AUTH_PATH"@,
        "auth/approle/login"@,
        "ANNA_VAULT_AUTH_PATH cannot be empty in stage '"@ + settings.stage_id + "'"@,
    ) {
        Err(e) => Err(e),
        Ok(auth_path) => match setting(settings, "ANNA_VAULT_TOKEN"@) {
            Some(token) => Ok(AuthView::Token(token)),
            None => match (
                setting(settings, "ANNA_VAULT_ROLE_ID"@),
                setting(settings, "ANNA_VAULT_SECRET_ID"@),
            ) {
                (Some(role_id), Some(secret_id)) => Ok(
                    AuthView::AppRole { role_id, secret_id, auth_path },
                ),
                (None, None) => Err(
                    fault(
                        "provider_start_failed"@,
                        "vault http backend requires ANNA_VAULT_TOKEN or AppRole credentials (ANNA_VAULT_ROLE_ID + ANNA_VAULT_SECRET_ID) in stage '"@
                            + settings.stage_id + "'"@,
                    ),
                ),
                _ => Err(
                    fault(
                        "provider_start_failed"@,
                        "ANNA_VAULT_ROLE_ID and ANNA_VAULT_SECRET_ID must be set together in stage '"@
                            + settings.stage_id + "'"@,
                    ),
                ),
            },
        },
    }
}

fn read_http_auth_config(settings: &Settings) -> (r: Result<VaultAuthConfig, ProviderError>)
    ensures
        outcome(r) == auth_config(settings@),
{
    let id = settings.stage_id;
    let auth_path = match non_empty_setting(
        "ANNA_VAULT_AUTH_PATH",
        "auth/approle/login",
        cat3("ANNA_VAULT_AUTH_PATH cannot be empty in stage '", id, "'"),
        settings,
    ) {
        Ok(path) => path,
        Err(err) => {
            return Err(err);
        },
    };
    if let Some(token) = resolve_setting("ANNA_VAULT_TOKEN", settings) {
        return Ok(VaultAuthConfig::Token(token));
    }
    let role_id = resolve_setting("ANNA_VAULT_ROLE_ID", settings);
    let secret_id = resolve_setting("ANNA_VAULT_SECRET_ID", settings);
    match (role_id, secret_id) {
        (Some(role_id), Some(secret_id)) => {
            Ok(VaultAuthConfig::AppRole { role_id, secret_id, auth_path })
        },
        (None, None) => Err(
            ProviderError::new(
                "provider_start_failed",
                cat3(
                    "vault http backend requires ANNA_VAULT_TOKEN or AppRole credentials (ANNA_VAULT_ROLE_ID + ANNA_VAULT_SECRET_ID) in stage '",
                    id,
                    "'",
                ),
            ),
        ),
        _ => Err(
            ProviderError::new(
                "provider_start_failed",
                cat3(
                    "ANNA_VAULT_ROLE_ID and ANNA_VAULT_SECRET_ID must be set together in stage '",
                    id,
                    "'",
                ),
            ),
        ),
    }
}

/// The version of the key-value store, which must be 1 or 2.
pub open spec fn kv_version_of(settings: SettingsView) -> Result<u8, ErrorView> {
    let raw = match nonblank(setting(settings, "ANNA_VAULT_KV_VERSION"@)) {
        Some(value) => trimmed(value),
        None => "2"@,
    };
    match number_value(raw, 255) {
        Err(e) => Err(
            fault(
                "provider_start_failed"@,
                "invalid ANNA_VAULT_KV_VERSION '"@ + raw + "' in stage '"@ + settings.stage_id
                    + "': "@ + e.message_text(),
            ),
        ),
        Ok(n) => if n == 1 || n == 2 {
            Ok(n as u8)
        } else {
            Err(
                fault(
                    "provider_start_failed"@,
                    "unsupported ANNA_VAULT_KV_VERSION '"@ + decimal(n)
                        + "' in stage '"@ + settings.stage_id + "', expected 1 or 2"@,
                ),
            )
        },
    }
}

fn read_kv_version(settings: &Settings) -> (r: Result<u8, ProviderError>)
    ensures
        match r {
            Ok(n) => kv_version_of(settings@) == Ok::<u8, ErrorView>(n),
            Err(err) => kv_version_of(settings@) == Err::<u8, ErrorView>(err@),
        },
{
    let id = settings.stage_id;
    let raw = match resolve_setting("ANNA_VAULT_KV_VERSION", settings) {
        Some(value) => {
            if is_blank(value.as_str()) {
                "2".to_owned()
            } else {
                trim(value.as_str()).to_owned()
            }
        },
        None => "2".to_owned(),
    };
    match parse_number(raw.as_str(), 255) {
        Err(e) => Err(
            ProviderError::new(
                "provider_start_failed",
                cat6(
                    "invalid ANNA_VAULT_KV_VERSION '",
                    raw.as_str(),
                    "' in stage '",
                    id,
                    "': ",
                    e.message(),
                ),
            ),
        ),
        Ok(n) => {
            if n == 1 {
                return Ok(1);
            }
            if n == 2 {
                return Ok(2);
            }
            let digits = u64_text(n);
            Err(
                ProviderError::new(
                    "provider_start_failed",
                    cat5(
                        "unsupported ANNA_VAULT_KV_VERSION '",
                        digits.as_str(),
                        "' in stage '",
                        id,
                        "', expected 1 or 2",
                    ),
                ),
            )
        },
    }
}

/// The settings of the http backend, or the first that is wrong.
pub open spec fn http_config(settings: SettingsView) -> Result<HttpConfigView, ErrorView> {
    match setting(settings, "ANNA_VAULT_ADDR"@) {
        None => Err(
            fault(
                "provider_start_failed"@,
                "ANNA_VAULT_ADDR is required for vault http backend in stage '"@
                    + settings.stage_id + "'"@,
            ),
        ),
        Some(addr) => match auth_config(settings) {
            Err(e) => Err(e),
            Ok(auth) => match slashless(
                settings,
                "ANNA_VAULT_MOUNT"@,
                "secret"@,
                "ANNA_VAULT_MOUNT cannot be empty for stage '"@ + settings.stage_id + "'"@,
            ) {
                Err(e) => Err(e),
                Ok(mount) => match kv_version_of(settings) {
                    Err(e) => Err(e),
                    Ok(kv_version) => Ok(
                        HttpConfigView {
                            addr,
                            auth,
                            namespace: nonblank(setting(settings, "ANNA_VAULT_NAMESPACE"@)),
                            mount,
                            kv_version,
                        },
                    ),
                },
            },
        },
    }
}

fn read_http_config(settings: &Settings) -> (r: Result<VaultHttpConfig, ProviderError>)
    ensures
        outcome(r) == http_config(settings@),
{
    let id = settings.stage_id;
    let addr = match resolve_setting("ANNA_VAULT_ADDR", settings) {
        Some(addr) => addr,
        None => {
            return Err(
                ProviderError::new(
                    "provider_start_failed",
                    cat3("ANNA_VAULT_ADDR is required for vault http backend in stage '", id, "'"),
                ),
            );
        },
    };
    let auth = match read_http_auth_config(settings) {
        Ok(auth) => auth,
        Err(err) => {
            return Err(err);
        },
    };
    let mount = match non_empty_setting(
        "ANNA_VAULT_MOUNT",
        "secret",
        cat3("ANNA_VAULT_MOUNT cannot be empty for stage '", id, "'"),
        settings,
    ) {
        Ok(mount) => mount,
        Err(err) => {
            return Err(err);
        },
    };
    let kv_version: u8 = match read_kv_version(settings) {
        Ok(n) => n,
        Err(err) => {
            return Err(err);
        },
    };
    let namespace = match resolve_setting("ANNA_VAULT_NAMESPACE", settings) {
        Some(namespace) => {
            if is_blank(namespace.as_str()) {
                None
            } else {
                Some(namespace)
            }
        },
        None => None,
    };
    Ok(VaultHttpConfig { addr, auth, namespace, mount, kv_version })
}

/// The file of the store where none is set.
pub open spec fn default_kv_file(env: Seq<(Seq<char>, Seq<char>)>) -> Seq<char> {
    match lookup(env, "HOME"@) {
        Some(home) => if home.len() > 0 {
            joined_path(home, ".anna/vault-kv.json"@)
        } else {
            "/tmp/anna-vault-kv.json"@
        },
        None => "/tmp/anna-vault-kv.json"@,
    }
}

fn default_vault_kv_file(env: &StrMap<String>) -> (r: String)
    ensures
        r@ == default_kv_file(env.entries()),
{
    if let Some(home) = env.get("HOME") {
        if !home.as_str().is_empty() {
            return join_path(home.as_str(), ".anna/vault-kv.json");
        }
    }
    "/tmp/anna-vault-kv.json".to_owned()
}

/// The prefixes that keys must have, where any are set.
pub open spec fn allowed_prefixes(settings: SettingsView) -> Option<Seq<Seq<char>>> {
    match setting(settings, "ANNA_VAULT_PREFIX_ALLOW"@) {
        Some(raw) => {
            let items = list_items(raw, CharSet::Only(','));
            if items.len() == 0 {
                None
            } else {
                Some(items)
            }
        },
        None => None,
    }
}

/// What the settings make of the vault provider, or the first that is wrong.
pub open spec fn vault_config_of(settings: SettingsView) -> Result<ConfigView, ErrorView> {
    let named = match setting(settings, "ANNA_VAULT_BACKEND"@) {
        Some(name) => name,
        None => "file"@,
    };
    match backend_named(named, settings.stage_id) {
        Err(e) => Err(e),
        Ok(backend) => {
            let kv_file = match setting(settings, "ANNA_VAULT_KV_FILE"@) {
                Some(file) => file,
                None => default_kv_file(settings.env),
            };
            let read_only = match setting(settings, "ANNA_VAULT_READ_ONLY"@) {
                Some(value) => truthy(value),
                None => false,
            };
            let allow_prefixes = allowed_prefixes(settings);
            match backend {
                VaultBackend::File => Ok(
                    ConfigView { backend, kv_file, allow_prefixes, read_only, http: None },
                ),
                VaultBackend::Http => match http_config(settings) {
                    Err(e) => Err(e),
                    Ok(http) => Ok(
                        ConfigView {
                            backend,
                            kv_file,
                            allow_prefixes,
                            read_only,
                            http: Some(http),
                        },
                    ),
                },
            }
        },
    }
}

/// Reads the settings of the vault provider.
pub fn read_config(settings: &Settings) -> (r: Result<VaultConfig, ProviderError>)
    ensures
        outcome(r) == vault_config_of(settings@),
{
    let named = match resolve_setting("ANNA_VAULT_BACKEND", settings) {
        Some(name) => name,
        None => "file".to_owned(),
    };
    let backend = match parse_backend(named.as_str(), settings.stage_id) {
        Ok(backend) => backend,
        Err(err) => {
            return Err(err);
        },
    };
    let kv_file = match resolve_setting("ANNA_VAULT_KV_FILE", settings) {
        Some(file) => file,
        None => default_vault_kv_file(settings.env),
    };
    let allow_prefixes = match resolve_setting("ANNA_VAULT_PREFIX_ALLOW", settings) {
        Some(raw) => {
            let items = split_list(raw.as_str(), CharSet::Only(','));
            if items.len() == 0 {
                None
            } else {
                Some(items)
            }
        },
        None => None,
    };
    let read_only = match resolve_setting("ANNA_VAULT_READ_ONLY", settings) {
        Some(value) => is_truthy(value.as_str()),
        None => false,
    };
    let http = match backend {
        VaultBackend::File => None,
        VaultBackend::Http => match read_http_config(settings) {
            Ok(http) => Some(http),
            Err(err) => {
                return Err(err);
            },
        },
    };
    Ok(VaultConfig { backend, kv_file, allow_prefixes, read_only, http })
}

/// The http backend has its settings: reading never gives one without.
pub proof fn http_backend_is_configured(settings: SettingsView)
    ensures
        vault_config_of(settings) is Ok ==> (vault_config_of(settings)->Ok_0.backend
            == VaultBackend::Http <==> vault_config_of(settings)->Ok_0.http is Some),
{
}

} // verus!
