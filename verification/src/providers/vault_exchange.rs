//! The requests that carry out a command on a vault server, one after the other.
use crate::providers::vault::{CommandView, OpView, VaultCommand, VaultOpResult};
use crate::providers::vault_config::{AuthView, HttpConfigView, VaultAuthConfig, VaultHttpConfig};
use crate::providers::vault_http::{
    delete_outcome, delete_request, delete_result, get_outcome, get_request, get_result, key_url,
    list_needs_fallback, list_outcome, list_request, list_result, list_url, login_outcome,
    login_request, login_result, login_view, namespace_of, put_body, put_outcome, put_request,
    put_result, RequestView, VaultMethod, VaultRequest, VaultResponse,
};
use crate::providers::{fault, outcome, ErrorView, ProviderError};
use crate::text::{as_str_opt, cat4, cat6, clone_opt};
use vstd::prelude::*;

verus! {

/// What a request is for.
#[derive(Clone, Copy, Debug, PartialEq, Eq, Structural)]
pub enum VaultCall {
    Login,
    Get,
    Put,
    Delete,
    List,
    /// The other way to list, for servers that do not know the method.
    ListFallback,
}

/// A request with what it is for.
pub struct VaultSend {
    pub call: VaultCall,
    pub request: VaultRequest,
}

/// A request with what it is for, as plain values.
pub struct SendView {
    pub call: VaultCall,
    pub request: RequestView,
}

impl View for VaultSend {
    type V = SendView;

    open spec fn view(&self) -> SendView {
        SendView { call: self.call, request: self.request@ }
    }
}

/// What comes after a response.
pub enum VaultStep {
    Send(VaultSend),
    Done(Result<VaultOpResult, ProviderError>),
}

/// What comes after a response, as plain values.
pub enum VaultStepView {
    Send(SendView),
    Done(Result<OpView, ErrorView>),
}

impl View for VaultStep {
    type V = VaultStepView;

    open spec fn view(&self) -> VaultStepView {
        match self {
            VaultStep::Send(send) => VaultStepView::Send(send@),
            VaultStep::Done(result) => VaultStepView::Done(outcome(*result)),
        }
    }
}

/// The request that carries out a command.
pub open spec fn command_send(
    config: HttpConfigView,
    token: Seq<char>,
    command: CommandView,
) -> SendView {
    let (call, method, url) = match command {
        CommandView::Get { key } => (VaultCall::Get, VaultMethod::Get, key_url(config, key)),
        CommandView::Put { key, value } => (
            VaultCall::Put,
            VaultMethod::Post,
            key_url(config, key),
        ),
        CommandView::Delete { key } => (
            VaultCall::Delete,
            VaultMethod::Delete,
            key_url(config, key),
        ),
        CommandView::List { prefix } => (
            VaultCall::List,
            VaultMethod::List,
            list_url(config, prefix),
        ),
    };
    SendView {
        call,
        request: RequestView {
            method,
            url,
            token: Some(token),
            namespace: namespace_of(config),
            body: match command {
                CommandView::Put { key, value } => Some(put_body(config.kv_version, value)),
                _ => None,
            },
        },
    }
}

/// The request that carries out a command.
pub fn command_request(config: &VaultHttpConfig, token: &str, command: &VaultCommand) -> (r:
    VaultSend)
    ensures
        r@ == command_send(config@, token@, command@),
{
    match command {
        VaultCommand::Get { key } => VaultSend {
            call: VaultCall::Get,
            request: get_request(config, token, key.as_str()),
        },
        VaultCommand::Put { key, value } => VaultSend {
            call: VaultCall::Put,
            request: put_request(config, token, key.as_str(), value.as_str()),
        },
        VaultCommand::Delete { key } => VaultSend {
            call: VaultCall::Delete,
            request: delete_request(config, token, key.as_str()),
        },
        VaultCommand::List { prefix } => VaultSend {
            call: VaultCall::List,
            request: list_request(config, token, as_str_opt(prefix)),
        },
    }
}

/// The first request of a command: the login, where there is no token yet.
pub open spec fn first_send(config: HttpConfigView, command: CommandView) -> SendView {
    match (config.auth, login_view(config)) {
        (AuthView::Token(token), _) => command_send(config, token, command),
        (_, Some(request)) => SendView { call: VaultCall::Login, request },
        (_, None) => command_send(config, Seq::empty(), command),
    }
}

/// The first request of a command.
pub fn first_request(config: &VaultHttpConfig, command: &VaultCommand) -> (r: VaultSend)
    ensures
        r@ == first_send(config@, command@),
{
    match (&config.auth, login_request(config)) {
        (VaultAuthConfig::Token(token), _) => command_request(config, token.as_str(), command),
        (_, Some(request)) => VaultSend { call: VaultCall::Login, request },
        (_, None) => command_request(config, "", command),
    }
}

/// What a response brings, for a command that asked for it.
pub open spec fn command_outcome(
    stage_id: Seq<char>,
    kv_version: u8,
    command: CommandView,
    status: u16,
    status_text: Seq<char>,
    body: Seq<char>,
) -> Result<OpView, ErrorView> {
    match command {
        CommandView::Get { key } => get_outcome(
            stage_id,
            key,
            kv_version,
            status,
            status_text,
            body,
        ),
        CommandView::Put { key, value } => put_outcome(stage_id, key, status, status_text, body),
        CommandView::Delete { key } => delete_outcome(stage_id, key, status, status_text, body),
        CommandView::List { prefix } => list_outcome(
            stage_id,
            prefix,
            status,
            status_text,
            body,
        ),
    }
}

/// What a response brings, for a command that asked for it.
pub fn command_result(
    stage_id: &str,
    kv_version: u8,
    command: &VaultCommand,
    response: &VaultResponse,
) -> (r: Result<VaultOpResult, ProviderError>)
    ensures
        outcome(r) == command_outcome(
            stage_id@,
            kv_version,
            command@,
            response.status,
            response.status_text@,
            response.body@,
        ),
{
    match command {
        VaultCommand::Get { key } => get_result(stage_id, key.as_str(), kv_version, response),
        VaultCommand::Put { key, .. } => put_result(stage_id, key.as_str(), response),
        VaultCommand::Delete { key } => delete_result(stage_id, key.as_str(), response),
        VaultCommand::List { prefix } => list_result(stage_id, prefix, response),
    }
}

/// What comes after the response to `sent`: the command itself after the login,
/// the other way to list where the server does not know the method, else the
/// result.
pub open spec fn step_after(
    stage_id: Seq<char>,
    config: HttpConfigView,
    command: CommandView,
    sent: SendView,
    status: u16,
    status_text: Seq<char>,
    body: Seq<char>,
) -> VaultStepView {
    if sent.call == VaultCall::Login {
        match login_outcome(stage_id, status, status_text, body) {
            Ok(token) => VaultStepView::Send(command_send(config, token, command)),
            Err(e) => VaultStepView::Done(Err(e)),
        }
    } else if sent.call == VaultCall::List && (status == 405 || status == 400) {
        VaultStepView::Send(
            SendView {
                call: VaultCall::ListFallback,
                request: RequestView {
                    method: VaultMethod::ListByGet,
                    body: None,
                    ..sent.request
                },
            },
        )
    } else {
        VaultStepView::Done(
            command_outcome(stage_id, config.kv_version, command, status, status_text, body),
        )
    }
}

/// What comes after the response to `sent`.
pub fn after_response(
    stage_id: &str,
    config: &VaultHttpConfig,
    command: &VaultCommand,
    sent: &VaultSend,
    response: &VaultResponse,
) -> (r: VaultStep)
    ensures
        r@ == step_after(
            stage_id@,
            config@,
            command@,
            sent@,
            response.status,
            response.status_text@,
            response.body@,
        ),
{
    if sent.call == VaultCall::Login {
        return match login_result(stage_id, response) {
            Ok(token) => VaultStep::Send(command_request(config, token.as_str(), command)),
            Err(e) => VaultStep::Done(Err(e)),
        };
    }
    if sent.call == VaultCall::List && list_needs_fallback(response.status) {
        let again = VaultRequest {
            method: VaultMethod::ListByGet,
            url: sent.request.url.clone(),
            token: clone_opt(&sent.request.token),
            namespace: clone_opt(&sent.request.namespace),
            body: None,
        };
        return VaultStep::Send(VaultSend { call: VaultCall::ListFallback, request: again });
    }
    VaultStep::Done(command_result(stage_id, config.kv_version, command, response))
}

/// How many requests can still follow one.
pub open spec fn requests_left(call: VaultCall) -> nat {
    match call {
        VaultCall::Login => 2,
        VaultCall::List => 1,
        _ => 0,
    }
}

/// A command takes three requests at most: each one that follows another leaves
/// fewer to follow.
pub proof fn exchange_is_short(
    stage_id: Seq<char>,
    config: HttpConfigView,
    command: CommandView,
    sent: SendView,
    status: u16,
    status_text: Seq<char>,
    body: Seq<char>,
)
    ensures
        step_after(
            stage_id,
            config,
            command,
            sent,
            status,
            status_text,
            body,
        ) matches VaultStepView::Send(next) ==> requests_left(next.call) < requests_left(
            sent.call,
        ),
{
}

/// Every request after the login carries the token that the login brought, to
/// the last one.
pub proof fn token_is_carried(
    stage_id: Seq<char>,
    config: HttpConfigView,
    command: CommandView,
    sent: SendView,
    status: u16,
    status_text: Seq<char>,
    body: Seq<char>,
)
    ensures
        step_after(
            stage_id,
            config,
            command,
            sent,
            status,
            status_text,
            body,
        ) matches VaultStepView::Send(next) ==> if sent.call == VaultCall::Login {
            login_outcome(stage_id, status, status_text, body) is Ok && next.request.token == Some(
                login_outcome(stage_id, status, status_text, body)->Ok_0,
            )
        } else {
            next.request.token == sent.request.token
        },
{
}

// ---------------------------------------------------------------- failures

/// What errors call a request.
pub open spec fn call_name(call: VaultCall) -> Seq<char> {
    match call {
        VaultCall::Login => "AppRole login"@,
        VaultCall::Get => "get"@,
        VaultCall::Put => "put"@,
        VaultCall::Delete => "delete"@,
        VaultCall::List => "list"@,
        VaultCall::ListFallback => "list fallback"@,
    }
}

fn name_of_call(call: VaultCall) -> (r: &'static str)
    ensures
        r@ == call_name(call),
{
    match call {
        VaultCall::Login => "AppRole login",
        VaultCall::Get => "get",
        VaultCall::Put => "put",
        VaultCall::Delete => "delete",
        VaultCall::List => "list",
        VaultCall::ListFallback => "list fallback",
    }
}

/// The error of a request that could not be sent.
pub fn send_failed(call: VaultCall, stage_id: &str, why: &str) -> (r: ProviderError)
    ensures
        r@ == fault(
            "provider_exec_failed"@,
            "vault "@ + call_name(call) + " request failed in stage '"@ + stage_id@ + "': "@ + why@,
        ),
{
    ProviderError::new(
        "provider_exec_failed",
        cat6("vault ", name_of_call(call), " request failed in stage '", stage_id, "': ", why),
    )
}

/// The error of a response that could not be read.
pub fn read_failed(call: VaultCall, stage_id: &str, why: &str) -> (r: ProviderError)
    ensures
        r@ == fault(
            "provider_exec_failed"@,
            "failed reading vault "@ + (if call == VaultCall::ListFallback {
                "list"@
            } else {
                call_name(call)
            }) + " response in stage '"@ + stage_id@ + "': "@ + why@,
        ),
{
    let name = if call == VaultCall::ListFallback {
        "list"
    } else {
        name_of_call(call)
    };
    ProviderError::new(
        "provider_exec_failed",
        cat6("failed reading vault ", name, " response in stage '", stage_id, "': ", why),
    )
}

/// The error of a client that could not be made.
pub fn client_failed(stage_id: &str, why: &str) -> (r: ProviderError)
    ensures
        r@ == fault(
            "provider_start_failed"@,
            "failed creating vault http client in stage '"@ + stage_id@ + "': "@ + why@,
        ),
{
    ProviderError::new(
        "provider_start_failed",
        cat4("failed creating vault http client in stage '", stage_id, "': ", why),
    )
}

} // verus!
