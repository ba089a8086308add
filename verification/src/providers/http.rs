//! The provider that fetches or posts to a URL.
use crate::expr::{subst, substituted};
use crate::providers::{fault, outcome, render_opt, rendered_opt, ErrorView, ProviderError};
use crate::strmap::StrMap;
use crate::text::{
    after_prefix, blank, cat3, cat4, cat6, is_blank, matches_at, opt_text, starts_with,
    strip_prefix, trim, trimmed,
};
use crate::workflow::{Stage, StageView};
use vstd::prelude::*;

verus! {

/// Fetches the URL of a stage, or posts to it.
#[derive(Debug, Clone, Copy)]
pub struct HttpProvider;

#[derive(Clone, Copy, Debug, PartialEq, Eq, Structural)]
pub enum HttpMethod {
    Get,
    Post,
}

/// A request to send.
pub struct HttpPlan {
    pub method: HttpMethod,
    pub url: String,
    pub body: Option<String>,
}

/// A request to send, as plain values.
pub struct HttpPlanView {
    pub method: HttpMethod,
    pub url: Seq<char>,
    pub body: Option<Seq<char>>,
}

impl View for HttpPlan {
    type V = HttpPlanView;

    open spec fn view(&self) -> HttpPlanView {
        HttpPlanView { method: self.method, url: self.url@, body: opt_text(self.body) }
    }
}

/// The method and URL that a command line names.
pub open spec fn method_and_url(line: Seq<char>) -> Result<(HttpMethod, Seq<char>), Seq<char>> {
    let t = trimmed(line);
    match after_prefix(t, "POST "@) {
        Some(rest) => if blank(rest) {
            Err("POST requires url"@)
        } else {
            Ok((HttpMethod::Post, trimmed(rest)))
        },
        None => match after_prefix(t, "GET "@) {
            Some(rest) => if blank(rest) {
                Err("GET requires url"@)
            } else {
                Ok((HttpMethod::Get, trimmed(rest)))
            },
            None => if matches_at(t, "http://"@, 0) || matches_at(t, "https://"@, 0) {
                Ok((HttpMethod::Get, t))
            } else {
                Err("exec must be URL or 'POST <url>'"@)
            },
        },
    }
}

/// Reads `POST <url>`, `GET <url>` or a URL alone, which is fetched.
pub fn parse_method_and_url<'a>(line: &'a str) -> (r: Result<(HttpMethod, &'a str), &'static str>)
    ensures
        match r {
            Ok((method, url)) => method_and_url(line@) == Ok::<(HttpMethod, Seq<char>), Seq<char>>(
                (method, url@),
            ),
            Err(message) => method_and_url(line@) == Err::<(HttpMethod, Seq<char>), Seq<char>>(
                message@,
            ),
        },
{
    let t = trim(line);
    if let Some(rest) = strip_prefix(t, "POST ") {
        if is_blank(rest) {
            return Err("POST requires url");
        }
        return Ok((HttpMethod::Post, trim(rest)));
    }
    if let Some(rest) = strip_prefix(t, "GET ") {
        if is_blank(rest) {
            return Err("GET requires url");
        }
        return Ok((HttpMethod::Get, trim(rest)));
    }
    if starts_with(t, "http://") || starts_with(t, "https://") {
        return Ok((HttpMethod::Get, t));
    }
    Err("exec must be URL or 'POST <url>'")
}

/// The request of an http stage. A post has the `stdin` of the stage as body.
pub open spec fn http_plan(
    stage: StageView,
    vars: Seq<(Seq<char>, Seq<char>)>,
    outputs: Seq<(Seq<char>, Seq<char>)>,
) -> Result<HttpPlanView, ErrorView> {
    match stage.command {
        None => Err(
            fault(
                "provider_exec_failed"@,
                "stage '"@ + stage.id + "' requires 'exec' for provider=http"@,
            ),
        ),
        Some(line) => match method_and_url(substituted(line, vars, outputs)) {
            Err(message) => Err(
                fault(
                    "provider_exec_failed"@,
                    "http provider stage '"@ + stage.id + "': "@ + message,
                ),
            ),
            Ok((HttpMethod::Get, url)) => Ok(
                HttpPlanView { method: HttpMethod::Get, url, body: None },
            ),
            Ok((HttpMethod::Post, url)) => Ok(
                HttpPlanView {
                    method: HttpMethod::Post,
                    url,
                    body: Some(
                        match rendered_opt(stage.stdin, vars, outputs) {
                            Some(body) => body,
                            None => Seq::empty(),
                        },
                    ),
                },
            ),
        },
    }
}

/// The result of an http stage: the body, or an error that names the status.
pub open spec fn http_result(
    stage_id: Seq<char>,
    success: bool,
    status: Seq<char>,
    body: Seq<char>,
) -> Result<Seq<char>, ErrorView> {
    if success {
        Ok(body)
    } else {
        Err(
            fault(
                "provider_exec_failed"@,
                "http status "@ + status + " in stage '"@ + stage_id + "': "@ + body,
            ),
        )
    }
}

impl HttpProvider {
    /// The request that the stage sends.
    pub fn plan(&self, stage: &Stage, vars: &StrMap<String>, outputs: &StrMap<String>) -> (r:
        Result<HttpPlan, ProviderError>)
        ensures
            outcome(r) == http_plan(stage@, vars.entries(), outputs.entries()),
    {
        match &stage.command {
            None => Err(
                ProviderError::new(
                    "provider_exec_failed",
                    cat3("stage '", stage.id.as_str(), "' requires 'exec' for provider=http"),
                ),
            ),
            Some(line) => {
                let rendered = subst(line.as_str(), vars, outputs);
                match parse_method_and_url(rendered.as_str()) {
                    Err(message) => Err(
                        ProviderError::new(
                            "provider_exec_failed",
                            cat4("http provider stage '", stage.id.as_str(), "': ", message),
                        ),
                    ),
                    Ok((HttpMethod::Get, url)) => Ok(
                        HttpPlan { method: HttpMethod::Get, url: url.to_owned(), body: None },
                    ),
                    Ok((HttpMethod::Post, url)) => {
                        let body = match render_opt(&stage.stdin, vars, outputs) {
                            Some(body) => body,
                            None => String::new(),
                        };
                        Ok(
                            HttpPlan {
                                method: HttpMethod::Post,
                                url: url.to_owned(),
                                body: Some(body),
                            },
                        )
                    },
                }
            },
        }
    }

    /// The result of the stage once the response is there.
    pub fn finish(&self, stage: &Stage, success: bool, status: &str, body: String) -> (r: Result<
        String,
        ProviderError,
    >)
        ensures
            outcome(r) == http_result(stage@.id, success, status@, body@),
    {
        if success {
            Ok(body)
        } else {
            Err(
                ProviderError::new(
                    "provider_exec_failed",
                    cat6(
                        "http status ",
                        status,
                        " in stage '",
                        stage.id.as_str(),
                        "': ",
                        body.as_str(),
                    ),
                ),
            )
        }
    }
}

} // verus!
