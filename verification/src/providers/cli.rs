//! The provider that runs a program, and what its exit says.
use crate::expr::{subst, substituted};
use crate::json::{
    compact_object, compact_object_text, json_read, opt_json, parse_json, text_member, Json,
    JsonView,
};
use crate::number::{decimal, u64_text};
use crate::providers::{
    command_dir, command_env_with_secrets, command_variables_with_secrets, fault, outcome,
    render_all, render_opt, rendered_all, rendered_opt, working_dir, CommandPlan, ErrorView,
    PlanView, ProviderError, SecretSources, SourcesView,
};
use crate::strmap::StrMap;
use crate::text::{
    blank, cat2, cat3, cat4, cat5, cat6, is_blank, list_items, opt_str, opt_text, same, split_list,
    texts, trim, trim_end_by, trim_text_end_by, trimmed, CharSet,
};
use crate::workflow::{Stage, StageView, Workflow, WorkflowView};
use vstd::prelude::*;

verus! {

/// Runs the `exec` of a stage as a program.
#[derive(Debug, Clone, Copy)]
pub struct CliProvider;

/// The command of a cli stage, or the error of the first step that fails.
pub open spec fn cli_plan(
    stage: StageView,
    workflow: WorkflowView,
    vars: Seq<(Seq<char>, Seq<char>)>,
    outputs: Seq<(Seq<char>, Seq<char>)>,
    sources: SourcesView,
) -> Result<PlanView, ErrorView> {
    match stage.command {
        None => Err(
            fault(
                "provider_exec_failed"@,
                "stage '"@ + stage.id + "' requires 'exec' for provider=cli"@,
            ),
        ),
        Some(program) => match command_variables_with_secrets(
            stage,
            workflow,
            vars,
            outputs,
            sources,
        ) {
            Err(e) => Err(e),
            Ok(env) => Ok(
                PlanView {
                    program: substituted(program, vars, outputs),
                    args: rendered_all(stage.args, vars, outputs),
                    env,
                    dir: working_dir(stage.workdir, workflow.workdir),
                    stdin: rendered_opt(stage.stdin, vars, outputs),
                },
            ),
        },
    }
}

// ---------------------------------------------------------------- exit

/// Whether a code is one that a provider program can report.
pub open spec fn known_code(code: Seq<char>) -> bool {
    ||| code == "provider_not_found"@
    ||| code == "provider_start_failed"@
    ||| code == "provider_timeout"@
    ||| code == "provider_invalid_response"@
    ||| code == "provider_exec_failed"@
}

/// The code that a JSON value reports, where it is a known one.
pub open spec fn reported_code(value: JsonView) -> Option<Seq<char>> {
    match text_member(value, "error_code"@) {
        Some(code) => if known_code(code) {
            Some(code)
        } else {
            None
        },
        None => None,
    }
}

/// The last line of a text that is not blank, trimmed.
pub open spec fn last_line(text: Seq<char>) -> Option<Seq<char>> {
    let lines = list_items(text, CharSet::Only('\n'));
    if lines.len() == 0 {
        None
    } else {
        Some(lines.last())
    }
}

/// The code that the last line of an error output reports as JSON.
pub open spec fn stderr_code(stderr: Seq<char>) -> Option<Seq<char>> {
    match last_line(stderr) {
        Some(line) => match json_read(line) {
            Ok(value) => reported_code(value),
            Err(_) => None,
        },
        None => None,
    }
}

/// The code for the exit of a program: what its error output reports, else
/// what its exit code stands for.
pub open spec fn exit_code_name(exit_code: Option<i32>, reported: Option<Seq<char>>) -> Seq<char> {
    match reported {
        Some(code) => code,
        None => match exit_code {
            Some(10) => "provider_not_found"@,
            Some(11) => "provider_start_failed"@,
            Some(12) => "provider_timeout"@,
            Some(13) => "provider_invalid_response"@,
            _ => "provider_exec_failed"@,
        },
    }
}

/// The message of an error output: that of its last line where this is JSON
/// with one, else the line itself.
pub open spec fn line_message(line: Seq<char>, value: Option<JsonView>) -> Seq<char> {
    match value {
        Some(value) => match text_member(value, "message"@) {
            Some(message) => if blank(message) {
                line
            } else {
                message
            },
            None => line,
        },
        None => line,
    }
}

pub open spec fn stderr_message(stderr: Seq<char>) -> Seq<char> {
    match last_line(stderr) {
        Some(line) => line_message(
            line,
            match json_read(line) {
                Ok(value) => Some(value),
                Err(_) => None,
            },
        ),
        None => "command failed"@,
    }
}

/// The code that a JSON value reports in its member `error_code`.
pub fn error_code_in(value: &Json) -> (r: Option<&'static str>)
    ensures
        opt_str(r) == reported_code(value@),
{
    match value.get_str("error_code") {
        Some(code) => {
            if same(code, "provider_not_found") {
                Some("provider_not_found")
            } else if same(code, "provider_start_failed") {
                Some("provider_start_failed")
            } else if same(code, "provider_timeout") {
                Some("provider_timeout")
            } else if same(code, "provider_invalid_response") {
                Some("provider_invalid_response")
            } else if same(code, "provider_exec_failed") {
                Some("provider_exec_failed")
            } else {
                None
            }
        },
        None => None,
    }
}

fn last_line_of(text: &str) -> (r: Option<String>)
    ensures
        opt_text(r) == last_line(text@),
{
    let lines = split_list(text, CharSet::Only('\n'));
    if lines.len() == 0 {
        None
    } else {
        assert(texts(lines@).last() == lines@[lines@.len() - 1]@);
        Some(lines[lines.len() - 1].clone())
    }
}

/// The code that the last line of an error output reports, where it is JSON.
pub fn parse_error_code_from_stderr(stderr: &str) -> (r: Option<&'static str>)
    ensures
        opt_str(r) == stderr_code(stderr@),
{
    match last_line_of(stderr) {
        Some(line) => match parse_json(line.as_str()) {
            Ok(value) => error_code_in(&value),
            Err(_) => None,
        },
        None => None,
    }
}

/// The code for an exit, from what was reported.
pub fn exit_code_with(exit_code: Option<i32>, reported: Option<&'static str>) -> (r: &'static str)
    ensures
        r@ == exit_code_name(exit_code, opt_str(reported)),
{
    if let Some(code) = reported {
        return code;
    }
    match exit_code {
        Some(10) => "provider_not_found",
        Some(11) => "provider_start_failed",
        Some(12) => "provider_timeout",
        Some(13) => "provider_invalid_response",
        _ => "provider_exec_failed",
    }
}

/// The code for the exit of a program with this error output.
pub fn map_exit_code(exit_code: Option<i32>, stderr: &str) -> (r: &'static str)
    ensures
        r@ == exit_code_name(exit_code, stderr_code(stderr@)),
{
    let reported = parse_error_code_from_stderr(stderr);
    exit_code_with(exit_code, reported)
}

/// The message of a line of error output, from what it is as JSON.
pub fn message_of_line(line: &str, value: Option<&Json>) -> (r: String)
    ensures
        r@ == line_message(line@, opt_json(value)),
{
    if let Some(value) = value {
        if let Some(message) = value.get_str("message") {
            if !is_blank(message) {
                return message.to_owned();
            }
        }
    }
    line.to_owned()
}

/// The message that an error output gives.
pub fn best_error_message(stderr: &str) -> (r: String)
    ensures
        r@ == stderr_message(stderr@),
{
    match last_line_of(stderr) {
        Some(line) => match parse_json(line.as_str()) {
            Ok(value) => message_of_line(line.as_str(), Some(&value)),
            Err(_) => message_of_line(line.as_str(), None),
        },
        None => "command failed".to_owned(),
    }
}

/// A signed number in decimal.
pub open spec fn signed_decimal(n: int) -> Seq<char> {
    if n < 0 {
        "-"@ + decimal((-n) as nat)
    } else {
        decimal(n as nat)
    }
}

fn i32_text(n: i32) -> (r: String)
    ensures
        r@ == signed_decimal(n as int),
{
    if n < 0 {
        let magnitude = u64_text((-(n as i64)) as u64);
        cat2("-", magnitude.as_str())
    } else {
        u64_text(n as u64)
    }
}

/// How an exit code is shown in a message.
pub open spec fn exit_text(exit_code: Option<i32>) -> Seq<char> {
    match exit_code {
        Some(code) => "Some("@ + signed_decimal(code as int) + ")"@,
        None => "None"@,
    }
}

/// The result of a cli stage whose output was read as `read`, where its parse
/// mode is json.
pub open spec fn parsed_output(
    stage_id: Seq<char>,
    mode: Seq<char>,
    raw: Seq<char>,
    read: Result<Seq<char>, Seq<char>>,
) -> Result<Seq<char>, ErrorView> {
    if mode == "text"@ {
        Ok(raw)
    } else if mode == "json"@ {
        match read {
            Ok(text) => Ok(text),
            Err(message) => Err(
                fault(
                    "provider_invalid_response"@,
                    "invalid json from cli provider in stage '"@ + stage_id + "': "@ + message,
                ),
            ),
        }
    } else {
        Err(
            fault(
                "provider_invalid_response"@,
                "unsupported parse mode '"@ + mode + "' in stage '"@ + stage_id
                    + "', expected text|json"@,
            ),
        )
    }
}

/// The parse mode of a stage, which is text where it names none.
pub open spec fn parse_mode(parse: Option<Seq<char>>) -> Seq<char> {
    match parse {
        Some(mode) => mode,
        None => "text"@,
    }
}

/// The result of a cli stage whose program has ended.
pub open spec fn cli_result(
    stage: StageView,
    success: bool,
    exit_code: Option<i32>,
    stdout: Seq<char>,
    stderr: Seq<char>,
) -> Result<Seq<char>, ErrorView> {
    if success {
        let raw = trim_end_by(stdout, CharSet::Space);
        parsed_output(stage.id, parse_mode(stage.parse), raw, compact_object(json_read(raw)))
    } else {
        Err(
            fault(
                exit_code_name(exit_code, stderr_code(trimmed(stderr))),
                "cli command failed in stage '"@ + stage.id + "' (exit "@ + exit_text(exit_code)
                    + "): "@ + stderr_message(trimmed(stderr)),
            ),
        )
    }
}

/// The result of a cli stage from its output and the compact text of the JSON
/// object that the output is.
pub fn output_or_error(
    stage_id: &str,
    mode: &str,
    raw: String,
    read: Result<String, String>,
) -> (r: Result<String, ProviderError>)
    ensures
        outcome(r) == parsed_output(
            stage_id@,
            mode@,
            raw@,
            match read {
                Ok(text) => Ok(text@),
                Err(message) => Err(message@),
            },
        ),
{
    if same(mode, "text") {
        return Ok(raw);
    }
    if same(mode, "json") {
        return match read {
            Ok(text) => Ok(text),
            Err(message) => Err(
                ProviderError::new(
                    "provider_invalid_response",
                    cat4(
                        "invalid json from cli provider in stage '",
                        stage_id,
                        "': ",
                        message.as_str(),
                    ),
                ),
            ),
        };
    }
    Err(
        ProviderError::new(
            "provider_invalid_response",
            cat5(
                "unsupported parse mode '",
                mode,
                "' in stage '",
                stage_id,
                "', expected text|json",
            ),
        ),
    )
}

impl CliProvider {
    /// The command that runs the stage.
    pub fn plan(
        &self,
        stage: &Stage,
        workflow: &Workflow,
        vars: &StrMap<String>,
        outputs: &StrMap<String>,
        sources: &SecretSources,
    ) -> (r: Result<CommandPlan, ProviderError>)
        ensures
            outcome(r) == cli_plan(
                stage@,
                workflow@,
                vars.entries(),
                outputs.entries(),
                sources@,
            ),
    {
        match &stage.command {
            None => Err(
                ProviderError::new(
                    "provider_exec_failed",
                    cat3("stage '", stage.id.as_str(), "' requires 'exec' for provider=cli"),
                ),
            ),
            Some(program) => {
                let program = subst(program.as_str(), vars, outputs);
                match command_env_with_secrets(stage, workflow, vars, outputs, sources) {
                    Err(err) => Err(err),
                    Ok(env) => Ok(
                        CommandPlan {
                            program,
                            args: render_all(&stage.args, vars, outputs),
                            env,
                            dir: command_dir(stage, workflow),
                            stdin: render_opt(&stage.stdin, vars, outputs),
                        },
                    ),
                }
            },
        }
    }

    /// The result of the stage once its program has ended.
    pub fn finish(
        &self,
        stage: &Stage,
        success: bool,
        exit_code: Option<i32>,
        stdout: &str,
        stderr: &str,
    ) -> (r: Result<String, ProviderError>)
        ensures
            outcome(r) == cli_result(stage@, success, exit_code, stdout@, stderr@),
    {
        if !success {
            let stderr = trim(stderr);
            let code = map_exit_code(exit_code, stderr);
            let message = best_error_message(stderr);
            let exit = match exit_code {
                Some(code) => {
                    let digits = i32_text(code);
                    cat3("Some(", digits.as_str(), ")")
                },
                None => "None".to_owned(),
            };
            return Err(
                ProviderError::new(
                    code,
                    cat6(
                        "cli command failed in stage '",
                        stage.id.as_str(),
                        "' (exit ",
                        exit.as_str(),
                        "): ",
                        message.as_str(),
                    ),
                ),
            );
        }
        let raw = trim_text_end_by(stdout, CharSet::Space);
        let mode = match &stage.parse {
            Some(mode) => mode.as_str(),
            None => "text",
        };
        if same(mode, "text") {
            return Ok(raw.to_owned());
        }
        let read = compact_object_text(raw);
        output_or_error(stage.id.as_str(), mode, raw.to_owned(), read)
    }
}

/// However a cli stage fails once its program has ended, its error is of one of
/// the known classes.
pub proof fn failures_are_classified(
    stage: StageView,
    success: bool,
    exit_code: Option<i32>,
    stdout: Seq<char>,
    stderr: Seq<char>,
)
    ensures
        cli_result(stage, success, exit_code, stdout, stderr) matches Err(e) ==> known_code(e.code),
{
}

} // verus!
