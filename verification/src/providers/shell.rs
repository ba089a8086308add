//! The provider that runs a shell command line.
use crate::expr::{subst, substituted};
use crate::providers::{
    command_dir, command_env_with_secrets, command_variables_with_secrets, fault, outcome,
    working_dir, CommandPlan, ErrorView, PlanView, ProviderError, SecretSources, SourcesView,
};
use crate::strmap::StrMap;
use crate::text::{
    cat3, cat4, group_texts, texts, trim, trim_end_by, trim_text_end_by, trimmed, CharSet,
};
use crate::workflow::{Stage, StageView, Workflow, WorkflowView};
use vstd::prelude::*;

verus! {

/// Runs the `exec` of a stage by `sh`.
#[derive(Debug, Clone, Copy)]
pub struct ShellProvider;

/// The command of a shell stage, or the error of the first step that fails.
pub open spec fn shell_plan(
    stage: StageView,
    workflow: WorkflowView,
    vars: Seq<(Seq<char>, Seq<char>)>,
    outputs: Seq<(Seq<char>, Seq<char>)>,
    sources: SourcesView,
) -> Result<PlanView, ErrorView> {
    match stage.command {
        None => Err(
            fault(
                "provider_exec_failed"@,
                "stage '"@ + stage.id + "' is missing 'exec' command"@,
            ),
        ),
        Some(line) => match command_variables_with_secrets(
            stage,
            workflow,
            vars,
            outputs,
            sources,
        ) {
            Err(e) => Err(e),
            Ok(env) => Ok(
                PlanView {
                    program: "sh"@,
                    args: seq!["-lc"@, substituted(line, vars, outputs)],
                    env,
                    dir: working_dir(stage.workdir, workflow.workdir),
                    stdin: None,
                },
            ),
        },
    }
}

/// The result of a shell stage: the output without white space at its end, or
/// an error with what the command said.
pub open spec fn shell_result(
    stage_id: Seq<char>,
    success: bool,
    stdout: Seq<char>,
    stderr: Seq<char>,
) -> Result<Seq<char>, ErrorView> {
    if success {
        Ok(trim_end_by(stdout, CharSet::Space))
    } else {
        let said = if trimmed(stderr).len() == 0 {
            trimmed(stdout)
        } else {
            trimmed(stderr)
        };
        Err(
            fault(
                "provider_exec_failed"@,
                "shell command failed in stage '"@ + stage_id + "': "@ + said,
            ),
        )
    }
}

impl ShellProvider {
    /// The command that runs the stage.
    pub fn plan(
        &self,
        stage: &Stage,
        workflow: &Workflow,
        vars: &StrMap<String>,
        outputs: &StrMap<String>,
        sources: &SecretSources,
    ) -> (r: Result<CommandPlan, ProviderError>)
        ensures
            outcome(r) == shell_plan(
                stage@,
                workflow@,
                vars.entries(),
                outputs.entries(),
                sources@,
            ),
    {
        broadcast use group_texts;

        match &stage.command {
            None => Err(
                ProviderError::new(
                    "provider_exec_failed",
                    cat3("stage '", stage.id.as_str(), "' is missing 'exec' command"),
                ),
            ),
            Some(line) => {
                let rendered = subst(line.as_str(), vars, outputs);
                let env = match command_env_with_secrets(stage, workflow, vars, outputs, sources) {
                    Ok(env) => env,
                    Err(err) => {
                        return Err(err);
                    },
                };
                let mut args: Vec<String> = Vec::new();
                args.push("-lc".to_owned());
                args.push(rendered);
                assert(texts(args@) =~= seq![
                    "-lc"@,
                    substituted(line@, vars.entries(), outputs.entries()),
                ]);
                Ok(
                    CommandPlan {
                        program: "sh".to_owned(),
                        args,
                        env,
                        dir: command_dir(stage, workflow),
                        stdin: None,
                    },
                )
            },
        }
    }

    /// The result of the stage once its command has ended.
    pub fn finish(&self, stage: &Stage, success: bool, stdout: &str, stderr: &str) -> (r: Result<
        String,
        ProviderError,
    >)
        ensures
            outcome(r) == shell_result(stage@.id, success, stdout@, stderr@),
    {
        if !success {
            let stderr = trim(stderr);
            let said = if stderr.is_empty() {
                trim(stdout)
            } else {
                stderr
            };
            return Err(
                ProviderError::new(
                    "provider_exec_failed",
                    cat4("shell command failed in stage '", stage.id.as_str(), "': ", said),
                ),
            );
        }
        Ok(trim_text_end_by(stdout, CharSet::Space).to_owned())
    }
}

} // verus!
