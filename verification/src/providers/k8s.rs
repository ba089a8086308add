//! The provider that runs `kubectl`, and the splitting of command lines into
//! words.
use crate::expr::{subst, substituted};
use crate::providers::{fault, outcome, render_all, rendered_all, ErrorView, ProviderError};
use crate::strmap::StrMap;
use crate::text::{cat3, texts};
use crate::workflow::{Stage, StageView};
use vstd::prelude::*;

verus! {

/// Runs `kubectl` with the arguments of a stage.
#[derive(Debug, Clone, Copy)]
pub struct K8sProvider;

/// The words of a command line as a Unix shell splits it; `None` where a quote
/// is not closed.
pub uninterp spec fn shell_words_of(line: Seq<char>) -> Option<Seq<Seq<char>>>;

/// `shell_words::split`, whose words depend on the line alone; its only error
/// is a quote that is not closed.
#[verifier::external_body]
pub(crate) fn command_words(line: &str) -> (r: Option<Vec<String>>)
    ensures
        match r {
            Some(words) => shell_words_of(line@) == Some(texts(words@)),
            None => shell_words_of(line@) is None,
        },
{
    match shell_words::split(line) {
        Ok(words) => Some(words),
        Err(_) => None,
    }
}

/// The stage that runs `kubectl` with the given words.
pub open spec fn kubectl_stage(
    stage: StageView,
    words: Option<Seq<Seq<char>>>,
) -> Result<StageView, ErrorView> {
    match words {
        None => Err(
            fault(
                "provider_exec_failed"@,
                "failed to parse k8s command in stage '"@ + stage.id
                    + "': missing closing quote"@,
            ),
        ),
        Some(words) => if words.len() == 0 {
            Err(
                fault(
                    "provider_exec_failed"@,
                    "stage '"@ + stage.id + "' has empty kubectl arguments"@,
                ),
            )
        } else {
            Ok(
                StageView {
                    provider: "cli"@,
                    command: Some("kubectl"@),
                    args: words,
                    ..stage
                },
            )
        },
    }
}

/// The cli stage of a k8s stage: its arguments, or the words of its `exec`.
pub open spec fn k8s_plan(
    stage: StageView,
    vars: Seq<(Seq<char>, Seq<char>)>,
    outputs: Seq<(Seq<char>, Seq<char>)>,
) -> Result<StageView, ErrorView> {
    if stage.args.len() > 0 {
        kubectl_stage(stage, Some(rendered_all(stage.args, vars, outputs)))
    } else {
        match stage.command {
            None => Err(
                fault(
                    "provider_exec_failed"@,
                    "stage '"@ + stage.id
                        + "' requires either 'args' or 'exec' for provider=k8s"@,
                ),
            ),
            Some(line) => kubectl_stage(stage, shell_words_of(substituted(line, vars, outputs))),
        }
    }
}

impl K8sProvider {
    /// The cli stage once the words are known.
    pub fn with_words(&self, stage: &Stage, words: Option<Vec<String>>) -> (r: Result<
        Stage,
        ProviderError,
    >)
        ensures
            outcome(r) == kubectl_stage(
                stage@,
                match words {
                    Some(words) => Some(texts(words@)),
                    None => None,
                },
            ),
    {
        match words {
            None => Err(
                ProviderError::new(
                    "provider_exec_failed",
                    cat3(
                        "failed to parse k8s command in stage '",
                        stage.id.as_str(),
                        "': missing closing quote",
                    ),
                ),
            ),
            Some(words) => {
                if words.len() == 0 {
                    return Err(
                        ProviderError::new(
                            "provider_exec_failed",
                            cat3(
                                "stage '",
                                stage.id.as_str(),
                                "' has empty kubectl arguments",
                            ),
                        ),
                    );
                }
                let mut cli_stage = stage.copied();
                cli_stage.provider = "cli".to_owned();
                cli_stage.command = Some("kubectl".to_owned());
                cli_stage.args = words;
                Ok(cli_stage)
            },
        }
    }

    /// The cli stage that runs `kubectl` for the stage.
    pub fn plan(&self, stage: &Stage, vars: &StrMap<String>, outputs: &StrMap<String>) -> (r:
        Result<Stage, ProviderError>)
        ensures
            outcome(r) == k8s_plan(stage@, vars.entries(), outputs.entries()),
    {
        if stage.args.len() > 0 {
            let words = render_all(&stage.args, vars, outputs);
            return self.with_words(stage, Some(words));
        }
        match &stage.command {
            None => Err(
                ProviderError::new(
                    "provider_exec_failed",
                    cat3(
                        "stage '",
                        stage.id.as_str(),
                        "' requires either 'args' or 'exec' for provider=k8s",
                    ),
                ),
            ),
            Some(line) => {
                let rendered = subst(line.as_str(), vars, outputs);
                let words = command_words(rendered.as_str());
                self.with_words(stage, words)
            },
        }
    }
}

} // verus!
