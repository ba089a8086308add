//! The git worktrees that stages run in.
use crate::expr::{subst, substituted};
use crate::paths::{join_path, joined_path, parent_dir, parent_path};
use crate::providers::{fault, outcome, ErrorView, ProviderError};
use crate::session::{session_dir, session_path};
use crate::strmap::{lookup, StrMap};
use crate::text::{
    blank, cat3, cat4, cat5, cat6, char_is_alnum, chars_of, group_texts, is_alnum, is_blank,
    opt_str, opt_text, texts, trim, trim_by, trim_idempotent, trim_text_by, trimmed, CharSet,
};
use crate::workflow::{Stage, StageView, Workflow, WorkflowView};
use vstd::prelude::*;
use vstd::string::*;

verus! {

// ---------------------------------------------------------------- names

/// The characters of a token, with `-` for all but ASCII letters, digits, `-`
/// and `_`.
pub open spec fn token_chars(s: Seq<char>) -> Seq<char> {
    Seq::new(
        s.len(),
        |i: int|
            if is_alnum(s[i]) || s[i] == '-' || s[i] == '_' {
                s[i]
            } else {
                '-'
            },
    )
}

/// A text as part of a file name: `x` where nothing but `-` would be left.
pub open spec fn token_of(s: Seq<char>) -> Seq<char> {
    if trim_by(token_chars(s), CharSet::Only('-')).len() == 0 {
        "x"@
    } else {
        token_chars(s)
    }
}

pub fn sanitize_token(input: &str) -> (r: String)
    ensures
        r@ == token_of(input@),
{
    let chars = chars_of(input);
    let mut out = String::new();
    let mut i: usize = 0;
    while i < chars.len()
        invariant
            i <= chars.len(),
            chars@ == input@,
            out@ =~= token_chars(input@).take(i as int),
        decreases chars.len() - i,
    {
        let c = chars[i];
        if char_is_alnum(c) || c == '-' || c == '_' {
            out.push(c);
        } else {
            out.push('-');
        }
        i += 1;
    }
    assert(token_chars(input@).take(i as int) =~= token_chars(input@));
    if trim_text_by(out.as_str(), CharSet::Only('-')).is_empty() {
        "x".to_owned()
    } else {
        out
    }
}

/// A token is not empty and holds ASCII letters, digits, `-` and `_` alone.
pub proof fn token_is_plain(s: Seq<char>)
    ensures
        token_of(s).len() > 0,
        forall|i: int|
            0 <= i < token_of(s).len() ==> is_alnum(#[trigger] token_of(s)[i]) || token_of(s)[i]
                == '-' || token_of(s)[i] == '_',
{
    reveal_strlit("x");
    trim_idempotent(token_chars(s), CharSet::Only('-'));
}

/// The branch of a stage's worktree: none is asked for, or one that is not
/// blank.
pub open spec fn worktree_branch_of(
    stage: StageView,
    vars: Seq<(Seq<char>, Seq<char>)>,
    outputs: Seq<(Seq<char>, Seq<char>)>,
) -> Result<Option<Seq<char>>, Seq<char>> {
    match stage.worktree {
        None => Ok(None),
        Some(branch) => {
            let name = trimmed(substituted(branch, vars, outputs));
            if name.len() == 0 {
                Err("stage '"@ + stage.id + "' has empty rendered worktree branch"@)
            } else {
                Ok(Some(name))
            }
        },
    }
}

pub fn worktree_branch(stage: &Stage, vars: &StrMap<String>, outputs: &StrMap<String>) -> (r:
    Result<Option<String>, String>)
    ensures
        match r {
            Ok(branch) => worktree_branch_of(stage@, vars.entries(), outputs.entries()) == Ok::<
                Option<Seq<char>>,
                Seq<char>,
            >(opt_text(branch)),
            Err(message) => worktree_branch_of(stage@, vars.entries(), outputs.entries()) == Err::<
                Option<Seq<char>>,
                Seq<char>,
            >(message@),
        },
{
    match &stage.worktree {
        None => Ok(None),
        Some(branch) => {
            let rendered = subst(branch.as_str(), vars, outputs);
            let name = trim(rendered.as_str());
            if name.is_empty() {
                return Err(
                    cat3("stage '", stage.id.as_str(), "' has empty rendered worktree branch"),
                );
            }
            Ok(Some(name.to_owned()))
        },
    }
}

/// The directory of a stage's worktree, in that of its session.
pub fn worktree_path(stage_id: &str, branch: &str, outputs: &StrMap<String>) -> (r: String)
    ensures
        r@ == joined_path(
            session_path(
                match lookup(outputs.entries(), "SESSION"@) {
                    Some(session) => session,
                    None => "unknown"@,
                },
            ),
            "worktree-"@ + token_of(stage_id@) + "-"@ + token_of(branch@),
        ),
{
    let dir = match outputs.get("SESSION") {
        Some(session) => session_dir(session.as_str()),
        None => session_dir("unknown"),
    };
    let stage_token = sanitize_token(stage_id);
    let branch_token = sanitize_token(branch);
    let name = cat4("worktree-", stage_token.as_str(), "-", branch_token.as_str());
    join_path(dir.as_str(), name.as_str())
}

/// The stage as it runs in its worktree.
pub fn stage_in(stage: &Stage, dir: &str) -> (r: Stage)
    ensures
        r@ == (StageView { workdir: Some(dir@), ..stage@ }),
{
    let mut out = stage.copied();
    out.workdir = Some(dir.to_owned());
    out
}

/// Where the repository of a stage is looked for, in turn.
pub open spec fn repo_candidates_of(
    workflow: WorkflowView,
    stage: StageView,
    current: Option<Seq<char>>,
) -> Seq<Seq<char>> {
    let a = match stage.workdir {
        Some(dir) => if blank(dir) {
            Seq::empty()
        } else {
            seq![dir]
        },
        None => Seq::empty(),
    };
    let b = match workflow.workdir {
        Some(dir) => if blank(dir) {
            a
        } else {
            a.push(dir)
        },
        None => a,
    };
    let c = match workflow.source_path {
        Some(source) => match parent_path(source) {
            Some(parent) => b.push(parent),
            None => b,
        },
        None => b,
    };
    match current {
        Some(dir) => c.push(dir),
        None => c,
    }
}

/// Where the repository of a stage is looked for: the stage's directory, the
/// workflow's, that of the workflow's file, and the current one.
pub fn repo_candidates(workflow: &Workflow, stage: &Stage, current: Option<&str>) -> (r: Vec<
    String,
>)
    ensures
        texts(r@) == repo_candidates_of(workflow@, stage@, opt_str(current)),
{
    broadcast use group_texts;

    let mut out: Vec<String> = Vec::new();
    if let Some(dir) = &stage.workdir {
        if !is_blank(dir.as_str()) {
            out.push(dir.clone());
            assert(texts(out@) =~= seq![dir@]);
        }
    }
    if let Some(dir) = &workflow.workdir {
        if !is_blank(dir.as_str()) {
            out.push(dir.clone());
        }
    }
    if let Some(source) = &workflow.source_path {
        if let Some(parent) = parent_dir(source.as_str()) {
            out.push(parent);
        }
    }
    if let Some(dir) = current {
        out.push(dir.to_owned());
    }
    out
}

// ---------------------------------------------------------------- git

fn args_of(args: &[&str]) -> (r: Vec<String>)
    ensures
        r@.len() == args@.len(),
        forall|i: int| 0 <= i < args@.len() ==> (#[trigger] texts(r@)[i]) == args@[i]@,
{
    broadcast use group_texts;

    let mut out: Vec<String> = Vec::new();
    let mut i: usize = 0;
    while i < args.len()
        invariant
            i <= args@.len(),
            out@.len() == i,
            forall|j: int| 0 <= j < i ==> (#[trigger] out@[j])@ == args@[j]@,
        decreases args@.len() - i,
    {
        out.push(args[i].to_owned());
        i += 1;
    }
    out
}

/// The arguments with which git tells the root of the repository around `base`.
pub fn repo_root_args(base: &str) -> (r: Vec<String>)
    ensures
        texts(r@) == seq!["-C"@, base@, "rev-parse"@, "--show-toplevel"@],
{
    let r = args_of(&["-C", base, "rev-parse", "--show-toplevel"]);
    assert(texts(r@) =~= seq!["-C"@, base@, "rev-parse"@, "--show-toplevel"@]);
    r
}

/// The root that git told, where it told one.
pub fn repo_root_told(success: bool, stdout: &str) -> (r: Option<String>)
    ensures
        opt_text(r) == if success && !blank(stdout@) {
            Some(trimmed(stdout@))
        } else {
            None
        },
{
    let root = trim(stdout);
    if success && !root.is_empty() {
        Some(root.to_owned())
    } else {
        None
    }
}

/// The arguments with which git makes a worktree: on a new branch, or on one
/// that is there.
pub open spec fn add_args(
    repo_root: Seq<char>,
    path: Seq<char>,
    branch: Seq<char>,
    create_branch: bool,
) -> Seq<Seq<char>> {
    if create_branch {
        seq!["-C"@, repo_root, "worktree"@, "add"@, "-b"@, branch, path]
    } else {
        seq!["-C"@, repo_root, "worktree"@, "add"@, path, branch]
    }
}

/// The arguments with which git makes a worktree.
pub fn worktree_add_args(repo_root: &str, path: &str, branch: &str, create_branch: bool) -> (r: Vec<
    String,
>)
    ensures
        texts(r@) == add_args(repo_root@, path@, branch@, create_branch),
{
    let r = if create_branch {
        args_of(&["-C", repo_root, "worktree", "add", "-b", branch, path])
    } else {
        args_of(&["-C", repo_root, "worktree", "add", path, branch])
    };
    assert(texts(r@) =~= add_args(repo_root@, path@, branch@, create_branch));
    r
}

/// The arguments with which git removes a worktree.
pub fn worktree_remove_args(repo_root: &str, path: &str) -> (r: Vec<String>)
    ensures
        texts(r@) == seq!["-C"@, repo_root@, "worktree"@, "remove"@, "--force"@, path@],
{
    let r = args_of(&["-C", repo_root, "worktree", "remove", "--force", path]);
    assert(texts(r@) =~= seq!["-C"@, repo_root@, "worktree"@, "remove"@, "--force"@, path@]);
    r
}

/// What git said: its error output, or else its output.
pub open spec fn git_words(stderr: Seq<char>, stdout: Seq<char>) -> Seq<char> {
    if blank(stderr) {
        trimmed(stdout)
    } else {
        trimmed(stderr)
    }
}

fn words_of<'a>(stderr: &'a str, stdout: &'a str) -> (r: &'a str)
    ensures
        r@ == git_words(stderr@, stdout@),
{
    let said = trim(stderr);
    if said.is_empty() {
        trim(stdout)
    } else {
        said
    }
}

/// The error of a worktree that git did not make.
pub fn worktree_add_error(repo_root: &str, branch: &str, stderr: &str, stdout: &str) -> (r: String)
    ensures
        r@ == "git worktree add failed (repo='"@ + repo_root@ + "', branch='"@ + branch@ + "'): "@
            + git_words(stderr@, stdout@),
{
    cat6(
        "git worktree add failed (repo='",
        repo_root,
        "', branch='",
        branch,
        "'): ",
        words_of(stderr, stdout),
    )
}

/// The error of a worktree that git did not remove.
pub fn worktree_remove_error(repo_root: &str, path: &str, stderr: &str, stdout: &str) -> (r: String)
    ensures
        r@ == "git worktree remove failed (repo='"@ + repo_root@ + "', path='"@ + path@ + "'): "@
            + git_words(stderr@, stdout@),
{
    cat6(
        "git worktree remove failed (repo='",
        repo_root,
        "', path='",
        path,
        "'): ",
        words_of(stderr, stdout),
    )
}

/// The error of a stage that asks for a worktree outside of any repository.
pub fn missing_repo_error(stage_id: &str, branch: &str) -> (r: String)
    ensures
        r@ == "stage '"@ + stage_id@ + "' requested worktree '"@ + branch@
            + "' but no git repository root was found"@,
{
    cat5(
        "stage '",
        stage_id,
        "' requested worktree '",
        branch,
        "' but no git repository root was found",
    )
}

/// The error of a worktree whose directory could not be cleared.
pub fn worktree_clear_error(stage_id: &str, path: &str, err: &str) -> (r: String)
    ensures
        r@ == "stage '"@ + stage_id@ + "' failed to clear existing worktree '"@ + path@ + "': "@
            + err@,
{
    cat6("stage '", stage_id, "' failed to clear existing worktree '", path, "': ", err)
}

/// The error of a worktree that could not be made.
pub fn worktree_setup_error(stage_id: &str, branch: &str, err: &str) -> (r: String)
    ensures
        r@ == "stage '"@ + stage_id@ + "' failed to setup worktree '"@ + branch@ + "': "@ + err@,
{
    cat6("stage '", stage_id, "' failed to setup worktree '", branch, "': ", err)
}

/// The error of a part of a stage whose worktree could not be made.
pub fn part_setup_error(stage_id: &str, err: &str) -> (r: ProviderError)
    ensures
        r@ == fault(
            "provider_exec_failed"@,
            "stage '"@ + stage_id@ + "' worktree setup failed: "@ + err@,
        ),
{
    ProviderError::new(
        "provider_exec_failed",
        cat4("stage '", stage_id, "' worktree setup failed: ", err),
    )
}

/// What comes of a part of a stage: a worktree that stays behind fails a part
/// that went well.
pub open spec fn part_result(
    stage_id: Seq<char>,
    ran: Result<Seq<char>, ErrorView>,
    cleanup_error: Option<Seq<char>>,
) -> Result<Seq<char>, ErrorView> {
    match (ran, cleanup_error) {
        (Err(e), _) => Err(e),
        (Ok(_), Some(err)) => Err(
            fault(
                "provider_exec_failed"@,
                "stage '"@ + stage_id + "' worktree cleanup failed: "@ + err,
            ),
        ),
        (Ok(out), None) => Ok(out),
    }
}

/// What comes of a part of a stage, from how it ran and how its worktree was
/// removed.
pub fn part_outcome(
    stage_id: &str,
    ran: Result<String, ProviderError>,
    cleanup_error: Option<&str>,
) -> (r: Result<String, ProviderError>)
    ensures
        outcome(r) == part_result(stage_id@, outcome(ran), opt_str(cleanup_error)),
{
    match (ran, cleanup_error) {
        (Err(e), _) => Err(e),
        (Ok(_), Some(err)) => Err(
            ProviderError::new(
                "provider_exec_failed",
                cat4("stage '", stage_id, "' worktree cleanup failed: ", err),
            ),
        ),
        (Ok(out), None) => Ok(out),
    }
}

/// A token keeps letters, digits, `-` and `_`, and has a `-` for everything else.
pub proof fn tokens_keep_their_letters(s: Seq<char>, i: int)
    requires
        0 <= i < s.len(),
        exists|k: int| 0 <= k < s.len() && is_alnum(#[trigger] s[k]),
    ensures
        token_of(s).len() == s.len(),
        is_alnum(s[i]) || s[i] == '-' || s[i] == '_' ==> token_of(s)[i] == s[i],
        !(is_alnum(s[i]) || s[i] == '-' || s[i] == '_') ==> token_of(s)[i] == '-',
{
    let t = token_chars(s);
    let k = choose|k: int| 0 <= k < s.len() && is_alnum(#[trigger] s[k]);
    assert(t[k] == s[k]);
    not_all_trimmed(t, CharSet::Only('-'), k);
}

proof fn not_all_trimmed(s: Seq<char>, set: CharSet, k: int)
    requires
        0 <= k < s.len(),
        !set.has(s[k]),
    ensures
        trim_by(s, set).len() > 0,
    decreases s.len(),
{
    if set.has(s[0]) {
        assert(s.skip(1)[k - 1] == s[k]);
        not_all_trimmed(s.skip(1), set, k - 1);
    } else {
        end_keeps_first(s, set);
    }
}

proof fn end_keeps_first(s: Seq<char>, set: CharSet)
    requires
        s.len() > 0,
        !set.has(s[0]),
    ensures
        crate::text::trim_end_by(s, set).len() > 0,
    decreases s.len(),
{
    if s.len() > 1 && set.has(s.last()) {
        assert(s.drop_last()[0] == s[0]);
        end_keeps_first(s.drop_last(), set);
    }
}

/// The branch of a worktree is the one that the stage names, its variables replaced
/// and without blanks round it; a blank one is an error.
pub proof fn branches_are_named(
    stage: StageView,
    vars: Seq<(Seq<char>, Seq<char>)>,
    outputs: Seq<(Seq<char>, Seq<char>)>,
)
    ensures
        stage.worktree is None ==> worktree_branch_of(stage, vars, outputs) == Ok::<
            Option<Seq<char>>,
            Seq<char>,
        >(None),
        stage.worktree matches Some(branch) ==> if blank(substituted(branch, vars, outputs)) {
            worktree_branch_of(stage, vars, outputs) is Err
        } else {
            worktree_branch_of(stage, vars, outputs) == Ok::<Option<Seq<char>>, Seq<char>>(
                Some(trimmed(substituted(branch, vars, outputs))),
            )
        },
{
}

/// A repository is looked for from the stage's directory first and from the current
/// one last.
pub proof fn repositories_are_looked_for(
    workflow: WorkflowView,
    stage: StageView,
    current: Seq<char>,
)
    ensures
        ({
            let found = repo_candidates_of(workflow, stage, Some(current));
            &&& found.len() > 0 && found.last() == current
            &&& stage.workdir matches Some(dir) ==> !blank(dir) ==> found[0] == dir
            &&& workflow.workdir matches Some(dir) ==> !blank(dir) ==> found.contains(dir)
            &&& stage.workdir is None ==> (workflow.workdir matches Some(dir) ==> !blank(dir)
                ==> found[0] == dir)
        }),
{
    let found = repo_candidates_of(workflow, stage, Some(current));
    if let Some(dir) = workflow.workdir {
        if !blank(dir) {
            let at: int = if stage.workdir is Some && !blank(stage.workdir->0) {
                1
            } else {
                0
            };
            assert(found[at] == dir);
        }
    }
}

/// A worktree is made on a new branch or on one that is there, and the branch and the
/// directory are told to git.
pub proof fn worktrees_are_added(repo_root: Seq<char>, path: Seq<char>, branch: Seq<char>)
    ensures
        add_args(repo_root, path, branch, true) == seq![
            "-C"@,
            repo_root,
            "worktree"@,
            "add"@,
            "-b"@,
            branch,
            path,
        ],
        add_args(repo_root, path, branch, false) == seq![
            "-C"@,
            repo_root,
            "worktree"@,
            "add"@,
            path,
            branch,
        ],
{
}

/// A part has its output where it went well and its worktree is gone; its own error
/// goes before that of its worktree.
pub proof fn parts_are_cleaned_up(stage_id: Seq<char>, out: Seq<char>, e: ErrorView, err: Seq<char>)
    ensures
        part_result(stage_id, Ok(out), None) == Ok::<Seq<char>, ErrorView>(out),
        part_result(stage_id, Ok(out), Some(err)) is Err,
        part_result(stage_id, Err(e), Some(err)) == Err::<Seq<char>, ErrorView>(e),
        part_result(stage_id, Err(e), None) == Err::<Seq<char>, ErrorView>(e),
{
}

/// What git says is what it complains of, else what it tells.
pub proof fn git_is_quoted(stderr: Seq<char>, stdout: Seq<char>)
    ensures
        blank(stderr) ==> git_words(stderr, stdout) == trimmed(stdout),
        !blank(stderr) ==> git_words(stderr, stdout) == trimmed(stderr),
{
}

/// What is wrong with a worktree is told with its stage.
pub proof fn worktree_failures_are_told(
    stage: StageView,
    vars: Seq<(Seq<char>, Seq<char>)>,
    outputs: Seq<(Seq<char>, Seq<char>)>,
    stage_id: Seq<char>,
    out: Seq<char>,
    err: Seq<char>,
)
    ensures
        part_result(stage_id, Ok(out), Some(err)) == Err::<Seq<char>, ErrorView>(
            fault(
                "provider_exec_failed"@,
                "stage '"@ + stage_id + "' worktree cleanup failed: "@ + err,
            ),
        ),
        stage.worktree matches Some(branch) ==> (trimmed(
            substituted(branch, vars, outputs),
        ).len() == 0 ==> worktree_branch_of(stage, vars, outputs) == Err::<
            Option<Seq<char>>,
            Seq<char>,
        >("stage '"@ + stage.id + "' has empty rendered worktree branch"@)),
{
}

} // verus!
