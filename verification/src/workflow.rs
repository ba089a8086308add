//! Workflow definitions: stages, triggers, and what makes a workflow valid.
use crate::strmap::StrMap;
use crate::text::{
    blank, cat3, cat5, cat6, clone_opt, clone_texts, group_texts, holds, is_blank, opt_str,
    opt_text, same, texts,
};
use crate::workflow::units::duration_fits;
use vstd::prelude::*;

pub mod laws;
pub mod units;

verus! {

/// Trigger configuration for webhook/watch/cron/interval launches.
pub struct TriggerConfig {
    pub webhook: Option<String>,
    pub watch: Option<String>,
    pub cron: Option<String>,
    pub interval: Option<String>,
}

/// What a trigger configuration says.
pub struct TriggerView {
    pub webhook: Option<Seq<char>>,
    pub watch: Option<Seq<char>>,
    pub cron: Option<Seq<char>>,
    pub interval: Option<Seq<char>>,
}

impl View for TriggerConfig {
    type V = TriggerView;

    open spec fn view(&self) -> TriggerView {
        TriggerView {
            webhook: opt_text(self.webhook),
            watch: opt_text(self.watch),
            cron: opt_text(self.cron),
            interval: opt_text(self.interval),
        }
    }
}

impl Default for TriggerConfig {
    fn default() -> (r: Self)
        ensures
            r.webhook is None,
            r.watch is None,
            r.cron is None,
            r.interval is None,
    {
        TriggerConfig { webhook: None, watch: None, cron: None, interval: None }
    }
}

/// Single workflow stage definition.
pub struct Stage {
    pub id: String,
    pub provider: String,
    pub model: Option<String>,
    pub llm_adapter: Option<String>,
    /// The command to run, the `exec` of a definition.
    pub command: Option<String>,
    /// The prompt, the `do` of a definition.
    pub do_prompt: Option<String>,
    pub system: Option<String>,
    pub context: Vec<String>,
    pub secrets: StrMap<String>,
    pub env: StrMap<String>,
    pub workdir: Option<String>,
    pub worktree: Option<String>,
    pub trust: Option<String>,
    pub forks: Option<u32>,
    pub output: Option<String>,
    pub when: Option<String>,
    pub needs: Vec<String>,
    pub loop_stage: bool,
    pub interval: Option<String>,
    pub timeout: Option<String>,
    pub retry: Option<u32>,
    pub retry_delay: Option<String>,
    pub break_when: Option<String>,
    pub max_iterations: Option<u32>,
    pub models: Vec<String>,
    pub each: Vec<String>,
    pub each_from: Option<String>,
    pub vote: Option<String>,
    pub hitl: bool,
    pub hitl_prompt: Option<String>,
    pub hitl_options: Vec<String>,
    pub before: Option<String>,
    pub after: Option<String>,
    pub on_error: Option<String>,
    pub workflow: Option<String>,
    pub vars: StrMap<String>,
    pub args: Vec<String>,
    pub stdin: Option<String>,
    pub parse: Option<String>,
}

/// What a stage definition says. Maps are listed in the order of their keys'
/// arrival.
pub struct StageView {
    pub id: Seq<char>,
    pub provider: Seq<char>,
    pub model: Option<Seq<char>>,
    pub llm_adapter: Option<Seq<char>>,
    pub command: Option<Seq<char>>,
    pub do_prompt: Option<Seq<char>>,
    pub system: Option<Seq<char>>,
    pub context: Seq<Seq<char>>,
    pub secrets: Seq<(Seq<char>, Seq<char>)>,
    pub env: Seq<(Seq<char>, Seq<char>)>,
    pub workdir: Option<Seq<char>>,
    pub worktree: Option<Seq<char>>,
    pub trust: Option<Seq<char>>,
    pub forks: Option<u32>,
    pub output: Option<Seq<char>>,
    pub when: Option<Seq<char>>,
    pub needs: Seq<Seq<char>>,
    pub loop_stage: bool,
    pub interval: Option<Seq<char>>,
    pub timeout: Option<Seq<char>>,
    pub retry: Option<u32>,
    pub retry_delay: Option<Seq<char>>,
    pub break_when: Option<Seq<char>>,
    pub max_iterations: Option<u32>,
    pub models: Seq<Seq<char>>,
    pub each: Seq<Seq<char>>,
    pub each_from: Option<Seq<char>>,
    pub vote: Option<Seq<char>>,
    pub hitl: bool,
    pub hitl_prompt: Option<Seq<char>>,
    pub hitl_options: Seq<Seq<char>>,
    pub before: Option<Seq<char>>,
    pub after: Option<Seq<char>>,
    pub on_error: Option<Seq<char>>,
    pub workflow: Option<Seq<char>>,
    pub vars: Seq<(Seq<char>, Seq<char>)>,
    pub args: Seq<Seq<char>>,
    pub stdin: Option<Seq<char>>,
    pub parse: Option<Seq<char>>,
}

/// The stage with nothing set.
pub open spec fn empty_stage() -> StageView {
    StageView {
        id: Seq::empty(),
        provider: Seq::empty(),
        model: None,
        llm_adapter: None,
        command: None,
        do_prompt: None,
        system: None,
        context: Seq::empty(),
        secrets: Seq::empty(),
        env: Seq::empty(),
        workdir: None,
        worktree: None,
        trust: None,
        forks: None,
        output: None,
        when: None,
        needs: Seq::empty(),
        loop_stage: false,
        interval: None,
        timeout: None,
        retry: None,
        retry_delay: None,
        break_when: None,
        max_iterations: None,
        models: Seq::empty(),
        each: Seq::empty(),
        each_from: None,
        vote: None,
        hitl: false,
        hitl_prompt: None,
        hitl_options: Seq::empty(),
        before: None,
        after: None,
        on_error: None,
        workflow: None,
        vars: Seq::empty(),
        args: Seq::empty(),
        stdin: None,
        parse: None,
    }
}

impl View for Stage {
    type V = StageView;

    open spec fn view(&self) -> StageView {
        StageView {
            id: self.id@,
            provider: self.provider@,
            model: opt_text(self.model),
            llm_adapter: opt_text(self.llm_adapter),
            command: opt_text(self.command),
            do_prompt: opt_text(self.do_prompt),
            system: opt_text(self.system),
            context: texts(self.context@),
            secrets: self.secrets.entries(),
            env: self.env.entries(),
            workdir: opt_text(self.workdir),
            worktree: opt_text(self.worktree),
            trust: opt_text(self.trust),
            forks: self.forks,
            output: opt_text(self.output),
            when: opt_text(self.when),
            needs: texts(self.needs@),
            loop_stage: self.loop_stage,
            interval: opt_text(self.interval),
            timeout: opt_text(self.timeout),
            retry: self.retry,
            retry_delay: opt_text(self.retry_delay),
            break_when: opt_text(self.break_when),
            max_iterations: self.max_iterations,
            models: texts(self.models@),
            each: texts(self.each@),
            each_from: opt_text(self.each_from),
            vote: opt_text(self.vote),
            hitl: self.hitl,
            hitl_prompt: opt_text(self.hitl_prompt),
            hitl_options: texts(self.hitl_options@),
            before: opt_text(self.before),
            after: opt_text(self.after),
            on_error: opt_text(self.on_error),
            workflow: opt_text(self.workflow),
            vars: self.vars.entries(),
            args: texts(self.args@),
            stdin: opt_text(self.stdin),
            parse: opt_text(self.parse),
        }
    }
}

impl Default for Stage {
    fn default() -> (r: Self)
        ensures
            r@ == empty_stage(),
    {
        broadcast use group_texts;

        Stage {
            id: String::new(),
            provider: String::new(),
            model: None,
            llm_adapter: None,
            command: None,
            do_prompt: None,
            system: None,
            context: Vec::new(),
            secrets: StrMap::new(),
            env: StrMap::new(),
            workdir: None,
            worktree: None,
            trust: None,
            forks: None,
            output: None,
            when: None,
            needs: Vec::new(),
            loop_stage: false,
            interval: None,
            timeout: None,
            retry: None,
            retry_delay: None,
            break_when: None,
            max_iterations: None,
            models: Vec::new(),
            each: Vec::new(),
            each_from: None,
            vote: None,
            hitl: false,
            hitl_prompt: None,
            hitl_options: Vec::new(),
            before: None,
            after: None,
            on_error: None,
            workflow: None,
            vars: StrMap::new(),
            args: Vec::new(),
            stdin: None,
            parse: None,
        }
    }
}

impl Stage {
    /// The same definition.
    pub fn copied(&self) -> (r: Self)
        ensures
            r@ == self@,
    {
        Stage {
            id: self.id.clone(),
            provider: self.provider.clone(),
            model: clone_opt(&self.model),
            llm_adapter: clone_opt(&self.llm_adapter),
            command: clone_opt(&self.command),
            do_prompt: clone_opt(&self.do_prompt),
            system: clone_opt(&self.system),
            context: clone_texts(&self.context),
            secrets: self.secrets.copied(),
            env: self.env.copied(),
            workdir: clone_opt(&self.workdir),
            worktree: clone_opt(&self.worktree),
            trust: clone_opt(&self.trust),
            forks: self.forks,
            output: clone_opt(&self.output),
            when: clone_opt(&self.when),
            needs: clone_texts(&self.needs),
            loop_stage: self.loop_stage,
            interval: clone_opt(&self.interval),
            timeout: clone_opt(&self.timeout),
            retry: self.retry,
            retry_delay: clone_opt(&self.retry_delay),
            break_when: clone_opt(&self.break_when),
            max_iterations: self.max_iterations,
            models: clone_texts(&self.models),
            each: clone_texts(&self.each),
            each_from: clone_opt(&self.each_from),
            vote: clone_opt(&self.vote),
            hitl: self.hitl,
            hitl_prompt: clone_opt(&self.hitl_prompt),
            hitl_options: clone_texts(&self.hitl_options),
            before: clone_opt(&self.before),
            after: clone_opt(&self.after),
            on_error: clone_opt(&self.on_error),
            workflow: clone_opt(&self.workflow),
            vars: self.vars.copied(),
            args: clone_texts(&self.args),
            stdin: clone_opt(&self.stdin),
            parse: clone_opt(&self.parse),
        }
    }
}

/// Full workflow definition.
pub struct Workflow {
    pub name: String,
    pub mode: String,
    pub memory: bool,
    pub tags: Vec<String>,
    pub vars: StrMap<String>,
    pub env: StrMap<String>,
    pub workdir: Option<String>,
    pub trigger: TriggerConfig,
    pub stages: Vec<Stage>,
    pub source_path: Option<String>,
}

/// The mode of a workflow that names none.
pub fn default_mode() -> (r: String)
    ensures
        r@ == "once"@,
{
    "once".to_owned()
}

// ---------------------------------------------------------------- durations

/// A length of time.
#[derive(Clone, Copy, Debug, PartialEq, Eq, Structural)]
pub struct Span {
    pub secs: u64,
    pub nanos: u32,
}

impl Span {
    /// The length in nanoseconds, as far as 64 bits reach.
    pub open spec fn nanos_of(self) -> u64 {
        let n = self.secs * 1_000_000_000 + self.nanos;
        if n > u64::MAX {
            u64::MAX
        } else {
            n as u64
        }
    }

    /// The length in nanoseconds, as far as 64 bits reach.
    pub fn to_nanos(self) -> (r: u64)
        ensures
            r == self.nanos_of(),
    {
        if self.secs > 18_446_744_073 {
            return u64::MAX;
        }
        (self.secs * 1_000_000_000).saturating_add(self.nanos as u64)
    }

    /// Whole seconds.
    pub fn from_secs(secs: u64) -> (r: Span)
        ensures
            r == (Span { secs, nanos: 0 }),
    {
        Span { secs, nanos: 0 }
    }
}

/// Whether an optional duration text fits.
pub open spec fn opt_duration_fits(s: Option<Seq<char>>) -> bool {
    match s {
        Some(s) => duration_fits(s),
        None => true,
    }
}

/// The length of time that a text like `1h 30min` stands for, or why it is none.
pub uninterp spec fn duration_read(text: Seq<char>) -> Result<Span, Seq<char>>;

/// `humantime::parse_duration`; an error comes as its message. What it reads
/// depends on the text alone. Where the seconds add up to the largest number of 64
/// bits and the parts of a second to a whole one it panics, so the text must fit.
#[verifier::external_body]
fn parse_human_duration(text: &str) -> (r: Result<Span, String>)
    requires
        duration_fits(text@),
    ensures
        match r {
            Ok(span) => duration_read(text@) == Ok::<Span, Seq<char>>(span),
            Err(message) => duration_read(text@) == Err::<Span, Seq<char>>(message@),
        },
{
    match humantime::parse_duration(text) {
        Ok(d) => Ok(Span { secs: d.as_secs(), nanos: d.subsec_nanos() }),
        Err(err) => Err(err.to_string()),
    }
}

/// What was read of a duration, in views.
pub open spec fn span_result(r: Result<Span, String>) -> Result<Span, Seq<char>> {
    match r {
        Ok(span) => Ok(span),
        Err(message) => Err(message@),
    }
}

/// Reads a duration; an error is the message that says why it is none.
pub fn read_duration(text: &str) -> (r: Result<Span, String>)
    requires
        duration_fits(text@),
    ensures
        span_result(r) == duration_read(text@),
{
    parse_human_duration(text)
}

/// The length of time that a text stands for, where it is one.
pub open spec fn span_read(text: Seq<char>) -> Option<Span> {
    match duration_read(text) {
        Ok(span) => Some(span),
        Err(_) => None,
    }
}

fn parse_span(text: &str) -> (r: Option<Span>)
    requires
        duration_fits(text@),
    ensures
        r == span_read(text@),
{
    match parse_human_duration(text) {
        Ok(span) => Some(span),
        Err(_) => None,
    }
}

/// Parses an optional human duration string. An error names the text.
pub fn parse_optional_duration(raw: Option<&str>) -> (r: Result<Option<Span>, String>)
    requires
        opt_duration_fits(opt_str(raw)),
    ensures
        match raw {
            None => r == Ok::<Option<Span>, String>(None),
            Some(text) => optional_duration_from(span_read(text@), text@, r),
        },
{
    match raw {
        Some(text) => {
            let read = parse_span(text);
            duration_or_error(read, text)
        },
        None => Ok(None),
    }
}

/// What a duration text gives once it is read.
pub open spec fn optional_duration_from(
    read: Option<Span>,
    text: Seq<char>,
    r: Result<Option<Span>, String>,
) -> bool {
    match read {
        Some(span) => r == Ok::<Option<Span>, String>(Some(span)),
        None => r is Err && r->Err_0@ == "invalid duration '"@ + text + "'"@,
    }
}

/// The duration that was read from `text`, or the error that names it.
pub fn duration_or_error(read: Option<Span>, text: &str) -> (r: Result<Option<Span>, String>)
    ensures
        optional_duration_from(read, text@, r),
{
    match read {
        Some(span) => Ok(Some(span)),
        None => Err(cat3("invalid duration '", text, "'")),
    }
}

/// The delay that a stage names in its field `what`: one second without a
/// text, and an error where the text is no duration.
pub open spec fn delay_from(
    text: Option<Seq<char>>,
    read: Option<Span>,
    what: Seq<char>,
    stage_id: Seq<char>,
    r: Result<Span, String>,
) -> bool {
    match text {
        None => r == Ok::<Span, String>(Span { secs: 1, nanos: 0 }),
        Some(text) => match read {
            Some(span) => r == Ok::<Span, String>(span),
            None => r is Err && r->Err_0@ == "invalid "@ + what + " for stage '"@ + stage_id
                + "': "@ + text,
        },
    }
}

/// The delay of a stage from its text and what was read from it.
pub fn delay_or_error(
    text: Option<&str>,
    read: Option<Span>,
    what: &str,
    stage_id: &str,
) -> (r: Result<Span, String>)
    ensures
        delay_from(opt_str(text), read, what@, stage_id@, r),
{
    match text {
        None => Ok(Span::from_secs(1)),
        Some(text) => match read {
            Some(span) => Ok(span),
            None => Err(
                cat6("invalid ", what, " for stage '", stage_id, "': ", text),
            ),
        },
    }
}

/// What is read from an optional duration text.
pub open spec fn read_opt(text: Option<Seq<char>>) -> Option<Span> {
    match text {
        Some(text) => span_read(text),
        None => None,
    }
}

fn stage_delay(text: &Option<String>, what: &str, stage_id: &str) -> (r: Result<Span, String>)
    requires
        opt_duration_fits(opt_text(*text)),
    ensures
        delay_from(opt_text(*text), read_opt(opt_text(*text)), what@, stage_id@, r),
{
    match text {
        Some(text) => {
            let read = parse_span(text.as_str());
            delay_or_error(Some(text.as_str()), read, what, stage_id)
        },
        None => delay_or_error(None, None, what, stage_id),
    }
}

/// The provider that runs a stage.
pub open spec fn provider_of(stage: StageView) -> Seq<char> {
    if blank(stage.provider) {
        "shell"@
    } else {
        stage.provider
    }
}

impl Stage {
    /// Returns the effective provider name, defaulting to `shell`.
    pub fn provider_name(&self) -> (r: &str)
        ensures
            r@ == provider_of(self@),
    {
        if is_blank(self.provider.as_str()) {
            "shell"
        } else {
            self.provider.as_str()
        }
    }

    /// Parses optional stage timeout.
    pub fn timeout_duration(&self) -> (r: Result<Option<Span>, String>)
        requires
            opt_duration_fits(self@.timeout),
        ensures
            match self@.timeout {
                None => r == Ok::<Option<Span>, String>(None),
                Some(text) => optional_duration_from(span_read(text), text, r),
            },
    {
        match &self.timeout {
            Some(text) => parse_optional_duration(Some(text.as_str())),
            None => parse_optional_duration(None),
        }
    }

    /// Parses stage retry delay, defaulting to one second.
    pub fn retry_delay_duration(&self) -> (r: Result<Span, String>)
        requires
            opt_duration_fits(self@.retry_delay),
        ensures
            delay_from(
                self@.retry_delay,
                read_opt(self@.retry_delay),
                "retry_delay"@,
                self@.id,
                r,
            ),
    {
        stage_delay(&self.retry_delay, "retry_delay", self.id.as_str())
    }

    /// Parses loop interval, defaulting to one second.
    pub fn loop_interval_duration(&self) -> (r: Result<Span, String>)
        requires
            opt_duration_fits(self@.interval),
        ensures
            delay_from(self@.interval, read_opt(self@.interval), "interval"@, self@.id, r),
    {
        stage_delay(&self.interval, "interval", self.id.as_str())
    }
}

/// The views of stages.
pub open spec fn stage_views(stages: Seq<Stage>) -> Seq<StageView> {
    Seq::new(stages.len(), |i: int| stages[i]@)
}

/// What a workflow definition says.
pub struct WorkflowView {
    pub name: Seq<char>,
    pub mode: Seq<char>,
    pub memory: bool,
    pub tags: Seq<Seq<char>>,
    pub vars: Seq<(Seq<char>, Seq<char>)>,
    pub env: Seq<(Seq<char>, Seq<char>)>,
    pub workdir: Option<Seq<char>>,
    pub trigger: TriggerView,
    pub stages: Seq<StageView>,
    pub source_path: Option<Seq<char>>,
}

impl View for Workflow {
    type V = WorkflowView;

    open spec fn view(&self) -> WorkflowView {
        WorkflowView {
            name: self.name@,
            mode: self.mode@,
            memory: self.memory,
            tags: texts(self.tags@),
            vars: self.vars.entries(),
            env: self.env.entries(),
            workdir: opt_text(self.workdir),
            trigger: self.trigger@,
            stages: stage_views(self.stages@),
            source_path: opt_text(self.source_path),
        }
    }
}

impl TriggerConfig {
    /// The same configuration.
    pub fn copied(&self) -> (r: Self)
        ensures
            r@ == self@,
    {
        TriggerConfig {
            webhook: clone_opt(&self.webhook),
            watch: clone_opt(&self.watch),
            cron: clone_opt(&self.cron),
            interval: clone_opt(&self.interval),
        }
    }
}

impl Workflow {
    /// The same definition.
    pub fn copied(&self) -> (r: Self)
        ensures
            r@ == self@,
    {
        let mut stages: Vec<Stage> = Vec::new();
        let mut i: usize = 0;
        while i < self.stages.len()
            invariant
                i <= self.stages@.len(),
                stages@.len() == i,
                forall|j: int| 0 <= j < i ==> (#[trigger] stages@[j])@ == self.stages@[j]@,
            decreases self.stages@.len() - i,
        {
            stages.push(self.stages[i].copied());
            i += 1;
        }
        assert(stage_views(stages@) =~= stage_views(self.stages@));
        Workflow {
            name: self.name.clone(),
            mode: self.mode.clone(),
            memory: self.memory,
            tags: clone_texts(&self.tags),
            vars: self.vars.copied(),
            env: self.env.copied(),
            workdir: clone_opt(&self.workdir),
            trigger: self.trigger.copied(),
            stages,
            source_path: clone_opt(&self.source_path),
        }
    }
}

// ---------------------------------------------------------------- validity

/// What is wrong with a workflow as a whole.
pub open spec fn shape_problem(w: WorkflowView) -> Option<Seq<char>> {
    if blank(w.name) {
        Some("workflow name is required"@)
    } else if w.mode != "once"@ && w.mode != "continuous"@ {
        Some("workflow mode must be 'once' or 'continuous'"@)
    } else if w.stages.len() == 0 {
        Some("workflow must contain at least one stage"@)
    } else {
        None
    }
}

pub open spec fn known_trust(trust: Option<Seq<char>>) -> bool {
    match trust {
        Some(t) => t == "none"@ || t == "read"@ || t == "all"@,
        None => true,
    }
}

/// Whether one of the first `n` stages has the id.
pub open spec fn has_id(stages: Seq<StageView>, n: int, id: Seq<char>) -> bool {
    exists|j: int| 0 <= j < n && j < stages.len() && (#[trigger] stages[j]).id == id
}

/// What is wrong with the id or the trust of stage `i`.
pub open spec fn stage_problem(stages: Seq<StageView>, i: int) -> Option<Seq<char>> {
    if blank(stages[i].id) {
        Some("stage id is required"@)
    } else if has_id(stages, i, stages[i].id) {
        Some("duplicate stage id '"@ + stages[i].id + "'"@)
    } else if !known_trust(stages[i].trust) {
        Some("invalid trust '"@ + stages[i].trust->0 + "' in stage '"@ + stages[i].id + "'"@)
    } else {
        None
    }
}

/// The first problem with the ids and trusts of the first `n` stages.
pub open spec fn stages_problem(stages: Seq<StageView>, n: int) -> Option<Seq<char>>
    decreases n,
{
    if n <= 0 {
        None
    } else {
        match stages_problem(stages, n - 1) {
            Some(p) => Some(p),
            None => stage_problem(stages, n - 1),
        }
    }
}

/// What is wrong with a need of stage `i`: it must name a stage before it.
pub open spec fn need_problem(stages: Seq<StageView>, i: int, need: Seq<char>) -> Option<
    Seq<char>,
> {
    if !has_id(stages, stages.len() as int, need) {
        Some("stage '"@ + stages[i].id + "' references unknown dependency '"@ + need + "'"@)
    } else if !has_id(stages, i, need) {
        Some(
            "stage '"@ + stages[i].id + "' dependency '"@ + need
                + "' must reference an earlier stage"@,
        )
    } else {
        None
    }
}

/// The first problem with the first `k` needs of stage `i`.
pub open spec fn needs_problem(stages: Seq<StageView>, i: int, k: int) -> Option<Seq<char>>
    decreases k,
{
    if k <= 0 {
        None
    } else {
        match needs_problem(stages, i, k - 1) {
            Some(p) => Some(p),
            None => need_problem(stages, i, stages[i].needs[k - 1]),
        }
    }
}

/// The first problem with the needs of the first `n` stages.
pub open spec fn dependencies_problem(stages: Seq<StageView>, n: int) -> Option<Seq<char>>
    decreases n,
{
    if n <= 0 {
        None
    } else {
        match dependencies_problem(stages, n - 1) {
            Some(p) => Some(p),
            None => needs_problem(stages, n - 1, stages[n - 1].needs.len() as int),
        }
    }
}

/// What is wrong with a workflow: the first problem that is found.
pub open spec fn workflow_problem(w: WorkflowView) -> Option<Seq<char>> {
    match shape_problem(w) {
        Some(p) => Some(p),
        None => match stages_problem(w.stages, w.stages.len() as int) {
            Some(p) => Some(p),
            None => dependencies_problem(w.stages, w.stages.len() as int),
        },
    }
}

/// What holds of a valid workflow: it has a name, a known mode and stages;
/// every stage has an id of its own and a known trust; and every need names a
/// stage that comes earlier.
pub open spec fn valid_workflow(w: WorkflowView) -> bool {
    &&& !blank(w.name)
    &&& w.mode == "once"@ || w.mode == "continuous"@
    &&& w.stages.len() > 0
    &&& forall|i: int|
        0 <= i < w.stages.len() ==> !blank((#[trigger] w.stages[i]).id) && known_trust(
            w.stages[i].trust,
        )
    &&& forall|i: int, j: int|
        0 <= i < j < w.stages.len() ==> (#[trigger] w.stages[i]).id != (#[trigger] w.stages[j]).id
    &&& forall|i: int, k: int|
        0 <= i < w.stages.len() && 0 <= k < w.stages[i].needs.len() ==> has_id(
            w.stages,
            i,
            #[trigger] w.stages[i].needs[k],
        )
}

proof fn stages_problem_none(stages: Seq<StageView>, n: int)
    requires
        0 <= n <= stages.len(),
    ensures
        stages_problem(stages, n) is None <==> forall|i: int|
            0 <= i < n ==> #[trigger] stage_problem(stages, i) is None,
    decreases n,
{
    if n > 0 {
        stages_problem_none(stages, n - 1);
        if stages_problem(stages, n) is None {
            assert forall|i: int| 0 <= i < n implies #[trigger] stage_problem(
                stages,
                i,
            ) is None by {}
        } else if stages_problem(stages, n - 1) is None {
            assert(stage_problem(stages, n - 1) is Some);
        }
    }
}

proof fn needs_problem_none(stages: Seq<StageView>, i: int, k: int)
    requires
        0 <= i < stages.len(),
        0 <= k <= stages[i].needs.len(),
    ensures
        needs_problem(stages, i, k) is None <==> forall|m: int|
            0 <= m < k ==> need_problem(stages, i, #[trigger] stages[i].needs[m]) is None,
    decreases k,
{
    if k > 0 {
        needs_problem_none(stages, i, k - 1);
        if needs_problem(stages, i, k) is Some && needs_problem(stages, i, k - 1) is None {
            assert(need_problem(stages, i, stages[i].needs[k - 1]) is Some);
        }
    }
}

proof fn dependencies_problem_none(stages: Seq<StageView>, n: int)
    requires
        0 <= n <= stages.len(),
    ensures
        dependencies_problem(stages, n) is None <==> forall|i: int, m: int|
            0 <= i < n && 0 <= m < stages[i].needs.len() ==> need_problem(
                stages,
                i,
                #[trigger] stages[i].needs[m],
            ) is None,
    decreases n,
{
    if n > 0 {
        dependencies_problem_none(stages, n - 1);
        needs_problem_none(stages, n - 1, stages[n - 1].needs.len() as int);
        if dependencies_problem(stages, n) is Some {
            if dependencies_problem(stages, n - 1) is None {
                let i = n - 1;
                let m = choose|m: int|
                    0 <= m < stages[i].needs.len() && need_problem(
                        stages,
                        i,
                        #[trigger] stages[i].needs[m],
                    ) is Some;
                assert(need_problem(stages, i, stages[i].needs[m]) is Some);
            }
        }
    }
}

/// A workflow has no problem where it is valid, and only there.
pub proof fn no_problem_where_valid(w: WorkflowView)
    ensures
        workflow_problem(w) is None <==> valid_workflow(w),
{
    let stages = w.stages;
    stages_problem_none(stages, stages.len() as int);
    dependencies_problem_none(stages, stages.len() as int);
    if workflow_problem(w) is None {
        assert forall|i: int| 0 <= i < stages.len() implies !blank((#[trigger] stages[i]).id)
            && known_trust(stages[i].trust) by {
            assert(stage_problem(stages, i) is None);
        }
        assert forall|i: int, j: int| 0 <= i < j < stages.len() implies (#[trigger] stages[i]).id
            != (#[trigger] stages[j]).id by {
            assert(stage_problem(stages, j) is None);
            assert(!has_id(stages, j, stages[j].id));
        }
        assert forall|i: int, k: int|
            0 <= i < stages.len() && 0 <= k < stages[i].needs.len() implies has_id(
            stages,
            i,
            #[trigger] stages[i].needs[k],
        ) by {
            assert(need_problem(stages, i, stages[i].needs[k]) is None);
        }
    }
    if valid_workflow(w) {
        assert forall|i: int| 0 <= i < stages.len() implies #[trigger] stage_problem(
            stages,
            i,
        ) is None by {
            assert(!blank(stages[i].id));
            if has_id(stages, i, stages[i].id) {
                let j = choose|j: int|
                    0 <= j < i && j < stages.len() && (#[trigger] stages[j]).id == stages[i].id;
                assert(stages[j].id != stages[i].id);
            }
        }
        assert forall|i: int, m: int|
            0 <= i < stages.len() && 0 <= m < stages[i].needs.len() implies need_problem(
            stages,
            i,
            #[trigger] stages[i].needs[m],
        ) is None by {
            let need = stages[i].needs[m];
            assert(has_id(stages, i, need));
            let j = choose|j: int|
                0 <= j < i && j < stages.len() && (#[trigger] stages[j]).id == need;
            assert(has_id(stages, stages.len() as int, need)) by {
                assert(stages[j].id == need);
            }
        }
    }
}

fn validate_workflow_shape(workflow: &Workflow) -> (r: Result<(), String>)
    ensures
        match r {
            Ok(()) => shape_problem(workflow@) is None,
            Err(message) => shape_problem(workflow@) == Some(message@),
        },
{
    if is_blank(workflow.name.as_str()) {
        return Err("workflow name is required".to_owned());
    }
    if !same(workflow.mode.as_str(), "once") && !same(workflow.mode.as_str(), "continuous") {
        return Err("workflow mode must be 'once' or 'continuous'".to_owned());
    }
    if workflow.stages.len() == 0 {
        return Err("workflow must contain at least one stage".to_owned());
    }
    Ok(())
}

fn stage_id_among(stages: &Vec<Stage>, n: usize, id: &str) -> (r: bool)
    requires
        n <= stages.len(),
    ensures
        r == has_id(stage_views(stages@), n as int, id@),
{
    let mut i: usize = 0;
    while i < n
        invariant
            i <= n <= stages.len(),
            forall|j: int| 0 <= j < i ==> (#[trigger] stage_views(stages@)[j]).id != id@,
        decreases n - i,
    {
        if same(stages[i].id.as_str(), id) {
            assert(stage_views(stages@)[i as int].id == id@);
            return true;
        }
        i += 1;
    }
    false
}

fn collect_and_validate_stage_ids(stages: &Vec<Stage>) -> (r: Result<(), String>)
    ensures
        match r {
            Ok(()) => stages_problem(stage_views(stages@), stages@.len() as int) is None,
            Err(message) => stages_problem(stage_views(stages@), stages@.len() as int) == Some(
                message@,
            ),
        },
{
    let ghost views = stage_views(stages@);
    let mut i: usize = 0;
    while i < stages.len()
        invariant
            i <= stages.len(),
            views == stage_views(stages@),
            stages_problem(views, i as int) is None,
        decreases stages.len() - i,
    {
        let stage = &stages[i];
        assert(views[i as int] == stage@);
        if is_blank(stage.id.as_str()) {
            proof {
                problem_sticks(views, i + 1, views.len() as int);
            }
            return Err("stage id is required".to_owned());
        }
        if stage_id_among(stages, i, stage.id.as_str()) {
            proof {
                problem_sticks(views, i + 1, views.len() as int);
            }
            return Err(cat3("duplicate stage id '", stage.id.as_str(), "'"));
        }
        if let Err(message) = validate_stage_trust(stage) {
            proof {
                problem_sticks(views, i + 1, views.len() as int);
            }
            return Err(message);
        }
        i += 1;
    }
    Ok(())
}

proof fn problem_sticks(stages: Seq<StageView>, n: int, m: int)
    requires
        n <= m,
        stages_problem(stages, n) is Some,
    ensures
        stages_problem(stages, m) == stages_problem(stages, n),
    decreases m - n,
{
    if n < m {
        problem_sticks(stages, n, m - 1);
    }
}

fn validate_stage_trust(stage: &Stage) -> (r: Result<(), String>)
    ensures
        match r {
            Ok(()) => known_trust(stage@.trust),
            Err(message) => !known_trust(stage@.trust) && message@ == "invalid trust '"@
                + stage@.trust->0 + "' in stage '"@ + stage@.id + "'"@,
        },
{
    match &stage.trust {
        Some(trust) => {
            if !same(trust.as_str(), "none") && !same(trust.as_str(), "read") && !same(
                trust.as_str(),
                "all",
            ) {
                return Err(
                    cat5(
                        "invalid trust '",
                        trust.as_str(),
                        "' in stage '",
                        stage.id.as_str(),
                        "'",
                    ),
                );
            }
            Ok(())
        },
        None => Ok(()),
    }
}

proof fn needs_problem_sticks(stages: Seq<StageView>, i: int, n: int, m: int)
    requires
        n <= m,
        needs_problem(stages, i, n) is Some,
    ensures
        needs_problem(stages, i, m) == needs_problem(stages, i, n),
    decreases m - n,
{
    if n < m {
        needs_problem_sticks(stages, i, n, m - 1);
    }
}

proof fn dependencies_problem_sticks(stages: Seq<StageView>, n: int, m: int)
    requires
        n <= m,
        dependencies_problem(stages, n) is Some,
    ensures
        dependencies_problem(stages, m) == dependencies_problem(stages, n),
    decreases m - n,
{
    if n < m {
        dependencies_problem_sticks(stages, n, m - 1);
    }
}

fn validate_stage_dependencies(stages: &Vec<Stage>) -> (r: Result<(), String>)
    ensures
        match r {
            Ok(()) => dependencies_problem(stage_views(stages@), stages@.len() as int) is None,
            Err(message) => dependencies_problem(stage_views(stages@), stages@.len() as int)
                == Some(message@),
        },
{
    let ghost views = stage_views(stages@);
    let mut i: usize = 0;
    while i < stages.len()
        invariant
            i <= stages.len(),
            views == stage_views(stages@),
            dependencies_problem(views, i as int) is None,
        decreases stages.len() - i,
    {
        let stage = &stages[i];
        assert(views[i as int] == stage@);
        let mut k: usize = 0;
        while k < stage.needs.len()
            invariant
                i < stages.len(),
                k <= stage.needs.len(),
                views == stage_views(stages@),
                views[i as int] == stage@,
                dependencies_problem(views, i as int) is None,
                needs_problem(views, i as int, k as int) is None,
            decreases stage.needs.len() - k,
        {
            let need = stage.needs[k].as_str();
            assert(views[i as int].needs[k as int] == need@);
            if !stage_id_among(stages, stages.len(), need) {
                proof {
                    needs_problem_sticks(views, i as int, k + 1, stage.needs.len() as int);
                    dependencies_problem_sticks(views, i + 1, views.len() as int);
                }
                return Err(
                    cat5(
                        "stage '",
                        stage.id.as_str(),
                        "' references unknown dependency '",
                        need,
                        "'",
                    ),
                );
            }
            if !stage_id_among(stages, i, need) {
                proof {
                    needs_problem_sticks(views, i as int, k + 1, stage.needs.len() as int);
                    dependencies_problem_sticks(views, i + 1, views.len() as int);
                }
                return Err(
                    cat5(
                        "stage '",
                        stage.id.as_str(),
                        "' dependency '",
                        need,
                        "' must reference an earlier stage",
                    ),
                );
            }
            k += 1;
        }
        i += 1;
    }
    Ok(())
}

/// The interval of the first loop stage among `stages[i..]` that names one
/// that is a duration.
pub open spec fn loop_interval(stages: Seq<StageView>, i: int) -> Span
    decreases stages.len() - i,
{
    if i < 0 || i >= stages.len() {
        Span { secs: 10, nanos: 0 }
    } else if stages[i].loop_stage && read_opt(stages[i].interval) is Some {
        read_opt(stages[i].interval)->0
    } else {
        loop_interval(stages, i + 1)
    }
}

impl Workflow {
    /// Validates workflow shape and stage dependencies.
    pub fn validate(&self) -> (r: Result<(), String>)
        ensures
            match r {
                Ok(()) => workflow_problem(self@) is None,
                Err(message) => workflow_problem(self@) == Some(message@),
            },
            r is Ok <==> valid_workflow(self@),
    {
        proof {
            no_problem_where_valid(self@);
        }
        if let Err(message) = validate_workflow_shape(self) {
            return Err(message);
        }
        if let Err(message) = collect_and_validate_stage_ids(&self.stages) {
            return Err(message);
        }
        validate_stage_dependencies(&self.stages)
    }

    /// Returns true if any stage is marked as loop stage.
    pub fn has_loop(&self) -> (r: bool)
        ensures
            r == exists|i: int| 0 <= i < self@.stages.len() && (#[trigger] self@.stages[i]).loop_stage,
    {
        let mut i: usize = 0;
        while i < self.stages.len()
            invariant
                i <= self.stages.len(),
                forall|j: int| 0 <= j < i ==> !(#[trigger] self@.stages[j]).loop_stage,
            decreases self.stages.len() - i,
        {
            if self.stages[i].loop_stage {
                assert(self@.stages[i as int].loop_stage);
                return true;
            }
            i += 1;
        }
        false
    }

    /// Returns true when workflow mode is `continuous`.
    pub fn is_continuous(&self) -> (r: bool)
        ensures
            r == (self@.mode == "continuous"@),
    {
        same(self.mode.as_str(), "continuous")
    }

    /// Returns effective loop interval for continuous mode: ten seconds where
    /// no loop stage names a duration.
    pub fn interval(&self) -> (r: Span)
        requires
            forall|i: int|
                0 <= i < self@.stages.len() ==> opt_duration_fits(
                    (#[trigger] self@.stages[i]).interval,
                ),
        ensures
            r == loop_interval(self@.stages, 0),
    {
        let mut i: usize = 0;
        while i < self.stages.len()
            invariant
                i <= self.stages.len(),
                loop_interval(self@.stages, 0) == loop_interval(self@.stages, i as int),
                forall|i: int|
                    0 <= i < self@.stages.len() ==> opt_duration_fits(
                        (#[trigger] self@.stages[i]).interval,
                    ),
            decreases self.stages.len() - i,
        {
            assert(self@.stages[i as int] == self.stages@[i as int]@);
            if self.stages[i].loop_stage {
                if let Some(text) = &self.stages[i].interval {
                    if let Some(span) = parse_span(text.as_str()) {
                        return span;
                    }
                }
            }
            i += 1;
        }
        Span::from_secs(10)
    }
}

} // verus!
