//! Launched workflows, from the start of their sessions to their end.
use crate::daemon::audit::{event_with, AuditEvent, EventView};
use crate::daemon::sessions::{
    done_session, fail_session, failed_session, finish_session, retained, start_session,
    started_session, with_session, SessionInfo, SessionView,
};
use crate::json::{
    number, number_or_null, object1, opt_number, opt_text_value, text, text_or_null, wide, widened,
    with_member, JsonView,
};
use crate::result::{ResultView, RunResult};
use crate::strmap::{lookup, put, StrMap};
use crate::text::opt_text;
use vstd::prelude::*;

verus! {

/// A workflow that is launched: `id` is the session's, `runtime_id` the run's.
pub struct Launch {
    pub id: String,
    pub runtime_id: String,
    pub workflow: String,
    pub owner: Option<String>,
    pub source: String,
}

/// A launch, as plain values.
pub struct LaunchView {
    pub id: Seq<char>,
    pub runtime_id: Seq<char>,
    pub workflow: Seq<char>,
    pub owner: Option<Seq<char>>,
    pub source: Seq<char>,
}

impl View for Launch {
    type V = LaunchView;

    open spec fn view(&self) -> LaunchView {
        LaunchView {
            id: self.id@,
            runtime_id: self.runtime_id@,
            workflow: self.workflow@,
            owner: opt_text(self.owner),
            source: self.source@,
        }
    }
}

/// A workflow is launched.
pub open spec fn launched_event(launch: LaunchView, max_iterations: Option<u32>) -> EventView {
    event_with(
        "workflow_launched"@,
        seq![
            ("request_id"@, JsonView::Text(launch.id)),
            ("runtime_session_id"@, JsonView::Text(launch.runtime_id)),
            ("workflow"@, JsonView::Text(launch.workflow)),
            ("owner"@, text_or_null(launch.owner)),
            ("source"@, JsonView::Text(launch.source)),
            ("max_iterations"@, number_or_null(wide(max_iterations))),
        ],
    )
}

/// Starts the session of a launch, applies retention, and tells the audit log.
pub fn begin_launch(
    sessions: &mut StrMap<SessionInfo>,
    launch: &Launch,
    max_iterations: Option<u32>,
    now: u64,
    max_sessions: usize,
) -> (r: AuditEvent)
    ensures
        final(sessions).entries() == retained(
            put(
                old(sessions).entries(),
                launch@.id,
                started_session(
                    launch@.id,
                    launch@.runtime_id,
                    launch@.workflow,
                    launch@.owner,
                    now,
                ),
            ),
            max_sessions,
        ),
        r@ == launched_event(launch@, max_iterations),
{
    start_session(
        sessions,
        launch.id.as_str(),
        launch.runtime_id.as_str(),
        launch.workflow.as_str(),
        &launch.owner,
        now,
        max_sessions,
    );
    let data = object1("request_id", text(launch.id.as_str()));
    let data = with_member(data, "runtime_session_id", text(launch.runtime_id.as_str()));
    let data = with_member(data, "workflow", text(launch.workflow.as_str()));
    let data = with_member(data, "owner", opt_text_value(&launch.owner));
    let data = with_member(data, "source", text(launch.source.as_str()));
    let data = with_member(data, "max_iterations", opt_number(widened(max_iterations)));
    assert(data@->Object_0 =~= launched_event(launch@, max_iterations).data->Object_0);
    AuditEvent { name: "workflow_launched", data }
}

/// How a run ended: with its result, or with a message.
pub open spec fn ended(ran: Result<RunResult, String>) -> Result<ResultView, Seq<char>> {
    match ran {
        Ok(result) => Ok(result@),
        Err(message) => Err(message@),
    }
}

/// The sessions once a run has ended.
pub open spec fn sessions_after(
    sessions: Seq<(Seq<char>, SessionView)>,
    id: Seq<char>,
    ran: Result<ResultView, Seq<char>>,
    now: u64,
) -> Seq<(Seq<char>, SessionView)> {
    match lookup(sessions, id) {
        Some(session) => with_session(
            sessions,
            id,
            match ran {
                Ok(result) => done_session(
                    session,
                    result.session_id,
                    result.outputs,
                    result.errors,
                    now,
                ),
                Err(message) => failed_session(session, message, now),
            },
        ),
        None => sessions,
    }
}

/// A launched workflow has ended.
pub open spec fn finished_event(
    launch: LaunchView,
    ran: Result<ResultView, Seq<char>>,
    elapsed_ms: u64,
) -> EventView {
    let head = seq![
        ("request_id"@, JsonView::Text(launch.id)),
        ("workflow"@, JsonView::Text(launch.workflow)),
        ("owner"@, text_or_null(launch.owner)),
        ("source"@, JsonView::Text(launch.source)),
        ("elapsed_ms"@, number_or_null(Some(elapsed_ms))),
    ];
    event_with(
        "workflow_finished"@,
        match ran {
            Ok(result) => head + seq![
                ("runtime_session_id"@, JsonView::Text(result.session_id)),
                ("status"@, JsonView::Text("done"@)),
                ("outputs_count"@, number_or_null(Some(result.outputs.len() as u64))),
                ("errors_count"@, number_or_null(Some(result.errors.len() as u64))),
            ],
            Err(message) => head + seq![
                ("runtime_session_id"@, JsonView::Text(launch.runtime_id)),
                ("status"@, JsonView::Text("failed"@)),
                ("error"@, JsonView::Text(message)),
            ],
        },
    )
}

/// Ends the session of a launch, applies retention, and tells the audit log.
pub fn end_launch(
    sessions: &mut StrMap<SessionInfo>,
    launch: &Launch,
    ran: &Result<RunResult, String>,
    elapsed_ms: u64,
    now: u64,
    max_sessions: usize,
) -> (r: AuditEvent)
    ensures
        final(sessions).entries() == retained(
            sessions_after(old(sessions).entries(), launch@.id, ended(*ran), now),
            max_sessions,
        ),
        r@ == finished_event(launch@, ended(*ran), elapsed_ms),
{
    let data = object1("request_id", text(launch.id.as_str()));
    let data = with_member(data, "workflow", text(launch.workflow.as_str()));
    let data = with_member(data, "owner", opt_text_value(&launch.owner));
    let data = with_member(data, "source", text(launch.source.as_str()));
    let data = with_member(data, "elapsed_ms", number(elapsed_ms));
    let data = match ran {
        Ok(result) => {
            finish_session(sessions, launch.id.as_str(), result, now, max_sessions);
            let data = with_member(
                data,
                "runtime_session_id",
                text(result.session_id.as_str()),
            );
            let data = with_member(data, "status", text("done"));
            let outputs: usize = result.outputs.len();
            let data = with_member(data, "outputs_count", number(outputs as u64));
            let errors: usize = result.errors.len();
            with_member(data, "errors_count", number(errors as u64))
        },
        Err(message) => {
            fail_session(sessions, launch.id.as_str(), message.as_str(), now, max_sessions);
            let data = with_member(data, "runtime_session_id", text(launch.runtime_id.as_str()));
            let data = with_member(data, "status", text("failed"));
            with_member(data, "error", text(message.as_str()))
        },
    };
    assert(data@->Object_0 =~= finished_event(
        launch@,
        ended(*ran),
        elapsed_ms,
    ).data->Object_0);
    AuditEvent { name: "workflow_finished", data }
}

} // verus!
