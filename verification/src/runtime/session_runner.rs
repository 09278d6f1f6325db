//! The runs of one session: at most one at a time.

use vstd::prelude::*;

use crate::ids;
use crate::models::provider::ProviderError;
use crate::protocol::session;
use crate::protocol::session::{MessageBlockModel, MessageBody, SessionView, SessionViewModel};
use crate::protocol::{SendMessageParams, ToolDefinition};
use crate::runtime::compaction::CompactionConfig;
use crate::runtime::runner::{RunExecutor, RunExecutorModel, RunId};
use crate::runtime::session_view_repository::SessionViewError;
use crate::session_store::SessionError;
use crate::skills::SkillError;

verus! {

/// Errors that can occur when starting or executing a run.
#[derive(Debug, PartialEq, Eq)]
pub enum RunnerError {
    /// The session already has an active run.
    Busy,
    /// An error originating from the session store.
    SessionStore(SessionError),
    /// An error originating from the session view repository.
    SessionView(SessionViewError),
    /// An error originating from the skill registry.
    SkillRegistry(SkillError),
    /// An error originating from the model provider.
    Provider(ProviderError),
}

impl RunnerError {
    /// The text of the error.
    pub open spec fn spec_message(&self) -> Seq<char> {
        match self {
            RunnerError::Busy => "session is busy with another run"@,
            RunnerError::SessionStore(error) => error.spec_message(),
            RunnerError::SessionView(error) => error.spec_message(),
            RunnerError::SkillRegistry(error) => error.spec_message(),
            RunnerError::Provider(error) => error.spec_message(),
        }
    }

    /// Returns the text of the error.
    pub fn message(&self) -> (r: String)
        ensures
            r@ == self.spec_message(),
    {
        match self {
            RunnerError::Busy => "session is busy with another run".to_owned(),
            RunnerError::SessionStore(error) => error.message(),
            RunnerError::SessionView(error) => error.message(),
            RunnerError::SkillRegistry(error) => error.message(),
            RunnerError::Provider(error) => error.message(),
        }
    }
}

/// The active run of a session.
#[derive(Debug)]
pub struct ActiveRun {
    pub run_id: RunId,
    /// Whether the run was asked to stop.
    pub cancelled: bool,
}

/// What an [`ActiveRun`] holds.
pub struct ActiveRunModel {
    pub run_id: Seq<char>,
    pub cancelled: bool,
}

impl DeepView for ActiveRun {
    type V = ActiveRunModel;

    open spec fn deep_view(&self) -> ActiveRunModel {
        ActiveRunModel { run_id: self.run_id@, cancelled: self.cancelled }
    }
}

impl Clone for ActiveRun {
    fn clone(&self) -> (r: Self)
        ensures
            r.deep_view() == self.deep_view(),
    {
        ActiveRun { run_id: self.run_id.clone(), cancelled: self.cancelled }
    }
}

/// Owns the conversation loop of a single session: at most one run is active at a time.
#[derive(Debug)]
pub struct SessionRunner {
    active_run: Option<ActiveRun>,
}

/// A message to append before a run.
#[derive(Debug, PartialEq, Eq)]
pub struct DeveloperMessage {
    /// The last message of the session.
    pub parent_id: Option<String>,
    pub body: MessageBody,
    /// Raw content of the workspace instruction file, for the run.
    pub workspace_instructions: Option<String>,
}

/// What a [`DeveloperMessage`] holds.
pub struct DeveloperMessageModel {
    pub parent_id: Option<Seq<char>>,
    pub body: Seq<MessageBlockModel>,
    pub workspace_instructions: Option<Seq<char>>,
}

impl DeepView for DeveloperMessage {
    type V = DeveloperMessageModel;

    open spec fn deep_view(&self) -> DeveloperMessageModel {
        DeveloperMessageModel {
            parent_id: self.parent_id.deep_view(),
            body: self.body.deep_view(),
            workspace_instructions: self.workspace_instructions.deep_view(),
        }
    }
}

/// The message that begins a run on a session.
pub open spec fn developer_message(
    view: SessionViewModel,
    message: Seq<char>,
) -> DeveloperMessageModel {
    DeveloperMessageModel {
        parent_id: if view.messages.len() == 0 {
            None
        } else {
            Some(view.messages.last().id)
        },
        body: session::text_body(message),
        workspace_instructions: view.workspace_instructions,
    }
}

impl SessionRunner {
    /// The active run, if there is one.
    pub closed spec fn active(&self) -> Option<ActiveRunModel> {
        self.active_run.deep_view()
    }

    /// Create a new runner without an active run.
    pub fn new() -> (r: Self)
        ensures
            r.active() is None,
    {
        SessionRunner { active_run: None }
    }

    /// Returns true if the runner currently has an active run.
    pub fn is_running(&self) -> (r: bool)
        ensures
            r == self.active() is Some,
    {
        self.active_run.is_some()
    }

    /// Whether the active run was asked to stop.
    pub fn is_cancelled(&self) -> (r: bool)
        ensures
            r == (self.active() matches Some(run) && run.cancelled),
    {
        match &self.active_run {
            Some(run) => run.cancelled,
            None => false,
        }
    }

    /// Claims the session for a run, under a generated identifier, unless a run is active.
    pub fn send_message(&mut self) -> (r: Result<RunId, RunnerError>)
        ensures
            match r {
                Ok(run_id) => old(self).active() is None && ids::is_uuid(run_id@)
                    && final(self).active() == runner_step(
                    old(self).active(),
                    RunnerStep::Send { run_id: run_id@ },
                ),
                Err(error) => old(self).active() is Some && error is Busy && final(self).active()
                    == old(self).active(),
            },
    {
        if self.active_run.is_some() {
            return Err(RunnerError::Busy);
        }
        let run_id = ids::new_id();
        self.active_run = Some(ActiveRun { run_id: run_id.clone(), cancelled: false });
        Ok(run_id)
    }

    /// The session of a claimed run was loaded: returns the message to append. A session that
    /// cannot be loaded is free again.
    pub fn session_loaded(&mut self, message: &str, loaded: Result<SessionView, SessionViewError>) -> (r:
        Result<DeveloperMessage, RunnerError>)
        ensures
            match (loaded, r) {
                (Ok(view), Ok(start)) => start.deep_view() == developer_message(
                    view.deep_view(),
                    message@,
                ) && final(self).active() == old(self).active(),
                (Err(error), Err(RunnerError::SessionView(told))) => told == error
                    && final(self).active() is None,
                _ => false,
            },
    {
        match loaded {
            Ok(view) => {
                let parent_id = if view.messages.len() == 0 {
                    None
                } else {
                    assert(view.messages.deep_view().last()
                        == view.messages@[view.messages@.len() - 1].deep_view());
                    Some(view.messages[view.messages.len() - 1].id.clone())
                };
                Ok(
                    DeveloperMessage {
                        parent_id,
                        body: MessageBody::text(message),
                        workspace_instructions: view.workspace_instructions,
                    },
                )
            },
            Err(error) => {
                self.clear_active_run();
                Err(RunnerError::SessionView(error))
            },
        }
    }

    /// The message of a claimed run was appended: returns the executor of the run. A session
    /// that cannot be written to is free again.
    pub fn message_appended(
        &mut self,
        run_id: &str,
        params: SendMessageParams,
        workspace_instructions: Option<String>,
        tools: Vec<ToolDefinition>,
        compaction_config: CompactionConfig,
        appended: Result<String, SessionError>,
    ) -> (r: Result<RunExecutor, RunnerError>)
        ensures
            match (appended, r) {
                (Ok(id), Ok(executor)) => executor.deep_view() == (RunExecutorModel {
                    run_id: run_id@,
                    session_id: params.session_id@,
                    message: params.message@,
                    developer_message_id: id@,
                    workspace_instructions: workspace_instructions.deep_view(),
                    tools: tools.deep_view(),
                    compaction_config,
                }) && final(self).active() == old(self).active(),
                (Err(error), Err(RunnerError::SessionStore(told))) => told == error
                    && final(self).active() is None,
                _ => false,
            },
    {
        match appended {
            Ok(id) => Ok(
                RunExecutor {
                    run_id: run_id.to_owned(),
                    session_id: params.session_id,
                    message: params.message,
                    developer_message_id: id,
                    workspace_instructions,
                    tools,
                    compaction_config,
                },
            ),
            Err(error) => {
                self.clear_active_run();
                Err(RunnerError::SessionStore(error))
            },
        }
    }

    /// Asks the active run to stop, if there is one, and tells whether there is a run to wait
    /// for.
    pub fn cancel_run(&mut self) -> (r: bool)
        ensures
            r == old(self).active() is Some,
            final(self).active() == runner_step(old(self).active(), RunnerStep::Cancel),
    {
        let run = self.active_run.take();
        match run {
            Some(run) => {
                self.active_run = Some(ActiveRun { run_id: run.run_id, cancelled: true });
                true
            },
            None => false,
        }
    }

    /// Mark the runner as having no active run.
    pub fn clear_active_run(&mut self)
        ensures
            final(self).active() == runner_step(old(self).active(), RunnerStep::Clear),
    {
        self.active_run = None;
    }
}

impl Clone for SessionRunner {
    fn clone(&self) -> (r: Self)
        ensures
            r.active() == self.active(),
    {
        SessionRunner { active_run: self.active_run.clone() }
    }
}

/// What happens to a runner.
pub enum RunnerStep {
    /// A run is asked for; it gets this identifier if it is accepted.
    Send { run_id: Seq<char> },
    /// The active run is asked to stop.
    Cancel,
    /// The active run is over.
    Clear,
}

/// The active run after a step.
pub open spec fn runner_step(
    active: Option<ActiveRunModel>,
    step: RunnerStep,
) -> Option<ActiveRunModel> {
    match (step, active) {
        (RunnerStep::Send { run_id }, None) => Some(ActiveRunModel { run_id, cancelled: false }),
        (RunnerStep::Send { .. }, Some(run)) => Some(run),
        (RunnerStep::Cancel, Some(run)) => Some(
            ActiveRunModel { run_id: run.run_id, cancelled: true },
        ),
        (RunnerStep::Cancel, None) => None,
        (RunnerStep::Clear, _) => None,
    }
}

/// The active run after several steps, with the numbers of runs that were accepted and that
/// are over.
pub open spec fn runner_steps(active: Option<ActiveRunModel>, steps: Seq<RunnerStep>) -> (
    Option<ActiveRunModel>,
    nat,
    nat,
)
    decreases steps.len(),
{
    if steps.len() == 0 {
        (active, 0, 0)
    } else {
        let (before, accepted, over) = runner_steps(active, steps.drop_last());
        let step = steps.last();
        (
            runner_step(before, step),
            if step is Send && before is None {
                accepted + 1
            } else {
                accepted
            },
            if step is Clear && before is Some {
                over + 1
            } else {
                over
            },
        )
    }
}

/// A session has at most one active run: a run is accepted only when every accepted run
/// before it is over, and a run that was asked to stop stays active until it is over.
pub proof fn law_one_active_run(steps: Seq<RunnerStep>)
    ensures
        ({
            let (active, accepted, over) = runner_steps(None, steps);
            accepted == over + (if active is Some {
                1nat
            } else {
                0nat
            })
        }),
    decreases steps.len(),
{
    if steps.len() > 0 {
        law_one_active_run(steps.drop_last());
    }
}

} // verus!
