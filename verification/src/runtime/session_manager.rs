//! The lifecycle of sessions, and the requests for runs on them.

use vstd::prelude::*;

use crate::ids;
use crate::protocol::session::{
    DeleteSessionResult, ListSessionsResult, LoadSessionResult, NewSessionResult, SessionEntry,
    SessionEntryModel, SessionSummary, SessionView,
};
use crate::protocol::{
    ActivatedSkill, ActivatedSkillModel, RuntimeEventKind, RuntimeEventKindModel,
    SessionChangeAction, SkillDefinition, SkillDefinitionModel,
};
use crate::runtime::activate_skill;
use crate::runtime::runner_pool;
use crate::runtime::runner_pool::{CloseResult, RunnerPool};
use crate::runtime::runner::RunId;
use crate::runtime::session_runner;
use crate::runtime::session_runner::{ActiveRunModel, RunnerError, RunnerStep, SessionRunner};
use crate::runtime::session_view_repository::SessionViewError;
use crate::session_store::SessionError;
use crate::skills::SkillError;
use crate::text;

verus! {

/// The skill that a message names in a command at its start.
pub open spec fn skill_command(message: Seq<char>) -> Option<Seq<char>> {
    let trimmed = text::trimmed_start(message);
    if text::occurs_at(trimmed, "/skill:"@, 0) {
        text::leading_word(trimmed.skip("/skill:"@.len() as int))
    } else {
        None
    }
}

/// Parses a `/skill:<name>` command at the start of a message.
///
/// Returns the skill name when the message, after leading white space, begins with `/skill:`
/// and a name follows at once. The name runs until the next white space; the remaining text stays
/// part of the message.
pub fn parse_skill_command(message: &str) -> (r: Option<String>)
    ensures
        r.deep_view() == skill_command(message@),
{
    let trimmed = text::trim_start(message);
    match text::strip_prefix(&trimmed, "/skill:") {
        Some(rest) => {
            assert(rest@ =~= trimmed@.skip("/skill:"@.len() as int));
            text::first_word(&rest)
        },
        None => None,
    }
}

/// The event of a changed session.
pub open spec fn session_changed(
    session_id: Seq<char>,
    action: SessionChangeAction,
) -> RuntimeEventKindModel {
    RuntimeEventKindModel::SessionChanged { session_id, action }
}

/// Returns the event of a changed session.
fn changed_event(session_id: &str, action: SessionChangeAction) -> (r: RuntimeEventKind)
    ensures
        r.deep_view() == session_changed(session_id@, action),
{
    RuntimeEventKind::SessionChanged { session_id: session_id.to_owned(), action }
}

/// How far a request for a run has come.
#[derive(Debug, PartialEq, Eq)]
pub enum SendState {
    /// The session of a skill command is being loaded.
    LoadingView {
        /// The skill that the command names.
        skill: String,
    },
    /// The skill is being looked up.
    FindingSkill,
    /// The activation is being saved.
    SavingActivation {
        /// The skill that was found.
        skill: SkillDefinition,
    },
    /// The request was decided.
    Decided,
}

/// What a [`SendState`] holds.
pub enum SendStateModel {
    LoadingView { skill: Seq<char> },
    FindingSkill,
    SavingActivation { skill: SkillDefinitionModel },
    Decided,
}

impl DeepView for SendState {
    type V = SendStateModel;

    open spec fn deep_view(&self) -> SendStateModel {
        match self {
            SendState::LoadingView { skill } => SendStateModel::LoadingView { skill: skill@ },
            SendState::FindingSkill => SendStateModel::FindingSkill,
            SendState::SavingActivation { skill } => SendStateModel::SavingActivation {
                skill: skill.deep_view(),
            },
            SendState::Decided => SendStateModel::Decided,
        }
    }
}

/// What happened to a request for a run.
#[derive(Debug)]
pub enum SendInput {
    /// The session was loaded: its workspace.
    ViewLoaded(Result<String, SessionViewError>),
    /// The skill was looked up.
    SkillFound(Result<SkillDefinition, SkillError>),
    /// The activation was saved.
    ActivationSaved(Result<(), SessionError>),
}

/// What is to be done next for a request for a run.
#[derive(Debug, PartialEq, Eq)]
pub enum SendAction {
    /// Load the session.
    LoadView,
    /// Look the skill up.
    FindSkill {
        workspace: String,
        name: String,
    },
    /// Append the activation to the session.
    SaveActivation {
        name: String,
        content: String,
    },
    /// Start the run; before that, add the activation to the active skills.
    StartRun {
        activation: Option<ActivatedSkill>,
    },
    /// Refuse the request.
    Reject(RunnerError),
    /// Nothing: the request did not wait for this.
    Ignore,
}

/// What a [`SendAction`] holds; an error is told by its text.
pub enum SendActionModel {
    LoadView,
    FindSkill { workspace: Seq<char>, name: Seq<char> },
    SaveActivation { name: Seq<char>, content: Seq<char> },
    StartRun { activation: Option<ActivatedSkillModel> },
    Reject(RunnerError),
    Ignore,
}

impl DeepView for SendAction {
    type V = SendActionModel;

    open spec fn deep_view(&self) -> SendActionModel {
        match self {
            SendAction::LoadView => SendActionModel::LoadView,
            SendAction::FindSkill { workspace, name } => SendActionModel::FindSkill {
                workspace: workspace@,
                name: name@,
            },
            SendAction::SaveActivation { name, content } => SendActionModel::SaveActivation {
                name: name@,
                content: content@,
            },
            SendAction::StartRun { activation } => SendActionModel::StartRun {
                activation: activation.deep_view(),
            },
            SendAction::Reject(error) => SendActionModel::Reject(*error),
            SendAction::Ignore => SendActionModel::Ignore,
        }
    }
}

/// How a request for a run begins: a skill command first activates the skill.
pub open spec fn send_begins(message: Seq<char>) -> (SendStateModel, SendActionModel) {
    match skill_command(message) {
        Some(skill) => (SendStateModel::LoadingView { skill }, SendActionModel::LoadView),
        None => (SendStateModel::Decided, SendActionModel::StartRun { activation: None }),
    }
}

/// How a request for a run goes on. The activation is saved before it becomes active, and the
/// run starts after that; any error refuses the request.
pub open spec fn send_goes_on(state: SendStateModel, input: SendInput) -> (
    SendStateModel,
    SendActionModel,
) {
    match (state, input) {
        (SendStateModel::LoadingView { skill }, SendInput::ViewLoaded(Ok(workspace))) => (
            SendStateModel::FindingSkill,
            SendActionModel::FindSkill { workspace: workspace@, name: skill },
        ),
        (SendStateModel::LoadingView { .. }, SendInput::ViewLoaded(Err(error))) => (
            SendStateModel::Decided,
            SendActionModel::Reject(RunnerError::SessionView(error)),
        ),
        (SendStateModel::FindingSkill, SendInput::SkillFound(Ok(skill))) => (
            SendStateModel::SavingActivation { skill: skill.deep_view() },
            SendActionModel::SaveActivation { name: skill.name@, content: skill.content@ },
        ),
        (SendStateModel::FindingSkill, SendInput::SkillFound(Err(error))) => (
            SendStateModel::Decided,
            SendActionModel::Reject(RunnerError::SkillRegistry(error)),
        ),
        (SendStateModel::SavingActivation { skill }, SendInput::ActivationSaved(Ok(_))) => (
            SendStateModel::Decided,
            SendActionModel::StartRun { activation: Some(activate_skill::activated(skill)) },
        ),
        (SendStateModel::SavingActivation { .. }, SendInput::ActivationSaved(Err(error))) => (
            SendStateModel::Decided,
            SendActionModel::Reject(RunnerError::SessionStore(error)),
        ),
        _ => (state, SendActionModel::Ignore),
    }
}

/// Manages the lifecycle of sessions and delegates runner lifecycle to a pool.
pub struct SessionManager {
    /// Pool that owns the runners.
    pub pool: RunnerPool,
}

/// The error of a workspace that is not a directory.
pub open spec fn workspace_error(workspace: Seq<char>) -> Seq<char> {
    "workspace is not a directory: "@ + workspace
}

impl SessionManager {
    /// Create a new session manager.
    pub fn new() -> (r: Self)
        ensures
            r.pool.runners() == Map::<Seq<char>, SessionRunner>::empty(),
            r.pool.skills() == Map::<Seq<char>, Seq<ActivatedSkillModel>>::empty(),
    {
        SessionManager { pool: RunnerPool::new() }
    }

    /// Checks the workspace of a new session, which must be a directory.
    pub fn new_session(workspace: &str, is_dir: bool) -> (r: Result<(), RunnerError>)
        ensures
            match r {
                Ok(_) => is_dir,
                Err(RunnerError::SessionStore(SessionError::InvalidDirectory(error))) => !is_dir
                    && error@ == workspace_error(workspace@),
                Err(_) => false,
            },
    {
        if is_dir {
            Ok(())
        } else {
            Err(
                RunnerError::SessionStore(
                    SessionError::InvalidDirectory(
                        text::concat("workspace is not a directory: ", workspace),
                    ),
                ),
            )
        }
    }

    /// Tells what a new session is answered and which event is published, given what came of
    /// creating it.
    pub fn session_created(session_id: &str, created: Result<(), SessionError>) -> (r: Result<
        (NewSessionResult, RuntimeEventKind),
        RunnerError,
    >)
        ensures
            match (created, r) {
                (Ok(_), Ok((result, event))) => result.session_id@ == session_id@
                    && event.deep_view() == session_changed(
                    session_id@,
                    SessionChangeAction::Created,
                ),
                (Err(error), Err(RunnerError::SessionStore(told))) => told == error,
                _ => false,
            },
    {
        match created {
            Ok(_) => Ok(
                (
                    NewSessionResult { session_id: session_id.to_owned() },
                    changed_event(session_id, SessionChangeAction::Created),
                ),
            ),
            Err(error) => Err(RunnerError::SessionStore(error)),
        }
    }

    /// Tells what a load request is answered and which event is published.
    pub fn load_session(session_id: &str, loaded: Result<SessionView, SessionViewError>) -> (r: Result<
        (LoadSessionResult, RuntimeEventKind),
        RunnerError,
    >)
        ensures
            match (loaded, r) {
                (Ok(view), Ok((result, event))) => result.session == view && event.deep_view()
                    == session_changed(session_id@, SessionChangeAction::Loaded),
                (Err(error), Err(RunnerError::SessionView(told))) => told == error,
                _ => false,
            },
    {
        match loaded {
            Ok(session) => Ok(
                (
                    LoadSessionResult { session },
                    changed_event(session_id, SessionChangeAction::Loaded),
                ),
            ),
            Err(error) => Err(RunnerError::SessionView(error)),
        }
    }

    /// Tells what a list request is answered.
    pub fn list_sessions(listed: Result<Vec<SessionSummary>, SessionError>) -> (r: Result<
        ListSessionsResult,
        RunnerError,
    >)
        ensures
            match (listed, r) {
                (Ok(sessions), Ok(result)) => result.sessions == sessions,
                (Err(error), Err(RunnerError::SessionStore(told))) => told == error,
                _ => false,
            },
    {
        match listed {
            Ok(sessions) => Ok(ListSessionsResult { sessions }),
            Err(error) => Err(RunnerError::SessionStore(error)),
        }
    }

    /// Closes the runner of a session that is to be deleted. A session with an active run is
    /// not deleted.
    pub fn delete_session(&mut self, session_id: &str) -> (r: Result<(), RunnerError>)
        ensures
            match r {
                Ok(_) => (old(self).pool.runners().contains_key(session_id@)
                    ==> old(self).pool.runners()[session_id@].active() is None)
                    && !final(self).pool.runners().contains_key(session_id@)
                    && final(self).pool.runners() == old(self).pool.runners().remove(session_id@),
                Err(error) => error is Busy && old(self).pool.runners().contains_key(session_id@)
                    && old(self).pool.runners()[session_id@].active() is Some
                    && final(self).pool.runners() == old(self).pool.runners(),
            },
            final(self).pool.skills() == (if r is Ok && old(self).pool.runners().contains_key(
                session_id@,
            ) {
                old(self).pool.skills().remove(session_id@)
            } else {
                old(self).pool.skills()
            }),
    {
        let ghost before = self.pool.runners();
        match self.pool.close(session_id) {
            CloseResult::Busy => Err(RunnerError::Busy),
            CloseResult::Absent => {
                assert(before.remove(session_id@) =~= before);
                Ok(())
            },
            CloseResult::Closed => Ok(()),
        }
    }

    /// Tells what a delete request is answered and which event is published, given what came
    /// of deleting the session.
    pub fn session_deleted(session_id: &str, deleted: Result<(), SessionError>) -> (r: Result<
        (DeleteSessionResult, RuntimeEventKind),
        RunnerError,
    >)
        ensures
            match (deleted, r) {
                (Ok(_), Ok((result, event))) => result.session_id@ == session_id@
                    && event.deep_view() == session_changed(
                    session_id@,
                    SessionChangeAction::Deleted,
                ),
                (Err(error), Err(RunnerError::SessionStore(told))) => told == error,
                _ => false,
            },
    {
        match deleted {
            Ok(_) => Ok(
                (
                    DeleteSessionResult { session_id: session_id.to_owned() },
                    changed_event(session_id, SessionChangeAction::Deleted),
                ),
            ),
            Err(error) => Err(RunnerError::SessionStore(error)),
        }
    }

    /// Begins a request for a run. A message that starts with `/skill:<name>` activates the
    /// named skill before the run starts.
    pub fn send_message(message: &str) -> (r: (SendState, SendAction))
        ensures
            (r.0.deep_view(), r.1.deep_view()) == send_begins(message@),
    {
        match parse_skill_command(message) {
            Some(skill) => (SendState::LoadingView { skill }, SendAction::LoadView),
            None => (SendState::Decided, SendAction::StartRun { activation: None }),
        }
    }

    /// Goes on with a request for a run: activates the skill of a command outside the tool
    /// flow of the model.
    pub fn activate_skill_for_session(state: SendState, input: SendInput) -> (r: (
        SendState,
        SendAction,
    ))
        ensures
            (r.0.deep_view(), r.1.deep_view()) == send_goes_on(state.deep_view(), input),
    {
        match (state, input) {
            (SendState::LoadingView { skill }, SendInput::ViewLoaded(Ok(workspace))) => (
                SendState::FindingSkill,
                SendAction::FindSkill { workspace, name: skill },
            ),
            (SendState::LoadingView { .. }, SendInput::ViewLoaded(Err(error))) => (
                SendState::Decided,
                SendAction::Reject(RunnerError::SessionView(error)),
            ),
            (SendState::FindingSkill, SendInput::SkillFound(Ok(skill))) => {
                let name = skill.name.clone();
                let content = skill.content.clone();
                (
                    SendState::SavingActivation { skill },
                    SendAction::SaveActivation { name, content },
                )
            },
            (SendState::FindingSkill, SendInput::SkillFound(Err(error))) => (
                SendState::Decided,
                SendAction::Reject(RunnerError::SkillRegistry(error)),
            ),
            (SendState::SavingActivation { skill }, SendInput::ActivationSaved(Ok(_))) => (
                SendState::Decided,
                SendAction::StartRun {
                    activation: Some(ActivatedSkill { name: skill.name, content: skill.content }),
                },
            ),
            (SendState::SavingActivation { .. }, SendInput::ActivationSaved(Err(error))) => (
                SendState::Decided,
                SendAction::Reject(RunnerError::SessionStore(error)),
            ),
            (state, _) => (state, SendAction::Ignore),
        }
    }

    /// Claims a session for a run, creating its runner if needed. A session with an active run
    /// is busy; runs of other sessions do not matter.
    pub fn start_run(&mut self, session_id: &str, entries: &Vec<SessionEntry>) -> (r: Result<
        RunId,
        RunnerError,
    >)
        ensures
            match r {
                Ok(run_id) => active_run(old(self).pool, session_id@) is None && ids::is_uuid(
                    run_id@,
                ) && active_run(final(self).pool, session_id@) == session_runner::runner_step(
                    None,
                    RunnerStep::Send { run_id: run_id@ },
                ),
                Err(error) => error is Busy && active_run(old(self).pool, session_id@) is Some
                    && active_run(final(self).pool, session_id@) == active_run(
                    old(self).pool,
                    session_id@,
                ),
            },
            only_session_changed(old(self).pool, final(self).pool, session_id@),
            final(self).pool.skills() == kept_skills(
                old(self).pool,
                session_id@,
                entries.deep_view(),
            ),
    {
        self.pool.get_or_create(session_id, entries);
        let mut runner = self.runner_of(session_id);
        let r = runner.send_message();
        self.pool.set_runner(session_id, runner);
        assert(self.pool.runners().dom() =~= old(self).pool.runners().dom().insert(session_id@));
        r
    }

    /// A copy of the runner of a session.
    fn runner_of(&self, session_id: &str) -> (r: SessionRunner)
        ensures
            r.active() == active_run(self.pool, session_id@),
    {
        match self.pool.runner(session_id) {
            Some(runner) => runner.clone(),
            None => SessionRunner::new(),
        }
    }

    /// Asks the active run of a session to stop, if there is one, and tells whether there is a
    /// run to wait for.
    pub fn cancel_run(&mut self, session_id: &str, entries: &Vec<SessionEntry>) -> (r: bool)
        ensures
            r == active_run(old(self).pool, session_id@) is Some,
            active_run(final(self).pool, session_id@) == session_runner::runner_step(
                active_run(old(self).pool, session_id@),
                RunnerStep::Cancel,
            ),
            only_session_changed(old(self).pool, final(self).pool, session_id@),
            final(self).pool.skills() == kept_skills(
                old(self).pool,
                session_id@,
                entries.deep_view(),
            ),
    {
        self.pool.get_or_create(session_id, entries);
        let mut runner = self.runner_of(session_id);
        let waits = runner.cancel_run();
        self.pool.set_runner(session_id, runner);
        assert(self.pool.runners().dom() =~= old(self).pool.runners().dom().insert(session_id@));
        waits
    }

    /// The active run of a session is over.
    pub fn release_run(&mut self, session_id: &str)
        ensures
            active_run(final(self).pool, session_id@) is None,
            old(self).pool.runners().contains_key(session_id@) ==> only_session_changed(
                old(self).pool,
                final(self).pool,
                session_id@,
            ),
            !old(self).pool.runners().contains_key(session_id@) ==> final(self).pool
                == old(self).pool,
            final(self).pool.skills() == old(self).pool.skills(),
    {
        if self.pool.runner(session_id).is_some() {
            let mut runner = self.runner_of(session_id);
            runner.clear_active_run();
            self.pool.set_runner(session_id, runner);
        }
    }

    /// Returns true if the session has an active run, creating its runner if needed.
    pub fn is_running(&mut self, session_id: &str, entries: &Vec<SessionEntry>) -> (r: bool)
        ensures
            r == active_run(old(self).pool, session_id@) is Some,
            active_run(final(self).pool, session_id@) == active_run(old(self).pool, session_id@),
            only_session_changed(old(self).pool, final(self).pool, session_id@),
            final(self).pool.skills() == kept_skills(
                old(self).pool,
                session_id@,
                entries.deep_view(),
            ),
    {
        self.pool.get_or_create(session_id, entries);
        assert(self.pool.runners().dom() =~= old(self).pool.runners().dom().insert(session_id@));
        match self.pool.runner(session_id) {
            Some(runner) => runner.is_running(),
            None => false,
        }
    }
}

/// The active run of a session, if it has one.
pub open spec fn active_run(pool: RunnerPool, session_id: Seq<char>) -> Option<ActiveRunModel> {
    if pool.runners().contains_key(session_id) {
        pool.runners()[session_id].active()
    } else {
        None
    }
}

/// The active skills of all sessions after the runner of a session was asked for: where
/// neither the runner nor its skills are kept, they are taken from the records.
pub open spec fn kept_skills(
    pool: RunnerPool,
    session_id: Seq<char>,
    entries: Seq<SessionEntryModel>,
) -> Map<Seq<char>, Seq<ActivatedSkillModel>> {
    if pool.runners().contains_key(session_id) || pool.skills().contains_key(session_id) {
        pool.skills()
    } else {
        pool.skills().insert(session_id, runner_pool::active_skills(entries))
    }
}

/// The session has a runner, and the runs of all other sessions go on as they did.
pub open spec fn only_session_changed(
    before: RunnerPool,
    after: RunnerPool,
    session_id: Seq<char>,
) -> bool {
    &&& after.runners().dom() == before.runners().dom().insert(session_id)
    &&& forall|other: Seq<char>|
        other != session_id ==> #[trigger] active_run(after, other) == active_run(before, other)
}

/// What a request for a run has asked for after all `inputs`.
pub open spec fn send_trace(message: Seq<char>, inputs: Seq<SendInput>) -> (
    SendStateModel,
    Seq<SendActionModel>,
)
    decreases inputs.len(),
{
    if inputs.len() == 0 {
        let (state, action) = send_begins(message);
        (state, seq![action])
    } else {
        let (state, actions) = send_trace(message, inputs.drop_last());
        let (next, action) = send_goes_on(state, inputs.last());
        (next, actions.push(action))
    }
}

/// The action starts a run.
pub open spec fn is_start(action: SendActionModel) -> bool {
    action is StartRun
}

/// The action decides the request.
pub open spec fn is_decision(action: SendActionModel) -> bool {
    action is StartRun || action is Reject
}

/// A request for a run is decided once: it starts one run or is refused, and nothing is done
/// for it after that. A message with a skill command starts a run only with the activation of
/// a skill, which was saved before.
pub proof fn law_request_is_decided_once(message: Seq<char>, inputs: Seq<SendInput>)
    ensures
        ({
            let (state, actions) = send_trace(message, inputs);
            &&& actions.len() == inputs.len() + 1
            &&& state is Decided <==> exists|i: int|
                0 <= i < actions.len() && is_decision(#[trigger] actions[i])
            &&& forall|i: int, j: int|
                0 <= i < j < actions.len() && is_decision(#[trigger] actions[i]) ==> (
                #[trigger] actions[j]) is Ignore
            &&& state matches SendStateModel::SavingActivation { skill } ==> exists|k: int|
                0 <= k < actions.len() && #[trigger] actions[k] == (
                SendActionModel::SaveActivation { name: skill.name, content: skill.content })
            &&& skill_command(message) is Some ==> forall|i: int|
                0 <= i < actions.len() ==> (#[trigger] actions[i] matches SendActionModel::StartRun {
                    activation,
                } ==> activation is Some && exists|k: int|
                    0 <= k < i && #[trigger] actions[k] == (SendActionModel::SaveActivation {
                        name: activation->0.name,
                        content: activation->0.content,
                    }))
        }),
    decreases inputs.len(),
{
    let (state, actions) = send_trace(message, inputs);
    if inputs.len() == 0 {
        assert(actions[0] == send_begins(message).1);
    } else {
        law_request_is_decided_once(message, inputs.drop_last());
        let (before, earlier) = send_trace(message, inputs.drop_last());
        let (next, action) = send_goes_on(before, inputs.last());
        let n = earlier.len() as int;
        assert(actions == earlier.push(action));
        assert(actions[n] == action);
        assert forall|i: int| 0 <= i < n implies #[trigger] actions[i] == earlier[i] by {}
        if exists|i: int| 0 <= i < earlier.len() && is_decision(#[trigger] earlier[i]) {
            let i = choose|i: int| 0 <= i < earlier.len() && is_decision(#[trigger] earlier[i]);
            assert(is_decision(actions[i]));
        }
        if exists|i: int| 0 <= i < actions.len() && is_decision(#[trigger] actions[i]) {
            let i = choose|i: int| 0 <= i < actions.len() && is_decision(#[trigger] actions[i]);
            if i < n {
                assert(is_decision(earlier[i]));
            }
        }
        assert forall|i: int, j: int|
            0 <= i < j < actions.len() && is_decision(#[trigger] actions[i]) implies (
        #[trigger] actions[j]) is Ignore by {
            assert(is_decision(earlier[i]));
            if j < n {
                assert(earlier[j] is Ignore);
            }
        }
        if let SendStateModel::SavingActivation { skill } = before {
            let k = choose|k: int|
                0 <= k < earlier.len() && #[trigger] earlier[k] == (
                SendActionModel::SaveActivation { name: skill.name, content: skill.content });
            assert(actions[k] == earlier[k]);
        }
        if skill_command(message) is Some {
            assert forall|i: int| 0 <= i < actions.len() implies (
            #[trigger] actions[i] matches SendActionModel::StartRun { activation }
                ==> activation is Some && exists|k: int|
                0 <= k < i && #[trigger] actions[k] == (SendActionModel::SaveActivation {
                    name: activation->0.name,
                    content: activation->0.content,
                })) by {
                if i < n {
                    assert(actions[i] == earlier[i]);
                    if let SendActionModel::StartRun { activation } = earlier[i] {
                        let k = choose|k: int|
                            0 <= k < i && #[trigger] earlier[k] == (
                            SendActionModel::SaveActivation {
                                name: activation->0.name,
                                content: activation->0.content,
                            });
                        assert(actions[k] == earlier[k]);
                    }
                }
            }
        }
    }
}

/// A skill that is not known refuses the request: no run starts and nothing is saved.
pub proof fn law_unknown_skill_starts_nothing(
    message: Seq<char>,
    workspace: String,
    error: SkillError,
)
    requires
        skill_command(message) is Some,
    ensures
        send_trace(
            message,
            seq![SendInput::ViewLoaded(Ok(workspace)), SendInput::SkillFound(Err(error))],
        ).1 == seq![
            SendActionModel::LoadView,
            SendActionModel::FindSkill {
                workspace: workspace@,
                name: skill_command(message)->0,
            },
            SendActionModel::Reject(RunnerError::SkillRegistry(error)),
        ],
{
    let inputs = seq![SendInput::ViewLoaded(Ok(workspace)), SendInput::SkillFound(Err(error))];
    assert(inputs.drop_last().drop_last() =~= Seq::empty());
    assert(inputs.drop_last() =~= seq![SendInput::ViewLoaded(Ok(workspace))]);
    reveal_with_fuel(send_trace, 3);
    assert(send_trace(message, inputs).1 =~= seq![
        SendActionModel::LoadView,
        SendActionModel::FindSkill { workspace: workspace@, name: skill_command(message)->0 },
        SendActionModel::Reject(RunnerError::SkillRegistry(error)),
    ]);
}

} // verus!
