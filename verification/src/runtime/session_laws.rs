//! What holds of sessions: their runs, their active skills and the requests for runs.

use vstd::prelude::*;

use crate::protocol::session::{MessageBlockModel, SessionEntryModel, SessionViewModel};
use crate::protocol::{
    ActivatedSkillModel, RuntimeEventKindModel, SessionChangeAction, SkillDefinition,
    SkillDefinitionModel,
};
use crate::runtime::path_laws;
use crate::runtime::runner_pool;
use crate::runtime::runner_pool::RunnerPool;
use crate::runtime::session_manager;
use crate::runtime::session_manager::{SendActionModel, SendInput, SendStateModel};
use crate::runtime::session_runner;
use crate::runtime::session_runner::{ActiveRunModel, RunnerError, RunnerStep};
use crate::runtime::session_view_repository::SessionViewError;
use crate::session_store::SessionError;
use crate::skills::SkillError;
use crate::text;

verus! {

/// A run begins with the text of its message, behind the last message that the view shows,
/// and with the workspace instructions of the view.
pub proof fn law_run_begins_with_its_message(view: SessionViewModel, message: Seq<char>)
    ensures
        ({
            let start = session_runner::developer_message(view, message);
            &&& start.body == seq![MessageBlockModel::Text { text: message }]
            &&& start.workspace_instructions == view.workspace_instructions
            &&& if view.messages.len() > 0 {
                start.parent_id == Some(view.messages[view.messages.len() - 1].id)
            } else {
                start.parent_id is None
            }
        }),
{
}

/// A run is accepted when none is active, and is then active and not asked to stop; one that
/// is active stays so, whatever else is asked for, until it is over; asking it to stop marks
/// it, and only it.
pub proof fn law_runs_of_a_session(run: ActiveRunModel, id: Seq<char>)
    ensures
        session_runner::runner_step(None, RunnerStep::Send { run_id: id }) == Some(
            ActiveRunModel { run_id: id, cancelled: false },
        ),
        session_runner::runner_step(Some(run), RunnerStep::Send { run_id: id }) == Some(run),
        session_runner::runner_step(Some(run), RunnerStep::Cancel) == Some(
            ActiveRunModel { run_id: run.run_id, cancelled: true },
        ),
        session_runner::runner_step(None, RunnerStep::Cancel) is None,
        session_runner::runner_step(Some(run), RunnerStep::Clear) is None,
        session_runner::runner_step(None, RunnerStep::Clear) is None,
{
}

/// A skill command is white space, `/skill:` and, right behind it, a name without white space,
/// which ends with the message or before white space.
pub open spec fn is_command(
    message: Seq<char>,
    lead: Seq<char>,
    name: Seq<char>,
    rest: Seq<char>,
) -> bool {
    &&& message == lead + "/skill:"@ + name + rest
    &&& forall|i: int| 0 <= i < lead.len() ==> text::is_space(#[trigger] lead[i])
    &&& name.len() > 0
    &&& forall|i: int| 0 <= i < name.len() ==> !text::is_space(#[trigger] name[i])
    &&& rest.len() > 0 ==> text::is_space(rest[0])
}

/// The skill of a message is the name in its command; a message that is no command has none.
pub proof fn law_skill_command_names_the_skill(message: Seq<char>)
    ensures
        forall|lead: Seq<char>, name: Seq<char>, rest: Seq<char>| #[trigger]
            is_command(message, lead, name, rest) ==> session_manager::skill_command(message)
                == Some(name),
        session_manager::skill_command(message) matches Some(name) ==> exists|
            lead: Seq<char>,
            rest: Seq<char>,
        | #[trigger] is_command(message, lead, name, rest),
{
    reveal_strlit("/skill:");
    assert forall|lead: Seq<char>, name: Seq<char>, rest: Seq<char>| #[trigger]
        is_command(message, lead, name, rest) implies session_manager::skill_command(message)
        == Some(name) by {
        let tail = "/skill:"@ + name + rest;
        assert(message =~= lead + tail);
        assert(tail[0] == '/');
        lemma_trimmed(lead, tail);
        assert(tail.subrange(0, "/skill:"@.len() as int) =~= "/skill:"@);
        let behind = tail.skip("/skill:"@.len() as int);
        assert(behind =~= name + rest);
        lemma_word(name, rest);
        assert(behind.take(name.len() as int) =~= name);
    }
    if let Some(name) = session_manager::skill_command(message) {
        let tail = text::trimmed_start(message);
        lemma_lead(message);
        let lead = message.take(message.len() - tail.len());
        let behind = tail.skip("/skill:"@.len() as int);
        text::lemma_word_len(behind);
        let rest = behind.skip(name.len() as int);
        assert(name =~= behind.take(text::word_len(behind) as int));
        assert(behind =~= name + rest);
        assert(tail =~= "/skill:"@ + behind) by {
            assert(tail.subrange(0, "/skill:"@.len() as int) == "/skill:"@);
        }
        assert(message =~= lead + "/skill:"@ + name + rest);
        assert(is_command(message, lead, name, rest));
    }
}

proof fn lemma_trimmed(lead: Seq<char>, tail: Seq<char>)
    requires
        forall|i: int| 0 <= i < lead.len() ==> text::is_space(#[trigger] lead[i]),
        tail.len() > 0,
        !text::is_space(tail[0]),
    ensures
        text::trimmed_start(lead + tail) == tail,
    decreases lead.len(),
{
    let s = lead + tail;
    if lead.len() > 0 {
        assert(s[0] == lead[0]);
        let shorter = lead.skip(1);
        assert forall|i: int| 0 <= i < shorter.len() implies text::is_space(#[trigger] shorter[i]) by {
            assert(shorter[i] == lead[i + 1]);
        }
        lemma_trimmed(shorter, tail);
        assert(s.skip(1) =~= shorter + tail);
    } else {
        assert(s =~= tail);
    }
}

proof fn lemma_lead(s: Seq<char>)
    ensures
        ({
            let tail = text::trimmed_start(s);
            let n = s.len() - tail.len();
            &&& 0 <= n <= s.len()
            &&& s.skip(n) == tail
            &&& forall|i: int| 0 <= i < n ==> text::is_space(#[trigger] s.take(n)[i])
        }),
    decreases s.len(),
{
    let tail = text::trimmed_start(s);
    if s.len() > 0 && text::is_space(s[0]) {
        lemma_lead(s.skip(1));
        let n = s.len() - tail.len();
        assert(s.skip(n) =~= s.skip(1).skip(n - 1));
        assert forall|i: int| 0 <= i < n implies text::is_space(#[trigger] s.take(n)[i]) by {
            if i > 0 {
                assert(s.skip(1).take(n - 1)[i - 1] == s[i]);
            }
        }
    } else {
        assert(s.skip(0) =~= s);
    }
}

proof fn lemma_word(name: Seq<char>, rest: Seq<char>)
    requires
        forall|i: int| 0 <= i < name.len() ==> !text::is_space(#[trigger] name[i]),
        rest.len() > 0 ==> text::is_space(rest[0]),
    ensures
        text::word_len(name + rest) == name.len(),
    decreases name.len(),
{
    let s = name + rest;
    if name.len() > 0 {
        assert(s[0] == name[0]);
        let shorter = name.skip(1);
        assert forall|i: int| 0 <= i < shorter.len() implies !text::is_space(
            #[trigger] shorter[i],
        ) by {
            assert(shorter[i] == name[i + 1]);
        }
        lemma_word(shorter, rest);
        assert(s.skip(1) =~= shorter + rest);
    } else {
        assert(s =~= rest);
    }
}

/// A message with a skill command loads the session, looks the named skill up in the workspace
/// of the session, saves the skill that was found, and only then starts the run with it. A
/// message without one starts the run at once.
pub proof fn law_skill_command_activates_the_skill(
    message: Seq<char>,
    workspace: String,
    skill: SkillDefinition,
)
    ensures
        session_manager::skill_command(message) is None ==> session_manager::send_begins(message)
            == (SendStateModel::Decided, SendActionModel::StartRun { activation: None }),
        session_manager::skill_command(message) matches Some(name) ==> session_manager::send_trace(
            message,
            seq![
                SendInput::ViewLoaded(Ok(workspace)),
                SendInput::SkillFound(Ok(skill)),
                SendInput::ActivationSaved(Ok(())),
            ],
        ) == (
            SendStateModel::Decided,
            seq![
                SendActionModel::LoadView,
                SendActionModel::FindSkill { workspace: workspace@, name },
                SendActionModel::SaveActivation { name: skill.name@, content: skill.content@ },
                SendActionModel::StartRun {
                    activation: Some(
                        ActivatedSkillModel { name: skill.name@, content: skill.content@ },
                    ),
                },
            ],
        ),
{
    if let Some(name) = session_manager::skill_command(message) {
        let a = SendInput::ViewLoaded(Ok(workspace));
        let b = SendInput::SkillFound(Ok(skill));
        let c = SendInput::ActivationSaved(Ok(()));
        let inputs = seq![a, b, c];
        assert(inputs.drop_last() =~= seq![a, b]);
        assert(inputs.drop_last().drop_last() =~= seq![a]);
        assert(inputs.drop_last().drop_last().drop_last() =~= Seq::empty());
        reveal_with_fuel(session_manager::send_trace, 4);
        assert(session_manager::send_trace(message, inputs).1 =~= seq![
            SendActionModel::LoadView,
            SendActionModel::FindSkill { workspace: workspace@, name },
            SendActionModel::SaveActivation { name: skill.name@, content: skill.content@ },
            SendActionModel::StartRun {
                activation: Some(ActivatedSkillModel { name: skill.name@, content: skill.content@ }),
            },
        ]);
    }
}

/// What fails on the way refuses the request, with that error.
pub proof fn law_failed_activation_refuses_the_request(
    name: Seq<char>,
    skill: SkillDefinitionModel,
    view: SessionViewError,
    unknown: SkillError,
    store: SessionError,
)
    ensures
        session_manager::send_goes_on(
            SendStateModel::LoadingView { skill: name },
            SendInput::ViewLoaded(Err(view)),
        ) == (SendStateModel::Decided, SendActionModel::Reject(RunnerError::SessionView(view))),
        session_manager::send_goes_on(
            SendStateModel::FindingSkill,
            SendInput::SkillFound(Err(unknown)),
        ) == (SendStateModel::Decided, SendActionModel::Reject(RunnerError::SkillRegistry(unknown))),
        session_manager::send_goes_on(
            SendStateModel::SavingActivation { skill },
            SendInput::ActivationSaved(Err(store)),
        ) == (SendStateModel::Decided, SendActionModel::Reject(RunnerError::SessionStore(store))),
{
}

/// One more activation gives a skill that is active already its new content, at its place; a
/// new skill comes last; every other skill stays where it is.
pub proof fn law_activation_keeps_places(
    skills: Seq<ActivatedSkillModel>,
    skill: ActivatedSkillModel,
)
    requires
        forall|i: int, j: int|
            0 <= i < j < skills.len() ==> (#[trigger] skills[i]).name != (#[trigger] skills[j]).name,
    ensures
        ({
            let after = runner_pool::with_skill(skills, skill);
            &&& forall|i: int|
                0 <= i < skills.len() ==> after[i] == if (#[trigger] skills[i]).name == skill.name {
                    skill
                } else {
                    skills[i]
                }
            &&& if exists|i: int| 0 <= i < skills.len() && (#[trigger] skills[i]).name == skill.name {
                after.len() == skills.len()
            } else {
                after.len() == skills.len() + 1 && after[skills.len() as int] == skill
            }
        }),
{
    runner_pool::lemma_skill_at(skills, skill.name);
    let at = runner_pool::skill_at(skills, skill.name);
    assert forall|i: int| 0 <= i < skills.len() && (#[trigger] skills[i]).name == skill.name implies i
        == at by {
        if i < at {
            assert(skills[i].name != skill.name);
        } else if at < i {
            assert(skills[at].name != skills[i].name);
        }
    }
}

/// The active skills of a session are the skills with an activation record, each once, in the
/// order of their first records, each with the content of its latest record.
pub proof fn law_active_skills_are_the_recorded_ones(entries: Seq<SessionEntryModel>) -> (firsts: Seq<
    int,
>)
    ensures
        ({
            let skills = runner_pool::active_skills(entries);
            &&& firsts.len() == skills.len()
            &&& forall|i: int, j: int| 0 <= i < j < firsts.len() ==> firsts[i] < firsts[j]
            &&& forall|i: int|
                0 <= i < firsts.len() ==> is_first_record_of(
                    entries,
                    #[trigger] firsts[i],
                    skills[i].name,
                )
            &&& forall|s: int| #[trigger] is_first_record(entries, s) ==> firsts.contains(s)
            &&& forall|i: int|
                0 <= i < skills.len() ==> has_latest(entries, #[trigger] skills[i])
        }),
    decreases entries.len(),
{
    let skills = runner_pool::active_skills(entries);
    if entries.len() == 0 {
        Seq::empty()
    } else {
        let rest = entries.drop_last();
        let n = entries.len() - 1;
        let before = runner_pool::active_skills(rest);
        let known = law_active_skills_are_the_recorded_ones(rest);
        runner_pool::law_active_skills_are_distinct(rest);
        assert(entries[n] == entries.last());
        assert forall|i: int| 0 <= i < n implies #[trigger] entries[i] == rest[i] by {}
        assert forall|s: int| s < n implies #[trigger] is_first_record(entries, s)
            == is_first_record(rest, s) by {
            lemma_first_record(entries, s);
        }
        match entries.last() {
            SessionEntryModel::SkillActivated(skill) => {
                law_activation_keeps_places(before, skill);
                runner_pool::lemma_skill_at(before, skill.name);
                let at = runner_pool::skill_at(before, skill.name);
                let firsts = if at < before.len() {
                    known
                } else {
                    known.push(n)
                };
                assert(is_first_record(entries, n) == (at == before.len())) by {
                    if at < before.len() {
                        assert(is_first_record_of(rest, known[at], before[at].name));
                        assert(known[at] < n);
                    } else {
                        assert forall|k: int| 0 <= k < n implies !(
                        #[trigger] entries[k] matches SessionEntryModel::SkillActivated(earlier)
                            && earlier.name == skill.name) by {
                            if entries[k] matches SessionEntryModel::SkillActivated(earlier)
                                && earlier.name == skill.name {
                                let first = lemma_first_of(rest, k);
                                assert(known.contains(first));
                                let i = choose|i: int| 0 <= i < known.len() && known[i] == first;
                                assert(is_first_record_of(rest, known[i], before[i].name));
                            }
                        }
                    }
                }
                assert forall|i: int| 0 <= i < skills.len() implies has_latest(
                    entries,
                    #[trigger] skills[i],
                ) by {
                    if i == at {
                        assert(skills[i] == skill);
                        assert(path_laws::is_latest(entries, n, skill.name, skill.content));
                    } else {
                        assert(skills[i] == before[i]);
                        assert(has_latest(rest, before[i]));
                        let j = choose|j: int|
                            path_laws::is_latest(rest, j, before[i].name, before[i].content);
                        assert(before[i].name != skill.name) by {
                            if i < at {
                                assert(before[i].name != skill.name);
                            } else {
                                assert(before[at].name != before[i].name);
                            }
                        }
                        assert(path_laws::is_latest(
                            entries,
                            j,
                            skills[i].name,
                            skills[i].content,
                        ));
                    }
                }
                assert forall|i: int| 0 <= i < firsts.len() implies is_first_record_of(
                    entries,
                    #[trigger] firsts[i],
                    skills[i].name,
                ) by {
                    if i < known.len() {
                        assert(firsts[i] == known[i]);
                        assert(is_first_record_of(rest, known[i], before[i].name));
                        assert(skills[i].name == before[i].name);
                        assert(is_first_record(entries, known[i]));
                    }
                }
                assert forall|s: int| #[trigger] is_first_record(
                    entries,
                    s,
                ) implies firsts.contains(s) by {
                    if s < n {
                        assert(is_first_record(rest, s));
                        assert(known.contains(s));
                        let i = choose|i: int| 0 <= i < known.len() && known[i] == s;
                        assert(firsts[i] == s);
                    } else {
                        assert(firsts[known.len() as int] == s);
                    }
                }
                assert forall|i: int, j: int| 0 <= i < j < firsts.len() implies firsts[i]
                    < firsts[j] by {
                    assert(is_first_record_of(rest, known[i], before[i].name));
                }
                firsts
            },
            _ => {
                assert forall|i: int| 0 <= i < skills.len() implies has_latest(
                    entries,
                    #[trigger] skills[i],
                ) by {
                    assert(has_latest(rest, before[i]));
                    let j = choose|j: int|
                        path_laws::is_latest(rest, j, before[i].name, before[i].content);
                    assert(path_laws::is_latest(entries, j, skills[i].name, skills[i].content));
                }
                assert forall|i: int| 0 <= i < known.len() implies is_first_record_of(
                    entries,
                    #[trigger] known[i],
                    skills[i].name,
                ) by {
                    assert(is_first_record_of(rest, known[i], before[i].name));
                    assert(is_first_record(entries, known[i]));
                }
                assert forall|s: int| #[trigger] is_first_record(
                    entries,
                    s,
                ) implies known.contains(s) by {
                    assert(s < n);
                    assert(is_first_record(rest, s));
                }
                known
            },
        }
    }
}

/// Some record is the latest activation of the skill, with its content.
pub open spec fn has_latest(
    entries: Seq<SessionEntryModel>,
    skill: ActivatedSkillModel,
) -> bool {
    exists|j: int| path_laws::is_latest(entries, j, skill.name, skill.content)
}

/// Record `s` is the first that activates the skill `name`.
pub open spec fn is_first_record_of(
    entries: Seq<SessionEntryModel>,
    s: int,
    name: Seq<char>,
) -> bool {
    is_first_record(entries, s) && entries[s]->SkillActivated_0.name == name
}

/// Record `s` is the first that activates its skill.
pub open spec fn is_first_record(entries: Seq<SessionEntryModel>, s: int) -> bool {
    &&& 0 <= s < entries.len()
    &&& entries[s] matches SessionEntryModel::SkillActivated(skill)
    &&& forall|k: int|
        0 <= k < s ==> !(#[trigger] entries[k] matches SessionEntryModel::SkillActivated(earlier)
            && earlier.name == skill.name)
}

proof fn lemma_first_record(entries: Seq<SessionEntryModel>, s: int)
    requires
        s < entries.len() - 1,
    ensures
        is_first_record(entries, s) == is_first_record(entries.drop_last(), s),
{
    let rest = entries.drop_last();
    if is_first_record(entries, s) {
        let name = entries[s]->SkillActivated_0.name;
        assert forall|k: int| 0 <= k < s implies !(
        #[trigger] rest[k] matches SessionEntryModel::SkillActivated(earlier) && earlier.name
            == name) by {
            assert(rest[k] == entries[k]);
        }
    }
    if is_first_record(rest, s) {
        let name = entries[s]->SkillActivated_0.name;
        assert forall|k: int| 0 <= k < s implies !(
        #[trigger] entries[k] matches SessionEntryModel::SkillActivated(earlier) && earlier.name
            == name) by {
            assert(rest[k] == entries[k]);
        }
    }
}

proof fn lemma_first_of(entries: Seq<SessionEntryModel>, k: int) -> (first: int)
    requires
        0 <= k < entries.len(),
        entries[k] is SkillActivated,
    ensures
        is_first_record(entries, first),
        first <= k,
        entries[first]->SkillActivated_0.name == entries[k]->SkillActivated_0.name,
    decreases k,
{
    if is_first_record(entries, k) {
        k
    } else {
        let name = entries[k]->SkillActivated_0.name;
        let j = choose|j: int|
            0 <= j < k && (#[trigger] entries[j] matches SessionEntryModel::SkillActivated(earlier)
                && earlier.name == name);
        lemma_first_of(entries, j)
    }
}

/// A changed session is told with its identifier and with what happened to it.
pub proof fn law_changes_of_a_session_are_told(id: Seq<char>, action: SessionChangeAction)
    ensures
        session_manager::session_changed(id, action) == (RuntimeEventKindModel::SessionChanged {
            session_id: id,
            action,
        }),
{
}

/// Asking for the runner of a session keeps the skills of every session that are kept; only
/// where nothing is kept of the session are its skills taken from its records.
pub proof fn law_skills_are_loaded_once(
    pool: RunnerPool,
    id: Seq<char>,
    entries: Seq<SessionEntryModel>,
)
    ensures
        ({
            let after = session_manager::kept_skills(pool, id, entries);
            &&& forall|other: Seq<char>|
                other != id ==> (after.contains_key(other) <==> #[trigger] pool.skills().contains_key(
                    other,
                )) && (pool.skills().contains_key(other) ==> after[other] == pool.skills()[other])
            &&& pool.skills().contains_key(id) ==> after.contains_key(id) && after[id]
                == pool.skills()[id]
            &&& !pool.skills().contains_key(id) && !pool.runners().contains_key(id)
                ==> after.contains_key(id) && after[id] == runner_pool::active_skills(entries)
            &&& !pool.skills().contains_key(id) && pool.runners().contains_key(id)
                ==> !after.contains_key(id)
        }),
{
}

/// Where only one session has changed, the runs of all others are what they were, and the
/// session has a runner.
pub proof fn law_sessions_run_apart(
    before: RunnerPool,
    after: RunnerPool,
    id: Seq<char>,
    other: Seq<char>,
)
    requires
        session_manager::only_session_changed(before, after, id),
        other != id,
    ensures
        after.runners().contains_key(id),
        after.runners().contains_key(other) <==> before.runners().contains_key(other),
        before.runners().contains_key(other) ==> after.runners()[other].active()
            == before.runners()[other].active(),
{
    assert(session_manager::active_run(after, other) == session_manager::active_run(before, other));
    assert(after.runners().dom().contains(id));
    assert(after.runners().dom().contains(other) == before.runners().dom().contains(other));
}

/// A workspace that is not a directory is named in the error.
pub proof fn law_refused_workspace_is_named(workspace: Seq<char>)
    ensures
        session_manager::workspace_error(workspace) == "workspace is not a directory: "@ + workspace,
{
}

} // verus!
