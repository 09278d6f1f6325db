//! The runners and the active skills of all sessions.
//!
//! The active skills of a session are kept apart from its runner, so that a runner can be
//! closed and created again.

use vstd::hash_map::StringHashMap;
use vstd::prelude::*;

use crate::protocol::session::{SessionEntry, SessionEntryModel};
use crate::protocol::{ActivatedSkill, ActivatedSkillModel};
use crate::runtime::session_runner::SessionRunner;
use crate::text;

verus! {

/// Result of closing a runner from the pool.
#[derive(Debug, Clone, Copy, PartialEq, Eq, Structural)]
pub enum CloseResult {
    /// The session had no cached runner.
    Absent,
    /// The runner was busy and remains cached.
    Busy,
    /// The runner was idle and was removed.
    Closed,
}

/// The place of the first skill of that name, or the number of skills.
pub open spec fn skill_at(skills: Seq<ActivatedSkillModel>, name: Seq<char>) -> int
    decreases skills.len(),
{
    if skills.len() == 0 || skills[0].name == name {
        0
    } else {
        1 + skill_at(skills.skip(1), name)
    }
}

pub proof fn lemma_skill_at(skills: Seq<ActivatedSkillModel>, name: Seq<char>)
    ensures
        0 <= skill_at(skills, name) <= skills.len(),
        skill_at(skills, name) < skills.len() ==> skills[skill_at(skills, name)].name == name,
        forall|i: int| 0 <= i < skill_at(skills, name) ==> (#[trigger] skills[i]).name != name,
    decreases skills.len(),
{
    if skills.len() > 0 && skills[0].name != name {
        lemma_skill_at(skills.skip(1), name);
        assert forall|i: int| 0 <= i < skill_at(skills, name) implies (
        #[trigger] skills[i]).name != name by {
            if i > 0 {
                assert(skills[i] == skills.skip(1)[i - 1]);
            }
        }
    }
}

/// The active skills after one more activation: a skill that is active already keeps its
/// place and gets the new content.
pub open spec fn with_skill(
    skills: Seq<ActivatedSkillModel>,
    skill: ActivatedSkillModel,
) -> Seq<ActivatedSkillModel> {
    let at = skill_at(skills, skill.name);
    if at < skills.len() {
        skills.update(at, skill)
    } else {
        skills.push(skill)
    }
}

/// The active skills that the records of a session give.
pub open spec fn active_skills(entries: Seq<SessionEntryModel>) -> Seq<ActivatedSkillModel>
    decreases entries.len(),
{
    if entries.len() == 0 {
        Seq::empty()
    } else {
        match entries.last() {
            SessionEntryModel::SkillActivated(skill) => with_skill(
                active_skills(entries.drop_last()),
                skill,
            ),
            _ => active_skills(entries.drop_last()),
        }
    }
}

/// Adds an activation to the active skills, and tells whether the skill was active already.
pub fn activate_in(skills: &mut Vec<ActivatedSkill>, skill: ActivatedSkill) -> (r: bool)
    ensures
        final(skills).deep_view() == with_skill(old(skills).deep_view(), skill.deep_view()),
        r == (skill_at(old(skills).deep_view(), skill.deep_view().name)
            < old(skills).deep_view().len()),
{
    let ghost model = skills.deep_view();
    let ghost added = skill.deep_view();
    let total: usize = skills.len();
    let mut at: usize = 0;
    assert(model.skip(0) =~= model);
    while at < total && !text::same(&skills[at].name, &skill.name)
        invariant
            at <= total,
            total == skills@.len(),
            model == skills.deep_view(),
            added == skill.deep_view(),
            skill_at(model, added.name) == at + skill_at(model.skip(at as int), added.name),
        decreases total - at,
    {
        assert(model.skip(at as int)[0] == skills@[at as int].deep_view());
        assert(model.skip(at as int).skip(1) =~= model.skip(at + 1));
        at = at + 1;
    }
    proof {
        if at < total {
            assert(model.skip(at as int)[0] == skills@[at as int].deep_view());
        }
    }
    if at < total {
        skills.set(at, skill);
        assert(skills.deep_view() =~= model.update(at as int, added));
        true
    } else {
        skills.push(skill);
        assert(skills.deep_view() =~= model.push(added));
        false
    }
}

/// Returns the active skills that the records of a session give. When a skill has been
/// activated multiple times, the latest activation wins.
pub fn load_active_skills(entries: &Vec<SessionEntry>) -> (r: Vec<ActivatedSkill>)
    ensures
        r.deep_view() == active_skills(entries.deep_view()),
{
    let ghost model = entries.deep_view();
    let mut skills: Vec<ActivatedSkill> = Vec::new();
    assert(skills.deep_view() =~= active_skills(model.take(0)));
    for i in 0..entries.len()
        invariant
            model == entries.deep_view(),
            skills.deep_view() == active_skills(model.take(i as int)),
    {
        assert(model[i as int] == entries@[i as int].deep_view());
        assert(model.take(i + 1).last() == model[i as int]);
        assert(model.take(i + 1).drop_last() =~= model.take(i as int));
        if let SessionEntry::SkillActivated(skill) = &entries[i] {
            let _ = activate_in(&mut skills, skill.clone());
        }
    }
    assert(model.take(model.len() as int) =~= model);
    skills
}

/// What is kept of the skills of all sessions.
pub open spec fn skill_lists(map: Map<Seq<char>, Vec<ActivatedSkill>>) -> Map<
    Seq<char>,
    Seq<ActivatedSkillModel>,
> {
    map.map_values(|skills: Vec<ActivatedSkill>| skills.deep_view())
}

/// Manages the lifecycle of [`SessionRunner`] instances.
pub struct RunnerPool {
    runners: StringHashMap<SessionRunner>,
    session_skills: StringHashMap<Vec<ActivatedSkill>>,
}

impl RunnerPool {
    /// The cached runner of each session.
    pub closed spec fn runners(&self) -> Map<Seq<char>, SessionRunner> {
        self.runners@
    }

    /// The active skills of each session.
    pub closed spec fn skills(&self) -> Map<Seq<char>, Seq<ActivatedSkillModel>> {
        skill_lists(self.session_skills@)
    }

    /// Create a new runner pool.
    pub fn new() -> (r: Self)
        ensures
            r.runners() == Map::<Seq<char>, SessionRunner>::empty(),
            r.skills() == Map::<Seq<char>, Seq<ActivatedSkillModel>>::empty(),
    {
        let r = RunnerPool { runners: StringHashMap::new(), session_skills: StringHashMap::new() };
        assert(r.skills() =~= Map::<Seq<char>, Seq<ActivatedSkillModel>>::empty());
        r
    }

    /// Returns the cached runner of a session.
    pub fn runner(&self, session_id: &str) -> (r: Option<&SessionRunner>)
        ensures
            match r {
                Some(runner) => self.runners().contains_key(session_id@) && *runner
                    == self.runners()[session_id@],
                None => !self.runners().contains_key(session_id@),
            },
    {
        self.runners.get(session_id)
    }

    /// Whether the records of a session are needed before its runner is created: neither a
    /// runner nor the active skills are cached.
    pub fn needs_entries(&self, session_id: &str) -> (r: bool)
        ensures
            r == (!self.runners().contains_key(session_id@) && !self.skills().contains_key(
                session_id@,
            )),
    {
        let r = !self.runners.contains_key(session_id) && !self.session_skills.contains_key(
            session_id,
        );
        assert(self.skills().dom() =~= self.session_skills@.dom());
        r
    }

    /// Returns the active skills of a session, as they are kept, or as its records give them.
    fn active_skills_for(&mut self, session_id: &str, entries: &Vec<SessionEntry>)
        ensures
            final(self).runners() == old(self).runners(),
            final(self).skills() == (if old(self).skills().contains_key(session_id@) {
                old(self).skills()
            } else {
                old(self).skills().insert(session_id@, active_skills(entries.deep_view()))
            }),
    {
        assert(self.skills().dom() =~= self.session_skills@.dom());
        if !self.session_skills.contains_key(session_id) {
            let ghost before = self.skills();
            let skills = load_active_skills(entries);
            self.session_skills.insert(session_id.to_owned(), skills);
            assert(self.skills() =~= before.insert(session_id@, skills.deep_view()));
        }
    }

    /// Gets or creates the runner of a session, given the records of the session in case its
    /// skills are not kept; records that cannot be read give no skills.
    pub fn get_or_create(&mut self, session_id: &str, entries: &Vec<SessionEntry>)
        ensures
            old(self).runners().contains_key(session_id@) ==> final(self).runners()
                == old(self).runners() && final(self).skills() == old(self).skills(),
            !old(self).runners().contains_key(session_id@) ==> {
                &&& final(self).runners().dom() == old(self).runners().dom().insert(session_id@)
                &&& final(self).runners()[session_id@].active() is None
                &&& forall|other: Seq<char>|
                    other != session_id@ && #[trigger] old(self).runners().contains_key(other)
                        ==> final(self).runners()[other] == old(self).runners()[other]
                &&& final(self).skills() == (if old(self).skills().contains_key(session_id@) {
                    old(self).skills()
                } else {
                    old(self).skills().insert(session_id@, active_skills(entries.deep_view()))
                })
            },
    {
        if self.runners.contains_key(session_id) {
            return;
        }
        self.active_skills_for(session_id, entries);
        let ghost before = self.runners();
        self.runners.insert(session_id.to_owned(), SessionRunner::new());
        assert(self.runners().dom() =~= before.dom().insert(session_id@));
    }

    /// Puts the runner of a session back after it was used.
    pub fn set_runner(&mut self, session_id: &str, runner: SessionRunner)
        ensures
            final(self).runners() == old(self).runners().insert(session_id@, runner),
            final(self).skills() == old(self).skills(),
    {
        self.runners.insert(session_id.to_owned(), runner);
    }

    /// Closes the cached runner of a session if it is idle. A busy runner is left in the pool.
    pub fn close(&mut self, session_id: &str) -> (r: CloseResult)
        ensures
            match r {
                CloseResult::Absent => !old(self).runners().contains_key(session_id@)
                    && final(self).runners() == old(self).runners() && final(self).skills()
                    == old(self).skills(),
                CloseResult::Busy => old(self).runners().contains_key(session_id@)
                    && old(self).runners()[session_id@].active() is Some && final(self).runners()
                    == old(self).runners() && final(self).skills() == old(self).skills(),
                CloseResult::Closed => old(self).runners().contains_key(session_id@)
                    && old(self).runners()[session_id@].active() is None && final(self).runners()
                    == old(self).runners().remove(session_id@) && final(self).skills()
                    == old(self).skills().remove(session_id@),
            },
    {
        let busy = match self.runners.get(session_id) {
            None => {
                return CloseResult::Absent;
            },
            Some(runner) => runner.is_running(),
        };
        if busy {
            return CloseResult::Busy;
        }
        let ghost before = self.skills();
        self.runners.remove(session_id);
        self.session_skills.remove(session_id);
        assert(self.skills() =~= before.remove(session_id@));
        CloseResult::Closed
    }

    /// Adds an activation to the active skills of a session, given its records in case its
    /// skills are not kept.
    pub fn record_skill_activation(
        &mut self,
        session_id: &str,
        skill: ActivatedSkill,
        entries: &Vec<SessionEntry>,
    ) -> (r: bool)
        ensures
            final(self).runners() == old(self).runners(),
            ({
                let before = if old(self).skills().contains_key(session_id@) {
                    old(self).skills()[session_id@]
                } else {
                    active_skills(entries.deep_view())
                };
                &&& final(self).skills() == old(self).skills().insert(
                    session_id@,
                    with_skill(before, skill.deep_view()),
                )
                &&& r == (skill_at(before, skill.deep_view().name) < before.len())
            }),
    {
        let ghost start = self.skills();
        self.active_skills_for(session_id, entries);
        let ghost loaded = self.skills();
        assert(self.skills().dom() =~= self.session_skills@.dom());
        let mut skills: Vec<ActivatedSkill> = Vec::new();
        if let Some(kept) = self.session_skills.get(session_id) {
            skills = kept.clone();
            assert(skills.deep_view() =~= kept.deep_view());
        }
        let ghost before = skills.deep_view();
        assert(loaded.contains_key(session_id@));
        assert(before == loaded[session_id@]);
        let known = activate_in(&mut skills, skill);
        self.session_skills.insert(session_id.to_owned(), skills);
        assert(self.skills() =~= loaded.insert(session_id@, skills.deep_view()));
        assert(self.skills() =~= start.insert(session_id@, skills.deep_view()));
        known
    }

    /// Keeps the active skills of a session after a tool has changed them.
    pub fn set_skills(&mut self, session_id: &str, skills: Vec<ActivatedSkill>)
        ensures
            final(self).runners() == old(self).runners(),
            final(self).skills() == old(self).skills().insert(session_id@, skills.deep_view()),
    {
        let ghost before = self.skills();
        let ghost model = skills.deep_view();
        self.session_skills.insert(session_id.to_owned(), skills);
        assert(self.skills() =~= before.insert(session_id@, model));
    }

    /// Returns the active skills that are kept of a session.
    pub fn skills_of(&self, session_id: &str) -> (r: Option<&Vec<ActivatedSkill>>)
        ensures
            match r {
                Some(skills) => self.skills().contains_key(session_id@) && skills.deep_view()
                    == self.skills()[session_id@],
                None => !self.skills().contains_key(session_id@),
            },
    {
        assert(self.skills().dom() =~= self.session_skills@.dom());
        self.session_skills.get(session_id)
    }
}

/// No two of the skills have the same name.
pub open spec fn names_are_distinct(skills: Seq<ActivatedSkillModel>) -> bool {
    forall|i: int, j: int|
        0 <= i < j < skills.len() ==> (#[trigger] skills[i]).name != (#[trigger] skills[j]).name
}

/// One more activation keeps the names distinct; the skill is active with its new content,
/// and every other skill stays as it was.
pub proof fn law_activation_updates_one_skill(
    skills: Seq<ActivatedSkillModel>,
    skill: ActivatedSkillModel,
)
    requires
        names_are_distinct(skills),
    ensures
        names_are_distinct(with_skill(skills, skill)),
        with_skill(skills, skill).contains(skill),
        forall|other: ActivatedSkillModel|
            other.name != skill.name ==> (with_skill(skills, skill).contains(other)
                <==> #[trigger] skills.contains(other)),
{
    lemma_skill_at(skills, skill.name);
    let at = skill_at(skills, skill.name);
    let after = with_skill(skills, skill);
    assert(after[at] == skill);
    assert forall|i: int, j: int| 0 <= i < j < after.len() implies (#[trigger] after[i]).name != (
    #[trigger] after[j]).name by {
        if at < skills.len() {
            assert(skills[i].name != skills[j].name);
        } else if j < at {
            assert(skills[i].name != skills[j].name);
        }
    }
    assert forall|other: ActivatedSkillModel|
        other.name != skill.name implies (after.contains(other) <==> #[trigger] skills.contains(
        other,
    )) by {
        if after.contains(other) {
            let k = choose|k: int| 0 <= k < after.len() && after[k] == other;
            assert(skills[k] == other);
        }
        if skills.contains(other) {
            let k = choose|k: int| 0 <= k < skills.len() && skills[k] == other;
            assert(after[k] == other);
        }
    }
}

/// The active skills of a session hold each skill once.
pub proof fn law_active_skills_are_distinct(entries: Seq<SessionEntryModel>)
    ensures
        names_are_distinct(active_skills(entries)),
    decreases entries.len(),
{
    if entries.len() > 0 {
        law_active_skills_are_distinct(entries.drop_last());
        if let SessionEntryModel::SkillActivated(skill) = entries.last() {
            law_activation_updates_one_skill(active_skills(entries.drop_last()), skill);
        }
    }
}

/// No later record activates the skill again.
pub open spec fn is_latest_activation(
    entries: Seq<SessionEntryModel>,
    i: int,
    skill: ActivatedSkillModel,
) -> bool {
    &&& 0 <= i < entries.len()
    &&& entries[i] == SessionEntryModel::SkillActivated(skill)
    &&& forall|j: int|
        i < j < entries.len() ==> !(#[trigger] entries[j] matches SessionEntryModel::SkillActivated(
            later,
        ) && later.name == skill.name)
}

/// The latest activation of a skill is the one that counts.
pub proof fn law_latest_activation_wins(
    entries: Seq<SessionEntryModel>,
    i: int,
    skill: ActivatedSkillModel,
)
    requires
        is_latest_activation(entries, i, skill),
    ensures
        active_skills(entries).contains(skill),
    decreases entries.len(),
{
    let rest = entries.drop_last();
    law_active_skills_are_distinct(rest);
    if i == entries.len() - 1 {
        law_activation_updates_one_skill(active_skills(rest), skill);
    } else {
        assert(rest[i] == entries[i]);
        assert forall|j: int| i < j < rest.len() implies !(
        #[trigger] rest[j] matches SessionEntryModel::SkillActivated(later) && later.name
            == skill.name) by {
            assert(rest[j] == entries[j]);
        }
        law_latest_activation_wins(rest, i, skill);
        assert(entries.last() == entries[entries.len() - 1]);
        if let SessionEntryModel::SkillActivated(later) = entries.last() {
            law_activation_updates_one_skill(active_skills(rest), later);
        }
    }
}

} // verus!
