//! The tool that activates a skill for the current session, and the tools of a session.

use vstd::prelude::*;

use crate::json;
use crate::protocol::{
    ActivatedSkill, ActivatedSkillModel, SkillDefinition, SkillDefinitionModel, ToolCall,
    ToolDefinition, ToolDefinitionModel,
};
use crate::runtime::runner_pool;
use crate::session_store::SessionError;
use crate::skills::SkillError;
use crate::text;

verus! {

/// Name of the tool.
pub const ACTIVATE_SKILL: &'static str = "activate_skill";

/// The definition of the tool.
pub open spec fn activate_skill_definition() -> ToolDefinitionModel {
    ToolDefinitionModel {
        name: ACTIVATE_SKILL@,
        description: "Activate an agent skill by name and include its content in the session context."@,
        parameters: "{\"properties\":{\"name\":{\"description\":\"Name of the skill to activate\",\"type\":\"string\"}},\"required\":[\"name\"],\"type\":\"object\"}"@,
    }
}

/// The members of the object that describes a skill.
pub open spec fn skill_keys() -> Seq<Seq<char>> {
    seq!["name"@, "description"@, "content"@]
}

/// What a first activation gives back is the whole skill; a repeated one only confirms that
/// the skill is active.
pub open spec fn activation_output(skill: SkillDefinitionModel, already_active: bool) -> Seq<char> {
    if already_active {
        "Skill `"@ + skill.name
            + "` is already active; its instructions are provided in the conversation."@
    } else {
        json::json_object(skill_keys(), seq![skill.name, skill.description, skill.content])
    }
}

/// The skill that a call names, given the `name` member of its arguments.
pub open spec fn named_skill(member: Result<Option<Seq<char>>, Seq<char>>) -> Option<Seq<char>> {
    match member {
        Ok(Some(name)) => Some(name),
        _ => None,
    }
}

/// A tool that activates an agent skill by name for the current session.
#[derive(Debug)]
pub struct ActivateSkillTool {
    /// Skills that have been activated in the session.
    pub active_skills: Vec<ActivatedSkill>,
}

/// The activated skill of a definition.
pub open spec fn activated(skill: SkillDefinitionModel) -> ActivatedSkillModel {
    ActivatedSkillModel { name: skill.name, content: skill.content }
}

/// The error of a call without a name.
pub const MISSING_NAME: &'static str = "missing `name` argument";

impl ActivateSkillTool {
    /// Create the tool of a session with the given active skills.
    pub fn new(active_skills: Vec<ActivatedSkill>) -> (r: Self)
        ensures
            r.active_skills == active_skills,
    {
        ActivateSkillTool { active_skills }
    }

    /// Returns the definition of the tool.
    pub fn definition() -> (r: ToolDefinition)
        ensures
            r.deep_view() == activate_skill_definition(),
    {
        ToolDefinition {
            name: ACTIVATE_SKILL.to_owned(),
            description:
                "Activate an agent skill by name and include its content in the session context.".to_owned(),
            parameters:
                "{\"properties\":{\"name\":{\"description\":\"Name of the skill to activate\",\"type\":\"string\"}},\"required\":[\"name\"],\"type\":\"object\"}".to_owned(),
        }
    }

    /// Returns the skill that a call names, or the error of a call that names none.
    pub fn requested_skill(call: &ToolCall) -> (r: Result<String, String>)
        ensures
            match r {
                Ok(name) => named_skill(json::json_string_member(call.arguments@, "name"@)) == Some(
                    name@,
                ),
                Err(error) => named_skill(json::json_string_member(call.arguments@, "name"@)) is None
                    && error@ == MISSING_NAME@,
            },
    {
        match json::string_member(&call.arguments, "name") {
            Ok(member) => ActivateSkillTool::skill_of_member(member),
            Err(_) => Err(MISSING_NAME.to_owned()),
        }
    }

    /// Returns the skill that a call names, given the `name` member of its arguments.
    pub fn skill_of_member(member: Option<String>) -> (r: Result<String, String>)
        ensures
            match (member, r) {
                (Some(name), Ok(told)) => told == name,
                (None, Err(error)) => error@ == MISSING_NAME@,
                _ => false,
            },
    {
        match member {
            Some(name) => Ok(name),
            None => Err(MISSING_NAME.to_owned()),
        }
    }

    /// Finishes a call, given what came of looking the skill up and, within a session, of
    /// saving its activation. Only a skill that was found and saved becomes active; one that
    /// is active already gets its new content.
    pub fn invoke(
        &mut self,
        found: Result<SkillDefinition, SkillError>,
        saved: Option<Result<(), SessionError>>,
    ) -> (r: Result<String, String>)
        ensures
            match (found, saved) {
                (Err(error), _) => r is Err && r->Err_0@ == error.spec_message()
                    && final(self).active_skills == old(self).active_skills,
                (Ok(_), Some(Err(error))) => r is Err && r->Err_0@ == error.spec_message()
                    && final(self).active_skills == old(self).active_skills,
                (Ok(skill), _) => {
                    let before = old(self).active_skills.deep_view();
                    &&& r is Ok
                    &&& r->Ok_0@ == activation_output(
                        skill.deep_view(),
                        runner_pool::skill_at(before, skill.name@) < before.len(),
                    )
                    &&& final(self).active_skills.deep_view() == runner_pool::with_skill(
                        before,
                        activated(skill.deep_view()),
                    )
                },
            },
    {
        let skill = match found {
            Ok(skill) => skill,
            Err(error) => {
                return Err(error.message());
            },
        };
        if let Some(Err(error)) = saved {
            return Err(error.message());
        }
        let already_active = runner_pool::activate_in(
            &mut self.active_skills,
            ActivatedSkill { name: skill.name.clone(), content: skill.content.clone() },
        );
        Ok(activation_result(&skill, already_active))
    }
}

/// Returns what an activation gives back to the model.
pub fn activation_result(skill: &SkillDefinition, already_active: bool) -> (r: String)
    ensures
        r@ == activation_output(skill.deep_view(), already_active),
        !already_active ==> {
            &&& json::json_string_member(r@, "name"@) == json::string_value(skill.name@)
            &&& json::json_string_member(r@, "description"@) == json::string_value(skill.description@)
            &&& json::json_string_member(r@, "content"@) == json::string_value(skill.content@)
        },
{
    if already_active {
        text::concat3(
            "Skill `",
            &skill.name,
            "` is already active; its instructions are provided in the conversation.",
        )
    } else {
        let keys = vec!["name".to_owned(), "description".to_owned(), "content".to_owned()];
        let values = vec![skill.name.clone(), skill.description.clone(), skill.content.clone()];
        proof {
            reveal_strlit("name");
            reveal_strlit("description");
            reveal_strlit("content");
            let model = skill.deep_view();
            assert(keys.deep_view() =~= skill_keys());
            assert(values.deep_view() =~= seq![model.name, model.description, model.content]);
            assert(skill_keys()[0].len() == 4);
            assert(skill_keys()[1].len() == 11);
            assert(skill_keys()[2].len() == 7);
            assert(skill_keys().no_duplicates());
        }
        let r = json::string_object(&keys, &values);
        assert(json::json_string_member(r@, keys.deep_view()[0]) == json::string_value(skill.name@));
        assert(json::json_string_member(r@, keys.deep_view()[1]) == json::string_value(skill.description@));
        assert(json::json_string_member(r@, keys.deep_view()[2]) == json::string_value(skill.content@));
        r
    }
}

/// The tools of a session: those of a shared base, and `activate_skill`.
#[derive(Debug)]
pub struct SessionToolRegistry {
    /// Tools of the base.
    pub base: Vec<ToolDefinition>,
}

/// The names of tools.
pub open spec fn tool_names(tools: Seq<ToolDefinitionModel>) -> Seq<Seq<char>> {
    tools.map_values(|tool: ToolDefinitionModel| tool.name)
}

impl SessionToolRegistry {
    /// Create the registry of a session around the tools of the base.
    pub fn new(base: Vec<ToolDefinition>) -> (r: Self)
        ensures
            r.base == base,
    {
        SessionToolRegistry { base }
    }

    /// Returns the definitions of all tools.
    pub fn definitions(&self) -> (r: Vec<ToolDefinition>)
        ensures
            r.deep_view() == self.base.deep_view().push(activate_skill_definition()),
    {
        let mut definitions = self.base.clone();
        assert(definitions.deep_view() =~= self.base.deep_view());
        let ghost before = definitions.deep_view();
        definitions.push(ActivateSkillTool::definition());
        assert(definitions.deep_view() =~= before.push(activate_skill_definition()));
        definitions
    }

    /// Returns the names of all tools.
    pub fn names(&self) -> (r: Vec<String>)
        ensures
            r.deep_view() == tool_names(self.base.deep_view()).push(ACTIVATE_SKILL@),
    {
        let ghost model = self.base.deep_view();
        let mut names: Vec<String> = Vec::new();
        for i in 0..self.base.len()
            invariant
                model == self.base.deep_view(),
                names.deep_view() == tool_names(model.take(i as int)),
        {
            let ghost before = names.deep_view();
            assert(model[i as int] == self.base@[i as int].deep_view());
            let name = self.base[i].name.clone();
            names.push(name);
            assert(names.deep_view() =~= before.push(name@));
            assert(names.deep_view() =~= tool_names(model.take(i + 1)));
        }
        assert(model.take(model.len() as int) =~= model);
        let ghost before = names.deep_view();
        names.push(ACTIVATE_SKILL.to_owned());
        assert(names.deep_view() =~= before.push(ACTIVATE_SKILL@));
        names
    }

    /// Whether a call of the tool goes to `activate_skill` rather than to the base.
    pub fn is_session_tool(name: &str) -> (r: bool)
        ensures
            r == (name@ == ACTIVATE_SKILL@),
    {
        text::same(name, ACTIVATE_SKILL)
    }
}

/// The names of a session's tools are those of their definitions, and `activate_skill` is
/// always among them.
pub proof fn law_session_tools_are_named(base: Seq<ToolDefinitionModel>)
    ensures
        tool_names(base.push(activate_skill_definition())) == tool_names(base).push(
            ACTIVATE_SKILL@,
        ),
        tool_names(base).push(ACTIVATE_SKILL@).contains(ACTIVATE_SKILL@),
{
    let names = tool_names(base).push(ACTIVATE_SKILL@);
    assert(tool_names(base.push(activate_skill_definition())) =~= names);
    assert(names[base.len() as int] == ACTIVATE_SKILL@);
}

} // verus!
