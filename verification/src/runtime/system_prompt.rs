//! The system prompt: who the agent is, its active skills, its tools and the skills it can
//! activate.

use vstd::hash_set::StringHashSet;
use vstd::prelude::*;

use crate::protocol::{
    ActivatedSkill, ActivatedSkillModel, SkillEntry, SkillEntryModel, ToolDefinition,
    ToolDefinitionModel,
};

verus! {

/// The first lines of the prompt.
pub open spec fn introduction() -> Seq<char> {
    "You are Byte Agent, a local coding assistant running on the user's machine.\n\n"@
}

/// One active skill: its name as a heading, then its content.
pub open spec fn active_skill_lines(skill: ActivatedSkillModel) -> Seq<char> {
    "## "@ + skill.name + "\n"@ + skill.content + "\n"@
}

/// All active skills, one after the other.
pub open spec fn active_skills_lines(skills: Seq<ActivatedSkillModel>) -> Seq<char>
    decreases skills.len(),
{
    if skills.len() == 0 {
        Seq::empty()
    } else {
        active_skills_lines(skills.drop_last()) + active_skill_lines(skills.last())
    }
}

/// The section on active skills; nothing when there is none.
pub open spec fn active_section(skills: Seq<ActivatedSkillModel>) -> Seq<char> {
    if skills.len() == 0 {
        Seq::empty()
    } else {
        "Active skills:\n"@ + active_skills_lines(skills) + "\n"@
    }
}

/// One tool: its name and description, then its parameters.
pub open spec fn tool_lines(tool: ToolDefinitionModel) -> Seq<char> {
    "- "@ + tool.name + ": "@ + tool.description + "\n"@ + "  parameters: "@ + tool.parameters
        + "\n"@
}

/// All tools, one after the other.
pub open spec fn tools_lines(tools: Seq<ToolDefinitionModel>) -> Seq<char>
    decreases tools.len(),
{
    if tools.len() == 0 {
        Seq::empty()
    } else {
        tools_lines(tools.drop_last()) + tool_lines(tools.last())
    }
}

/// A skill of that name is active.
pub open spec fn is_active(active: Seq<ActivatedSkillModel>, name: Seq<char>) -> bool {
    exists|i: int| 0 <= i < active.len() && (#[trigger] active[i]).name == name
}

/// One skill that can be activated.
pub open spec fn available_line(skill: SkillEntryModel) -> Seq<char> {
    "- "@ + skill.name + ": "@ + skill.description + "\n"@
}

/// The available skills that are not active, one after the other.
pub open spec fn inactive_lines(
    available: Seq<SkillEntryModel>,
    active: Seq<ActivatedSkillModel>,
) -> Seq<char>
    decreases available.len(),
{
    if available.len() == 0 {
        Seq::empty()
    } else {
        let rest = inactive_lines(available.drop_last(), active);
        if is_active(active, available.last().name) {
            rest
        } else {
            rest + available_line(available.last())
        }
    }
}

/// Some available skill is not active.
pub open spec fn some_inactive(
    available: Seq<SkillEntryModel>,
    active: Seq<ActivatedSkillModel>,
) -> bool {
    exists|i: int| 0 <= i < available.len() && !is_active(active, (#[trigger] available[i]).name)
}

/// The section on skills that can be activated; nothing when there is none.
pub open spec fn available_section(
    available: Seq<SkillEntryModel>,
    active: Seq<ActivatedSkillModel>,
) -> Seq<char> {
    if some_inactive(available, active) {
        "\nAvailable skills (activate with the activate_skill tool):\n"@ + inactive_lines(
            available,
            active,
        )
    } else {
        Seq::empty()
    }
}

/// The system prompt.
pub open spec fn system_prompt(
    tools: Seq<ToolDefinitionModel>,
    active: Seq<ActivatedSkillModel>,
    available: Seq<SkillEntryModel>,
) -> Seq<char> {
    introduction() + active_section(active) + "Available tools:\n"@ + tools_lines(tools)
        + available_section(available, active) + "\nUse the tools when needed."@
}

/// The names of the active skills.
fn active_names(active: &[ActivatedSkill]) -> (names: StringHashSet)
    ensures
        forall|name: Seq<char>| #[trigger]
            names@.contains(name) <==> is_active(active.deep_view(), name),
{
    let mut names = StringHashSet::new();
    let ghost all = active.deep_view();
    for i in 0..active.len()
        invariant
            all == active.deep_view(),
            forall|name: Seq<char>| #[trigger]
                names@.contains(name) <==> is_active(all.take(i as int), name),
    {
        let ghost before = names@;
        let ghost shorter = all.take(i as int);
        let ghost longer = all.take(i + 1);
        let _ = names.insert(active[i].name.clone());
        proof {
            assert(all[i as int] == active@[i as int].deep_view());
            assert forall|name: Seq<char>| #[trigger]
                names@.contains(name) <==> is_active(longer, name) by {
                assert(before.contains(name) <==> is_active(shorter, name));
                if is_active(shorter, name) {
                    let k = choose|k: int|
                        0 <= k < shorter.len() && (#[trigger] shorter[k]).name == name;
                    assert(longer[k].name == name);
                }
                if name == all[i as int].name {
                    assert(longer[i as int].name == name);
                }
                if is_active(longer, name) {
                    let k = choose|k: int|
                        0 <= k < longer.len() && (#[trigger] longer[k]).name == name;
                    if k < i {
                        assert(shorter[k].name == name);
                    }
                }
            }
        }
    }
    assert(all.take(all.len() as int) =~= all);
    names
}

/// The lines of the available skills that are not active, and whether there is any.
fn list_inactive(available: &[SkillEntry], active: &[ActivatedSkill]) -> (r: (String, bool))
    ensures
        r.0@ == inactive_lines(available.deep_view(), active.deep_view()),
        r.1 == some_inactive(available.deep_view(), active.deep_view()),
{
    let names = active_names(active);
    let mut lines = String::new();
    let mut any = false;
    let ghost all = available.deep_view();
    let ghost current = active.deep_view();
    for i in 0..available.len()
        invariant
            all == available.deep_view(),
            current == active.deep_view(),
            forall|name: Seq<char>| #[trigger]
                names@.contains(name) <==> is_active(current, name),
            lines@ == inactive_lines(all.take(i as int), current),
            any == some_inactive(all.take(i as int), current),
    {
        let ghost shorter = all.take(i as int);
        let ghost longer = all.take(i + 1);
        let ghost any_before = any;
        let skill = &available[i];
        assert(longer.drop_last() =~= shorter);
        assert(all[i as int] == skill.deep_view());
        if !names.contains(&skill.name) {
            any = true;
            lines.push_str("- ");
            lines.push_str(&skill.name);
            lines.push_str(": ");
            lines.push_str(&skill.description);
            lines.push_str("\n");
            assert(lines@ =~= inactive_lines(shorter, current) + available_line(all[i as int]));
            assert(!is_active(current, longer[i as int].name));
        }
        proof {
            if any_before {
                let k = choose|k: int|
                    0 <= k < shorter.len() && !is_active(current, (#[trigger] shorter[k]).name);
                assert(!is_active(current, longer[k].name));
            }
            if some_inactive(longer, current) {
                let k = choose|k: int|
                    0 <= k < longer.len() && !is_active(current, (#[trigger] longer[k]).name);
                if k < i {
                    assert(!is_active(current, shorter[k].name));
                }
            }
        }
    }
    assert(all.take(all.len() as int) =~= all);
    (lines, any)
}

/// Build the system prompt from tool definitions and active and available skills.
pub fn build_system_prompt(
    tools: &[ToolDefinition],
    active_skills: &[ActivatedSkill],
    available_skills: &[SkillEntry],
) -> (prompt: String)
    ensures
        prompt@ == system_prompt(
            tools.deep_view(),
            active_skills.deep_view(),
            available_skills.deep_view(),
        ),
{
    let ghost active = active_skills.deep_view();
    let ghost known_tools = tools.deep_view();
    let mut prompt = String::new();
    prompt.push_str(
        "You are Byte Agent, a local coding assistant running on the user's machine.\n\n",
    );
    assert(prompt@ =~= introduction());

    if active_skills.len() > 0 {
        prompt.push_str("Active skills:\n");
        let ghost start = prompt@;
        assert(prompt@ =~= start + active_skills_lines(active.take(0)));
        for i in 0..active_skills.len()
            invariant
                active == active_skills.deep_view(),
                prompt@ == start + active_skills_lines(active.take(i as int)),
        {
            let ghost before = prompt@;
            let skill = &active_skills[i];
            assert(active.take(i + 1).drop_last() =~= active.take(i as int));
            assert(active.take(i + 1).last() == skill.deep_view());
            prompt.push_str("## ");
            prompt.push_str(&skill.name);
            prompt.push_str("\n");
            prompt.push_str(&skill.content);
            prompt.push_str("\n");
            assert(prompt@ =~= before + active_skill_lines(skill.deep_view()));
            assert(prompt@ =~= start + active_skills_lines(active.take(i + 1)));
        }
        assert(active.take(active.len() as int) =~= active);
        prompt.push_str("\n");
        assert(prompt@ =~= introduction() + active_section(active));
    } else {
        assert(prompt@ =~= introduction() + active_section(active));
    }

    prompt.push_str("Available tools:\n");
    let ghost start = prompt@;
    assert(prompt@ =~= start + tools_lines(known_tools.take(0)));
    for i in 0..tools.len()
        invariant
            known_tools == tools.deep_view(),
            prompt@ == start + tools_lines(known_tools.take(i as int)),
    {
        let ghost before = prompt@;
        let tool = &tools[i];
        assert(known_tools.take(i + 1).drop_last() =~= known_tools.take(i as int));
        assert(known_tools.take(i + 1).last() == tool.deep_view());
        prompt.push_str("- ");
        prompt.push_str(&tool.name);
        prompt.push_str(": ");
        prompt.push_str(&tool.description);
        prompt.push_str("\n");
        prompt.push_str("  parameters: ");
        prompt.push_str(&tool.parameters);
        prompt.push_str("\n");
        assert(prompt@ =~= before + tool_lines(tool.deep_view()));
        assert(prompt@ =~= start + tools_lines(known_tools.take(i + 1)));
    }
    assert(known_tools.take(known_tools.len() as int) =~= known_tools);

    let ghost so_far = prompt@;
    let (lines, any) = list_inactive(available_skills, active_skills);
    if any {
        prompt.push_str("\nAvailable skills (activate with the activate_skill tool):\n");
        prompt.push_str(&lines);
    }
    assert(prompt@ =~= so_far + available_section(available_skills.deep_view(), active));
    prompt.push_str("\nUse the tools when needed.");
    prompt
}

/// The prompt never lists an active skill as one that can still be activated: activating
/// more skills only removes lines from that list.
pub proof fn law_active_skills_are_not_offered(
    available: Seq<SkillEntryModel>,
    active: Seq<ActivatedSkillModel>,
)
    requires
        forall|i: int| 0 <= i < available.len() ==> is_active(active, (#[trigger] available[i]).name),
    ensures
        inactive_lines(available, active) == Seq::<char>::empty(),
        available_section(available, active) == Seq::<char>::empty(),
    decreases available.len(),
{
    if available.len() > 0 {
        let shorter = available.drop_last();
        assert forall|i: int| 0 <= i < shorter.len() implies is_active(
            active,
            (#[trigger] shorter[i]).name,
        ) by {
            assert(shorter[i] == available[i]);
        }
        law_active_skills_are_not_offered(shorter, active);
        assert(available.last() == available[available.len() - 1]);
    }
}

} // verus!
