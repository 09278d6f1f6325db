//! Agent skills: the files that define them, where they are looked for, and which of them a
//! session can activate.

use vstd::hash_map::StringHashMap;
use vstd::prelude::*;

use crate::paths;
use crate::protocol::{SkillDefinition, SkillDefinitionModel, SkillEntry, SkillEntryModel};
use crate::text;

verus! {

/// An error produced while scanning or activating skills.
#[derive(Debug, PartialEq, Eq)]
pub enum SkillError {
    /// There is no skill of that name.
    NotFound(String),
    /// A skill directory could not be read.
    ReadDir(String),
    /// A skill file could not be read: its path and the reason.
    ReadFile(String, String),
    /// A skill file names no skill.
    MissingName(String),
    /// A skill file has an invalid frontmatter: its path and the reason.
    InvalidFrontmatter(String, String),
}

impl SkillError {
    /// The text of the error.
    pub open spec fn spec_message(&self) -> Seq<char> {
        match self {
            SkillError::NotFound(name) => "skill not found: "@ + name@,
            SkillError::ReadDir(error) => "failed to read skill directory: "@ + error@,
            SkillError::ReadFile(path, error) => "failed to read skill file "@ + path@ + ": "@
                + error@,
            SkillError::MissingName(path) =>
                "skill file missing required `name` frontmatter: "@ + path@,
            SkillError::InvalidFrontmatter(path, error) =>
                "invalid frontmatter in skill file "@ + path@ + ": "@ + error@,
        }
    }

    /// Returns the text of the error.
    pub fn message(&self) -> (r: String)
        ensures
            r@ == self.spec_message(),
    {
        match self {
            SkillError::NotFound(name) => text::concat("skill not found: ", name),
            SkillError::ReadDir(error) => text::concat("failed to read skill directory: ", error),
            SkillError::ReadFile(path, error) => {
                let mut r = text::concat3("failed to read skill file ", path, ": ");
                r.push_str(error);
                r
            },
            SkillError::MissingName(path) => text::concat(
                "skill file missing required `name` frontmatter: ",
                path,
            ),
            SkillError::InvalidFrontmatter(path, error) => {
                let mut r = text::concat3("invalid frontmatter in skill file ", path, ": ");
                r.push_str(error);
                r
            },
        }
    }
}

/// The texts of a map with string values.
pub open spec fn text_map(map: Map<Seq<char>, String>) -> Map<Seq<char>, Seq<char>> {
    map.map_values(|value: String| value@)
}

/// One `key: value` line, when the line has that form and the key is not empty.
pub open spec fn frontmatter_pair(line: Seq<char>) -> Option<(Seq<char>, Seq<char>)> {
    let line = text::trimmed(line);
    let colon = text::first_char(line, ':');
    if 0 <= colon < line.len() && text::trimmed(line.take(colon)).len() > 0 {
        Some((text::trimmed(line.take(colon)), text::trimmed(line.skip(colon + 1))))
    } else {
        None
    }
}

/// The `key: value` pairs of `lines`; a later pair replaces an earlier one with its key.
pub open spec fn frontmatter_of(lines: Seq<Seq<char>>) -> Map<Seq<char>, Seq<char>>
    decreases lines.len(),
{
    if lines.len() == 0 {
        Map::empty()
    } else {
        let rest = frontmatter_of(lines.drop_last());
        match frontmatter_pair(lines.last()) {
            Some((key, value)) => rest.insert(key, value),
            None => rest,
        }
    }
}

/// Reads `key: value` lines.
pub fn parse_simple_frontmatter(frontmatter: &str) -> (map: StringHashMap<String>)
    ensures
        text_map(map@) == frontmatter_of(text::lines_of(frontmatter@)),
{
    let mut map: StringHashMap<String> = StringHashMap::new();
    let lines = text::lines(frontmatter);
    let ghost all = lines.deep_view();
    assert(text_map(map@) =~= frontmatter_of(all.take(0)));
    for i in 0..lines.len()
        invariant
            all == lines.deep_view(),
            text_map(map@) == frontmatter_of(all.take(i as int)),
    {
        let ghost before = map@;
        assert(all.take(i + 1).drop_last() =~= all.take(i as int));
        assert(all.take(i + 1).last() == lines@[i as int]@);
        let line = text::trim(&lines[i]);
        proof {
            text::lemma_first_char(line@, ':');
        }
        if let Some((before_colon, after_colon)) = text::split_once(&line, ':') {
            let key = text::trim(&before_colon);
            let value = text::trim(&after_colon);
            if !key.as_str().is_empty() {
                let ghost k = key@;
                let ghost v = value@;
                map.insert(key, value);
                assert(text_map(map@) =~= text_map(before).insert(k, v));
            }
        }
    }
    assert(all.take(all.len() as int) =~= all);
    map
}

/// The line closes a frontmatter: three dashes and nothing else.
pub open spec fn is_delimiter(line: Seq<char>) -> bool {
    let start = text::trimmed_start(line);
    text::occurs_at(start, "---"@, 0) && text::trimmed(start.skip(3)).len() == 0
}

/// How a skill file divides.
pub enum Division {
    /// The file has no frontmatter.
    Whole,
    /// The text of the frontmatter and the body.
    Parts(Seq<char>, Seq<char>),
}

/// Looks for the closing line among `lines`, the lines of `after`, from line `n` on, which
/// is taken to begin at byte `offset` (each line counted with one line break byte). A closing
/// line that is then found to begin inside a character closes nothing.
pub open spec fn closing(after: Seq<char>, lines: Seq<Seq<char>>, n: int, offset: nat) -> Division
    decreases lines.len() - n,
{
    if n < 0 || n >= lines.len() {
        Division::Whole
    } else if is_delimiter(lines[n]) {
        let start = (offset + text::byte_len(lines[n]) - text::byte_len(
            text::trimmed_start(lines[n]),
        )) as nat;
        match (text::char_offset(after, start), text::char_offset(after, start + 3)) {
            (Some(a), Some(b)) => Division::Parts(after.take(a), after.skip(b)),
            _ => Division::Whole,
        }
    } else {
        closing(after, lines, n + 1, offset + text::byte_len(lines[n]) + 1)
    }
}

/// How the content of a skill file divides: a first line of three dashes opens a
/// frontmatter, the next such line closes it. A frontmatter that is not closed is none.
pub open spec fn division(content: Seq<char>) -> Division {
    let trimmed = text::trimmed_start(content);
    if trimmed.len() == 0 {
        Division::Whole
    } else {
        let first = text::lines_of(trimmed)[0];
        if text::trimmed_end(first) != "---"@ || trimmed.len() <= first.len() {
            Division::Whole
        } else {
            let after = trimmed.skip(first.len() as int + 1);
            closing(after, text::lines_of(after), 0, 0)
        }
    }
}

/// A found division, with the texts of its parts.
enum Found {
    Whole,
    Parts(String, String),
}

spec fn found_division(found: Found) -> Division {
    match found {
        Found::Whole => Division::Whole,
        Found::Parts(frontmatter, body) => Division::Parts(frontmatter@, body@),
    }
}

/// Whether `line` closes a frontmatter.
fn closes(line: &str) -> (r: bool)
    ensures
        r == is_delimiter(line@),
{
    let start = text::trim_start(line);
    match text::strip_prefix(&start, "---") {
        Some(rest) => {
            proof {
                reveal_strlit("---");
                assert(start@.skip(3) =~= rest@);
            }
            text::trim(&rest).as_str().is_empty()
        },
        None => false,
    }
}

/// Leading white space is part of the encoding.
proof fn lemma_trimmed_start_shorter(s: Seq<char>)
    ensures
        text::byte_len(text::trimmed_start(s)) <= text::byte_len(s),
    decreases s.len(),
{
    text::lemma_byte_len(s);
    if s.len() > 0 && text::is_space(s[0]) {
        lemma_trimmed_start_shorter(s.skip(1));
    }
}

/// Looks for the closing line of a frontmatter.
fn find_closing(after: &str) -> (r: Found)
    ensures
        found_division(r) == closing(after@, text::lines_of(after@), 0, 0),
{
    let chars = text::chars_of(after);
    let lines = text::lines(after);
    let ghost all = lines.deep_view();
    let mut offset: u128 = 0;
    for n in 0..lines.len()
        invariant
            chars@ == after@,
            all == lines.deep_view(),
            all == text::lines_of(after@),
            offset <= n * 0x1_0000_0000_0000_0000,
            closing(after@, all, 0, 0) == closing(after@, all, n as int, offset as nat),
    {
        let line = &lines[n];
        assert(all[n as int] == line@);
        let size: usize = text::utf8_len(line);
        if closes(line) {
            let start_line = text::trim_start(line);
            let shorter: usize = text::utf8_len(&start_line);
            proof {
                lemma_trimmed_start_shorter(line@);
            }
            let start: u128 = offset + (size - shorter) as u128;
            return match (text::offset_of(&chars, start), text::offset_of(&chars, start + 3)) {
                (Some(a), Some(b)) => {
                    let frontmatter = text::string_of(&chars, 0, a);
                    let body = text::string_of(&chars, b, chars.len());
                    assert(frontmatter@ =~= after@.take(a as int));
                    assert(body@ =~= after@.skip(b as int));
                    Found::Parts(frontmatter, body)
                },
                _ => Found::Whole,
            };
        }
        offset = offset + size as u128 + 1;
    }
    Found::Whole
}

/// Finds how the content of a skill file divides.
fn find_division(content: &str) -> (r: Found)
    ensures
        found_division(r) == division(content@),
{
    let trimmed = text::trim_start(content);
    let lines = text::lines(&trimmed);
    if trimmed.as_str().is_empty() {
        return Found::Whole;
    }
    proof {
        lemma_has_lines(trimmed@);
        assert(lines.deep_view().len() == lines@.len());
    }
    let first = &lines[0];
    assert(lines.deep_view()[0] == first@);
    let end = text::trim_end(first);
    if !text::same(&end, "---") {
        return Found::Whole;
    }
    let chars = text::chars_of(&trimmed);
    let opening: usize = text::chars_of(first).len();
    if chars.len() <= opening {
        return Found::Whole;
    }
    let after = text::string_of(&chars, opening + 1, chars.len());
    assert(after@ =~= trimmed@.skip(opening + 1));
    find_closing(&after)
}

/// Text that is not empty has a line.
proof fn lemma_has_lines(s: Seq<char>)
    requires
        s.len() > 0,
    ensures
        text::lines_of(s).len() > 0,
{
}

/// Divides a skill file into its frontmatter pairs and its body; a file without frontmatter
/// is all body.
pub fn split_frontmatter(content: &str) -> (r: (StringHashMap<String>, String))
    ensures
        match division(content@) {
            Division::Parts(frontmatter, body) => text_map(r.0@) == frontmatter_of(
                text::lines_of(frontmatter),
            ) && r.1@ == body,
            _ => text_map(r.0@) == Map::<Seq<char>, Seq<char>>::empty() && r.1@ == content@,
        },
{
    match find_division(content) {
        Found::Parts(frontmatter, body) => (parse_simple_frontmatter(&frontmatter), body),
        _ => {
            let none: StringHashMap<String> = StringHashMap::new();
            assert(text_map(none@) =~= Map::empty());
            (none, content.to_owned())
        },
    }
}

/// The heading that a line holds, if it is one with a text.
pub open spec fn heading_in(line: Seq<char>) -> Option<Seq<char>> {
    let line = text::trimmed(line);
    if line.len() > 0 && line[0] == '#' {
        let heading = text::trimmed(
            text::trimmed_start_char(text::trimmed(line.skip(1)), '#'),
        );
        if heading.len() > 0 {
            Some(heading)
        } else {
            None
        }
    } else {
        None
    }
}

/// The first heading among `lines`.
pub open spec fn first_heading(lines: Seq<Seq<char>>) -> Option<Seq<char>>
    decreases lines.len(),
{
    if lines.len() == 0 {
        None
    } else {
        match heading_in(lines[0]) {
            Some(heading) => Some(heading),
            None => first_heading(lines.skip(1)),
        }
    }
}

/// The text of the first Markdown heading.
pub fn first_markdown_heading(content: &str) -> (r: Option<String>)
    ensures
        match r {
            Some(heading) => first_heading(text::lines_of(content@)) == Some(heading@),
            None => first_heading(text::lines_of(content@)) is None,
        },
{
    let lines = text::lines(content);
    let ghost all = lines.deep_view();
    assert(all.skip(0) =~= all);
    for i in 0..lines.len()
        invariant
            all == lines.deep_view(),
            all == text::lines_of(content@),
            first_heading(all) == first_heading(all.skip(i as int)),
    {
        assert(all.skip(i as int).skip(1) =~= all.skip(i + 1));
        assert(all.skip(i as int)[0] == lines@[i as int]@);
        let line = text::trim(&lines[i]);
        proof {
            reveal_strlit("#");
        }
        if let Some(rest) = text::strip_prefix(&line, "#") {
            assert(line@.skip(1) =~= rest@);
            assert(line@[0] == '#');
            let inner = text::trim(&rest);
            let heading = text::trim(&text::trim_start_char(&inner, '#'));
            if !heading.as_str().is_empty() {
                return Some(heading);
            }
        } else {
            proof {
                if line@.len() > 0 && line@[0] == '#' {
                    assert(line@.subrange(0, 1) =~= "#"@);
                }
            }
        }
    }
    None
}

/// The skill that a file defines, if it names one: the name and description of its
/// frontmatter (or its first heading) and its trimmed body.
pub open spec fn skill_in(content: Seq<char>) -> Option<SkillDefinitionModel> {
    let (frontmatter, body) = match division(content) {
        Division::Parts(frontmatter, body) => (
            frontmatter_of(text::lines_of(frontmatter)),
            body,
        ),
        _ => (Map::empty(), content),
    };
    if frontmatter.contains_key("name"@) {
        Some(
            SkillDefinitionModel {
                name: frontmatter["name"@],
                description: if frontmatter.contains_key("description"@) {
                    frontmatter["description"@]
                } else {
                    match first_heading(text::lines_of(body)) {
                        Some(heading) => heading,
                        None => Seq::empty(),
                    }
                },
                content: text::trimmed(body),
            },
        )
    } else {
        None
    }
}

/// Reads the skill that the file at `path` defines, given its content or why it could not
/// be read.
pub fn parse_skill_file(path: &str, content: Result<String, String>) -> (r: Result<
    SkillDefinition,
    SkillError,
>)
    ensures
        match (content, r) {
            (Err(error), Err(SkillError::ReadFile(file, reason))) => file@ == path@ && reason
                == error,
            (Err(_), _) => false,
            (Ok(content), Ok(definition)) => skill_in(content@) == Some(definition.deep_view()),
            (Ok(content), Err(error)) => skill_in(content@) is None && error is MissingName
                && error->MissingName_0@ == path@,
        },
{
    let content = match content {
        Ok(content) => content,
        Err(error) => return Err(SkillError::ReadFile(path.to_owned(), error)),
    };
    let (frontmatter, body) = split_frontmatter(&content);
    let ghost known = text_map(frontmatter@);
    assert(forall|key: Seq<char>|
        known.contains_key(key) <==> #[trigger] frontmatter@.contains_key(key));
    let name = match frontmatter.get("name") {
        Some(name) => name.clone(),
        None => return Err(SkillError::MissingName(path.to_owned())),
    };
    let description = match frontmatter.get("description") {
        Some(description) => description.clone(),
        None => match first_markdown_heading(&body) {
            Some(heading) => heading,
            None => String::new(),
        },
    };
    Ok(SkillDefinition { name, description, content: text::trim(&body) })
}

/// What stands at a path.
#[derive(Debug, Clone, Copy, PartialEq, Eq, Structural)]
pub enum PathKind {
    /// A directory.
    Directory,
    /// A plain file.
    File,
    /// Nothing.
    Missing,
    /// Something of another sort, or something that could not be looked at.
    Other,
}

/// What was found at one entry of a skill directory.
#[derive(Debug, PartialEq, Eq)]
pub struct SkillDirEntry {
    /// The entry itself.
    pub kind: PathKind,
    /// The `skill.md` below it.
    pub file_kind: PathKind,
    /// Path of the `skill.md`.
    pub file_path: String,
    /// Content of the `skill.md`, or why it could not be read.
    pub file: Result<String, String>,
}

/// What was found at a place where skills are looked for.
#[derive(Debug, PartialEq, Eq)]
pub struct SkillDir {
    /// The place itself.
    pub kind: PathKind,
    /// Its entries, or why they could not be listed.
    pub entries: Result<Vec<SkillDirEntry>, String>,
}

/// The skill that a directory entry defines: a directory with a readable `skill.md` file
/// that names a skill. Anything else is skipped.
pub open spec fn entry_skill(entry: SkillDirEntry) -> Option<SkillDefinitionModel> {
    match entry.file {
        Ok(content) if entry.kind == PathKind::Directory && entry.file_kind == PathKind::File =>
            skill_in(content@),
        _ => None,
    }
}

/// The skills that the entries of a directory define, in order.
pub open spec fn entry_skills(entries: Seq<SkillDirEntry>) -> Seq<SkillDefinitionModel>
    decreases entries.len(),
{
    if entries.len() == 0 {
        Seq::empty()
    } else {
        let rest = entry_skills(entries.drop_last());
        match entry_skill(entries.last()) {
            Some(skill) => rest.push(skill),
            None => rest,
        }
    }
}

/// The skills found in all directories, in order, or why a directory could not be listed.
pub open spec fn found_skills(dirs: Seq<SkillDir>) -> Result<Seq<SkillDefinitionModel>, Seq<char>>
    decreases dirs.len(),
{
    if dirs.len() == 0 {
        Ok(Seq::empty())
    } else {
        match found_skills(dirs.drop_last()) {
            Err(error) => Err(error),
            Ok(rest) => if dirs.last().kind != PathKind::Directory {
                Ok(rest)
            } else {
                match dirs.last().entries {
                    Ok(entries) => Ok(rest + entry_skills(entries@)),
                    Err(error) => Err(error@),
                }
            },
        }
    }
}

/// Skills by name; a skill found later replaces one found earlier.
pub open spec fn skills_by_name(skills: Seq<SkillDefinitionModel>) -> Map<
    Seq<char>,
    SkillDefinitionModel,
>
    decreases skills.len(),
{
    if skills.len() == 0 {
        Map::empty()
    } else {
        skills_by_name(skills.drop_last()).insert(skills.last().name, skills.last())
    }
}

/// `list` holds each skill of `map` once, under its name, and nothing else.
pub open spec fn lists(
    list: Seq<SkillDefinitionModel>,
    map: Map<Seq<char>, SkillDefinitionModel>,
) -> bool {
    &&& forall|i: int, j: int|
        0 <= i < j < list.len() ==> (#[trigger] list[i]).name != (#[trigger] list[j]).name
    &&& forall|i: int|
        0 <= i < list.len() ==> map.contains_key((#[trigger] list[i]).name) && map[list[i].name]
            == list[i]
    &&& forall|name: Seq<char>| #[trigger]
        map.contains_key(name) ==> exists|i: int|
            0 <= i < list.len() && (#[trigger] list[i]).name == name
}

/// Index of the skill `name` in the list, or its length.
fn find_skill(skills: &Vec<SkillDefinition>, name: &str) -> (at: usize)
    ensures
        at <= skills@.len(),
        at < skills@.len() ==> skills.deep_view()[at as int].name == name@,
        forall|k: int| 0 <= k < at ==> (#[trigger] skills.deep_view()[k]).name != name@,
{
    let mut at: usize = 0;
    while at < skills.len()
        invariant
            at <= skills@.len(),
            forall|k: int| 0 <= k < at ==> (#[trigger] skills.deep_view()[k]).name != name@,
        decreases skills@.len() - at,
    {
        assert(skills.deep_view()[at as int] == skills@[at as int].deep_view());
        if text::same(&skills[at].name, name) {
            return at;
        }
        at += 1;
    }
    at
}

/// Adds a skill, in place of one of its name.
fn put_skill(skills: &mut Vec<SkillDefinition>, skill: SkillDefinition)
    ensures
        forall|map: Map<Seq<char>, SkillDefinitionModel>|
            lists(old(skills).deep_view(), map) ==> #[trigger] lists(
                final(skills).deep_view(),
                map.insert(skill.deep_view().name, skill.deep_view()),
            ),
{
    let ghost before = skills.deep_view();
    let ghost model = skill.deep_view();
    let at = find_skill(skills, &skill.name);
    if at < skills.len() {
        skills.set(at, skill);
        assert(skills.deep_view() =~= before.update(at as int, model));
    } else {
        skills.push(skill);
        assert(skills.deep_view() =~= before.push(model));
    }
    proof {
        let after = skills.deep_view();
        assert forall|map: Map<Seq<char>, SkillDefinitionModel>| lists(before, map) implies
            #[trigger] lists(after, map.insert(model.name, model)) by {
            let grown = map.insert(model.name, model);
            assert forall|name: Seq<char>| #[trigger] grown.contains_key(name) implies exists|i:
                int|
                0 <= i < after.len() && (#[trigger] after[i]).name == name by {
                if name == model.name {
                    assert(after[at as int].name == name);
                } else {
                    assert(map.contains_key(name));
                    let i = choose|i: int| 0 <= i < before.len() && (#[trigger] before[i]).name == name;
                    assert(after[i].name == name);
                }
            }
            assert forall|i: int| 0 <= i < after.len() implies grown.contains_key(
                (#[trigger] after[i]).name,
            ) && grown[after[i].name] == after[i] by {
                if i < before.len() && i != at {
                    assert(after[i] == before[i]);
                    if before[i].name == model.name {
                        assert(before[at as int].name == model.name);
                        assert(false);
                    }
                }
            }
            assert forall|i: int, j: int| 0 <= i < j < after.len() implies (
            #[trigger] after[i]).name != (#[trigger] after[j]).name by {
                if i != at && j != at {
                    assert(after[i] == before[i]);
                    assert(after[j] == before[j]);
                } else if i == at {
                    assert(after[j] == before[j]);
                    assert(before[at as int].name != before[j].name);
                } else {
                    assert(after[i] == before[i]);
                    assert(before[i].name != model.name);
                }
            }
        }
    }
}

/// Collects the skills of all directories; a skill found later replaces one of its name
/// found earlier. Places that are no directories, and malformed skill files, are skipped.
pub fn scan_skills(dirs: &Vec<SkillDir>) -> (r: Result<Vec<SkillDefinition>, SkillError>)
    ensures
        match (found_skills(dirs@), r) {
            (Ok(found), Ok(skills)) => lists(skills.deep_view(), skills_by_name(found)),
            (Err(error), Err(SkillError::ReadDir(reason))) => reason@ == error,
            _ => false,
        },
{
    let mut skills: Vec<SkillDefinition> = Vec::new();
    let ghost mut found: Seq<SkillDefinitionModel> = Seq::empty();
    for d in 0..dirs.len()
        invariant
            found_skills(dirs@.take(d as int)) == Ok::<Seq<SkillDefinitionModel>, Seq<char>>(
                found,
            ),
            lists(skills.deep_view(), skills_by_name(found)),
    {
        assert(dirs@.take(d + 1).drop_last() =~= dirs@.take(d as int));
        let dir = &dirs[d];
        assert(dirs@.take(d + 1).last() == *dir);
        if dir.kind == PathKind::Directory {
            match &dir.entries {
                Ok(entries) => {
                    let ghost start = found;
                    assert(start + entry_skills(entries@.take(0)) =~= start);
                    for e in 0..entries.len()
                        invariant
                            found == start + entry_skills(entries@.take(e as int)),
                            lists(skills.deep_view(), skills_by_name(found)),
                    {
                        let entry = &entries[e];
                        assert(entries@.take(e + 1).drop_last() =~= entries@.take(e as int));
                        assert(entries@.take(e + 1).last() == *entry);
                        if entry.kind == PathKind::Directory && entry.file_kind == PathKind::File {
                            let file = match &entry.file {
                                Ok(content) => Ok(content.clone()),
                                Err(error) => Err(error.clone()),
                            };
                            if let Ok(skill) = parse_skill_file(&entry.file_path, file) {
                                let ghost grown = found.push(skill.deep_view());
                                put_skill(&mut skills, skill);
                                proof {
                                    assert(grown.drop_last() =~= found);
                                    assert(grown =~= start + entry_skills(entries@.take(e + 1)));
                                    found = grown;
                                }
                            }
                        }
                    }
                    assert(entries@.take(entries@.len() as int) =~= entries@);
                },
                Err(error) => {
                    proof {
                        lemma_failure_stays(dirs@, d + 1);
                    }
                    return Err(SkillError::ReadDir(error.clone()));
                },
            }
        }
    }
    assert(dirs@.take(dirs@.len() as int) =~= dirs@);
    Ok(skills)
}

/// A directory that could not be listed fails the whole scan.
proof fn lemma_failure_stays(dirs: Seq<SkillDir>, n: int)
    requires
        0 <= n <= dirs.len(),
        found_skills(dirs.take(n)) is Err,
    ensures
        found_skills(dirs) == found_skills(dirs.take(n)),
    decreases dirs.len() - n,
{
    if n < dirs.len() {
        assert(dirs.take(n + 1).drop_last() =~= dirs.take(n));
        lemma_failure_stays(dirs, n + 1);
    } else {
        assert(dirs.take(n) =~= dirs);
    }
}

/// The catalog entry of a skill.
pub open spec fn catalog_entry(skill: SkillDefinitionModel) -> SkillEntryModel {
    SkillEntryModel { name: skill.name, description: skill.description }
}

/// Names go up from entry to entry.
pub open spec fn sorted_by_name(entries: Seq<SkillEntryModel>) -> bool {
    forall|i: int, j: int|
        0 <= i <= j < entries.len() ==> text::text_le(
            (#[trigger] entries[i]).name,
            (#[trigger] entries[j]).name,
        )
}

/// Puts an entry at its place in a sorted list.
fn put_sorted(entries: &mut Vec<SkillEntry>, entry: SkillEntry)
    requires
        sorted_by_name(old(entries).deep_view()),
    ensures
        sorted_by_name(final(entries).deep_view()),
        final(entries).deep_view().to_multiset() == old(entries).deep_view().to_multiset().insert(
            entry.deep_view(),
        ),
{
    let ghost before = entries.deep_view();
    let ghost model = entry.deep_view();
    let mut at: usize = 0;
    while at < entries.len() && text::not_after(&entries[at].name, &entry.name)
        invariant
            before == entries.deep_view(),
            at <= entries@.len(),
            forall|k: int| 0 <= k < at ==> text::text_le((#[trigger] before[k]).name, entry.name@),
        decreases entries@.len() - at,
    {
        assert(before[at as int] == entries@[at as int].deep_view());
        at += 1;
    }
    proof {
        if at < entries@.len() {
            assert(before[at as int] == entries@[at as int].deep_view());
            text::lemma_text_le_total(before[at as int].name, model.name);
        }
    }
    entries.insert(at, entry);
    proof {
        let after = entries.deep_view();
        assert(after =~= before.insert(at as int, model));
        before.to_multiset_ensures();
        vstd::seq_lib::to_multiset_insert(before, at as int, model);
        assert forall|i: int, j: int| 0 <= i <= j < after.len() implies text::text_le(
            (#[trigger] after[i]).name,
            (#[trigger] after[j]).name,
        ) by {
            let a = if i < at { i } else { i - 1 };
            let b = if j < at { j } else { j - 1 };
            if i == at && j == at {
                text::lemma_text_le_total(model.name, model.name);
            } else if i == at {
                assert(after[j] == before[b]);
                text::lemma_text_le_transitive(
                    model.name,
                    before[at as int].name,
                    before[b].name,
                );
            } else if j == at {
                assert(after[i] == before[a]);
            } else {
                assert(after[i] == before[a]);
                assert(after[j] == before[b]);
            }
        }
    }
}

/// The list of available skills, sorted by name.
pub fn catalog(skills: &Vec<SkillDefinition>) -> (entries: Vec<SkillEntry>)
    ensures
        sorted_by_name(entries.deep_view()),
        entries.deep_view().to_multiset() == skills.deep_view().map_values(
            |skill: SkillDefinitionModel| catalog_entry(skill),
        ).to_multiset(),
{
    let ghost all = skills.deep_view();
    let ghost wanted = all.map_values(|skill: SkillDefinitionModel| catalog_entry(skill));
    let mut entries: Vec<SkillEntry> = Vec::new();
    assert(entries.deep_view() =~= wanted.take(0));
    for i in 0..skills.len()
        invariant
            all == skills.deep_view(),
            wanted == all.map_values(|skill: SkillDefinitionModel| catalog_entry(skill)),
            sorted_by_name(entries.deep_view()),
            entries.deep_view().to_multiset() == wanted.take(i as int).to_multiset(),
    {
        let entry = SkillEntry {
            name: skills[i].name.clone(),
            description: skills[i].description.clone(),
        };
        proof {
            assert(all[i as int] == skills@[i as int].deep_view());
            assert(wanted[i as int] == entry.deep_view());
            assert(wanted.take(i + 1) =~= wanted.take(i as int).push(wanted[i as int]));
            wanted.take(i as int).to_multiset_ensures();
        }
        put_sorted(&mut entries, entry);
    }
    assert(wanted.take(wanted.len() as int) =~= wanted);
    entries
}

/// The full definition of the skill `name`.
pub fn activate(skills: &Vec<SkillDefinition>, name: &str) -> (r: Result<
    SkillDefinition,
    SkillError,
>)
    ensures
        match r {
            Ok(skill) => skill.deep_view().name == name@ && skills.deep_view().contains(
                skill.deep_view(),
            ),
            Err(error) => error is NotFound && error->NotFound_0@ == name@ && forall|i: int|
                0 <= i < skills.deep_view().len() ==> (#[trigger] skills.deep_view()[i]).name
                    != name@,
        },
{
    let at = find_skill(skills, name);
    if at < skills.len() {
        let skill = skills[at].clone();
        assert(skills.deep_view()[at as int] == skill.deep_view());
        Ok(skill)
    } else {
        Err(SkillError::NotFound(name.to_owned()))
    }
}

/// The places where skills are looked for, in this order: below the home directory, then
/// below the workspace.
pub open spec fn skill_places(home: Option<Seq<char>>, workspace: Option<Seq<char>>) -> Seq<
    Seq<char>,
> {
    places_below(home) + places_below(workspace)
}

/// The places below one root.
pub open spec fn places_below(root: Option<Seq<char>>) -> Seq<Seq<char>> {
    match root {
        Some(root) => seq![
            paths::joined(paths::joined(root, ".agents"@), "skills"@),
            paths::joined(paths::joined(root, ".byte"@), "skills"@),
        ],
        None => Seq::empty(),
    }
}

/// The skills of one workspace.
#[derive(Debug, PartialEq, Eq)]
pub struct SkillScan {
    pub workspace: Option<String>,
    pub skills: Vec<SkillDefinition>,
}

/// The skills last recorded for a workspace.
pub open spec fn recorded(scans: Seq<SkillScan>, workspace: Option<Seq<char>>) -> Option<
    Seq<SkillDefinitionModel>,
>
    decreases scans.len(),
{
    if scans.len() == 0 {
        None
    } else if scans.last().workspace.deep_view() == workspace {
        Some(scans.last().skills.deep_view())
    } else {
        recorded(scans.drop_last(), workspace)
    }
}

/// Knows where skills are looked for and what was found there.
///
/// A workspace is scanned once; what was found is reused for every later look at it.
#[derive(Debug)]
pub struct MvpSkillRegistry {
    pub home_dir: Option<String>,
    pub scans: Vec<SkillScan>,
}

/// Whether the two optional texts are the same.
pub fn same_option(a: &Option<String>, b: Option<&str>) -> (r: bool)
    ensures
        r == (a.deep_view() == b.deep_view()),
{
    match (a, b) {
        (Some(x), Some(y)) => text::same(x, y),
        (None, None) => true,
        _ => false,
    }
}

impl MvpSkillRegistry {
    /// Create a registry that looks for user skills below the given value of `HOME`; an
    /// empty value counts as none.
    pub fn new(home: Option<String>) -> (r: Self)
        ensures
            r.scans@.len() == 0,
            r.home_dir.deep_view() == (match home.deep_view() {
                Some(dir) => if dir.len() == 0 {
                    None
                } else {
                    Some(dir)
                },
                None => None,
            }),
    {
        let home_dir = match home {
            Some(dir) => if dir.as_str().is_empty() {
                None
            } else {
                Some(dir)
            },
            None => None,
        };
        MvpSkillRegistry { home_dir, scans: Vec::new() }
    }

    /// Create a registry with an explicit home directory.
    pub fn with_home_dir(home_dir: &str) -> (r: Self)
        ensures
            r.scans@.len() == 0,
            r.home_dir.deep_view() == Some(home_dir@),
    {
        MvpSkillRegistry { home_dir: Some(home_dir.to_owned()), scans: Vec::new() }
    }

    /// The places where skills are looked for. Those of the user come first, so that skills
    /// of the workspace replace them.
    pub fn skill_dirs(&self, workspace: Option<&str>) -> (dirs: Vec<String>)
        ensures
            dirs.deep_view() == skill_places(self.home_dir.deep_view(), workspace.deep_view()),
    {
        let mut dirs: Vec<String> = Vec::new();
        if let Some(home) = &self.home_dir {
            dirs.push(paths::join(&paths::join(home, ".agents"), "skills"));
            dirs.push(paths::join(&paths::join(home, ".byte"), "skills"));
        }
        if let Some(root) = workspace {
            dirs.push(paths::join(&paths::join(root, ".agents"), "skills"));
            dirs.push(paths::join(&paths::join(root, ".byte"), "skills"));
        }
        assert(dirs.deep_view() =~= skill_places(
            self.home_dir.deep_view(),
            workspace.deep_view(),
        ));
        dirs
    }

    /// What an earlier scan of the workspace found, if there was one.
    pub fn cached(&self, workspace: Option<&str>) -> (r: Option<Vec<SkillDefinition>>)
        ensures
            r.deep_view() == recorded(self.scans@, workspace.deep_view()),
    {
        let mut i: usize = self.scans.len();
        assert(self.scans@.take(i as int) =~= self.scans@);
        while i > 0
            invariant
                i <= self.scans@.len(),
                recorded(self.scans@, workspace.deep_view()) == recorded(
                    self.scans@.take(i as int),
                    workspace.deep_view(),
                ),
            decreases i,
        {
            assert(self.scans@.take(i as int).drop_last() =~= self.scans@.take(i - 1));
            let scan = &self.scans[i - 1];
            assert(self.scans@.take(i as int).last() == *scan);
            if same_option(&scan.workspace, workspace) {
                let skills = scan.skills.clone();
                assert(skills.deep_view() =~= scan.skills.deep_view());
                return Some(skills);
            }
            i -= 1;
        }
        None
    }

    /// Keeps what a scan of the workspace found.
    pub fn remember(&mut self, workspace: Option<String>, skills: Vec<SkillDefinition>)
        ensures
            final(self).home_dir == old(self).home_dir,
            recorded(final(self).scans@, workspace.deep_view()) == Some(skills.deep_view()),
            forall|other: Option<Seq<char>>|
                other != workspace.deep_view() ==> #[trigger] recorded(final(self).scans@, other)
                    == recorded(old(self).scans@, other),
    {
        let ghost before = self.scans@;
        self.scans.push(SkillScan { workspace, skills });
        assert(self.scans@.drop_last() =~= before);
    }
}

/// Skills found later, such as those of the workspace, replace skills of the same name found
/// earlier, such as those of the user; all others stay.
pub proof fn law_later_skills_override(
    earlier: Seq<SkillDefinitionModel>,
    later: Seq<SkillDefinitionModel>,
)
    ensures
        skills_by_name(earlier + later) == skills_by_name(earlier).union_prefer_right(
            skills_by_name(later),
        ),
    decreases later.len(),
{
    if later.len() == 0 {
        assert(earlier + later =~= earlier);
        assert(skills_by_name(earlier) =~= skills_by_name(earlier).union_prefer_right(
            skills_by_name(later),
        ));
    } else {
        law_later_skills_override(earlier, later.drop_last());
        assert((earlier + later).drop_last() =~= earlier + later.drop_last());
        assert(skills_by_name(earlier + later) =~= skills_by_name(earlier).union_prefer_right(
            skills_by_name(later),
        ));
    }
}

/// A skill that was found last under its name is the one that activation gives, whatever the
/// order in which the skills are listed.
pub proof fn law_activation_is_unique(
    list: Seq<SkillDefinitionModel>,
    map: Map<Seq<char>, SkillDefinitionModel>,
    a: SkillDefinitionModel,
)
    requires
        lists(list, map),
        list.contains(a),
    ensures
        map.contains_key(a.name),
        map[a.name] == a,
{
    let i = choose|i: int| 0 <= i < list.len() && list[i] == a;
    assert(map.contains_key(list[i].name));
}

} // verus!
