//! What holds of skill files and of the skills that are found.

use vstd::prelude::*;

use crate::json;
use crate::paths;
use crate::protocol::framing;
use crate::protocol::SkillDefinitionModel;
use crate::sequences;
use crate::skills;
use crate::skills::{PathKind, SkillDir, SkillDirEntry};
use crate::text;
use crate::text_laws;

verus! {

/// A line `key: value`, with white space anywhere around the key and the value, gives that
/// pair; the key ends at the first colon. A line without a colon, or without a key, gives none.
pub proof fn law_pairs_are_read(
    line: Seq<char>,
    before: Seq<char>,
    key: Seq<char>,
    between: Seq<char>,
    after: Seq<char>,
    value: Seq<char>,
    behind: Seq<char>,
)
    requires
        text_laws::is_blank(before),
        text_laws::is_blank(between),
        text_laws::is_blank(after),
        text_laws::is_blank(behind),
        text_laws::is_trim(key),
        text_laws::is_trim(value),
        key.len() > 0,
        !key.contains(':'),
        line == before + key + between + seq![':'] + after + value + behind,
    ensures
        skills::frontmatter_pair(line) == Some((key, value)),
{
    let inner = key + between + seq![':'];
    let tail = after + value + behind;
    // What is left of the line when the white space around it is gone.
    let kept = text::trimmed(line);
    let colon = (key + between).len() as int;
    assert(line =~= before + (inner + tail));
    text_laws::lemma_trimmed_start(before, inner + tail);
    let start = inner + tail;
    assert(text::trimmed_start(line) == start);
    lemma_trimmed_end_keeps(inner, tail);
    let right = text::trimmed_end(tail);
    assert(kept == inner + right);
    assert forall|k: int| 0 <= k < colon implies kept[k] != ':' by {
        if k < key.len() {
            assert(kept[k] == key[k]);
            assert(key.contains(key[k]));
        } else {
            assert(kept[k] == between[k - key.len()]);
            assert(text::is_space(between[k - key.len()]));
        }
    }
    assert(kept[colon] == ':');
    text::lemma_first_char_unique(kept, ':', colon);
    let none = Seq::<char>::empty();
    assert(kept.take(colon) =~= none + key + between);
    text_laws::law_trimming_takes_the_white_space_around(none, key, between);
    assert(kept.skip(colon + 1) =~= right);
    text_laws::law_trimming_takes_the_white_space_around(after, value, behind);
    lemma_trim_twice(tail);
}

proof fn lemma_trimmed_end_keeps(s: Seq<char>, tail: Seq<char>)
    requires
        s.len() > 0,
        !text::is_space(s.last()),
    ensures
        text::trimmed_end(s + tail) == s + text::trimmed_end(tail),
    decreases tail.len(),
{
    let whole = s + tail;
    if tail.len() > 0 {
        assert(whole.last() == tail.last());
        if text::is_space(tail.last()) {
            lemma_trimmed_end_keeps(s, tail.drop_last());
            assert(whole.drop_last() =~= s + tail.drop_last());
        }
    } else {
        assert(whole =~= s);
        assert(s + text::trimmed_end(tail) =~= s);
    }
}

/// Trimming the end first makes no difference.
proof fn lemma_trim_twice(s: Seq<char>)
    ensures
        text::trimmed(text::trimmed_end(s)) == text::trimmed(s),
    decreases s.len(),
{
    let end = text::trimmed_end(s);
    let (lead2, tail2) = text_laws::law_trimming_leaves_nothing_to_trim(end);
    lemma_end_tail(s);
    let gone = s.skip(end.len() as int);
    assert(s =~= s.take(end.len() as int) + gone);
    assert(end + gone =~= lead2 + text::trimmed(end) + (tail2 + gone));
    let both = tail2 + gone;
    assert forall|i: int| 0 <= i < both.len() implies text::is_space(#[trigger] both[i]) by {
        if i >= tail2.len() {
            assert(both[i] == gone[i - tail2.len()]);
        }
    }
    text_laws::law_trimming_takes_the_white_space_around(lead2, text::trimmed(end), both);
}

proof fn lemma_end_tail(s: Seq<char>)
    ensures
        ({
            let end = text::trimmed_end(s);
            &&& end.len() <= s.len()
            &&& s.take(end.len() as int) == end
            &&& text_laws::is_blank(s.skip(end.len() as int))
        }),
    decreases s.len(),
{
    let end = text::trimmed_end(s);
    if s.len() > 0 && text::is_space(s.last()) {
        let rest = s.drop_last();
        lemma_end_tail(rest);
        let n = end.len() as int;
        assert(s.take(n) =~= rest.take(n));
        let gone = s.skip(n);
        assert forall|i: int| 0 <= i < gone.len() implies text::is_space(#[trigger] gone[i]) by {
            if i < gone.len() - 1 {
                assert(gone[i] == rest.skip(n)[i]);
            } else {
                assert(gone[i] == s.last());
            }
        }
    } else {
        assert(s.take(s.len() as int) =~= s);
    }
}

/// The frontmatter gives each key the value of the last line that has a pair with it, and no
/// other key.
pub proof fn law_frontmatter_holds_the_last_values(lines: Seq<Seq<char>>)
    ensures
        forall|i: int, key: Seq<char>, value: Seq<char>|
            #[trigger] is_last_pair(lines, i, key, value) ==> skills::frontmatter_of(
                lines,
            ).contains_key(key) && skills::frontmatter_of(lines)[key] == value,
        forall|key: Seq<char>| #[trigger]
            skills::frontmatter_of(lines).contains_key(key) ==> exists|i: int, value: Seq<char>|
                is_last_pair(lines, i, key, value),
    decreases lines.len(),
{
    if lines.len() > 0 {
        let rest = lines.drop_last();
        let n = lines.len() - 1;
        law_frontmatter_holds_the_last_values(rest);
        assert(lines[n] == lines.last());
        assert forall|i: int, key: Seq<char>, value: Seq<char>|
            #[trigger] is_last_pair(lines, i, key, value) implies skills::frontmatter_of(
            lines,
        ).contains_key(key) && skills::frontmatter_of(lines)[key] == value by {
            if i < n {
                assert(rest[i] == lines[i]);
                assert forall|j: int| i < j < rest.len() implies !(skills::frontmatter_pair(
                    #[trigger] rest[j],
                ) matches Some(pair) && pair.0 == key) by {
                    assert(rest[j] == lines[j]);
                }
                assert(is_last_pair(rest, i, key, value));
                assert(!(skills::frontmatter_pair(lines[n]) matches Some(pair) && pair.0 == key));
            }
        }
        assert forall|key: Seq<char>| #[trigger]
            skills::frontmatter_of(lines).contains_key(key) implies exists|i: int, value: Seq<char>|
            is_last_pair(lines, i, key, value) by {
            if skills::frontmatter_pair(lines[n]) matches Some(pair) && pair.0 == key {
                let pair = skills::frontmatter_pair(lines[n])->0;
                assert(is_last_pair(lines, n, key, pair.1));
            } else {
                assert(skills::frontmatter_of(rest).contains_key(key));
                let (i, value) = choose|i: int, value: Seq<char>|
                    is_last_pair(rest, i, key, value);
                assert(rest[i] == lines[i]);
                assert forall|j: int| i < j < lines.len() implies !(skills::frontmatter_pair(
                    #[trigger] lines[j],
                ) matches Some(pair) && pair.0 == key) by {
                    if j < n {
                        assert(rest[j] == lines[j]);
                    }
                }
                assert(is_last_pair(lines, i, key, value));
            }
        }
    }
}

/// Line `i` has the pair `key: value`, and no later line has a pair with that key.
pub open spec fn is_last_pair(
    lines: Seq<Seq<char>>,
    i: int,
    key: Seq<char>,
    value: Seq<char>,
) -> bool {
    &&& 0 <= i < lines.len()
    &&& skills::frontmatter_pair(lines[i]) == Some((key, value))
    &&& forall|j: int|
        i < j < lines.len() ==> !(skills::frontmatter_pair(#[trigger] lines[j]) matches Some(pair)
            && pair.0 == key)
}

/// A line closes a frontmatter exactly when it is three dashes with white space around them.
pub proof fn law_delimiter_is_three_dashes(line: Seq<char>)
    ensures
        skills::is_delimiter(line) <==> text::trimmed(line) == "---"@,
{
    reveal_strlit("---");
    let start = text::trimmed_start(line);
    if skills::is_delimiter(line) {
        let rest = start.skip(3);
        let (lead, tail) = text_laws::law_trimming_leaves_nothing_to_trim(rest);
        assert(rest =~= lead + tail);
        assert(start =~= "---"@ + rest) by {
            assert(start.subrange(0, 3) == "---"@);
        }
        let none = Seq::<char>::empty();
        assert(text_laws::is_blank(rest)) by {
            assert forall|i: int| 0 <= i < rest.len() implies text::is_space(#[trigger] rest[i]) by {
                if i >= lead.len() {
                    assert(rest[i] == tail[i - lead.len()]);
                } else {
                    assert(rest[i] == lead[i]);
                }
            }
        }
        assert("---"@[0] == '-' && "---"@[2] == '-' && "---"@.len() == 3);
        assert(!text::is_space('-'));
        text_laws::law_trimming_takes_the_white_space_around(none, "---"@, rest);
        assert(none + "---"@ + rest =~= start);
        assert(text::trimmed(start) == "---"@);
        assert(text::trimmed_start(start) == start) by {
            assert(start[0] == '-');
        }
    }
    if text::trimmed(line) == "---"@ {
        lemma_end_tail(start);
        assert(start.subrange(0, 3) =~= "---"@);
        let rest = start.skip(3);
        let none = Seq::<char>::empty();
        text_laws::law_trimming_takes_the_white_space_around(rest, none, none);
        assert(rest + none + none =~= rest);
    }
}

/// A file with a frontmatter: a line of three dashes, the lines of the frontmatter, another
/// line of three dashes, and the body.
pub open spec fn skill_file(head: Seq<Seq<char>>, body: Seq<char>) -> Seq<char> {
    "---\n"@ + framing::json_lines(head) + "---\n"@ + body
}

/// A skill file is read as it was written: the name is the last value of `name` in its
/// frontmatter, the description the last value of `description` or else the first heading of
/// the body, the content the body without white space around it. A file without a name
/// defines no skill.
pub proof fn law_skill_file_is_read(head: Seq<Seq<char>>, body: Seq<char>)
    requires
        forall|i: int|
            0 <= i < head.len() ==> json::is_one_line(#[trigger] head[i]) && text::trimmed(head[i])
                != "---"@,
    ensures
        ({
            let known = skills::frontmatter_of(head);
            let behind = seq!['\n'] + body;
            match skills::skill_in(skill_file(head, body)) {
                Some(skill) => {
                    &&& known.contains_key("name"@)
                    &&& skill.name == known["name"@]
                    &&& skill.description == if known.contains_key("description"@) {
                        known["description"@]
                    } else {
                        match skills::first_heading(text::lines_of(behind)) {
                            Some(heading) => heading,
                            None => Seq::empty(),
                        }
                    }
                    &&& skill.content == text::trimmed(behind)
                },
                None => !known.contains_key("name"@),
            }
        }),
{
    reveal_strlit("---");
    reveal_strlit("---\n");
    let content = skill_file(head, body);
    let lines = framing::json_lines(head);
    let after = lines + "---\n"@ + body;
    let behind = seq!['\n'] + body;
    assert(content =~= "---"@.push('\n') + after);
    assert(content[0] == '-');
    assert(text::trimmed_start(content) == content);
    assert(!"---"@.contains('\n'));
    text_laws::law_lines_end_at_line_feeds("---"@, after);
    assert(text::lines_of(content)[0] =~= "---"@);
    assert(text::trimmed_end("---"@) == "---"@);
    assert(content.skip(4) =~= after);
    lemma_lines_then(head, "---\n"@ + body);
    assert(after =~= lines + ("---\n"@ + body));
    assert("---\n"@ + body =~= "---"@.push('\n') + body);
    text_laws::law_lines_end_at_line_feeds("---"@, body);
    let all = text::lines_of(after);
    assert(all =~= head + (seq!["---"@] + text::lines_of(body)));
    assert forall|i: int| 0 <= i < head.len() implies !skills::is_delimiter(#[trigger] head[i]) by {
        law_delimiter_is_three_dashes(head[i]);
    }
    lemma_closing(head, body, 0);
    assert(head.take(0) =~= Seq::empty());
    text::lemma_byte_len(framing::json_lines(head.take(0)));
    assert(skills::division(content) == skills::Division::Parts(lines, behind));
    assert forall|i: int| 0 <= i < head.len() implies json::is_one_line(#[trigger] head[i]) by {}
    framing::lemma_lines_of_json_lines(head);
}

proof fn lemma_lines_then(head: Seq<Seq<char>>, tail: Seq<char>)
    requires
        forall|i: int| 0 <= i < head.len() ==> json::is_one_line(#[trigger] head[i]),
    ensures
        text::lines_of(framing::json_lines(head) + tail) == head + text::lines_of(tail),
    decreases head.len(),
{
    if head.len() > 0 {
        let rest = head.skip(1);
        assert forall|i: int| 0 <= i < rest.len() implies json::is_one_line(#[trigger] rest[i]) by {
            assert(rest[i] == head[i + 1]);
        }
        lemma_lines_then(rest, tail);
        framing::lemma_first_line(head[0], framing::json_lines(rest) + tail);
        assert(framing::json_lines(head) + tail =~= framing::json_line(head[0]) + (
        framing::json_lines(rest) + tail));
        assert(head + text::lines_of(tail) =~= seq![head[0]] + (rest + text::lines_of(tail)));
    } else {
        assert(framing::json_lines(head) + tail =~= tail);
        assert(head + text::lines_of(tail) =~= text::lines_of(tail));
    }
}

proof fn lemma_closing(head: Seq<Seq<char>>, body: Seq<char>, n: int)
    requires
        0 <= n <= head.len(),
        forall|i: int| 0 <= i < head.len() ==> !skills::is_delimiter(#[trigger] head[i]),
    ensures
        ({
            let lines = framing::json_lines(head);
            let after = lines + "---\n"@ + body;
            let all = head + (seq!["---"@] + text::lines_of(body));
            skills::closing(after, all, n, text::byte_len(framing::json_lines(head.take(n))))
                == skills::Division::Parts(lines, seq!['\n'] + body)
        }),
    decreases head.len() - n,
{
    reveal_strlit("---");
    reveal_strlit("---\n");
    let lines = framing::json_lines(head);
    let after = lines + "---\n"@ + body;
    let all = head + (seq!["---"@] + text::lines_of(body));
    if n < head.len() {
        assert(all[n] == head[n]);
        assert(head.take(n + 1) =~= head.take(n).push(head[n]));
        framing::lemma_json_lines_push(head.take(n), head[n]);
        text::lemma_byte_len_add(framing::json_lines(head.take(n)), framing::json_line(head[n]));
        assert(framing::json_line(head[n]) =~= head[n] + seq!['\n']);
        text::lemma_byte_len_add(head[n], seq!['\n']);
        text::lemma_byte_len(seq!['\n']);
        assert(seq!['\n'].skip(1) =~= Seq::<char>::empty());
        text::lemma_byte_len(seq!['\n'].skip(1));
        lemma_closing(head, body, n + 1);
    } else {
        assert(head.take(n) =~= head);
        assert(all[n] == "---"@);
        law_delimiter_is_three_dashes("---"@);
        let none = Seq::<char>::empty();
        assert(text::trimmed_start("---"@) == "---"@);
        assert(text::trimmed_end("---"@) == "---"@);
        text_laws::lemma_char_offset(lines, "---\n"@ + body);
        assert(after =~= lines + ("---\n"@ + body));
        text_laws::lemma_char_offset(lines + "---"@, seq!['\n'] + body);
        assert(after =~= (lines + "---"@) + (seq!['\n'] + body));
        text::lemma_byte_len_add(lines, "---"@);
        lemma_three_bytes();
        assert(after.take(lines.len() as int) =~= lines);
        assert(after.skip(lines.len() as int + 3) =~= seq!['\n'] + body);
    }
}

proof fn lemma_three_bytes()
    ensures
        text::byte_len("---"@) == 3,
{
    reveal_strlit("---");
    let s = "---"@;
    text::lemma_byte_len(s);
    text::lemma_byte_len(s.skip(1));
    text::lemma_byte_len(s.skip(1).skip(1));
    text::lemma_byte_len(s.skip(1).skip(1).skip(1));
}

/// A file whose first line is not three dashes is all body, and defines no skill.
pub proof fn law_file_without_frontmatter_defines_no_skill(line: Seq<char>, rest: Seq<char>)
    requires
        line.len() > 0,
        json::is_one_line(line),
        !text::is_space(line[0]),
        text::trimmed(line) != "---"@,
    ensures
        skills::skill_in(line.push('\n') + rest) is None,
{
    let content = line.push('\n') + rest;
    assert(content[0] == line[0]);
    assert(text::trimmed_start(content) == content);
    assert(!line.contains('\n'));
    text_laws::law_lines_end_at_line_feeds(line, rest);
    assert(text::lines_of(content)[0] =~= line);
    assert(text::trimmed_start(line) == line);
}

/// The first heading is that of the first line which is a heading.
pub proof fn law_first_heading_is_the_first(lines: Seq<Seq<char>>, i: int)
    requires
        0 <= i < lines.len(),
        skills::heading_in(lines[i]) is Some,
        forall|j: int| 0 <= j < i ==> skills::heading_in(#[trigger] lines[j]) is None,
    ensures
        skills::first_heading(lines) == skills::heading_in(lines[i]),
    decreases i,
{
    if i > 0 {
        assert(skills::heading_in(lines[0]) is None);
        let rest = lines.skip(1);
        assert(rest[i - 1] == lines[i]);
        assert forall|j: int| 0 <= j < i - 1 implies skills::heading_in(#[trigger] rest[j]) is None by {
            assert(rest[j] == lines[j + 1]);
        }
        law_first_heading_is_the_first(rest, i - 1);
    }
}

/// A line of number signs, white space and a title is a heading with that title, whatever
/// white space stands around it.
pub proof fn law_heading_is_the_title(
    before: Seq<char>,
    marks: Seq<char>,
    between: Seq<char>,
    title: Seq<char>,
    behind: Seq<char>,
)
    requires
        text_laws::is_blank(before),
        text_laws::is_blank(between),
        text_laws::is_blank(behind),
        text_laws::is_trim(title),
        title.len() > 0,
        title[0] != '#',
        marks.len() > 0,
        forall|i: int| 0 <= i < marks.len() ==> #[trigger] marks[i] == '#',
    ensures
        skills::heading_in(before + marks + between + title + behind) == Some(title),
{
    let line = before + marks + between + title + behind;
    let kept = marks + between + title;
    assert(marks[0] == '#');
    assert(line =~= before + kept + behind);
    text_laws::law_trimming_takes_the_white_space_around(before, kept, behind);
    let none = Seq::<char>::empty();
    if marks.len() == 1 {
        assert(kept.skip(1) =~= between + title + none);
        text_laws::law_trimming_takes_the_white_space_around(between, title, none);
        text_laws::law_trimming_takes_the_white_space_around(none, title, none);
        assert(none + title + none =~= title);
    } else {
        let more = marks.skip(1);
        let rest = more + between + title;
        assert(kept.skip(1) =~= rest);
        assert(more[0] == marks[1]);
        assert(rest =~= none + rest + none);
        text_laws::law_trimming_takes_the_white_space_around(none, rest, none);
        assert(rest =~= more + (between + title));
        assert forall|i: int| 0 <= i < more.len() implies #[trigger] more[i] == '#' by {
            assert(more[i] == marks[i + 1]);
        }
        assert((between + title)[0] != '#') by {
            if between.len() > 0 {
                assert((between + title)[0] == between[0]);
                assert(text::is_space(between[0]));
            }
        }
        lemma_marks(more, between + title);
        assert(between + title + none =~= between + title);
        text_laws::law_trimming_takes_the_white_space_around(between, title, none);
    }
}

proof fn lemma_marks(marks: Seq<char>, rest: Seq<char>)
    requires
        forall|i: int| 0 <= i < marks.len() ==> #[trigger] marks[i] == '#',
        rest.len() > 0,
        rest[0] != '#',
    ensures
        text::trimmed_start_char(marks + rest, '#') == rest,
    decreases marks.len(),
{
    let whole = marks + rest;
    if marks.len() > 0 {
        assert(whole[0] == marks[0]);
        let more = marks.skip(1);
        assert forall|i: int| 0 <= i < more.len() implies #[trigger] more[i] == '#' by {
            assert(more[i] == marks[i + 1]);
        }
        lemma_marks(more, rest);
        assert(whole.skip(1) =~= more + rest);
    } else {
        assert(whole =~= rest);
    }
}

/// The skill that an entry of a skill directory defines: that of its `skill.md`, where the
/// entry is a directory and its `skill.md` a file that could be read.
pub open spec fn skill_of_entry(entry: SkillDirEntry) -> Option<SkillDefinitionModel> {
    if entry.kind != PathKind::Directory || entry.file_kind != PathKind::File {
        None
    } else {
        match entry.file {
            Ok(content) => skills::skill_in(content@),
            Err(_) => None,
        }
    }
}

/// A scan finds every skill of every entry of every directory, in order; a directory that
/// could not be listed fails it, with the reason of the first such one.
pub proof fn law_scan_finds_every_skill(dirs: Seq<SkillDir>)
    ensures
        match skills::found_skills(dirs) {
            Ok(found) => {
                &&& forall|i: int|
                    0 <= i < dirs.len() && (#[trigger] dirs[i]).kind == PathKind::Directory
                        ==> dirs[i].entries is Ok
                &&& found == dirs.flat_map(
                    |dir: SkillDir|
                        if dir.kind == PathKind::Directory {
                            dir.entries->Ok_0@.filter_map(
                                |entry: SkillDirEntry| skill_of_entry(entry),
                            )
                        } else {
                            Seq::empty()
                        },
                )
            },
            Err(error) => exists|i: int|
                0 <= i < dirs.len() && (#[trigger] dirs[i]).kind == PathKind::Directory && (
                dirs[i].entries matches Err(reason) && reason@ == error) && forall|j: int|
                    0 <= j < i && (#[trigger] dirs[j]).kind == PathKind::Directory
                        ==> dirs[j].entries is Ok,
        },
    decreases dirs.len(),
{
    let listed = |dir: SkillDir|
        if dir.kind == PathKind::Directory {
            dir.entries->Ok_0@.filter_map(|entry: SkillDirEntry| skill_of_entry(entry))
        } else {
            Seq::empty()
        };
    sequences::lemma_flat_map_last(dirs, listed);
    if dirs.len() > 0 {
        let rest = dirs.drop_last();
        let last = dirs.last();
        let n = dirs.len() - 1;
        law_scan_finds_every_skill(rest);
        assert(dirs[n] == last);
        assert forall|i: int| 0 <= i < n implies #[trigger] dirs[i] == rest[i] by {}
        match skills::found_skills(rest) {
            Err(error) => {
                let i = choose|i: int|
                    0 <= i < rest.len() && (#[trigger] rest[i]).kind == PathKind::Directory && (
                    rest[i].entries matches Err(reason) && reason@ == error) && forall|j: int|
                        0 <= j < i && (#[trigger] rest[j]).kind == PathKind::Directory
                            ==> rest[j].entries is Ok;
                assert(dirs[i] == rest[i]);
                assert forall|j: int|
                    0 <= j < i && (#[trigger] dirs[j]).kind == PathKind::Directory implies dirs[j].entries is Ok by {
                    assert(dirs[j] == rest[j]);
                }
            },
            Ok(found) => {
                if last.kind == PathKind::Directory {
                    if let Ok(entries) = last.entries {
                        lemma_entry_skills(entries@);
                    } else {
                        assert forall|j: int|
                            0 <= j < n && (
                            #[trigger] dirs[j]).kind == PathKind::Directory implies dirs[j].entries is Ok by {
                            assert(dirs[j] == rest[j]);
                        }
                        assert(dirs[n].kind == PathKind::Directory);
                    }
                } else {
                    assert(found + Seq::<SkillDefinitionModel>::empty() =~= found);
                }
            },
        }
    }
}

proof fn lemma_entry_skills(entries: Seq<SkillDirEntry>)
    ensures
        skills::entry_skills(entries) == entries.filter_map(
            |entry: SkillDirEntry| skill_of_entry(entry),
        ),
    decreases entries.len(),
{
    if entries.len() > 0 {
        let rest = skills::entry_skills(entries.drop_last());
        lemma_entry_skills(entries.drop_last());
        if let Some(skill) = skills::entry_skill(entries.last()) {
            assert(rest.push(skill) =~= rest + seq![skill]);
        }
    }
}

/// Of the skills of one name the one found last counts; every name that was found counts.
pub proof fn law_last_skill_of_a_name_counts(found: Seq<SkillDefinitionModel>)
    ensures
        forall|i: int|
            0 <= i < found.len() && (forall|j: int|
                i < j < found.len() ==> (#[trigger] found[j]).name != found[i].name)
                ==> skills::skills_by_name(found).contains_key((#[trigger] found[i]).name)
                && skills::skills_by_name(found)[found[i].name] == found[i],
        forall|name: Seq<char>| #[trigger]
            skills::skills_by_name(found).contains_key(name) <==> exists|i: int|
                0 <= i < found.len() && (#[trigger] found[i]).name == name,
    decreases found.len(),
{
    if found.len() > 0 {
        let rest = found.drop_last();
        let n = found.len() - 1;
        law_last_skill_of_a_name_counts(rest);
        assert(found[n] == found.last());
        assert forall|i: int| 0 <= i < n implies #[trigger] found[i] == rest[i] by {}
        assert forall|i: int|
            0 <= i < found.len() && (forall|j: int|
                i < j < found.len() ==> (#[trigger] found[j]).name
                    != found[i].name) implies skills::skills_by_name(found).contains_key(
            (#[trigger] found[i]).name,
        ) && skills::skills_by_name(found)[found[i].name] == found[i] by {
            if i < n {
                assert(found[n].name != found[i].name);
                assert forall|j: int| i < j < rest.len() implies (#[trigger] rest[j]).name
                    != rest[i].name by {
                    assert(found[j] == rest[j]);
                }
                assert(rest[i] == found[i]);
            }
        }
        assert forall|name: Seq<char>| #[trigger]
            skills::skills_by_name(found).contains_key(name) <==> exists|i: int|
                0 <= i < found.len() && (#[trigger] found[i]).name == name by {
            if skills::skills_by_name(rest).contains_key(name) {
                let i = choose|i: int| 0 <= i < rest.len() && (#[trigger] rest[i]).name == name;
                assert(found[i].name == name);
            }
            if exists|i: int| 0 <= i < found.len() && (#[trigger] found[i]).name == name {
                let i = choose|i: int| 0 <= i < found.len() && (#[trigger] found[i]).name == name;
                if i < n {
                    assert(rest[i].name == name);
                }
            }
        }
    }
}

/// The catalog tells the name and the description of a skill as they are.
pub proof fn law_catalog_tells_name_and_description(skill: SkillDefinitionModel)
    ensures
        skills::catalog_entry(skill).name == skill.name,
        skills::catalog_entry(skill).description == skill.description,
{
}

/// Skills are looked for in four places: below the home directory, then below the workspace,
/// in each below `.agents` and then below `.byte`.
pub proof fn law_skills_are_looked_for_in_order(home: Seq<char>, workspace: Seq<char>)
    requires
        home.len() > 0,
        home.last() != '/',
        workspace.len() > 0,
        workspace.last() != '/',
    ensures
        skills::skill_places(Some(home), Some(workspace)) == seq![
            home + "/.agents/skills"@,
            home + "/.byte/skills"@,
            workspace + "/.agents/skills"@,
            workspace + "/.byte/skills"@,
        ],
        skills::skill_places(Some(home), None) == seq![
            home + "/.agents/skills"@,
            home + "/.byte/skills"@,
        ],
        skills::skill_places(None, Some(workspace)) == seq![
            workspace + "/.agents/skills"@,
            workspace + "/.byte/skills"@,
        ],
        skills::skill_places(None, None) == Seq::<Seq<char>>::empty(),
{
    lemma_places(home);
    lemma_places(workspace);
    let none = Seq::<Seq<char>>::empty();
    let h = skills::places_below(Some(home));
    let w = skills::places_below(Some(workspace));
    assert(h + w =~= seq![h[0], h[1], w[0], w[1]]);
    assert(h + none =~= h);
    assert(none + w =~= w);
    assert(none + none =~= none);
}

proof fn lemma_places(root: Seq<char>)
    requires
        root.len() > 0,
        root.last() != '/',
    ensures
        skills::places_below(Some(root)) == seq![
            root + "/.agents/skills"@,
            root + "/.byte/skills"@,
        ],
{
    reveal_strlit(".agents");
    reveal_strlit(".byte");
    reveal_strlit("skills");
    reveal_strlit("/.agents/skills");
    reveal_strlit("/.byte/skills");
    assert(paths::joined(paths::joined(root, ".agents"@), "skills"@) =~= root
        + "/.agents/skills"@);
    assert(paths::joined(paths::joined(root, ".byte"@), "skills"@) =~= root + "/.byte/skills"@);
}

/// A line is divided at its first colon: what stands before it and what stands behind it,
/// without white space around them, are the key and the value. A line without a colon, or
/// with nothing before it, has no pair.
pub proof fn law_pairs_are_divided_at_the_first_colon(line: Seq<char>)
    ensures
        !line.contains(':') ==> skills::frontmatter_pair(line) is None,
        forall|c: int|
            0 <= c < line.len() && #[trigger] line[c] == ':' && !line.take(c).contains(':')
                ==> skills::frontmatter_pair(line) == if text::trimmed(line.take(c)).len() == 0 {
                None
            } else {
                Some((text::trimmed(line.take(c)), text::trimmed(line.skip(c + 1))))
            },
{
    let (lead, tail) = text_laws::law_trimming_leaves_nothing_to_trim(line);
    let core = text::trimmed(line);
    text::lemma_first_char(core, ':');
    if !line.contains(':') {
        let at = text::first_char(core, ':');
        if at < core.len() {
            assert(line[lead.len() + at] == ':');
            assert(line.contains(':'));
        }
    }
    assert forall|c: int|
        0 <= c < line.len() && #[trigger] line[c] == ':' && !line.take(c).contains(
            ':',
        ) implies skills::frontmatter_pair(line) == if text::trimmed(line.take(c)).len() == 0 {
        None
    } else {
        Some((text::trimmed(line.take(c)), text::trimmed(line.skip(c + 1))))
    } by {
        let n = lead.len() as int;
        if c < n {
            assert(line[c] == lead[c]);
            assert(text::is_space(lead[c]));
        }
        if c >= n + core.len() {
            assert(line[c] == tail[c - n - core.len()]);
            assert(text::is_space(tail[c - n - core.len()]));
        }
        let at = c - n;
        assert(core[at] == line[c]);
        assert forall|k: int| 0 <= k < at implies core[k] != ':' by {
            assert(line.take(c)[n + k] == core[k]);
            if core[k] == ':' {
                assert(line.take(c).contains(':'));
            }
        }
        text::lemma_first_char_unique(core, ':', at);
        let none = Seq::<char>::empty();
        assert(line.take(c) =~= lead + core.take(at) + none);
        lemma_trim_around(lead, core.take(at), none);
        assert(line.skip(c + 1) =~= none + core.skip(at + 1) + tail);
        lemma_trim_around(none, core.skip(at + 1), tail);
    }
}

/// White space around a text makes no difference to what is left of it.
proof fn lemma_trim_around(lead: Seq<char>, s: Seq<char>, tail: Seq<char>)
    requires
        text_laws::is_blank(lead),
        text_laws::is_blank(tail),
    ensures
        text::trimmed(lead + s + tail) == text::trimmed(s),
{
    let (a, b) = text_laws::law_trimming_leaves_nothing_to_trim(s);
    let core = text::trimmed(s);
    let left = lead + a;
    let right = b + tail;
    assert forall|i: int| 0 <= i < left.len() implies text::is_space(#[trigger] left[i]) by {
        if i < lead.len() {
            assert(left[i] == lead[i]);
        } else {
            assert(left[i] == a[i - lead.len()]);
        }
    }
    assert forall|i: int| 0 <= i < right.len() implies text::is_space(#[trigger] right[i]) by {
        if i < b.len() {
            assert(right[i] == b[i]);
        } else {
            assert(right[i] == tail[i - b.len()]);
        }
    }
    assert(lead + s + tail =~= left + core + right);
    text_laws::law_trimming_takes_the_white_space_around(left, core, right);
}

/// A line whose first character is no number sign is no heading.
pub proof fn law_other_lines_are_no_headings(line: Seq<char>)
    requires
        text::trimmed(line).len() == 0 || text::trimmed(line)[0] != '#',
    ensures
        skills::heading_in(line) is None,
{
}

/// A frontmatter that is never closed is none: the file defines no skill.
pub proof fn law_unclosed_frontmatter_defines_no_skill(head: Seq<Seq<char>>)
    requires
        forall|i: int|
            0 <= i < head.len() ==> json::is_one_line(#[trigger] head[i]) && text::trimmed(head[i])
                != "---"@,
    ensures
        skills::skill_in("---\n"@ + framing::json_lines(head)) is None,
{
    reveal_strlit("---");
    reveal_strlit("---\n");
    let after = framing::json_lines(head);
    let content = "---\n"@ + after;
    assert(content =~= "---"@.push('\n') + after);
    assert(content[0] == '-');
    assert(text::trimmed_start(content) == content);
    assert(!"---"@.contains('\n'));
    text_laws::law_lines_end_at_line_feeds("---"@, after);
    assert(text::lines_of(content)[0] =~= "---"@);
    assert(text::trimmed_end("---"@) == "---"@);
    assert(content.skip(4) =~= after);
    assert forall|i: int| 0 <= i < head.len() implies json::is_one_line(#[trigger] head[i]) by {}
    framing::lemma_lines_of_json_lines(head);
    assert forall|i: int| 0 <= i < head.len() implies !skills::is_delimiter(#[trigger] head[i]) by {
        law_delimiter_is_three_dashes(head[i]);
    }
    lemma_never_closed(after, head, 0, 0);
}

proof fn lemma_never_closed(after: Seq<char>, lines: Seq<Seq<char>>, n: int, offset: nat)
    requires
        0 <= n <= lines.len(),
        forall|i: int| 0 <= i < lines.len() ==> !skills::is_delimiter(#[trigger] lines[i]),
    ensures
        skills::closing(after, lines, n, offset) is Whole,
    decreases lines.len() - n,
{
    if n < lines.len() {
        assert(!skills::is_delimiter(lines[n]));
        lemma_never_closed(after, lines, n + 1, offset + text::byte_len(lines[n]) + 1);
    }
}

} // verus!
