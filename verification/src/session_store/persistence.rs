//! The records of a session file.
//!
//! A file may hold records that a newer or an older daemon wrote: records of an unknown type
//! are skipped.

use vstd::prelude::*;

use crate::json;
use crate::protocol::framing;
use crate::protocol::session::{SessionEntry, SessionEntryModel};
use crate::session_store::SessionError;
use crate::text;

verus! {

/// The records of a session file, as JSON text, up to the first line that is not JSON.
#[derive(Debug, PartialEq, Eq)]
pub struct RecordTexts {
    /// Records of a known type, in order.
    pub records: Vec<String>,
    /// What is wrong with the first line that is not JSON.
    pub broken: Option<String>,
}

/// The type of a record that is read.
pub open spec fn is_known_type(ty: Option<Seq<char>>) -> bool {
    ty matches Some(ty) && (ty == "session"@ || ty == "message"@ || ty == "skill_activated"@ || ty
        == "compaction_entry"@)
}

/// Whether records of this type are read.
pub fn is_known(ty: &Option<String>) -> (r: bool)
    ensures
        r == is_known_type(ty.deep_view()),
{
    match ty {
        Some(ty) => text::same(ty, "session") || text::same(ty, "message") || text::same(
            ty,
            "skill_activated",
        ) || text::same(ty, "compaction_entry"),
        None => false,
    }
}

/// The type of the record in a JSON text, or why the text is not JSON.
pub open spec fn type_of(record: Seq<char>) -> Result<Option<Seq<char>>, Seq<char>> {
    json::json_string_member(record, "type"@)
}

/// The records of a known type before the first text that is not JSON.
pub open spec fn known_records(texts: Seq<Seq<char>>) -> Seq<Seq<char>>
    decreases texts.len(),
{
    if texts.len() == 0 {
        Seq::empty()
    } else {
        match type_of(texts[0]) {
            Err(_) => Seq::empty(),
            Ok(ty) => (if is_known_type(ty) {
                seq![texts[0]]
            } else {
                Seq::empty()
            }) + known_records(texts.skip(1)),
        }
    }
}

/// What is wrong with the first text that is not JSON, if there is one.
pub open spec fn first_broken(texts: Seq<Seq<char>>) -> Option<Seq<char>>
    decreases texts.len(),
{
    if texts.len() == 0 {
        None
    } else {
        match type_of(texts[0]) {
            Err(error) => Some(error),
            Ok(_) => first_broken(texts.skip(1)),
        }
    }
}

/// Returns the records that a session file holds, skipping those of an unknown type.
pub fn read_records(input: &str) -> (r: RecordTexts)
    ensures
        r.records.deep_view() == known_records(framing::json_texts(input@)),
        r.broken.deep_view() == first_broken(framing::json_texts(input@)),
{
    let texts = framing::decode_json_lines(input);
    let ghost model = texts.deep_view();
    let mut records: Vec<String> = Vec::new();
    assert(model.skip(0) =~= model);
    assert(records.deep_view() + known_records(model) =~= known_records(model));
    for i in 0..texts.len()
        invariant
            model == texts.deep_view(),
            model == framing::json_texts(input@),
            records.deep_view() + known_records(model.skip(i as int)) == known_records(model),
            first_broken(model) == first_broken(model.skip(i as int)),
    {
        let ghost before = records.deep_view();
        let ghost rest = model.skip(i as int);
        assert(model[i as int] == texts@[i as int]@);
        assert(rest[0] == model[i as int]);
        assert(rest.skip(1) =~= model.skip(i + 1));
        match json::string_member(&texts[i], "type") {
            Err(error) => {
                assert(type_of(model[i as int]) is Err);
                assert(records.deep_view() =~= known_records(model));
                return RecordTexts { records, broken: Some(error) };
            },
            Ok(ty) => {
                if is_known(&ty) {
                    let record = texts[i].clone();
                    records.push(record);
                    assert(records.deep_view() =~= before.push(record@));
                }
                assert(records.deep_view() + known_records(model.skip(i + 1)) =~= before
                    + known_records(rest));
            },
        }
    }
    assert(model.skip(model.len() as int) =~= Seq::empty());
    assert(records.deep_view() =~= known_records(model));
    RecordTexts { records, broken: None }
}

/// The first error of decoded records.
pub open spec fn first_failure(decoded: Seq<Result<SessionEntry, String>>) -> Option<String>
    decreases decoded.len(),
{
    if decoded.len() == 0 {
        None
    } else {
        match decoded[0] {
            Ok(_) => first_failure(decoded.skip(1)),
            Err(error) => Some(error),
        }
    }
}

/// The entries of decoded records, none of which is an error.
pub open spec fn entries_of(decoded: Seq<Result<SessionEntry, String>>) -> Seq<SessionEntryModel> {
    decoded.map_values(|item: Result<SessionEntry, String>| item->Ok_0.deep_view())
}

/// Returns the entries of a session file, given what its records decode to and what is wrong
/// with the first line that is not JSON: the first error of the file counts.
pub fn decode_session_entries(
    decoded: Vec<Result<SessionEntry, String>>,
    broken: Option<String>,
) -> (r: Result<Vec<SessionEntry>, SessionError>)
    ensures
        match r {
            Ok(entries) => first_failure(decoded@) is None && broken is None
                && entries.deep_view() == entries_of(decoded@),
            Err(SessionError::Serialize(error)) => match first_failure(decoded@) {
                Some(first) => error@ == first@,
                None => broken is Some && error@ == broken->0@,
            },
            Err(_) => false,
        },
{
    let mut entries: Vec<SessionEntry> = Vec::new();
    assert(decoded@.skip(0) =~= decoded@);
    assert(entries.deep_view() =~= entries_of(decoded@.take(0)));
    for i in 0..decoded.len()
        invariant
            first_failure(decoded@) == first_failure(decoded@.skip(i as int)),
            entries.deep_view() == entries_of(decoded@.take(i as int)),
    {
        assert(decoded@.skip(i as int)[0] == decoded@[i as int]);
        assert(decoded@.skip(i as int).skip(1) =~= decoded@.skip(i + 1));
        match &decoded[i] {
            Ok(entry) => {
                let ghost before = entries.deep_view();
                let entry = entry.clone();
                entries.push(entry);
                assert(entries.deep_view() =~= before.push(entry.deep_view()));
                assert(entries.deep_view() =~= entries_of(decoded@.take(i + 1)));
            },
            Err(error) => {
                return Err(SessionError::Serialize(error.clone()));
            },
        }
    }
    assert(decoded@.skip(decoded@.len() as int) =~= Seq::empty());
    assert(decoded@.take(decoded@.len() as int) =~= decoded@);
    match broken {
        Some(error) => Err(SessionError::Serialize(error)),
        None => Ok(entries),
    }
}

/// A record that a session file can hold: JSON text of a known type, on one line.
pub open spec fn is_record(record: Seq<char>) -> bool {
    &&& json::is_one_line(record)
    &&& framing::is_filled(record)
    &&& type_of(record) matches Ok(ty) && is_known_type(ty)
}

/// A session file gives back the records that were written to it, all of them, in order.
pub proof fn law_session_file_gives_back_records(records: Seq<Seq<char>>)
    requires
        forall|i: int| 0 <= i < records.len() ==> is_record(#[trigger] records[i]),
    ensures
        known_records(framing::json_texts(framing::json_lines(records))) == records,
        first_broken(framing::json_texts(framing::json_lines(records))) is None,
{
    framing::law_lines_give_back_messages(records);
    lemma_all_known(records);
}

proof fn lemma_all_known(records: Seq<Seq<char>>)
    requires
        forall|i: int| 0 <= i < records.len() ==> is_record(#[trigger] records[i]),
    ensures
        known_records(records) == records,
        first_broken(records) is None,
    decreases records.len(),
{
    if records.len() > 0 {
        let rest = records.skip(1);
        assert forall|i: int| 0 <= i < rest.len() implies is_record(#[trigger] rest[i]) by {
            assert(rest[i] == records[i + 1]);
        }
        lemma_all_known(rest);
        assert(is_record(records[0]));
        assert(known_records(records) =~= records);
    } else {
        assert(known_records(records) =~= records);
    }
}

/// What a line of a session file adds to the entries that are read: the entry that its record
/// decodes to, or nothing when it is blank or its record is of an unknown type.
pub open spec fn adds_entry(
    line: Seq<char>,
    entry: Option<SessionEntryModel>,
    decode: spec_fn(Seq<char>) -> Result<SessionEntry, String>,
) -> bool {
    match entry {
        Some(entry) => is_record(line) && (decode(line) matches Ok(decoded) && decoded.deep_view()
            == entry),
        None => json::is_one_line(line) && (framing::is_filled(line) ==> (type_of(
            line,
        ) matches Ok(ty) && !is_known_type(ty))),
    }
}

/// The entries among `entries`, in order.
pub open spec fn present(entries: Seq<Option<SessionEntryModel>>) -> Seq<SessionEntryModel>
    decreases entries.len(),
{
    if entries.len() == 0 {
        Seq::empty()
    } else {
        (match entries[0] {
            Some(entry) => seq![entry],
            None => Seq::empty(),
        }) + present(entries.skip(1))
    }
}

/// Decoding a session file gives back the entries that were written to it, all of them, in
/// order, with blank lines and records of an unknown type anywhere in between.
pub proof fn law_session_file_gives_back_entries(
    lines: Seq<Seq<char>>,
    entries: Seq<Option<SessionEntryModel>>,
    decode: spec_fn(Seq<char>) -> Result<SessionEntry, String>,
)
    requires
        lines.len() == entries.len(),
        forall|i: int| 0 <= i < lines.len() ==> adds_entry(#[trigger] lines[i], entries[i], decode),
    ensures
        ({
            let texts = framing::json_texts(framing::json_lines(lines));
            let decoded = known_records(texts).map_values(decode);
            &&& first_broken(texts) is None
            &&& first_failure(decoded) is None
            &&& entries_of(decoded) == present(entries)
        }),
{
    assert forall|i: int| 0 <= i < lines.len() implies json::is_one_line(#[trigger] lines[i]) by {
        assert(adds_entry(lines[i], entries[i], decode));
    }
    framing::lemma_lines_of_json_lines(lines);
    lemma_lines_are_decoded(lines, entries, decode);
}

proof fn lemma_lines_are_decoded(
    lines: Seq<Seq<char>>,
    entries: Seq<Option<SessionEntryModel>>,
    decode: spec_fn(Seq<char>) -> Result<SessionEntry, String>,
)
    requires
        lines.len() == entries.len(),
        forall|i: int| 0 <= i < lines.len() ==> adds_entry(#[trigger] lines[i], entries[i], decode),
    ensures
        ({
            let texts = framing::filled_texts(lines);
            let decoded = known_records(texts).map_values(decode);
            &&& first_broken(texts) is None
            &&& first_failure(decoded) is None
            &&& entries_of(decoded) == present(entries)
        }),
    decreases lines.len(),
{
    let texts = framing::filled_texts(lines);
    let decoded = known_records(texts).map_values(decode);
    if lines.len() > 0 {
        let rest = framing::filled_texts(lines.skip(1));
        let others = known_records(rest).map_values(decode);
        assert forall|i: int| 0 <= i < lines.len() - 1 implies adds_entry(
            #[trigger] lines.skip(1)[i],
            entries.skip(1)[i],
            decode,
        ) by {
            assert(adds_entry(lines[i + 1], entries[i + 1], decode));
        }
        lemma_lines_are_decoded(lines.skip(1), entries.skip(1), decode);
        assert(adds_entry(lines[0], entries[0], decode));
        framing::lemma_one_line(lines[0]);
        if framing::is_filled(lines[0]) {
            assert(texts[0] == lines[0]);
            assert(texts.skip(1) =~= rest);
        }
        match entries[0] {
            Some(entry) => {
                assert(decoded[0] == decode(lines[0]));
                assert(decoded.skip(1) =~= others);
                assert(entries_of(decoded) =~= seq![entry] + entries_of(others));
            },
            None => {
                assert(known_records(texts) =~= known_records(rest));
            },
        }
        assert(entries_of(decoded) =~= present(entries));
    } else {
        assert(entries_of(decoded) =~= present(entries));
    }
}

/// A record that is appended to a session file is read after those that were there.
pub proof fn law_appended_record_is_read_last(records: Seq<Seq<char>>, record: Seq<char>)
    requires
        forall|i: int| 0 <= i < records.len() ==> is_record(#[trigger] records[i]),
        is_record(record),
    ensures
        known_records(
            framing::json_texts(framing::json_lines(records) + framing::json_line(record)),
        ) == records.push(record),
{
    let all = records.push(record);
    assert forall|i: int| 0 <= i < all.len() implies is_record(#[trigger] all[i]) by {
        if i < records.len() {
            assert(all[i] == records[i]);
        }
    }
    law_session_file_gives_back_records(all);
    framing::lemma_json_lines_push(records, record);
}

/// A record of an unknown type changes nothing of what is read.
pub proof fn law_unknown_records_are_skipped(
    before: Seq<Seq<char>>,
    unknown: Seq<char>,
    after: Seq<Seq<char>>,
)
    requires
        type_of(unknown) matches Ok(ty) && !is_known_type(ty),
    ensures
        known_records(before + seq![unknown] + after) == known_records(before + after),
        first_broken(before + seq![unknown] + after) == first_broken(before + after),
    decreases before.len(),
{
    let with = before + seq![unknown] + after;
    if before.len() == 0 {
        assert(with[0] == unknown);
        assert(with.skip(1) =~= after);
        assert(before + after =~= after);
        assert(known_records(with) =~= known_records(after));
    } else {
        law_unknown_records_are_skipped(before.skip(1), unknown, after);
        assert(with[0] == before[0]);
        assert((before + after)[0] == before[0]);
        assert(with.skip(1) =~= before.skip(1) + seq![unknown] + after);
        assert((before + after).skip(1) =~= before.skip(1) + after);
    }
}

} // verus!
