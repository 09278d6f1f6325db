//! The list of sessions.

use vstd::prelude::*;

use crate::protocol::session::{
    SessionEntry, SessionEntryModel, SessionSummary, SessionSummaryModel,
};
use crate::text;

verus! {

/// An entry of the session directory.
#[derive(Debug)]
pub struct SessionFile {
    /// File name.
    pub name: String,
    /// Whether it is a regular file.
    pub is_file: bool,
    /// The record on its first line, if there is one that can be read.
    pub header: Option<SessionEntry>,
}

/// What a [`SessionFile`] holds.
pub struct SessionFileModel {
    pub name: Seq<char>,
    pub is_file: bool,
    pub header: Option<SessionEntryModel>,
}

impl DeepView for SessionFile {
    type V = SessionFileModel;

    open spec fn deep_view(&self) -> SessionFileModel {
        SessionFileModel {
            name: self.name@,
            is_file: self.is_file,
            header: self.header.deep_view(),
        }
    }
}

/// The session that a file name stands for: the name before its extension `jsonl`.
pub open spec fn session_of_name(name: Seq<char>) -> Option<Seq<char>> {
    let n = name.len() as int;
    if n > 6 && name.skip(n - 6) == ".jsonl"@ {
        Some(name.take(n - 6))
    } else {
        None
    }
}

/// The summary of a session file: only a regular file whose header names the session of the
/// file has one.
pub open spec fn summary_of(file: SessionFileModel) -> Option<SessionSummaryModel> {
    match (session_of_name(file.name), file.header) {
        (
            Some(session_id),
            Some(SessionEntryModel::Session { id, workspace, created_at, .. }),
        ) => if file.is_file && id == session_id {
            Some(SessionSummaryModel { session_id: id, workspace, created_at })
        } else {
            None
        },
        _ => None,
    }
}

/// The summaries of session files, in the order of the files.
pub open spec fn summaries(files: Seq<SessionFileModel>) -> Seq<SessionSummaryModel>
    decreases files.len(),
{
    if files.len() == 0 {
        Seq::empty()
    } else {
        let before = summaries(files.drop_last());
        match summary_of(files.last()) {
            Some(summary) => before.push(summary),
            None => before,
        }
    }
}

/// Where a summary goes among sorted ones: after all that are not older.
pub open spec fn place(sorted: Seq<SessionSummaryModel>, summary: SessionSummaryModel) -> int
    decreases sorted.len(),
{
    if sorted.len() > 0 && text::text_le(summary.created_at, sorted[0].created_at) {
        1 + place(sorted.skip(1), summary)
    } else {
        0
    }
}

/// The summaries, newest first; those of the same time keep their order.
pub open spec fn newest_first(list: Seq<SessionSummaryModel>) -> Seq<SessionSummaryModel>
    decreases list.len(),
{
    if list.len() == 0 {
        Seq::empty()
    } else {
        let sorted = newest_first(list.drop_last());
        sorted.insert(place(sorted, list.last()), list.last())
    }
}

pub proof fn lemma_place(sorted: Seq<SessionSummaryModel>, summary: SessionSummaryModel)
    ensures
        0 <= place(sorted, summary) <= sorted.len(),
        forall|i: int|
            0 <= i < place(sorted, summary) ==> text::text_le(
                summary.created_at,
                (#[trigger] sorted[i]).created_at,
            ),
        place(sorted, summary) < sorted.len() ==> !text::text_le(
            summary.created_at,
            sorted[place(sorted, summary)].created_at,
        ),
    decreases sorted.len(),
{
    if sorted.len() > 0 && text::text_le(summary.created_at, sorted[0].created_at) {
        lemma_place(sorted.skip(1), summary);
        assert forall|i: int| 0 <= i < place(sorted, summary) implies text::text_le(
            summary.created_at,
            (#[trigger] sorted[i]).created_at,
        ) by {
            if i > 0 {
                assert(sorted[i] == sorted.skip(1)[i - 1]);
            }
        }
    }
}

/// Returns the session that a file name stands for.
pub fn session_name(name: &str) -> (r: Option<String>)
    ensures
        r.deep_view() == session_of_name(name@),
{
    let chars = text::chars_of(name);
    if chars.len() <= 6 {
        return None;
    }
    let at: usize = chars.len() - 6;
    let extension = text::string_of(&chars, at, chars.len());
    assert(extension@ =~= name@.skip(at as int));
    if text::same(&extension, ".jsonl") {
        let stem = text::string_of(&chars, 0, at);
        assert(stem@ =~= name@.take(at as int));
        Some(stem)
    } else {
        None
    }
}

/// Returns the summary of a session file, if it has one.
pub fn summarize_file(file: &SessionFile) -> (r: Option<SessionSummary>)
    ensures
        r.deep_view() == summary_of(file.deep_view()),
{
    let session_id = match session_name(&file.name) {
        Some(id) => id,
        None => {
            return None;
        },
    };
    match &file.header {
        Some(SessionEntry::Session { id, workspace, created_at, .. }) => {
            if file.is_file && text::same(id, &session_id) {
                Some(
                    SessionSummary {
                        session_id: id.clone(),
                        workspace: workspace.clone(),
                        created_at: created_at.clone(),
                    },
                )
            } else {
                None
            }
        },
        _ => None,
    }
}

/// Puts a summary at its place among sorted ones.
fn insert_summary(sorted: &mut Vec<SessionSummary>, summary: SessionSummary)
    ensures
        final(sorted).deep_view() == old(sorted).deep_view().insert(
            place(old(sorted).deep_view(), summary.deep_view()),
            summary.deep_view(),
        ),
{
    let ghost model = sorted.deep_view();
    let ghost added = summary.deep_view();
    let total: usize = sorted.len();
    let mut at: usize = 0;
    assert(model.skip(0) =~= model);
    while at < total && text::not_after(&summary.created_at, &sorted[at].created_at)
        invariant
            at <= total,
            total == sorted@.len(),
            model == sorted.deep_view(),
            added == summary.deep_view(),
            place(model, added) == at + place(model.skip(at as int), added),
        decreases total - at,
    {
        assert(model.skip(at as int)[0] == sorted@[at as int].deep_view());
        assert(model.skip(at as int).skip(1) =~= model.skip(at + 1));
        at = at + 1;
    }
    proof {
        if at < total {
            assert(model.skip(at as int)[0] == sorted@[at as int].deep_view());
        }
        assert(place(model.skip(at as int), added) == 0);
    }
    sorted.insert(at, summary);
    assert(sorted.deep_view() =~= model.insert(at as int, added));
}

/// Returns the summaries of the sessions in a directory, newest first.
pub fn list_sessions(files: Vec<SessionFile>) -> (r: Vec<SessionSummary>)
    ensures
        r.deep_view() == newest_first(summaries(files.deep_view())),
{
    let ghost model = files.deep_view();
    let mut sorted: Vec<SessionSummary> = Vec::new();
    assert(sorted.deep_view() =~= newest_first(summaries(model.take(0))));
    for i in 0..files.len()
        invariant
            model == files.deep_view(),
            sorted.deep_view() == newest_first(summaries(model.take(i as int))),
    {
        let ghost list = summaries(model.take(i as int));
        assert(model[i as int] == files@[i as int].deep_view());
        assert(model.take(i + 1).last() == model[i as int]);
        assert(model.take(i + 1).drop_last() =~= model.take(i as int));
        if let Some(summary) = summarize_file(&files[i]) {
            assert(list.push(summary.deep_view()).drop_last() =~= list);
            insert_summary(&mut sorted, summary);
        }
    }
    assert(model.take(model.len() as int) =~= model);
    sorted
}

/// No summary in the list is followed by a newer one.
pub open spec fn is_newest_first(list: Seq<SessionSummaryModel>) -> bool {
    forall|i: int, j: int|
        0 <= i < j < list.len() ==> text::text_le(
            (#[trigger] list[j]).created_at,
            (#[trigger] list[i]).created_at,
        )
}

/// The list is ordered by creation time, newest first, and holds exactly the summaries of
/// the session files, each as often as there is one.
pub proof fn law_list_is_ordered(list: Seq<SessionSummaryModel>)
    ensures
        is_newest_first(newest_first(list)),
        newest_first(list).to_multiset() == list.to_multiset(),
        newest_first(list).len() == list.len(),
    decreases list.len(),
{
    broadcast use vstd::seq_lib::group_to_multiset_ensures;

    if list.len() == 0 {
        assert(newest_first(list) =~= list);
    } else {
        let rest = list.drop_last();
        let summary = list.last();
        law_list_is_ordered(rest);
        let sorted = newest_first(rest);
        let at = place(sorted, summary);
        lemma_place(sorted, summary);
        let now = sorted.insert(at, summary);
        assert forall|i: int, j: int| 0 <= i < j < now.len() implies text::text_le(
            (#[trigger] now[j]).created_at,
            (#[trigger] now[i]).created_at,
        ) by {
            if i < at && j == at {
            } else if i == at {
                assert(now[j] == sorted[j - 1]);
                text::lemma_text_le_total(sorted[at].created_at, summary.created_at);
                if j - 1 > at {
                    assert(text::text_le(sorted[j - 1].created_at, sorted[at].created_at));
                    text::lemma_text_le_transitive(
                        sorted[j - 1].created_at,
                        sorted[at].created_at,
                        summary.created_at,
                    );
                }
            } else {
                let x = if i < at {
                    i
                } else {
                    i - 1
                };
                let y = if j < at {
                    j
                } else {
                    j - 1
                };
                assert(now[i] == sorted[x]);
                assert(now[j] == sorted[y]);
            }
        }
        assert(list =~= rest.push(summary));
        assert(now.to_multiset() =~= list.to_multiset());
    }
}

/// Only sessions that name themselves are listed: every summary stands for a session file
/// whose header carries its identifier.
pub proof fn law_listed_sessions_exist(files: Seq<SessionFileModel>, i: int)
    requires
        0 <= i < summaries(files).len(),
    ensures
        exists|k: int|
            0 <= k < files.len() && #[trigger] summary_of(files[k]) == Some(summaries(files)[i])
                && session_of_name(files[k].name) == Some(summaries(files)[i].session_id),
    decreases files.len(),
{
    let rest = files.drop_last();
    if i < summaries(rest).len() {
        law_listed_sessions_exist(rest, i);
        let k = choose|k: int|
            0 <= k < rest.len() && #[trigger] summary_of(rest[k]) == Some(summaries(rest)[i])
                && session_of_name(rest[k].name) == Some(summaries(rest)[i].session_id);
        assert(files[k] == rest[k]);
        assert(summary_of(files[k]) == Some(summaries(files)[i]));
    } else {
        assert(summary_of(files[files.len() - 1]) == Some(summaries(files)[i]));
    }
}

} // verus!
