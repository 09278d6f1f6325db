//! Persistent session storage.
//!
//! A session is one file of line-delimited records. This module decides where the file of
//! a session stands, what is appended to it, what a directory listing shows of it, and
//! which of its lines are records.

use vstd::prelude::*;

pub mod laws;
pub mod listing;
pub mod persistence;
pub mod tree;

use crate::ids;
use crate::paths;
use crate::protocol;
use crate::protocol::session::{
    CompactionEntry, CompactionEntryModel, Message, MessageBody, MessageModel, SessionEntry,
    SessionEntryModel,
};
use crate::protocol::{ActivatedSkill, ActivatedSkillModel, MessageRole, PROTOCOL_VERSION};
use crate::protocol::rpc::ProtocolError;
use crate::text;

verus! {

/// Errors that can occur when interacting with the session store.
#[derive(Debug, PartialEq, Eq)]
pub enum SessionError {
    /// The session id contains invalid characters.
    InvalidSessionId(String),
    /// The session directory is invalid.
    InvalidDirectory(String),
    /// A session with the requested id already exists.
    AlreadyExists(String),
    /// The requested session could not be found.
    NotFound(String),
    /// An I/O error occurred while reading or writing a session file.
    Read(String),
    /// A session entry could not be serialized or deserialized.
    Serialize(String),
}

impl SessionError {
    /// The text of the error.
    pub open spec fn spec_message(&self) -> Seq<char> {
        match self {
            SessionError::InvalidSessionId(reason) =>
                "session id contains invalid characters: "@ + reason@,
            SessionError::InvalidDirectory(reason) => "session directory is invalid: "@ + reason@,
            SessionError::AlreadyExists(id) => "session already exists: "@ + id@,
            SessionError::NotFound(id) => "session not found: "@ + id@,
            SessionError::Read(error) => "failed to read session file: "@ + error@,
            SessionError::Serialize(error) => "failed to serialize session entry: "@ + error@,
        }
    }

    /// Returns the text of the error.
    pub fn message(&self) -> (r: String)
        ensures
            r@ == self.spec_message(),
    {
        match self {
            SessionError::InvalidSessionId(reason) => text::concat(
                "session id contains invalid characters: ",
                reason,
            ),
            SessionError::InvalidDirectory(reason) => text::concat(
                "session directory is invalid: ",
                reason,
            ),
            SessionError::AlreadyExists(id) => text::concat("session already exists: ", id),
            SessionError::NotFound(id) => text::concat("session not found: ", id),
            SessionError::Read(error) => text::concat("failed to read session file: ", error),
            SessionError::Serialize(error) => text::concat(
                "failed to serialize session entry: ",
                error,
            ),
        }
    }
}

impl From<ProtocolError> for SessionError {
    fn from(error: ProtocolError) -> (r: Self) {
        match error {
            ProtocolError::Serialize(source) => SessionError::Serialize(source),
        }
    }
}

impl vstd::std_specs::convert::FromSpecImpl<ProtocolError> for SessionError {
    open spec fn obeys_from_spec() -> bool {
        true
    }

    open spec fn from_spec(error: ProtocolError) -> Self {
        match error {
            ProtocolError::Serialize(source) => SessionError::Serialize(source),
        }
    }
}

/// What is wrong with a session identifier.
pub enum IdFault {
    Empty,
    TooLong,
    Traversal,
    LeadingDot,
    Control,
}

/// A control character, of ASCII or of the range behind it.
pub open spec fn is_control(c: char) -> bool {
    (c as u32) < 0x20 || 0x7f <= c as u32 <= 0x9f
}

/// The first fault of a session identifier, if it has one.
pub open spec fn id_fault(id: Seq<char>) -> Option<IdFault> {
    if id.len() == 0 {
        Some(IdFault::Empty)
    } else if text::byte_len(id) > 128 {
        Some(IdFault::TooLong)
    } else if id.contains('/') || id.contains('\\') || text::contains_text(id, ".."@) {
        Some(IdFault::Traversal)
    } else if id[0] == '.' {
        Some(IdFault::LeadingDot)
    } else if exists|i: int| 0 <= i < id.len() && is_control(#[trigger] id[i]) {
        Some(IdFault::Control)
    } else {
        None
    }
}

/// What is said of a faulty identifier.
pub open spec fn fault_text(fault: IdFault, id: Seq<char>) -> Seq<char> {
    match fault {
        IdFault::Empty => "session id must not be empty"@,
        IdFault::TooLong => "session id must be 128 characters or fewer"@,
        IdFault::Traversal => id,
        IdFault::LeadingDot => "session id must not start with a dot"@,
        IdFault::Control => "session id contains control characters"@,
    }
}

/// Whether `s` holds a control character.
fn has_control(s: &str) -> (r: bool)
    ensures
        r == exists|i: int| 0 <= i < s@.len() && is_control(#[trigger] s@[i]),
{
    let chars = text::chars_of(s);
    for i in 0..chars.len()
        invariant
            chars@ == s@,
            forall|k: int| 0 <= k < i ==> !is_control(#[trigger] s@[k]),
    {
        let u: u32 = chars[i] as u32;
        if u < 0x20 || (0x7f <= u && u <= 0x9f) {
            assert(is_control(s@[i as int]));
            return true;
        }
    }
    false
}

/// Persists sessions as line-delimited records inside one file per session.
#[derive(Debug)]
pub struct SessionStore {
    base_dir: String,
}

impl SessionStore {
    /// Absolute directory that holds the session files.
    pub closed spec fn base(&self) -> Seq<char> {
        self.base_dir@
    }

    /// The directory is absolute.
    #[verifier::type_invariant]
    spec fn rooted(&self) -> bool {
        paths::is_absolute(self.base_dir@)
    }

    /// Create a store rooted at the given directory, which must be absolute.
    pub fn new(base_dir: &str) -> (r: Result<Self, SessionError>)
        ensures
            match r {
                Ok(store) => paths::is_absolute(base_dir@) && store.base() == base_dir@,
                Err(error) => !paths::is_absolute(base_dir@) && error is InvalidDirectory
                    && error->InvalidDirectory_0@ == "session base dir must be absolute"@,
            },
    {
        if !paths::absolute(base_dir) {
            return Err(
                SessionError::InvalidDirectory("session base dir must be absolute".to_owned()),
            );
        }
        Ok(SessionStore { base_dir: base_dir.to_owned() })
    }

    /// Create a store in the default data directory of the user, given the values of
    /// `XDG_DATA_HOME` and `HOME`.
    pub fn with_default_dir(xdg_data_home: Option<&str>, home: Option<&str>) -> (r: Result<
        Self,
        SessionError,
    >)
        ensures
            match r {
                Ok(store) => paths::is_absolute(default_dir(xdg_data_home, home)) && store.base()
                    == default_dir(xdg_data_home, home),
                Err(error) => !paths::is_absolute(default_dir(xdg_data_home, home))
                    && error is InvalidDirectory && error->InvalidDirectory_0@
                    == "session base dir must be absolute"@,
            },
    {
        SessionStore::new(&default_base_dir(xdg_data_home, home))
    }

    /// The directory of the session files.
    pub fn directory(&self) -> (r: &str)
        ensures
            r@ == self.base(),
    {
        &self.base_dir
    }

    /// Returns the file path for `session_id` inside the directory, validating the id.
    ///
    /// An id that is empty, longer than 128 bytes, contains path traversal characters,
    /// starts with a dot, or contains control characters is refused.
    pub fn session_path(&self, session_id: &str) -> (r: Result<String, SessionError>)
        ensures
            match r {
                Ok(path) => id_fault(session_id@) is None && path@ == session_file(
                    self.base(),
                    session_id@,
                ),
                Err(error) => id_fault(session_id@) is Some && error is InvalidSessionId
                    && error->InvalidSessionId_0@ == fault_text(
                    id_fault(session_id@)->0,
                    session_id@,
                ),
            },
    {
        if session_id.is_empty() {
            return Err(SessionError::InvalidSessionId("session id must not be empty".to_owned()));
        }
        if text::utf8_len(session_id) > 128 {
            return Err(
                SessionError::InvalidSessionId(
                    "session id must be 128 characters or fewer".to_owned(),
                ),
            );
        }
        if text::contains_char(session_id, '/') || text::contains_char(session_id, '\\')
            || text::contains(session_id, "..") {
            return Err(SessionError::InvalidSessionId(session_id.to_owned()));
        }
        let chars = text::chars_of(session_id);
        if chars[0] == '.' {
            return Err(
                SessionError::InvalidSessionId("session id must not start with a dot".to_owned()),
            );
        }
        if has_control(session_id) {
            return Err(
                SessionError::InvalidSessionId("session id contains control characters".to_owned()),
            );
        }
        let name = text::concat(session_id, ".jsonl");
        Ok(paths::join(&self.base_dir, &name))
    }
}

/// What came of writing to or removing a session file.
#[derive(Debug, PartialEq, Eq)]
pub enum FileOutcome {
    /// It was done.
    Done,
    /// There is such a file already.
    AlreadyExists(String),
    /// There is no such file.
    NotFound(String),
    /// It failed for another reason.
    Failed(String),
}

/// An entry to append to a session file.
#[derive(Debug, PartialEq, Eq)]
pub struct Append {
    /// Path of the file.
    pub path: String,
    /// Entry to append.
    pub entry: SessionEntry,
}

/// The error of a refused session identifier.
pub open spec fn is_refusal(error: SessionError, session_id: Seq<char>) -> bool {
    id_fault(session_id) is Some && error is InvalidSessionId && error->InvalidSessionId_0@
        == fault_text(id_fault(session_id)->0, session_id)
}

/// Maximum session file size that is loaded into memory (64 MiB).
pub const MAX_SESSION_FILE_SIZE: u64 = 67108864;

/// The error of a session file that is too large.
pub open spec fn size_error(path: Seq<char>) -> Seq<char> {
    "session file "@ + path + " exceeds "@ + text::decimal(MAX_SESSION_FILE_SIZE as nat)
        + " byte limit"@
}

/// The error of a session file without a first line.
pub open spec fn header_error(path: Seq<char>) -> Seq<char> {
    "session file "@ + path + " is missing its header"@
}

impl SessionStore {
    /// Returns the header to create the file of a session with, and its path. The time is
    /// given in seconds and milliseconds since the epoch.
    pub fn new_session(&self, session_id: &str, workspace: &str, secs: u64, millis: u32) -> (r:
        Result<Append, SessionError>)
        requires
            millis < 1000,
        ensures
            match r {
                Ok(append) => id_fault(session_id@) is None && append.path@ == session_file(
                    self.base(),
                    session_id@,
                ) && append.entry.deep_view() == (SessionEntryModel::Session {
                    version: PROTOCOL_VERSION,
                    id: session_id@,
                    workspace: workspace@,
                    created_at: ids::timestamp(secs as nat, millis as nat),
                }),
                Err(error) => is_refusal(error, session_id@),
            },
    {
        let path = match self.session_path(session_id) {
            Ok(path) => path,
            Err(error) => {
                return Err(error);
            },
        };
        Ok(
            Append {
                path,
                entry: SessionEntry::Session {
                    version: PROTOCOL_VERSION,
                    id: session_id.to_owned(),
                    workspace: workspace.to_owned(),
                    created_at: ids::now_epoch_millis(secs, millis),
                },
            },
        )
    }

    /// Tells whether a session was created, given what came of writing its file. A session
    /// that exists already is left as it is.
    pub fn session_created(outcome: FileOutcome) -> (r: Result<(), SessionError>)
        ensures
            match outcome {
                FileOutcome::Done | FileOutcome::AlreadyExists(_) => r is Ok,
                FileOutcome::NotFound(error) | FileOutcome::Failed(error) => r is Err
                    && r->Err_0 is Read && r->Err_0->Read_0@ == error@,
            },
    {
        match outcome {
            FileOutcome::Done => Ok(()),
            FileOutcome::AlreadyExists(_) => Ok(()),
            FileOutcome::NotFound(error) => Err(SessionError::Read(error)),
            FileOutcome::Failed(error) => Err(SessionError::Read(error)),
        }
    }

    /// Returns the message entry to append to the file of a session. If `id` is `None`, an
    /// identifier is generated.
    pub fn append_message(
        &self,
        session_id: &str,
        id: Option<String>,
        parent_id: Option<String>,
        role: MessageRole,
        body: MessageBody,
        tool_call_id: Option<String>,
    ) -> (r: Result<Append, SessionError>)
        ensures
            match r {
                Ok(append) => id_fault(session_id@) is None && append.path@ == session_file(
                    self.base(),
                    session_id@,
                ) && exists|message_id: Seq<char>|
                    (match id {
                        Some(given) => message_id == given@,
                        None => ids::is_uuid(message_id),
                    }) && append.entry.deep_view() == #[trigger] message_entry(
                        message_id,
                        parent_id.deep_view(),
                        role,
                        tool_call_id.deep_view(),
                        body.deep_view(),
                    ),
                Err(error) => is_refusal(error, session_id@),
            },
    {
        let path = match self.session_path(session_id) {
            Ok(path) => path,
            Err(error) => {
                return Err(error);
            },
        };
        let message_id = match id {
            Some(id) => id,
            None => ids::new_id(),
        };
        let entry = SessionEntry::Message(
            Message { id: message_id, parent_id, role, tool_call_id, body },
        );
        assert(entry.deep_view() == message_entry(
            message_id@,
            parent_id.deep_view(),
            role,
            tool_call_id.deep_view(),
            body.deep_view(),
        ));
        Ok(Append { path, entry })
    }

    /// Returns the skill activation entry to append to the file of a session.
    pub fn append_skill_activation(&self, session_id: &str, name: &str, content: &str) -> (r: Result<
        Append,
        SessionError,
    >)
        ensures
            match r {
                Ok(append) => id_fault(session_id@) is None && append.path@ == session_file(
                    self.base(),
                    session_id@,
                ) && append.entry.deep_view() == SessionEntryModel::SkillActivated(
                    ActivatedSkillModel { name: name@, content: content@ },
                ),
                Err(error) => is_refusal(error, session_id@),
            },
    {
        let path = match self.session_path(session_id) {
            Ok(path) => path,
            Err(error) => {
                return Err(error);
            },
        };
        Ok(
            Append {
                path,
                entry: SessionEntry::SkillActivated(
                    ActivatedSkill { name: name.to_owned(), content: content.to_owned() },
                ),
            },
        )
    }

    /// Returns the compaction entry to append to the file of a session.
    pub fn append_compaction_entry(&self, session_id: &str, entry: CompactionEntry) -> (r: Result<
        Append,
        SessionError,
    >)
        ensures
            match r {
                Ok(append) => id_fault(session_id@) is None && append.path@ == session_file(
                    self.base(),
                    session_id@,
                ) && append.entry.deep_view() == SessionEntryModel::CompactionEntry(
                    entry.deep_view(),
                ),
                Err(error) => is_refusal(error, session_id@),
            },
    {
        let path = match self.session_path(session_id) {
            Ok(path) => path,
            Err(error) => {
                return Err(error);
            },
        };
        Ok(Append { path, entry: SessionEntry::CompactionEntry(entry) })
    }

    /// Returns the path to read the entries of a session from, given the size of the file if
    /// there is one.
    pub fn read_entries(&self, session_id: &str, size: Option<u64>) -> (r: Result<
        String,
        SessionError,
    >)
        ensures
            match r {
                Ok(path) => id_fault(session_id@) is None && path@ == session_file(
                    self.base(),
                    session_id@,
                ) && size is Some && size->0 <= MAX_SESSION_FILE_SIZE,
                Err(SessionError::NotFound(id)) => id_fault(session_id@) is None && size is None
                    && id@ == session_id@,
                Err(SessionError::Read(error)) => id_fault(session_id@) is None && size is Some
                    && size->0 > MAX_SESSION_FILE_SIZE && error@ == size_error(
                    session_file(self.base(), session_id@),
                ),
                Err(error) => is_refusal(error, session_id@),
            },
    {
        let path = match self.session_path(session_id) {
            Ok(path) => path,
            Err(error) => {
                return Err(error);
            },
        };
        match size {
            None => Err(SessionError::NotFound(session_id.to_owned())),
            Some(size) => {
                if size > MAX_SESSION_FILE_SIZE {
                    let mut error = text::concat3("session file ", &path, " exceeds ");
                    error.push_str(&text::format_u64(MAX_SESSION_FILE_SIZE));
                    error.push_str(" byte limit");
                    Err(SessionError::Read(error))
                } else {
                    Ok(path)
                }
            },
        }
    }

    /// Tells whether a session was deleted, given what came of removing its file. A session
    /// that does not exist counts as deleted.
    pub fn session_deleted(outcome: FileOutcome) -> (r: Result<(), SessionError>)
        ensures
            match outcome {
                FileOutcome::Done | FileOutcome::NotFound(_) => r is Ok,
                FileOutcome::AlreadyExists(error) | FileOutcome::Failed(error) => r is Err
                    && r->Err_0 is Read && r->Err_0->Read_0@ == error@,
            },
    {
        match outcome {
            FileOutcome::Done => Ok(()),
            FileOutcome::NotFound(_) => Ok(()),
            FileOutcome::AlreadyExists(error) => Err(SessionError::Read(error)),
            FileOutcome::Failed(error) => Err(SessionError::Read(error)),
        }
    }
}

/// A message entry.
pub open spec fn message_entry(
    id: Seq<char>,
    parent_id: Option<Seq<char>>,
    role: MessageRole,
    tool_call_id: Option<Seq<char>>,
    body: Seq<protocol::session::MessageBlockModel>,
) -> SessionEntryModel {
    SessionEntryModel::Message(MessageModel { id, parent_id, role, tool_call_id, body })
}

/// Returns the JSON text of the header of a session file, given its first line.
pub fn read_session_header(path: &str, first: Option<String>) -> (r: Result<String, SessionError>)
    ensures
        match (first, r) {
            (Some(line), Ok(header)) => header@ == text::trimmed_line_end(line@),
            (None, Err(SessionError::Read(error))) => error@ == header_error(path@),
            _ => false,
        },
{
    match first {
        Some(line) => Ok(text::trim_line_end(&line)),
        None => Err(
            SessionError::Read(text::concat3("session file ", path, " is missing its header")),
        ),
    }
}

/// The file of a session below the directory `base`.
pub open spec fn session_file(base: Seq<char>, id: Seq<char>) -> Seq<char> {
    paths::joined(base, id + ".jsonl"@)
}

/// The session directory below the data directory of the user.
pub open spec fn default_dir(xdg_data_home: Option<&str>, home: Option<&str>) -> Seq<char> {
    let data = match xdg_data_home {
        Some(dir) => dir@,
        None => {
            let home = match home {
                Some(dir) => dir@,
                None => "."@,
            };
            paths::joined(paths::joined(home, ".local"@), "share"@)
        },
    };
    paths::joined(paths::joined(data, "byte"@), "sessions"@)
}

/// Returns the default directory for session storage: `XDG_DATA_HOME`, or `.local/share`
/// below `HOME`, extended by `byte/sessions`.
pub fn default_base_dir(xdg_data_home: Option<&str>, home: Option<&str>) -> (r: String)
    ensures
        r@ == default_dir(xdg_data_home, home),
{
    let data_dir = match xdg_data_home {
        Some(dir) => dir.to_owned(),
        None => {
            let home = match home {
                Some(dir) => dir,
                None => ".",
            };
            paths::join(&paths::join(home, ".local"), "share")
        },
    };
    paths::join(&paths::join(&data_dir, "byte"), "sessions")
}

/// The file of a session with an accepted identifier stands directly in the session
/// directory: what follows the directory is one plain file name.
pub proof fn law_session_file_stays_inside(base: Seq<char>, id: Seq<char>)
    requires
        paths::is_absolute(base),
        id_fault(id) is None,
    ensures
        ({
            let name = id + ".jsonl"@;
            &&& session_file(base, id) == (if base.last() == '/' {
                base + name
            } else {
                base.push('/') + name
            })
            &&& !name.contains('/')
            &&& !name.contains('\\')
            &&& name[0] != '.'
        }),
{
    reveal_strlit(".jsonl");
    let name = id + ".jsonl"@;
    assert(forall|i: int| 0 <= i < 6 ==> ".jsonl"@[i] != '/' && ".jsonl"@[i] != '\\');
    assert forall|i: int| 0 <= i < name.len() implies name[i] != '/' && name[i] != '\\' by {
        if i < id.len() {
            assert(name[i] == id[i]);
            assert(id.contains(id[i]));
        } else {
            assert(name[i] == ".jsonl"@[i - id.len()]);
        }
    }
    assert(name[0] == id[0]);
}

/// Sessions with different identifiers have different files.
pub proof fn law_session_files_are_distinct(base: Seq<char>, a: Seq<char>, b: Seq<char>)
    requires
        id_fault(a) is None,
        id_fault(b) is None,
        session_file(base, a) == session_file(base, b),
    ensures
        a == b,
{
    reveal_strlit(".jsonl");
    let suffix = ".jsonl"@;
    assert(a.contains(a[0]));
    assert(b.contains(b[0]));
    assert((a + suffix)[0] == a[0]);
    assert((b + suffix)[0] == b[0]);
    let start = if base.len() == 0 || base.last() == '/' {
        base
    } else {
        base.push('/')
    };
    let x = start + (a + suffix);
    let y = start + (b + suffix);
    assert(x == session_file(base, a));
    assert(y == session_file(base, b));
    assert(a.len() == b.len());
    assert forall|i: int| 0 <= i < a.len() implies a[i] == b[i] by {
        assert(x[start.len() + i] == a[i]);
        assert(y[start.len() + i] == b[i]);
    }
    assert(a =~= b);
}

} // verus!
