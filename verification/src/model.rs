//! The canonical message model: one parsed turn, one parsed transcript
//! summary, and the rows the index store persists.

use vstd::prelude::*;

verus! {

/// The mathematical shape of one conversational turn.
pub ghost struct MsgView {
    pub role: Option<Seq<char>>,
    pub text: Seq<char>,
    pub timestamp: Option<Seq<char>>,
}

/// One conversational turn: optional normalized role, text (possibly empty
/// for tool-call-only turns), optional timestamp.
pub struct ParsedMessage {
    pub role: Option<String>,
    pub text: String,
    pub timestamp: Option<String>,
}

impl View for ParsedMessage {
    type V = MsgView;

    open spec fn view(&self) -> MsgView {
        MsgView { role: self.role.deep_view(), text: self.text@, timestamp: self.timestamp.deep_view() }
    }
}

/// The mathematical shape of a parsed transcript summary.
pub ghost struct SessionView {
    pub created_at: Option<Seq<char>>,
    pub last_message_at: Option<Seq<char>>,
    pub agent: Option<Seq<char>>,
    pub workspace: Option<Seq<char>>,
    pub title: Option<Seq<char>>,
    pub message_count: int,
    pub snippet: Seq<char>,
    pub content: Seq<char>,
    pub messages: Seq<MsgView>,
}

/// One transcript file's extracted summary.
pub struct ParsedSession {
    pub created_at: Option<String>,
    pub last_message_at: Option<String>,
    pub agent: Option<String>,
    pub workspace: Option<String>,
    pub title: Option<String>,
    pub message_count: usize,
    pub snippet: String,
    pub content: String,
    pub messages: Vec<ParsedMessage>,
}

impl View for ParsedSession {
    type V = SessionView;

    open spec fn view(&self) -> SessionView {
        SessionView {
            created_at: self.created_at.deep_view(),
            last_message_at: self.last_message_at.deep_view(),
            agent: self.agent.deep_view(),
            workspace: self.workspace.deep_view(),
            title: self.title.deep_view(),
            message_count: self.message_count as int,
            snippet: self.snippet@,
            content: self.content@,
            messages: Seq::new(self.messages@.len(), |i: int| self.messages@[i]@),
        }
    }
}

/// The mathematical shape of a persisted session row.
pub ghost struct RecordView {
    pub path: Seq<char>,
    pub mtime: int,
    pub size: int,
    pub hash: Option<Seq<char>>,
    pub created_at: Option<Seq<char>>,
    pub last_message_at: Option<Seq<char>>,
    pub agent: Option<Seq<char>>,
    pub workspace: Option<Seq<char>>,
    pub title: Option<Seq<char>>,
    pub message_count: int,
    pub snippet: Seq<char>,
    pub content: Seq<char>,
    pub repo_root: Option<Seq<char>>,
    pub repo_name: Option<Seq<char>>,
    pub branch: Option<Seq<char>>,
}

/// One persisted session row: the parsed summary plus identity, staleness
/// fields, and repository context derived from the workspace.
#[derive(Clone)]
pub struct SessionRecord {
    pub path: String,
    pub mtime: i64,
    pub size: i64,
    pub hash: Option<String>,
    pub created_at: Option<String>,
    pub last_message_at: Option<String>,
    pub agent: Option<String>,
    pub workspace: Option<String>,
    pub title: Option<String>,
    pub message_count: i64,
    pub snippet: String,
    pub content: String,
    pub repo_root: Option<String>,
    pub repo_name: Option<String>,
    pub branch: Option<String>,
}

impl View for SessionRecord {
    type V = RecordView;

    open spec fn view(&self) -> RecordView {
        RecordView {
            path: self.path@,
            mtime: self.mtime as int,
            size: self.size as int,
            hash: self.hash.deep_view(),
            created_at: self.created_at.deep_view(),
            last_message_at: self.last_message_at.deep_view(),
            agent: self.agent.deep_view(),
            workspace: self.workspace.deep_view(),
            title: self.title.deep_view(),
            message_count: self.message_count as int,
            snippet: self.snippet@,
            content: self.content@,
            repo_root: self.repo_root.deep_view(),
            repo_name: self.repo_name.deep_view(),
            branch: self.branch.deep_view(),
        }
    }
}

/// One persisted message row; its session is identified by the path the
/// row set is stored under, and rows of one session are always replaced
/// together.
pub struct MessageRecord {
    pub turn_index: i64,
    pub role: Option<String>,
    pub timestamp: Option<String>,
    pub text: String,
}

/// The mathematical shape of one message row.
pub ghost struct MessageRecordView {
    pub turn_index: int,
    pub role: Option<Seq<char>>,
    pub timestamp: Option<Seq<char>>,
    pub text: Seq<char>,
}

impl View for MessageRecord {
    type V = MessageRecordView;

    open spec fn view(&self) -> MessageRecordView {
        MessageRecordView {
            turn_index: self.turn_index as int,
            role: self.role.deep_view(),
            timestamp: self.timestamp.deep_view(),
            text: self.text@,
        }
    }
}

/// One session-scope search hit. The relevance score is carried as the
/// engine's decimal rendering.
pub struct SessionHit {
    pub path: String,
    pub title: Option<String>,
    pub agent: Option<String>,
    pub workspace: Option<String>,
    pub repo_root: Option<String>,
    pub repo_name: Option<String>,
    pub branch: Option<String>,
    pub last_message_at: Option<String>,
    pub snippet: Option<String>,
    pub score: String,
}

/// One neighboring message returned as display context around a hit.
pub struct MessageContext {
    pub turn_index: i64,
    pub role: Option<String>,
    pub timestamp: Option<String>,
    pub text: String,
}

/// One message-scope search hit, optionally enriched with a context window.
pub struct MessageHit {
    pub path: String,
    pub turn_index: i64,
    pub role: Option<String>,
    pub timestamp: Option<String>,
    pub text: String,
    pub title: Option<String>,
    pub agent: Option<String>,
    pub workspace: Option<String>,
    pub repo_root: Option<String>,
    pub repo_name: Option<String>,
    pub branch: Option<String>,
    pub score: String,
    pub context: Option<Vec<MessageContext>>,
}

impl ParsedSession {
    /// A summary with nothing extracted: no metadata, no title, no messages.
    pub fn empty() -> (r: ParsedSession)
        ensures
            r@.created_at is None,
            r@.last_message_at is None,
            r@.agent is None,
            r@.workspace is None,
            r@.title is None,
            r@.message_count == 0,
            r@.snippet.len() == 0,
            r@.content.len() == 0,
            r@.messages.len() == 0,
    {
        ParsedSession {
            created_at: None,
            last_message_at: None,
            agent: None,
            workspace: None,
            title: None,
            message_count: 0,
            snippet: String::new(),
            content: String::new(),
            messages: Vec::new(),
        }
    }

    /// The session row this summary persists under `path`, with the given
    /// staleness fields; repository context starts absent.
    pub fn into_record(self, path: String, mtime: i64, size: i64, hash: Option<String>) -> (r:
        SessionRecord)
        requires
            self.message_count <= i64::MAX,
        ensures
            r@ == (RecordView {
                path: path@,
                mtime: mtime as int,
                size: size as int,
                hash: hash.deep_view(),
                created_at: self@.created_at,
                last_message_at: self@.last_message_at,
                agent: self@.agent,
                workspace: self@.workspace,
                title: self@.title,
                message_count: self@.message_count,
                snippet: self@.snippet,
                content: self@.content,
                repo_root: None,
                repo_name: None,
                branch: None,
            }),
    {
        SessionRecord {
            path,
            mtime,
            size,
            hash,
            created_at: self.created_at,
            last_message_at: self.last_message_at,
            agent: self.agent,
            workspace: self.workspace,
            title: self.title,
            message_count: self.message_count as i64,
            snippet: self.snippet,
            content: self.content,
            repo_root: None,
            repo_name: None,
            branch: None,
        }
    }
}

} // verus!
