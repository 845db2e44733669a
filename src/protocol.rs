//! Value types of the collaboration protocol and their mathematical views.
#![allow(non_snake_case)]

use vstd::prelude::*;

verus! {

/// What a cursor position is, as a mathematical value.
pub struct CursorView {
    pub line: u32,
    pub column: u32,
    pub file: Seq<char>,
    pub timestamp: i64,
}

/// What a presence record is, as a mathematical value.
pub struct PresenceView {
    pub id: Seq<char>,
    pub name: Seq<char>,
    pub color: Seq<char>,
    pub cursor: Option<CursorView>,
    pub last_seen: i64,
    pub active: bool,
}

/// Cursor position in an editor: line, column, file and the producer's timestamp.
#[derive(Debug, Clone)]
pub struct CursorPosition {
    pub line: u32,
    pub column: u32,
    pub file: String,
    pub timestamp: i64,
}

impl View for CursorPosition {
    type V = CursorView;

    open spec fn view(&self) -> CursorView {
        CursorView {
            line: self.line,
            column: self.column,
            file: self.file@,
            timestamp: self.timestamp,
        }
    }
}

pub open spec fn cursor_opt_view(c: Option<CursorPosition>) -> Option<CursorView> {
    match c {
        Some(p) => Some(p@),
        None => None,
    }
}

impl CursorPosition {
    /// A copy of this position with the same view.
    pub fn duplicate(&self) -> (r: CursorPosition)
        ensures
            r@ == self@,
    {
        CursorPosition {
            line: self.line,
            column: self.column,
            file: self.file.clone(),
            timestamp: self.timestamp,
        }
    }
}

pub fn duplicate_cursor_opt(c: &Option<CursorPosition>) -> (r: Option<CursorPosition>)
    ensures
        cursor_opt_view(r) == cursor_opt_view(*c),
{
    match c {
        Some(p) => Some(p.duplicate()),
        None => None,
    }
}

/// A participant's live state within a session.
#[derive(Debug, Clone)]
pub struct UserPresence {
    pub id: String,
    pub name: String,
    pub color: String,
    pub cursor: Option<CursorPosition>,
    pub lastSeen: i64,
    pub isActive: bool,
}

impl View for UserPresence {
    type V = PresenceView;

    open spec fn view(&self) -> PresenceView {
        PresenceView {
            id: self.id@,
            name: self.name@,
            color: self.color@,
            cursor: cursor_opt_view(self.cursor),
            last_seen: self.lastSeen,
            active: self.isActive,
        }
    }
}

impl UserPresence {
    /// A fresh, active presence with no cursor, last seen at `now`.
    pub fn new_at(id: String, name: String, color: String, now: i64) -> (r: UserPresence)
        ensures
            r@ == (PresenceView {
                id: id@,
                name: name@,
                color: color@,
                cursor: None,
                last_seen: now,
                active: true,
            }),
    {
        UserPresence { id, name, color, cursor: None, lastSeen: now, isActive: true }
    }

    /// A fresh, active presence with no cursor, last seen now.
    pub fn new(id: String, name: String, color: String) -> (r: UserPresence)
        ensures
            r@.id == id@,
            r@.name == name@,
            r@.color == color@,
            r@.cursor is None,
            r@.active,
    {
        let now = crate::clock::now_timestamp();
        UserPresence::new_at(id, name, color, now)
    }

    /// A copy of this record with the same view.
    pub fn duplicate(&self) -> (r: UserPresence)
        ensures
            r@ == self@,
    {
        UserPresence {
            id: self.id.clone(),
            name: self.name.clone(),
            color: self.color.clone(),
            cursor: duplicate_cursor_opt(&self.cursor),
            lastSeen: self.lastSeen,
            isActive: self.isActive,
        }
    }
}

/// One replacement of a range of a file's text.
#[derive(Debug)]
pub struct TextChange {
    pub range: (u32, u32),
    pub text: String,
}

impl Clone for TextChange {
    fn clone(&self) -> (r: TextChange)
        ensures
            r.range == self.range,
            r.text@ == self.text@,
    {
        TextChange { range: (self.range.0, self.range.1), text: self.text.clone() }
    }
}

/// A batch of changes to one file, relayed unchanged.
#[derive(Debug, Clone)]
pub struct EditOp {
    pub userId: String,
    pub file: String,
    pub changes: Vec<TextChange>,
    pub version: u32,
    pub timestamp: i64,
}

/// The closed set of messages exchanged between clients and a session.
#[derive(Debug, Clone)]
pub enum CollabMessage {
    UserJoin { user: UserPresence },
    UserLeave { userId: String },
    UserInactive { userId: String },
    CursorMove { userId: String, cursor: CursorPosition },
    CursorBatch { updates: Vec<(String, CursorPosition)> },
    Edit { userId: String, file: String, content: String, version: u32 },
    EditBatch { updates: Vec<EditOp> },
    ListUsers,
    Users { users: Vec<UserPresence> },
    SessionInfo { sessionId: String, usersCount: usize, createdAt: i64 },
    Ping { timestamp: i64 },
    Pong { timestamp: i64 },
    Error { code: String, message: String },
    Ack { messageId: String },
}

/// `after` is `before` with one more message at its end.
pub open spec fn appended(before: Seq<CollabMessage>, after: Seq<CollabMessage>) -> bool {
    after.len() == before.len() + 1 && after.drop_last() == before
}

pub open spec fn is_join_of(m: CollabMessage, p: PresenceView) -> bool {
    match m {
        CollabMessage::UserJoin { user } => user@ == p,
        _ => false,
    }
}

pub open spec fn is_leave_of(m: CollabMessage, id: Seq<char>) -> bool {
    match m {
        CollabMessage::UserLeave { userId } => userId@ == id,
        _ => false,
    }
}

pub open spec fn is_inactive_of(m: CollabMessage, id: Seq<char>) -> bool {
    match m {
        CollabMessage::UserInactive { userId } => userId@ == id,
        _ => false,
    }
}

pub open spec fn is_cursor_move_of(m: CollabMessage, id: Seq<char>, c: CursorView) -> bool {
    match m {
        CollabMessage::CursorMove { userId, cursor } => userId@ == id && cursor@ == c,
        _ => false,
    }
}

pub open spec fn pair_views(v: Seq<(String, CursorPosition)>) -> Seq<(Seq<char>, CursorView)> {
    v.map_values(|e: (String, CursorPosition)| (e.0@, e.1@))
}

pub open spec fn is_cursor_batch_of(m: CollabMessage, u: Seq<(Seq<char>, CursorView)>) -> bool {
    match m {
        CollabMessage::CursorBatch { updates } => pair_views(updates@) == u,
        _ => false,
    }
}

pub open spec fn is_session_info_of(m: CollabMessage, id: Seq<char>, count: nat, created: i64) -> bool {
    match m {
        CollabMessage::SessionInfo { sessionId, usersCount, createdAt } => sessionId@ == id
            && usersCount == count && createdAt == created,
        _ => false,
    }
}

} // verus!
