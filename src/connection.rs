//! The decisions of one client connection: what each inbound message does to the
//! session and what goes straight back to the sender, and the leave on close.
#![allow(non_snake_case)]

use vstd::prelude::*;

use crate::presence::{active_only, apply_batch, upsert, views_of, with_cursor};
use crate::protocol::{
    appended, is_cursor_batch_of, is_cursor_move_of, is_join_of, pair_views, CollabMessage,
};
use crate::session::CollabSession;

verus! {

/// What the connection does after an inbound message.
pub enum Action {
    /// Nothing goes back to the sender.
    Continue,
    /// This message goes back to the sender only, not over the bus.
    Reply(CollabMessage),
    /// The client asked to leave: the connection ends.
    Close,
}

/// Error code sent back for a join at capacity.
pub open spec fn full_code() -> Seq<char> {
    "session_full"@
}

/// Error code sent back for a message a client may not send.
pub open spec fn unexpected_code() -> Seq<char> {
    "unexpected_message"@
}

pub open spec fn is_error_reply(a: Action, code: Seq<char>) -> bool {
    match a {
        Action::Reply(CollabMessage::Error { code: c, message: _ }) => c@ == code,
        _ => false,
    }
}

fn error_reply(code: &str, message: &str) -> (r: Action)
    ensures
        is_error_reply(r, code@),
{
    Action::Reply(CollabMessage::Error { code: code.to_owned(), message: message.to_owned() })
}

impl CollabSession {
    /// Carries out one message from a client at time `now`. Edits are relayed on the bus
    /// unchanged; a ping is answered with a pong of the same timestamp; a kind that a
    /// client may not send is answered with an error and changes nothing.
    pub fn handle_inbound_at(&mut self, msg: CollabMessage, now: i64) -> (r: Action)
        requires
            old(self).wf(),
        ensures
            final(self).wf(),
            final(self).id == old(self).id,
            final(self).createdAt == old(self).createdAt,
            final(self).maxUsers == old(self).maxUsers,
            match msg {
                CollabMessage::UserJoin { user } => if old(self).records().len()
                    < old(self).maxUsers {
                    r is Continue && final(self).records() == upsert(old(self).records(), user@)
                        && appended(old(self).published(), final(self).published()) && is_join_of(
                        final(self).published().last(),
                        user@,
                    )
                } else {
                    is_error_reply(r, full_code()) && final(self).records() == old(self).records()
                        && final(self).published() == old(self).published()
                },
                CollabMessage::CursorMove { userId, cursor } => r is Continue
                    && final(self).records() == with_cursor(
                    old(self).records(),
                    userId@,
                    cursor@,
                    now,
                ) && appended(old(self).published(), final(self).published())
                    && is_cursor_move_of(final(self).published().last(), userId@, cursor@),
                CollabMessage::CursorBatch { updates } => r is Continue && final(self).records()
                    == apply_batch(old(self).records(), pair_views(updates@), now) && appended(
                    old(self).published(),
                    final(self).published(),
                ) && is_cursor_batch_of(final(self).published().last(), pair_views(updates@)),
                CollabMessage::Edit { .. } | CollabMessage::EditBatch { .. } => r is Continue
                    && final(self).records() == old(self).records() && final(self).published()
                    == old(self).published().push(msg),
                CollabMessage::ListUsers => final(self).records() == old(self).records()
                    && final(self).published() == old(self).published() && match r {
                    Action::Reply(CollabMessage::Users { users }) => views_of(users@)
                        == active_only(old(self).records()),
                    _ => false,
                },
                CollabMessage::Ping { timestamp } => final(self).records() == old(self).records()
                    && final(self).published() == old(self).published() && match r {
                    Action::Reply(CollabMessage::Pong { timestamp: t }) => t == timestamp,
                    _ => false,
                },
                CollabMessage::UserLeave { .. } => r is Close && final(self).records()
                    == old(self).records() && final(self).published() == old(self).published(),
                _ => is_error_reply(r, unexpected_code()) && final(self).records()
                    == old(self).records() && final(self).published() == old(self).published(),
            },
    {
        match msg {
            CollabMessage::UserJoin { user } => {
                match self.add_user(user) {
                    Ok(()) => Action::Continue,
                    Err(_) => error_reply("session_full", "the session has no free place"),
                }
            },
            CollabMessage::CursorMove { userId, cursor } => {
                self.update_cursor_at(userId.as_str(), cursor, now);
                Action::Continue
            },
            CollabMessage::CursorBatch { updates } => {
                self.batch_cursor_updates_at(updates, now);
                Action::Continue
            },
            CollabMessage::Edit { userId, file, content, version } => {
                self.relay(CollabMessage::Edit { userId, file, content, version });
                Action::Continue
            },
            CollabMessage::EditBatch { updates } => {
                self.relay(CollabMessage::EditBatch { updates });
                Action::Continue
            },
            CollabMessage::ListUsers => Action::Reply(CollabMessage::Users { users: self.get_users() }),
            CollabMessage::Ping { timestamp } => Action::Reply(CollabMessage::Pong { timestamp }),
            CollabMessage::UserLeave { .. } => Action::Close,
            _ => error_reply("unexpected_message", "clients may not send this kind of message"),
        }
    }
}

/// Where one connection stands: whom it joined as, and whether it has ended.
pub struct Connection {
    user_id: Option<String>,
    closed: bool,
}

impl Connection {
    pub closed spec fn joined_as(&self) -> Option<Seq<char>> {
        match self.user_id {
            Some(id) => Some(id@),
            None => None,
        }
    }

    pub closed spec fn is_closed(&self) -> bool {
        self.closed
    }

    /// A connection that has not joined yet.
    pub fn new() -> (r: Connection)
        ensures
            r.joined_as() is None,
            !r.is_closed(),
    {
        Connection { user_id: None, closed: false }
    }

    /// Records the user the client joined as; ignored once the connection has ended.
    pub fn on_joined(&mut self, user_id: String)
        ensures
            final(self).is_closed() == old(self).is_closed(),
            old(self).is_closed() ==> final(self).joined_as() == old(self).joined_as(),
            !old(self).is_closed() ==> final(self).joined_as() == Some(user_id@),
    {
        if !self.closed {
            self.user_id = Some(user_id);
        }
    }

    /// Ends the connection. The first call hands back the user to remove from the
    /// session, if the client had joined; every later call hands back nothing, so that
    /// whichever loop ends first, the user leaves exactly once.
    pub fn on_close(&mut self) -> (r: Option<String>)
        ensures
            final(self).is_closed(),
            final(self).joined_as() == old(self).joined_as(),
            old(self).is_closed() ==> r is None,
            !old(self).is_closed() ==> match r {
                Some(id) => old(self).joined_as() == Some(id@),
                None => old(self).joined_as() is None,
            },
    {
        if self.closed {
            return None;
        }
        self.closed = true;
        match &self.user_id {
            Some(id) => Some(id.clone()),
            None => None,
        }
    }
}

} // verus!
