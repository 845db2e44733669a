//! A collaboration session: the presence store behind the public operations, each
//! of which announces itself on the session's broadcast bus.
#![allow(non_snake_case)]

use vstd::prelude::*;

use crate::bus::{bus_send, bus_subscribe, open_bus};
use crate::clock::{fresh_id, now_timestamp};
use crate::presence::{
    active_only, apply_batch, deactivated, reaped, upsert, with_cursor, without, PresenceStore,
    SessionFull,
};
use crate::protocol::{
    appended, is_cursor_batch_of, is_cursor_move_of, is_inactive_of, is_join_of, is_leave_of,
    is_session_info_of, pair_views, CollabMessage, CursorPosition, PresenceView, UserPresence,
};

verus! {

/// The number of colors in the fixed palette.
pub const PALETTE_SIZE: usize = 8;

/// The fixed palette of user colors, by position.
pub open spec fn palette_color(i: int) -> Seq<char> {
    if i == 0 {
        "#FF6B6B"@
    } else if i == 1 {
        "#4ECDC4"@
    } else if i == 2 {
        "#45B7D1"@
    } else if i == 3 {
        "#FFA07A"@
    } else if i == 4 {
        "#98D8C8"@
    } else if i == 5 {
        "#F7DC6F"@
    } else if i == 6 {
        "#BB8FCE"@
    } else {
        "#85C1E2"@
    }
}

/// Two joiners get the same color only when their positions agree modulo the palette
/// size: colors repeat only once the palette is exhausted.
pub proof fn lemma_palette_distinct(i: usize, j: usize)
    requires
        i % PALETTE_SIZE != j % PALETTE_SIZE,
    ensures
        palette_color((i % PALETTE_SIZE) as int) != palette_color((j % PALETTE_SIZE) as int),
{
    reveal_strlit("#FF6B6B");
    reveal_strlit("#4ECDC4");
    reveal_strlit("#45B7D1");
    reveal_strlit("#FFA07A");
    reveal_strlit("#98D8C8");
    reveal_strlit("#F7DC6F");
    reveal_strlit("#BB8FCE");
    reveal_strlit("#85C1E2");
    let a = (i % PALETTE_SIZE) as int;
    let b = (j % PALETTE_SIZE) as int;
    assert(palette_color(a)[1] != palette_color(b)[1] || palette_color(a)[2] != palette_color(b)[2]
        || palette_color(a)[3] != palette_color(b)[3]);
}

/// The color of the `index`-th joiner: the palette repeats after its last color.
pub fn get_user_color(index: usize) -> (r: String)
    ensures
        r@ == palette_color((index % PALETTE_SIZE) as int),
{
    let i = index % PALETTE_SIZE;
    let c = if i == 0 {
        "#FF6B6B"
    } else if i == 1 {
        "#4ECDC4"
    } else if i == 2 {
        "#45B7D1"
    } else if i == 3 {
        "#FFA07A"
    } else if i == 4 {
        "#98D8C8"
    } else if i == 5 {
        "#F7DC6F"
    } else if i == 6 {
        "#BB8FCE"
    } else {
        "#85C1E2"
    };
    c.to_owned()
}

/// How many messages a subscriber may fall behind before it lags.
pub const BUS_CAPACITY: usize = 1000;

/// The messages a session has handed to its bus, oldest first. Only the session
/// itself adds to it.
pub struct PublishLog {
    log: Ghost<Seq<CollabMessage>>,
}

impl PublishLog {
    pub closed spec fn messages(&self) -> Seq<CollabMessage> {
        self.log@
    }

    fn new() -> (r: PublishLog)
        ensures
            r.messages() == Seq::<CollabMessage>::empty(),
    {
        PublishLog { log: Ghost(Seq::empty()) }
    }

    fn record(&mut self, m: Ghost<CollabMessage>)
        ensures
            final(self).messages() == old(self).messages().push(m@),
            appended(old(self).messages(), final(self).messages()),
    {
        let ghost before = self.log@;
        self.log = Ghost(self.log@.push(m@));
        assert(self.log@.drop_last() =~= before);
    }
}

/// One isolated collaboration scope with its own roster and event bus.
pub struct CollabSession {
    pub id: String,
    pub users: PresenceStore,
    pub tx: tokio::sync::broadcast::Sender<CollabMessage>,
    pub createdAt: i64,
    pub maxUsers: usize,
    pub sent: PublishLog,
}

impl CollabSession {
    /// The presence records of the session.
    pub open spec fn records(&self) -> Seq<PresenceView> {
        self.users.records()
    }

    /// Every message this session has handed to its bus, oldest first.
    pub open spec fn published(&self) -> Seq<CollabMessage> {
        self.sent.messages()
    }

    /// The capacity of the store is `maxUsers`, and the store's own invariant holds.
    pub open spec fn wf(&self) -> bool {
        self.users.wf() && self.users.capacity() == self.maxUsers
    }

    /// What every well-formed session satisfies: unique ids, at most `maxUsers` records.
    pub proof fn lemma_wf(&self)
        requires
            self.wf(),
        ensures
            crate::presence::ids_unique(self.records()),
            self.records().len() <= self.maxUsers,
    {
    }

    /// A new empty session with a fresh id, created now.
    pub fn new(max_users: usize) -> (r: CollabSession)
        ensures
            r.wf(),
            r.records() == Seq::<PresenceView>::empty(),
            r.maxUsers == max_users,
            r.id@.len() == 36,
            r.published() == Seq::<CollabMessage>::empty(),
    {
        CollabSession {
            id: fresh_id(),
            users: PresenceStore::new(max_users),
            tx: open_bus(BUS_CAPACITY),
            createdAt: now_timestamp(),
            maxUsers: max_users,
            sent: PublishLog::new(),
        }
    }

    /// Hands `msg` to the bus and records it.
    fn publish(&mut self, msg: CollabMessage)
        ensures
            final(self).published() == old(self).published().push(msg),
            appended(old(self).published(), final(self).published()),
            final(self).records() == old(self).records(),
            final(self).wf() == old(self).wf(),
            final(self).id == old(self).id,
            final(self).createdAt == old(self).createdAt,
            final(self).maxUsers == old(self).maxUsers,
    {
        let ghost m = msg;
        bus_send(&self.tx, msg);
        self.sent.record(Ghost(m));
    }

    /// Publishes a client's message unchanged.
    pub fn relay(&mut self, msg: CollabMessage)
        requires
            old(self).wf(),
        ensures
            final(self).wf(),
            final(self).id == old(self).id,
            final(self).createdAt == old(self).createdAt,
            final(self).maxUsers == old(self).maxUsers,
            final(self).records() == old(self).records(),
            final(self).published() == old(self).published().push(msg),
    {
        self.publish(msg);
    }

    /// A new subscription to the bus; it receives only messages published after this call.
    pub fn subscribe(&self) -> tokio::sync::broadcast::Receiver<CollabMessage> {
        bus_subscribe(&self.tx)
    }

    /// Admits `presence` unless the session is full, then announces the join.
    pub fn add_user(&mut self, presence: UserPresence) -> (r: Result<(), SessionFull>)
        requires
            old(self).wf(),
        ensures
            final(self).wf(),
            final(self).id == old(self).id,
            final(self).createdAt == old(self).createdAt,
            final(self).maxUsers == old(self).maxUsers,
            old(self).records().len() >= old(self).maxUsers ==> r == Err::<(), SessionFull>(
                SessionFull { max_users: old(self).maxUsers },
            ) && final(self).records() == old(self).records() && final(self).published()
                == old(self).published(),
            old(self).records().len() < old(self).maxUsers ==> r is Ok && final(self).records()
                == upsert(old(self).records(), presence@) && appended(
                old(self).published(),
                final(self).published(),
            ) && is_join_of(final(self).published().last(), presence@),
    {
        let announced = presence.duplicate();
        match self.users.add(presence) {
            Ok(()) => {
                self.publish(CollabMessage::UserJoin { user: announced });
                Ok(())
            },
            Err(e) => Err(e),
        }
    }

    /// Removes the user, if present, and always announces the leave.
    pub fn remove_user(&mut self, user_id: &str)
        requires
            old(self).wf(),
        ensures
            final(self).wf(),
            final(self).id == old(self).id,
            final(self).createdAt == old(self).createdAt,
            final(self).maxUsers == old(self).maxUsers,
            final(self).records() == without(old(self).records(), user_id@),
            appended(old(self).published(), final(self).published()),
            is_leave_of(final(self).published().last(), user_id@),
    {
        self.users.remove(user_id);
        self.publish(CollabMessage::UserLeave { userId: user_id.to_owned() });
    }

    /// Flags the user inactive, if present, and always announces it.
    pub fn mark_inactive(&mut self, user_id: &str)
        requires
            old(self).wf(),
        ensures
            final(self).wf(),
            final(self).id == old(self).id,
            final(self).createdAt == old(self).createdAt,
            final(self).maxUsers == old(self).maxUsers,
            final(self).records() == deactivated(old(self).records(), user_id@),
            appended(old(self).published(), final(self).published()),
            is_inactive_of(final(self).published().last(), user_id@),
    {
        self.users.mark_inactive(user_id);
        self.publish(CollabMessage::UserInactive { userId: user_id.to_owned() });
    }

    /// Moves the user's cursor, seen at `now`, and announces the move even for an
    /// unknown id.
    pub fn update_cursor_at(&mut self, user_id: &str, cursor: CursorPosition, now: i64)
        requires
            old(self).wf(),
        ensures
            final(self).wf(),
            final(self).id == old(self).id,
            final(self).createdAt == old(self).createdAt,
            final(self).maxUsers == old(self).maxUsers,
            final(self).records() == with_cursor(old(self).records(), user_id@, cursor@, now),
            appended(old(self).published(), final(self).published()),
            is_cursor_move_of(final(self).published().last(), user_id@, cursor@),
    {
        let announced = cursor.duplicate();
        self.users.update_cursor(user_id, cursor, now);
        self.publish(CollabMessage::CursorMove { userId: user_id.to_owned(), cursor: announced });
    }

    /// Moves the user's cursor as seen now, and announces the move even for an unknown id.
    pub fn update_cursor(&mut self, user_id: &str, cursor: CursorPosition)
        requires
            old(self).wf(),
        ensures
            final(self).wf(),
            final(self).id == old(self).id,
            final(self).createdAt == old(self).createdAt,
            final(self).maxUsers == old(self).maxUsers,
            exists|now: i64|
                final(self).records() == with_cursor(old(self).records(), user_id@, cursor@, now),
            appended(old(self).published(), final(self).published()),
            is_cursor_move_of(final(self).published().last(), user_id@, cursor@),
    {
        let now = now_timestamp();
        self.update_cursor_at(user_id, cursor, now);
    }

    /// Applies the cursor updates in order, all seen at `now`, then announces the whole
    /// batch in one message.
    pub fn batch_cursor_updates_at(&mut self, updates: Vec<(String, CursorPosition)>, now: i64)
        requires
            old(self).wf(),
        ensures
            final(self).wf(),
            final(self).id == old(self).id,
            final(self).createdAt == old(self).createdAt,
            final(self).maxUsers == old(self).maxUsers,
            final(self).records() == apply_batch(old(self).records(), pair_views(updates@), now),
            appended(old(self).published(), final(self).published()),
            is_cursor_batch_of(final(self).published().last(), pair_views(updates@)),
    {
        self.users.batch_update_cursors(&updates, now);
        self.publish(CollabMessage::CursorBatch { updates });
    }

    /// Applies the cursor updates in order, seen now, then announces the whole batch.
    pub fn batch_cursor_updates(&mut self, updates: Vec<(String, CursorPosition)>)
        requires
            old(self).wf(),
        ensures
            final(self).wf(),
            final(self).id == old(self).id,
            final(self).createdAt == old(self).createdAt,
            final(self).maxUsers == old(self).maxUsers,
            exists|now: i64|
                final(self).records() == apply_batch(
                    old(self).records(),
                    pair_views(updates@),
                    now,
                ),
            appended(old(self).published(), final(self).published()),
            is_cursor_batch_of(final(self).published().last(), pair_views(updates@)),
    {
        let now = now_timestamp();
        self.batch_cursor_updates_at(updates, now);
    }

    /// The active users, in join order.
    pub fn get_users(&self) -> (r: Vec<UserPresence>)
        requires
            self.wf(),
        ensures
            crate::presence::views_of(r@) == active_only(self.records()),
    {
        self.users.snapshot_active()
    }

    /// The record of one user, active or not.
    pub fn get_user(&self, user_id: &str) -> (r: Option<UserPresence>)
        requires
            self.wf(),
        ensures
            r is Some <==> crate::presence::has_id(self.records(), user_id@),
            r is Some ==> exists|i: int|
                0 <= i < self.records().len() && self.records()[i].id == user_id@
                    && self.records()[i] == r->Some_0@,
    {
        self.users.get(user_id)
    }

    /// Id, number of active users and creation time of the session.
    pub fn info(&self) -> (r: CollabMessage)
        requires
            self.wf(),
        ensures
            is_session_info_of(r, self.id@, active_only(self.records()).len(), self.createdAt),
    {
        let active = self.users.snapshot_active();
        CollabMessage::SessionInfo {
            sessionId: self.id.clone(),
            usersCount: active.len(),
            createdAt: self.createdAt,
        }
    }

    /// Removes every user not seen for more than `timeout_secs` seconds before `now`.
    /// No leave is announced for them; their ids are returned so that a caller may.
    pub fn cleanup_inactive_at(&mut self, now: i64, timeout_secs: i64) -> (r: Vec<String>)
        requires
            old(self).wf(),
        ensures
            final(self).wf(),
            final(self).id == old(self).id,
            final(self).createdAt == old(self).createdAt,
            final(self).maxUsers == old(self).maxUsers,
            final(self).published() == old(self).published(),
            final(self).records() == reaped(old(self).records(), now, timeout_secs),
            crate::presence::id_views(r@) == crate::presence::stale_ids(
                old(self).records(),
                now,
                timeout_secs,
            ),
    {
        self.users.reap_older_than(now, timeout_secs)
    }

    /// Removes every user not seen for more than `timeout_secs` seconds before now.
    pub fn cleanup_inactive(&mut self, timeout_secs: i64)
        requires
            old(self).wf(),
        ensures
            final(self).wf(),
            final(self).id == old(self).id,
            final(self).createdAt == old(self).createdAt,
            final(self).maxUsers == old(self).maxUsers,
            final(self).published() == old(self).published(),
            exists|now: i64|
                now >= 0 && final(self).records() == reaped(old(self).records(), now, timeout_secs),
    {
        let now = now_timestamp();
        let _removed = self.cleanup_inactive_at(now, timeout_secs);
    }
}

} // verus!
