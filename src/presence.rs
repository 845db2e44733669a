//! The presence store: the records of one session's participants, keyed by id.
use vstd::prelude::*;

use crate::protocol::{pair_views, CursorPosition, CursorView, PresenceView, UserPresence};

verus! {

/// No two records share an id.
pub open spec fn ids_unique(s: Seq<PresenceView>) -> bool {
    forall|i: int, j: int|
        0 <= i < s.len() && 0 <= j < s.len() && i != j ==> s[i].id != s[j].id
}

pub open spec fn has_id(s: Seq<PresenceView>, id: Seq<char>) -> bool {
    exists|i: int| 0 <= i < s.len() && s[i].id == id
}

/// Inserts `p`, replacing the record that has its id if there is one.
pub open spec fn upsert(s: Seq<PresenceView>, p: PresenceView) -> Seq<PresenceView> {
    if has_id(s, p.id) {
        s.map_values(|q: PresenceView| if q.id == p.id { p } else { q })
    } else {
        s.push(p)
    }
}

/// The records whose id is not `id`.
pub open spec fn without(s: Seq<PresenceView>, id: Seq<char>) -> Seq<PresenceView> {
    s.filter(other_than(id))
}

pub open spec fn other_than(id: Seq<char>) -> spec_fn(PresenceView) -> bool {
    |q: PresenceView| q.id != id
}

pub open spec fn deactivate(q: PresenceView) -> PresenceView {
    PresenceView { active: false, ..q }
}

/// The record with id `id`, if any, flagged inactive.
pub open spec fn deactivated(s: Seq<PresenceView>, id: Seq<char>) -> Seq<PresenceView> {
    s.map_values(|q: PresenceView| if q.id == id { deactivate(q) } else { q })
}

pub open spec fn moved(q: PresenceView, c: CursorView, now: i64) -> PresenceView {
    PresenceView { cursor: Some(c), last_seen: now, ..q }
}

/// The record with id `id`, if any, with cursor `c` and last seen at `now`.
pub open spec fn with_cursor(s: Seq<PresenceView>, id: Seq<char>, c: CursorView, now: i64) -> Seq<
    PresenceView,
> {
    s.map_values(|q: PresenceView| if q.id == id { moved(q, c, now) } else { q })
}

/// The cursor updates applied one after another, in order.
pub open spec fn apply_batch(
    s: Seq<PresenceView>,
    u: Seq<(Seq<char>, CursorView)>,
    now: i64,
) -> Seq<PresenceView>
    decreases u.len(),
{
    if u.len() == 0 {
        s
    } else {
        with_cursor(apply_batch(s, u.drop_last(), now), u.last().0, u.last().1, now)
    }
}

/// The records flagged active, in store order.
pub open spec fn active_only(s: Seq<PresenceView>) -> Seq<PresenceView> {
    s.filter(is_active())
}

pub open spec fn is_active() -> spec_fn(PresenceView) -> bool {
    |q: PresenceView| q.active
}

/// A record not seen for more than `timeout` seconds before `now`.
pub open spec fn is_stale(q: PresenceView, now: i64, timeout: i64) -> bool {
    now - q.last_seen > timeout
}

/// The records that are not stale.
pub open spec fn reaped(s: Seq<PresenceView>, now: i64, timeout: i64) -> Seq<PresenceView> {
    s.filter(fresh(now, timeout))
}

pub open spec fn fresh(now: i64, timeout: i64) -> spec_fn(PresenceView) -> bool {
    |q: PresenceView| !is_stale(q, now, timeout)
}

pub open spec fn stale(now: i64, timeout: i64) -> spec_fn(PresenceView) -> bool {
    |q: PresenceView| is_stale(q, now, timeout)
}

/// The ids of the stale records, in store order.
pub open spec fn stale_ids(s: Seq<PresenceView>, now: i64, timeout: i64) -> Seq<Seq<char>> {
    s.filter(stale(now, timeout)).map_values(|q: PresenceView| q.id)
}

/// One more element of the prefix, through a filter.
pub proof fn lemma_filter_step(s: Seq<PresenceView>, i: int, pred: spec_fn(PresenceView) -> bool)
    requires
        0 <= i < s.len(),
    ensures
        s.subrange(0, i + 1).filter(pred) == (if pred(s[i]) {
            s.subrange(0, i).filter(pred).push(s[i])
        } else {
            s.subrange(0, i).filter(pred)
        }),
{
    reveal(Seq::filter);
    assert(s.subrange(0, i + 1).drop_last() =~= s.subrange(0, i));
}

pub open spec fn views_of(v: Seq<UserPresence>) -> Seq<PresenceView> {
    v.map_values(|u: UserPresence| u@)
}

pub open spec fn id_views(v: Seq<String>) -> Seq<Seq<char>> {
    v.map_values(|s: String| s@)
}


/// Every element of a filtered sequence comes from the original, and unique ids stay unique.
pub proof fn lemma_filter_keeps_unique(s: Seq<PresenceView>, pred: spec_fn(PresenceView) -> bool)
    requires
        ids_unique(s),
    ensures
        ids_unique(s.filter(pred)),
        forall|i: int| 0 <= i < s.filter(pred).len() ==> s.contains(#[trigger] s.filter(pred)[i]),
    decreases s.len(),
{
    reveal(Seq::filter);
    if s.len() > 0 {
        let d = s.drop_last();
        assert(ids_unique(d));
        lemma_filter_keeps_unique(d, pred);
        let f = s.filter(pred);
        let fd = d.filter(pred);
        assert forall|i: int| 0 <= i < f.len() implies s.contains(#[trigger] f[i]) by {
            if i < fd.len() {
                assert(f[i] == fd[i]);
                assert(d.contains(fd[i]));
                let j = choose|j: int| 0 <= j < d.len() && d[j] == fd[i];
                assert(s[j] == f[i]);
            } else {
                assert(f[i] == s[s.len() - 1]);
            }
        }
        if pred(s.last()) {
            assert forall|i: int, j: int|
                0 <= i < f.len() && 0 <= j < f.len() && i != j implies f[i].id != f[j].id by {
                if i < fd.len() && j < fd.len() {
                    assert(f[i] == fd[i] && f[j] == fd[j]);
                } else if i < fd.len() {
                    assert(d.contains(fd[i]));
                    let k = choose|k: int| 0 <= k < d.len() && d[k] == fd[i];
                    assert(s[k].id != s[s.len() - 1].id);
                } else if j < fd.len() {
                    assert(d.contains(fd[j]));
                    let k = choose|k: int| 0 <= k < d.len() && d[k] == fd[j];
                    assert(s[k].id != s[s.len() - 1].id);
                }
            }
        }
    }
}

/// Error of a join at capacity.
#[derive(Debug, Clone, Copy, PartialEq, Eq)]
pub struct SessionFull {
    pub max_users: usize,
}

/// The presence records of one session, in the order their ids first joined.
pub struct PresenceStore {
    users: Vec<UserPresence>,
    max_users: usize,
}

impl PresenceStore {
    /// What the store holds.
    pub closed spec fn records(&self) -> Seq<PresenceView> {
        views_of(self.users@)
    }

    /// The most records the store admits.
    pub closed spec fn capacity(&self) -> nat {
        self.max_users as nat
    }

    /// Ids are unique and the capacity is never exceeded.
    pub open spec fn wf(&self) -> bool {
        ids_unique(self.records()) && self.records().len() <= self.capacity()
    }

    /// An empty store admitting at most `max_users` records.
    pub fn new(max_users: usize) -> (r: PresenceStore)
        ensures
            r.wf(),
            r.records() == Seq::<PresenceView>::empty(),
            r.capacity() == max_users,
    {
        let r = PresenceStore { users: Vec::new(), max_users };
        assert(r.records() =~= Seq::<PresenceView>::empty());
        r
    }

    /// The number of records, active or not.
    pub fn len(&self) -> (r: usize)
        ensures
            r == self.records().len(),
    {
        self.users.len()
    }

    pub fn max_users(&self) -> (r: usize)
        ensures
            r == self.capacity(),
    {
        self.max_users
    }

    /// The position of the record with id `id`.
    fn index_of(&self, id: &str) -> (r: Option<usize>)
        requires
            self.wf(),
        ensures
            match r {
                Some(i) => i < self.records().len() && self.records()[i as int].id == id@,
                None => !has_id(self.records(), id@),
            },
    {
        let key = id.to_owned();
        let mut i: usize = 0;
        while i < self.users.len()
            invariant
                i <= self.users@.len(),
                key@ == id@,
                forall|j: int| 0 <= j < i ==> self.records()[j].id != id@,
            decreases self.users@.len() - i,
        {
            if self.users[i].id == key {
                return Some(i);
            }
            i = i + 1;
        }
        None
    }

    /// Inserts `presence`, replacing a record with the same id; refused at capacity.
    pub fn add(&mut self, presence: UserPresence) -> (r: Result<(), SessionFull>)
        requires
            old(self).wf(),
        ensures
            final(self).wf(),
            final(self).capacity() == old(self).capacity(),
            old(self).records().len() >= old(self).capacity() ==> r == Err::<(), SessionFull>(
                SessionFull { max_users: old(self).capacity() as usize },
            ) && final(self).records() == old(self).records(),
            old(self).records().len() < old(self).capacity() ==> r is Ok && final(self).records()
                == upsert(old(self).records(), presence@),
    {
        if self.users.len() >= self.max_users {
            return Err(SessionFull { max_users: self.max_users });
        }
        let ghost s = self.records();
        let ghost p = presence@;
        match self.index_of(presence.id.as_str()) {
            Some(i) => {
                self.users.set(i, presence);
                assert(self.records() =~= upsert(s, p));
            },
            None => {
                self.users.push(presence);
                assert(self.records() =~= upsert(s, p));
            },
        }
        Ok(())
    }

    /// Removes the record with id `id`; nothing happens if there is none.
    pub fn remove(&mut self, id: &str)
        requires
            old(self).wf(),
        ensures
            final(self).wf(),
            final(self).capacity() == old(self).capacity(),
            final(self).records() == without(old(self).records(), id@),
    {
        let ghost s = self.records();
        let key = id.to_owned();
        let mut kept: Vec<UserPresence> = Vec::new();
        let mut i: usize = 0;
        while i < self.users.len()
            invariant
                i <= self.users@.len(),
                s == self.records(),
                key@ == id@,
                views_of(kept@) == s.subrange(0, i as int).filter(other_than(id@)),
            decreases self.users@.len() - i,
        {
            proof {
                lemma_filter_step(s, i as int, other_than(id@));
            }
            if !(self.users[i].id == key) {
                let ghost before = kept@;
                kept.push(self.users[i].duplicate());
                assert(views_of(kept@) =~= views_of(before).push(s[i as int]));
            }
            i = i + 1;
        }
        assert(s.subrange(0, s.len() as int) =~= s);
        proof {
            lemma_filter_keeps_unique(s, other_than(id@));
        }
        self.users = kept;
    }

    /// Flags the record with id `id` inactive, keeping it; nothing happens if there is none.
    pub fn mark_inactive(&mut self, id: &str)
        requires
            old(self).wf(),
        ensures
            final(self).wf(),
            final(self).capacity() == old(self).capacity(),
            final(self).records() == deactivated(old(self).records(), id@),
    {
        let ghost s = self.records();
        match self.index_of(id) {
            Some(i) => {
                let mut u = self.users[i].duplicate();
                u.isActive = false;
                self.users.set(i, u);
                assert(self.records() =~= deactivated(s, id@));
            },
            None => {
                assert(self.records() =~= deactivated(s, id@));
            },
        }
    }

    /// Sets the cursor of the record with id `id` and marks it seen at `now`; an
    /// unknown id changes nothing.
    pub fn update_cursor(&mut self, id: &str, cursor: CursorPosition, now: i64)
        requires
            old(self).wf(),
        ensures
            final(self).wf(),
            final(self).capacity() == old(self).capacity(),
            final(self).records() == with_cursor(old(self).records(), id@, cursor@, now),
    {
        let ghost s = self.records();
        let ghost c = cursor@;
        match self.index_of(id) {
            Some(i) => {
                let mut u = self.users[i].duplicate();
                u.cursor = Some(cursor);
                u.lastSeen = now;
                self.users.set(i, u);
                assert(self.records() =~= with_cursor(s, id@, c, now));
            },
            None => {
                assert(self.records() =~= with_cursor(s, id@, c, now));
            },
        }
    }

    /// Applies each (id, cursor) pair in order; pairs with an unknown id are skipped.
    pub fn batch_update_cursors(&mut self, updates: &Vec<(String, CursorPosition)>, now: i64)
        requires
            old(self).wf(),
        ensures
            final(self).wf(),
            final(self).capacity() == old(self).capacity(),
            final(self).records() == apply_batch(old(self).records(), pair_views(updates@), now),
    {
        let ghost s = self.records();
        let ghost u = pair_views(updates@);
        let mut k: usize = 0;
        while k < updates.len()
            invariant
                k <= updates@.len(),
                self.wf(),
                self.capacity() == old(self).capacity(),
                s == old(self).records(),
                u == pair_views(updates@),
                self.records() == apply_batch(s, u.take(k as int), now),
            decreases updates@.len() - k,
        {
            let (uid, c) = &updates[k];
            self.update_cursor(uid.as_str(), c.duplicate(), now);
            assert(u.take(k + 1).drop_last() =~= u.take(k as int));
            k = k + 1;
        }
        assert(u.take(updates@.len() as int) =~= u);
    }

    /// The active records, in store order.
    pub fn snapshot_active(&self) -> (r: Vec<UserPresence>)
        requires
            self.wf(),
        ensures
            views_of(r@) == active_only(self.records()),
    {
        let ghost s = self.records();
        let mut out: Vec<UserPresence> = Vec::new();
        let mut i: usize = 0;
        while i < self.users.len()
            invariant
                i <= self.users@.len(),
                s == self.records(),
                views_of(out@) == s.subrange(0, i as int).filter(is_active()),
            decreases self.users@.len() - i,
        {
            proof {
                lemma_filter_step(s, i as int, is_active());
            }
            if self.users[i].isActive {
                let ghost before = out@;
                out.push(self.users[i].duplicate());
                assert(views_of(out@) =~= views_of(before).push(s[i as int]));
            }
            i = i + 1;
        }
        assert(s.subrange(0, s.len() as int) =~= s);
        out
    }

    /// A copy of the record with id `id`, if there is one.
    pub fn get(&self, id: &str) -> (r: Option<UserPresence>)
        requires
            self.wf(),
        ensures
            r is Some <==> has_id(self.records(), id@),
            r is Some ==> exists|i: int|
                0 <= i < self.records().len() && self.records()[i].id == id@ && self.records()[i]
                    == r->Some_0@,
    {
        match self.index_of(id) {
            Some(i) => Some(self.users[i].duplicate()),
            None => None,
        }
    }

    /// Removes every record not seen for more than `timeout` seconds before `now`,
    /// and returns the removed ids in store order.
    pub fn reap_older_than(&mut self, now: i64, timeout: i64) -> (r: Vec<String>)
        requires
            old(self).wf(),
        ensures
            final(self).wf(),
            final(self).capacity() == old(self).capacity(),
            final(self).records() == reaped(old(self).records(), now, timeout),
            id_views(r@) == stale_ids(old(self).records(), now, timeout),
    {
        let ghost s = self.records();
        let mut kept: Vec<UserPresence> = Vec::new();
        let mut gone: Vec<String> = Vec::new();
        let mut i: usize = 0;
        while i < self.users.len()
            invariant
                i <= self.users@.len(),
                s == self.records(),
                views_of(kept@) == s.subrange(0, i as int).filter(fresh(now, timeout)),
                id_views(gone@) == s.subrange(0, i as int).filter(stale(now, timeout)).map_values(
                    |q: PresenceView| q.id,
                ),
            decreases self.users@.len() - i,
        {
            proof {
                lemma_filter_step(s, i as int, fresh(now, timeout));
                lemma_filter_step(s, i as int, stale(now, timeout));
            }
            let idle: i128 = now as i128 - self.users[i].lastSeen as i128;
            if idle > timeout as i128 {
                let ghost before = gone@;
                let ghost f = s.subrange(0, i as int).filter(stale(now, timeout));
                gone.push(self.users[i].id.clone());
                assert(id_views(gone@) =~= id_views(before).push(s[i as int].id));
                assert(f.push(s[i as int]).map_values(|q: PresenceView| q.id) =~= f.map_values(
                    |q: PresenceView| q.id,
                ).push(s[i as int].id));
            } else {
                let ghost before = kept@;
                kept.push(self.users[i].duplicate());
                assert(views_of(kept@) =~= views_of(before).push(s[i as int]));
            }
            i = i + 1;
        }
        assert(s.subrange(0, s.len() as int) =~= s);
        proof {
            lemma_filter_keeps_unique(s, fresh(now, timeout));
        }
        self.users = kept;
        gone
    }
}

} // verus!
