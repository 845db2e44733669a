//! Laws of the presence store and the session operations built on it.
use vstd::prelude::*;

use crate::presence::{
    active_only, has_id, ids_unique, is_active, is_stale, lemma_filter_keeps_unique, moved,
    other_than, reaped, upsert, with_cursor, without, fresh,
};
use crate::protocol::{CursorView, PresenceView};

verus! {

/// The store after a run of join attempts with capacity `max`: an attempt is admitted
/// exactly when fewer than `max` records are held at that moment.
pub open spec fn after_joins(s: Seq<PresenceView>, ps: Seq<PresenceView>, max: nat) -> Seq<
    PresenceView,
>
    decreases ps.len(),
{
    if ps.len() == 0 {
        s
    } else {
        let t = after_joins(s, ps.drop_last(), max);
        if t.len() < max {
            upsert(t, ps.last())
        } else {
            t
        }
    }
}

/// Whether the `k`-th attempt of the run is admitted.
pub open spec fn join_admitted(s: Seq<PresenceView>, ps: Seq<PresenceView>, max: nat, k: int) -> bool {
    after_joins(s, ps.take(k), max).len() < max
}

pub open spec fn distinct_ids(ps: Seq<PresenceView>) -> bool {
    forall|i: int, j: int| 0 <= i < ps.len() && 0 <= j < ps.len() && i != j ==> ps[i].id != ps[j].id
}

/// However join attempts arrive, the store never holds more than `max` records.
pub proof fn lemma_joins_within_capacity(s: Seq<PresenceView>, ps: Seq<PresenceView>, max: nat)
    requires
        s.len() <= max,
    ensures
        after_joins(s, ps, max).len() <= max,
        active_only(after_joins(s, ps, max)).len() <= max,
    decreases ps.len(),
{
    if ps.len() > 0 {
        lemma_joins_within_capacity(s, ps.drop_last(), max);
        let t = after_joins(s, ps.drop_last(), max);
        if t.len() < max {
            let p = ps.last();
            if has_id(t, p.id) {
                assert(upsert(t, p).len() == t.len());
            }
        }
    }
    after_joins(s, ps, max).filter_lemma(is_active());
}

/// Joining an empty session with distinct ids keeps exactly the first `max` of them.
proof fn lemma_joins_keep_prefix(ps: Seq<PresenceView>, max: nat, k: int)
    requires
        distinct_ids(ps),
        0 <= k <= ps.len(),
    ensures
        after_joins(Seq::empty(), ps.take(k), max) == ps.take(if k < max { k } else { max as int }),
    decreases k,
{
    if k > 0 {
        lemma_joins_keep_prefix(ps, max, k - 1);
        assert(ps.take(k).drop_last() =~= ps.take(k - 1));
        let t = ps.take(if k - 1 < max { k - 1 } else { max as int });
        if k - 1 < max {
            assert(!has_id(t, ps[k - 1].id)) by {
                if has_id(t, ps[k - 1].id) {
                    let i = choose|i: int| 0 <= i < t.len() && t[i].id == ps[k - 1].id;
                    assert(ps[i].id == ps[k - 1].id);
                }
            }
            assert(t.push(ps[k - 1]) =~= ps.take(k));
        }
    }
}

/// On an empty session and users with distinct ids, the first `max` joins succeed and
/// every later one is refused as full, whatever the order of arrival.
pub proof fn lemma_first_max_joins_admitted(ps: Seq<PresenceView>, max: nat, k: int)
    requires
        distinct_ids(ps),
        0 <= k < ps.len(),
    ensures
        join_admitted(Seq::empty(), ps, max, k) <==> k < max,
{
    lemma_joins_keep_prefix(ps, max, k);
}

proof fn lemma_filter_twice(s: Seq<PresenceView>, pred: spec_fn(PresenceView) -> bool)
    ensures
        s.filter(pred).filter(pred) == s.filter(pred),
    decreases s.len(),
{
    reveal(Seq::filter);
    if s.len() > 0 {
        lemma_filter_twice(s.drop_last(), pred);
        let f = s.drop_last().filter(pred);
        if pred(s.last()) {
            assert(f.push(s.last()).drop_last() =~= f);
        }
    }
}

proof fn lemma_filter_all(s: Seq<PresenceView>, pred: spec_fn(PresenceView) -> bool)
    requires
        forall|i: int| 0 <= i < s.len() ==> pred(#[trigger] s[i]),
    ensures
        s.filter(pred) == s,
    decreases s.len(),
{
    reveal(Seq::filter);
    if s.len() > 0 {
        lemma_filter_all(s.drop_last(), pred);
        assert(s.drop_last().push(s.last()) =~= s);
    }
}

/// Leaving is idempotent: a second leave changes nothing, a leave of an id that is not
/// there changes nothing, and every other user's record stays, in its order.
pub proof fn lemma_leave_idempotent(s: Seq<PresenceView>, id: Seq<char>)
    ensures
        without(without(s, id), id) == without(s, id),
        !has_id(s, id) ==> without(s, id) == s,
        forall|i: int|
            0 <= i < s.len() && s[i].id != id ==> #[trigger] without(s, id).contains(s[i]),
{
    lemma_filter_twice(s, other_than(id));
    if !has_id(s, id) {
        assert forall|i: int| 0 <= i < s.len() implies other_than(id)(#[trigger] s[i]) by {
            if s[i].id == id {
                assert(has_id(s, id));
            }
        }
        lemma_filter_all(s, other_than(id));
    }
    s.filter_lemma(other_than(id));
}

/// After a successful join of `u` and a move of its cursor to `c`, the roster holds a
/// record of `u` whose cursor is `c`.
pub proof fn lemma_join_then_move_in_roster(
    s: Seq<PresenceView>,
    max: nat,
    u: PresenceView,
    c: CursorView,
    now: i64,
)
    requires
        ids_unique(s),
        s.len() < max,
        u.active,
    ensures
        exists|i: int|
            0 <= i < active_only(with_cursor(upsert(s, u), u.id, c, now)).len() && #[trigger] active_only(
                with_cursor(upsert(s, u), u.id, c, now),
            )[i].id == u.id && active_only(with_cursor(upsert(s, u), u.id, c, now))[i].cursor
                == Some(c),
{
    let s1 = upsert(s, u);
    let s2 = with_cursor(s1, u.id, c, now);
    let j: int = if has_id(s, u.id) {
        choose|i: int| 0 <= i < s.len() && s[i].id == u.id
    } else {
        s.len() as int
    };
    assert(s1[j] == u);
    assert(s2[j] == moved(u, c, now));
    s2.filter_lemma(is_active());
    assert(active_only(s2).contains(s2[j]));
    let k = choose|k: int| 0 <= k < active_only(s2).len() && active_only(s2)[k] == s2[j];
    assert(active_only(s2)[k].id == u.id);
}

/// Cleanup keeps exactly the records that are not stale: a record is kept if and only
/// if `now - lastSeen <= timeout`, whatever the order of the records.
pub proof fn lemma_cleanup_removes_exactly_stale(
    s: Seq<PresenceView>,
    now: i64,
    timeout: i64,
)
    requires
        ids_unique(s),
    ensures
        forall|q: PresenceView|
            #[trigger] reaped(s, now, timeout).contains(q) <==> s.contains(q) && !is_stale(
                q,
                now,
                timeout,
            ),
{
    let r = reaped(s, now, timeout);
    s.filter_lemma(fresh(now, timeout));
    lemma_filter_keeps_unique(s, fresh(now, timeout));
    assert forall|q: PresenceView| #[trigger] r.contains(q) <==> s.contains(q) && !is_stale(
        q,
        now,
        timeout,
    ) by {
        if r.contains(q) {
            let i = choose|i: int| 0 <= i < r.len() && r[i] == q;
            assert(fresh(now, timeout)(r[i]));
            assert(s.contains(r[i]));
        }
        if s.contains(q) && !is_stale(q, now, timeout) {
            let i = choose|i: int| 0 <= i < s.len() && s[i] == q;
            assert(r.contains(s[i]));
        }
    }
}

/// A cursor move for an id that is not in the store changes no record, so that id
/// does not appear in the roster afterwards.
pub proof fn lemma_move_of_unknown_id(s: Seq<PresenceView>, id: Seq<char>, c: CursorView, now: i64)
    requires
        !has_id(s, id),
    ensures
        with_cursor(s, id, c, now) == s,
        forall|i: int|
            0 <= i < active_only(with_cursor(s, id, c, now)).len() ==> #[trigger] active_only(
                with_cursor(s, id, c, now),
            )[i].id != id,
{
    assert forall|i: int| 0 <= i < s.len() implies s[i].id != id by {
        if s[i].id == id {
            assert(has_id(s, id));
        }
    }
    assert(with_cursor(s, id, c, now) =~= s);
    lemma_filter_from_source(s, is_active());
    assert forall|i: int| 0 <= i < active_only(s).len() implies #[trigger] active_only(s)[i].id
        != id by {
        assert(s.contains(active_only(s)[i]));
        let j = choose|j: int| 0 <= j < s.len() && s[j] == active_only(s)[i];
    }
}

/// Every element of a filtered sequence comes from the original.
proof fn lemma_filter_from_source(s: Seq<PresenceView>, pred: spec_fn(PresenceView) -> bool)
    ensures
        forall|i: int| 0 <= i < s.filter(pred).len() ==> s.contains(#[trigger] s.filter(pred)[i]),
    decreases s.len(),
{
    reveal(Seq::filter);
    if s.len() > 0 {
        let d = s.drop_last();
        lemma_filter_from_source(d, pred);
        let f = s.filter(pred);
        let fd = d.filter(pred);
        assert forall|i: int| 0 <= i < f.len() implies s.contains(#[trigger] f[i]) by {
            if i < fd.len() {
                assert(f[i] == fd[i]);
                assert(d.contains(fd[i]));
                let j = choose|j: int| 0 <= j < d.len() && d[j] == fd[i];
                assert(s[j] == f[i]);
            } else {
                assert(f[i] == s[s.len() - 1]);
            }
        }
    }
}

} // verus!
