use collab_core::presence::SessionFull;
use collab_core::protocol::{CollabMessage, CursorPosition, UserPresence};
use collab_core::session::{get_user_color, CollabSession};
use tokio::sync::broadcast::error::TryRecvError;

fn cursor(line: u32, column: u32, file: &str) -> CursorPosition {
    CursorPosition { line, column, file: file.to_string(), timestamp: 1_700_000_000 }
}

#[test]
fn test_session_lifecycle() {
    let session = CollabSession::new(10);
    assert!(!session.id.is_empty());
    assert_eq!(session.get_users().len(), 0);
}

#[test]
fn test_user_management() {
    let mut session = CollabSession::new(10);
    let user = UserPresence::new("user1".to_string(), "Alice".to_string(), get_user_color(0));

    assert!(session.add_user(user.clone()).is_ok());
    assert_eq!(session.get_users().len(), 1);

    session.remove_user("user1");
    assert_eq!(session.get_users().len(), 0);
}

#[test]
fn test_cursor_tracking() {
    let mut session = CollabSession::new(10);
    let user = UserPresence::new("user1".to_string(), "Bob".to_string(), get_user_color(1));
    let _ = session.add_user(user);

    let cursor = CursorPosition {
        line: 42,
        column: 15,
        file: "src/main.rs".to_string(),
        timestamp: chrono::Utc::now().timestamp(),
    };

    session.update_cursor("user1", cursor.clone());
    let updated = session.get_user("user1").unwrap();
    assert_eq!(updated.cursor.unwrap().line, 42);
}

#[test]
fn test_max_users_limit() {
    let mut session = CollabSession::new(2);
    let user1 = UserPresence::new("user1".to_string(), "Alice".to_string(), get_user_color(0));
    let user2 = UserPresence::new("user2".to_string(), "Bob".to_string(), get_user_color(1));
    let user3 = UserPresence::new(
        "user3".to_string(),
        "Charlie".to_string(),
        get_user_color(2),
    );

    assert!(session.add_user(user1).is_ok());
    assert!(session.add_user(user2).is_ok());
    assert!(session.add_user(user3).is_err());
}

#[test]
fn session_id_is_a_hyphenated_uuid() {
    let a = CollabSession::new(3);
    let b = CollabSession::new(3);
    assert_eq!(a.id.len(), 36);
    assert_eq!(a.id.matches('-').count(), 4);
    assert_ne!(a.id, b.id);
}

#[test]
fn full_session_refuses_third_join() {
    let mut session = CollabSession::new(2);
    assert!(session.add_user(UserPresence::new("u1".into(), "Alice".into(), get_user_color(0))).is_ok());
    assert!(session.add_user(UserPresence::new("u2".into(), "Bob".into(), get_user_color(1))).is_ok());
    let third = session.add_user(UserPresence::new("u3".into(), "Carl".into(), get_user_color(2)));
    assert_eq!(third, Err(SessionFull { max_users: 2 }));
    assert_eq!(session.get_users().len(), 2);
    assert!(session.get_user("u3").is_none());
}

#[test]
fn zero_capacity_session_is_unjoinable() {
    let mut session = CollabSession::new(0);
    let r = session.add_user(UserPresence::new("u1".into(), "Alice".into(), get_user_color(0)));
    assert_eq!(r, Err(SessionFull { max_users: 0 }));
    assert_eq!(session.get_users().len(), 0);
}

#[test]
fn joins_never_exceed_capacity() {
    let mut session = CollabSession::new(3);
    let mut admitted = 0;
    for i in 0..10 {
        let id = format!("u{}", i);
        if session.add_user(UserPresence::new(id, "x".into(), get_user_color(i))).is_ok() {
            admitted += 1;
        }
        assert!(session.get_users().len() <= 3);
    }
    assert_eq!(admitted, 3);
}

#[test]
fn rejoin_with_same_id_replaces_record() {
    let mut session = CollabSession::new(1);
    assert!(session.add_user(UserPresence::new("u1".into(), "Alice".into(), get_user_color(0))).is_ok());
    // At capacity, even a rejoin of the same id is refused.
    assert!(session.add_user(UserPresence::new("u1".into(), "Alicia".into(), get_user_color(0))).is_err());
    let mut roomy = CollabSession::new(5);
    assert!(roomy.add_user(UserPresence::new("u1".into(), "Alice".into(), get_user_color(0))).is_ok());
    assert!(roomy.add_user(UserPresence::new("u1".into(), "Alicia".into(), get_user_color(3))).is_ok());
    let users = roomy.get_users();
    assert_eq!(users.len(), 1);
    assert_eq!(users[0].name, "Alicia");
    assert_eq!(users[0].color, "#FFA07A");
}

#[test]
fn palette_colors_follow_join_order() {
    assert_eq!(get_user_color(0), "#FF6B6B");
    assert_eq!(get_user_color(1), "#4ECDC4");
    assert_eq!(get_user_color(7), "#85C1E2");
    assert_eq!(get_user_color(8), "#FF6B6B");
    assert_eq!(get_user_color(13), "#F7DC6F");

    let mut session = CollabSession::new(4);
    let mut joins = 0;
    assert!(session.add_user(UserPresence::new("u1".into(), "A".into(), get_user_color(joins))).is_ok());
    joins += 1;
    assert!(session.add_user(UserPresence::new("u2".into(), "B".into(), get_user_color(joins))).is_ok());
    assert_eq!(session.get_user("u1").unwrap().color, "#FF6B6B");
    assert_eq!(session.get_user("u2").unwrap().color, "#4ECDC4");

    // u1 leaves and rejoins with the palette index of its first join.
    session.remove_user("u1");
    assert!(session.add_user(UserPresence::new("u1".into(), "A".into(), get_user_color(0))).is_ok());
    assert_eq!(session.get_user("u1").unwrap().color, "#FF6B6B");
}

#[test]
fn leave_is_idempotent() {
    let mut session = CollabSession::new(5);
    assert!(session.add_user(UserPresence::new("u1".into(), "A".into(), get_user_color(0))).is_ok());
    assert!(session.add_user(UserPresence::new("u2".into(), "B".into(), get_user_color(1))).is_ok());
    session.remove_user("u1");
    session.remove_user("u1");
    session.remove_user("never-joined");
    let users = session.get_users();
    assert_eq!(users.len(), 1);
    assert_eq!(users[0].id, "u2");
    assert_eq!(users[0].name, "B");
}

#[test]
fn leave_is_announced_even_for_absent_user() {
    let mut session = CollabSession::new(5);
    let mut rx = session.subscribe();
    session.remove_user("nobody");
    match rx.try_recv() {
        Ok(CollabMessage::UserLeave { userId }) => assert_eq!(userId, "nobody"),
        other => panic!("unexpected {:?}", other),
    }
}

#[test]
fn join_then_move_shows_cursor_in_roster() {
    let mut session = CollabSession::new(5);
    assert!(session.add_user(UserPresence::new("u1".into(), "A".into(), get_user_color(0))).is_ok());
    session.update_cursor_at("u1", cursor(7, 3, "lib.rs"), 1_700_000_100);
    let users = session.get_users();
    assert_eq!(users.len(), 1);
    let c = users[0].cursor.clone().unwrap();
    assert_eq!((c.line, c.column, c.file.as_str()), (7, 3, "lib.rs"));
    assert_eq!(users[0].lastSeen, 1_700_000_100);
}

#[test]
fn move_of_unknown_user_is_broadcast_but_not_stored() {
    let mut session = CollabSession::new(5);
    assert!(session.add_user(UserPresence::new("u1".into(), "A".into(), get_user_color(0))).is_ok());
    let mut rx = session.subscribe();
    session.update_cursor("ghost-id", cursor(1, 2, "a.ts"));
    match rx.try_recv() {
        Ok(CollabMessage::CursorMove { userId, cursor }) => {
            assert_eq!(userId, "ghost-id");
            assert_eq!(cursor.line, 1);
            assert_eq!(cursor.column, 2);
        }
        other => panic!("unexpected {:?}", other),
    }
    let users = session.get_users();
    assert_eq!(users.len(), 1);
    assert!(users.iter().all(|u| u.id != "ghost-id"));
    assert!(users[0].cursor.is_none());
}

#[test]
fn late_subscriber_sees_no_history() {
    let mut session = CollabSession::new(5);
    let mut early = session.subscribe();
    assert!(session.add_user(UserPresence::new("u1".into(), "A".into(), get_user_color(0))).is_ok());
    session.update_cursor("u1", cursor(1, 1, "a.rs"));
    session.mark_inactive("u1");
    let mut late = session.subscribe();
    assert!(matches!(late.try_recv(), Err(TryRecvError::Empty)));
    session.remove_user("u1");
    assert!(matches!(late.try_recv(), Ok(CollabMessage::UserLeave { .. })));
    assert!(matches!(late.try_recv(), Err(TryRecvError::Empty)));
    // The early subscriber got everything, in publication order.
    assert!(matches!(early.try_recv(), Ok(CollabMessage::UserJoin { .. })));
    assert!(matches!(early.try_recv(), Ok(CollabMessage::CursorMove { .. })));
    assert!(matches!(early.try_recv(), Ok(CollabMessage::UserInactive { .. })));
    assert!(matches!(early.try_recv(), Ok(CollabMessage::UserLeave { .. })));
}

#[test]
fn publishing_without_subscribers_does_not_fail() {
    let mut session = CollabSession::new(5);
    assert!(session.add_user(UserPresence::new("u1".into(), "A".into(), get_user_color(0))).is_ok());
    session.update_cursor("u1", cursor(1, 1, "a.rs"));
    session.remove_user("u1");
    assert_eq!(session.get_users().len(), 0);
}

#[test]
fn stalled_subscriber_lags_then_resumes() {
    let mut session = CollabSession::new(5);
    let mut rx = session.subscribe();
    for i in 0..1100u32 {
        session.update_cursor("u1", cursor(i, 0, "a.rs"));
    }
    assert!(matches!(rx.try_recv(), Err(TryRecvError::Lagged(_))));
    assert!(rx.try_recv().is_ok());
    session.remove_user("u1");
    let mut last = None;
    while let Ok(m) = rx.try_recv() {
        last = Some(m);
    }
    assert!(matches!(last, Some(CollabMessage::UserLeave { .. })));
}

#[test]
fn mark_inactive_hides_from_roster_but_keeps_record() {
    let mut session = CollabSession::new(5);
    assert!(session.add_user(UserPresence::new("u1".into(), "A".into(), get_user_color(0))).is_ok());
    assert!(session.add_user(UserPresence::new("u2".into(), "B".into(), get_user_color(1))).is_ok());
    session.mark_inactive("u1");
    let users = session.get_users();
    assert_eq!(users.len(), 1);
    assert_eq!(users[0].id, "u2");
    let u1 = session.get_user("u1").unwrap();
    assert!(!u1.isActive);
    match session.info() {
        CollabMessage::SessionInfo { sessionId, usersCount, createdAt } => {
            assert_eq!(sessionId, session.id);
            assert_eq!(usersCount, 1);
            assert_eq!(createdAt, session.createdAt);
        }
        other => panic!("unexpected {:?}", other),
    }
}

#[test]
fn batch_updates_skip_unknown_ids() {
    let mut session = CollabSession::new(5);
    assert!(session.add_user(UserPresence::new("u1".into(), "A".into(), get_user_color(0))).is_ok());
    assert!(session.add_user(UserPresence::new("u2".into(), "B".into(), get_user_color(1))).is_ok());
    let mut rx = session.subscribe();
    let updates = vec![
        ("u1".to_string(), cursor(1, 1, "a.rs")),
        ("ghost".to_string(), cursor(2, 2, "b.rs")),
        ("u1".to_string(), cursor(3, 3, "c.rs")),
    ];
    session.batch_cursor_updates_at(updates, 1_700_000_500);
    let u1 = session.get_user("u1").unwrap();
    assert_eq!(u1.cursor.unwrap().line, 3);
    assert_eq!(u1.lastSeen, 1_700_000_500);
    assert!(session.get_user("u2").unwrap().cursor.is_none());
    assert!(session.get_user("ghost").is_none());
    match rx.try_recv() {
        Ok(CollabMessage::CursorBatch { updates }) => {
            assert_eq!(updates.len(), 3);
            assert_eq!(updates[1].0, "ghost");
        }
        other => panic!("unexpected {:?}", other),
    }
    assert!(matches!(rx.try_recv(), Err(TryRecvError::Empty)));
}

#[test]
fn cleanup_removes_exactly_the_stale_users() {
    let mut session = CollabSession::new(5);
    let now = 1_000_000;
    for (id, seen) in [("a", now - 100), ("b", now - 30), ("c", now - 31), ("d", now)] {
        let p = UserPresence::new_at(id.into(), id.into(), get_user_color(0), seen);
        assert!(session.add_user(p).is_ok());
    }
    let mut rx = session.subscribe();
    let removed = session.cleanup_inactive_at(now, 30);
    assert_eq!(removed, vec!["a".to_string(), "c".to_string()]);
    let ids: Vec<String> = session.get_users().into_iter().map(|u| u.id).collect();
    assert_eq!(ids, vec!["b".to_string(), "d".to_string()]);
    assert!(matches!(rx.try_recv(), Err(TryRecvError::Empty)));
}

#[test]
fn cleanup_handles_extreme_timestamps() {
    let mut session = CollabSession::new(5);
    let p = UserPresence::new_at("a".into(), "a".into(), get_user_color(0), i64::MIN);
    assert!(session.add_user(p).is_ok());
    let q = UserPresence::new_at("b".into(), "b".into(), get_user_color(1), i64::MAX);
    assert!(session.add_user(q).is_ok());
    let removed = session.cleanup_inactive_at(i64::MAX, i64::MAX);
    assert_eq!(removed, vec!["a".to_string()]);
    assert_eq!(session.get_users().len(), 1);
}

#[test]
fn cleanup_with_clock_keeps_fresh_users() {
    let mut session = CollabSession::new(5);
    assert!(session.add_user(UserPresence::new("u1".into(), "A".into(), get_user_color(0))).is_ok());
    session.cleanup_inactive(60);
    assert_eq!(session.get_users().len(), 1);
}

#[test]
fn presence_is_stamped_with_current_time() {
    let before = chrono::Utc::now().timestamp();
    let p = UserPresence::new("u1".into(), "A".into(), get_user_color(0));
    let after = chrono::Utc::now().timestamp();
    assert!(before <= p.lastSeen && p.lastSeen <= after);
    assert!(p.isActive);
    assert!(p.cursor.is_none());
    let session = CollabSession::new(1);
    assert!(before <= session.createdAt && session.createdAt <= chrono::Utc::now().timestamp());
}
