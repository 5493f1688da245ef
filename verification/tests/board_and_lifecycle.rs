use chat_store::lifecycle::{RECOMPUTE_INTERVAL_NS, Scheduler};
use chat_store::store::State;
use chat_store::types::Identity;

fn ident(b: u8) -> Identity {
    Identity { bytes: vec![b] }
}

#[test]
fn two_tips_rank_the_author_on_top() {
    let mut st = State::new();
    let author = ident(1);
    let tipper_a = ident(2);
    let tipper_b = ident(3);
    st.create_room("General".to_string(), String::new(), false, &author, 1);
    let msg = st.send_message(1, "hello".to_string(), None, &author, 2).unwrap();
    st.ensure_profile(&tipper_a, 3);
    st.ensure_profile(&tipper_b, 3);
    st.tip_message(msg.id, 100, &tipper_a, 4).unwrap();
    st.tip_message(msg.id, 250, &tipper_b, 5).unwrap();
    assert_eq!(st.list_messages(1, None, 0)[0].tip_total_e8s, 350);

    st.recompute_leaderboard(6);
    let board = st.get_leaderboard("all_time");
    assert!(!board.is_empty());
    assert_eq!(board[0].principal, author);
    assert_eq!(board[0].score_e8s, 350);
    for e in &board[1..] {
        assert!(e.score_e8s < 350);
    }
    assert_eq!(st.leaderboard_cache.last_updated, 6);
}

#[test]
fn tipping_refreshes_the_cache_immediately() {
    let mut st = State::new();
    let author = ident(1);
    let tipper = ident(2);
    st.create_room("General".to_string(), String::new(), false, &author, 1);
    st.send_message(1, "hello".to_string(), None, &author, 2).unwrap();
    st.ensure_profile(&tipper, 3);
    st.tip_message(1, 11, &tipper, 44).unwrap();
    assert_eq!(st.leaderboard_cache.last_updated, 44);
    let board = st.get_leaderboard("all_time");
    assert_eq!(board[0].principal, author);
    assert_eq!(board[0].score_e8s, 11);
}

#[test]
fn leaderboard_sorts_descending_and_carries_nicknames() {
    let mut st = State::new();
    let a = ident(1);
    let b = ident(2);
    let c = ident(3);
    st.create_room("r".to_string(), String::new(), false, &a, 1);
    st.upsert_profile(Some("A".to_string()), None, &a, 1);
    st.upsert_profile(Some("B".to_string()), None, &b, 1);
    st.upsert_profile(Some("C".to_string()), None, &c, 1);
    st.send_message(1, "by a".to_string(), None, &a, 2).unwrap();
    st.send_message(1, "by b".to_string(), None, &b, 2).unwrap();
    st.send_message(1, "by c".to_string(), None, &c, 2).unwrap();
    st.tip_message(1, 10, &b, 3).unwrap(); // a receives 10
    st.tip_message(2, 30, &c, 4).unwrap(); // b receives 30
    st.tip_message(3, 20, &a, 5).unwrap(); // c receives 20
    let board = st.get_leaderboard("all_time");
    assert_eq!(board.len(), 3);
    assert_eq!(board[0].nickname.as_deref(), Some("B"));
    assert_eq!(board[0].score_e8s, 30);
    assert_eq!(board[1].nickname.as_deref(), Some("C"));
    assert_eq!(board[1].score_e8s, 20);
    assert_eq!(board[2].nickname.as_deref(), Some("A"));
    assert_eq!(board[2].score_e8s, 10);
}

#[test]
fn leaderboard_caps_at_fifty_entries() {
    let mut st = State::new();
    for k in 0..55u8 {
        st.ensure_profile(&ident(k), 1);
    }
    st.recompute_leaderboard(2);
    assert_eq!(st.get_leaderboard("all_time").len(), 50);
    assert_eq!(st.get_leaderboard("monthly").len(), 50);
}

#[test]
fn monthly_board_equals_all_time_board() {
    let mut st = State::new();
    let a = ident(1);
    let b = ident(2);
    st.create_room("r".to_string(), String::new(), false, &a, 1);
    st.send_message(1, "hi".to_string(), None, &a, 2).unwrap();
    st.tip_message(1, 5, &b, 3).unwrap();
    assert_eq!(st.get_leaderboard("monthly"), st.get_leaderboard("all_time"));
    // any other period name selects the all-time board
    assert_eq!(st.get_leaderboard("weekly"), st.get_leaderboard("all_time"));
    assert_eq!(st.get_leaderboard(""), st.get_leaderboard("all_time"));
}

#[test]
fn snapshot_round_trip_reproduces_identical_state() {
    let mut st = State::new();
    let a = ident(1);
    let b = ident(2);
    st.create_room("General".to_string(), "main".to_string(), false, &a, 1);
    st.create_room("Private".to_string(), String::new(), true, &b, 2);
    st.send_message(1, "hello".to_string(), None, &a, 3).unwrap();
    st.send_message(2, "psst".to_string(), Some(1), &b, 4).unwrap();
    st.upsert_profile(Some("A".to_string()), Some("bio".to_string()), &a, 5);
    st.tip_message(1, 350, &b, 6).unwrap();
    st.edit_message(2, "again".to_string(), &b).unwrap();

    let snap = st.capture();
    let restored = State::restore_or_default(Some(snap));
    assert_eq!(restored, st);
    assert_eq!(restored.next_message_id, st.next_message_id);
    assert_eq!(restored.next_room_id, st.next_room_id);
    assert_eq!(restored.leaderboard_cache, st.leaderboard_cache);

    // allocation stays monotonic across the restart
    let mut restored = restored;
    let m = restored.send_message(1, "after".to_string(), None, &a, 7).unwrap();
    assert_eq!(m.id, 3);
}

#[test]
fn restore_without_snapshot_falls_back_to_empty() {
    let restored = State::restore_or_default(None);
    assert_eq!(restored, State::new());
}

#[test]
fn scheduler_arms_exactly_once() {
    let mut s = Scheduler::new();
    assert!(!s.armed);
    assert!(s.arm(), "first arming must register the job");
    assert!(s.armed);
    assert!(!s.arm(), "re-arming is an idempotent no-op");
    assert!(s.armed);
}

#[test]
fn recompute_interval_is_five_minutes() {
    assert_eq!(RECOMPUTE_INTERVAL_NS, 300_000_000_000);
}
