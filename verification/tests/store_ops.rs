use chat_store::store::State;
use chat_store::types::{ChatError, Identity};

fn ident(b: u8) -> Identity {
    Identity { bytes: vec![b] }
}

#[test]
fn fresh_store_is_empty() {
    let st = State::new();
    assert_eq!(st.next_message_id, 1);
    assert_eq!(st.next_room_id, 1);
    assert!(st.messages.is_empty());
    assert!(st.rooms.is_empty());
    assert!(st.profiles.is_empty());
    assert_eq!(st.leaderboard_cache.last_updated, 0);
    assert!(st.leaderboard_cache.all_time.is_empty());
    assert!(st.leaderboard_cache.monthly.is_empty());
    assert_eq!(st, State::default());
}

#[test]
fn create_room_assigns_sequential_ids_and_profile() {
    let mut st = State::new();
    let alice = ident(1);
    let r1 = st.create_room("General".to_string(), "talk".to_string(), false, &alice, 5);
    assert_eq!(r1.id, 1);
    assert_eq!(r1.name, "General");
    assert!(!r1.is_private);
    assert_eq!(r1.created_at, 5);
    let r2 = st.create_room(String::new(), String::new(), true, &alice, 6);
    assert_eq!(r2.id, 2);
    assert_eq!(r2.name, "");
    let rooms = st.list_rooms();
    assert_eq!(rooms.len(), 2);
    assert_eq!(rooms[0].id, 1);
    assert_eq!(rooms[1].id, 2);
    let p = st.get_profile(&alice).expect("creator profile is ensured");
    assert_eq!(p.join_date, 5);
    assert_eq!(p.messages_posted, 0);
}

#[test]
fn send_edit_scenario_in_general_room() {
    let mut st = State::new();
    let alice = ident(1);
    let bob = ident(2);
    st.create_room("General".to_string(), String::new(), false, &alice, 1);
    let msg = st
        .send_message(1, "hello".to_string(), None, &alice, 10)
        .expect("non-blank content in an existing room is accepted");
    assert_eq!(msg.id, 1);
    assert_eq!(msg.room_id, 1);
    assert_eq!(msg.content, "hello");
    assert!(!msg.edited);
    assert_eq!(msg.tip_total_e8s, 0);
    let listed = st.list_messages(1, None, 0);
    assert_eq!(listed.len(), 1);
    assert_eq!(listed[0].id, 1);
    assert_eq!(listed[0].content, "hello");

    // a non-author edit fails with Forbidden and changes nothing
    let err = st.edit_message(1, "hi".to_string(), &bob).unwrap_err();
    assert_eq!(err, ChatError::Forbidden);
    let listed = st.list_messages(1, None, 0);
    assert_eq!(listed[0].content, "hello");
    assert!(!listed[0].edited);

    // the author's edit appends the marker and sets the flag
    st.edit_message(1, "hi".to_string(), &alice).expect("author may edit");
    let listed = st.list_messages(1, None, 0);
    assert_eq!(listed[0].content, "hi (edited)");
    assert!(listed[0].edited);
}

#[test]
fn send_message_rejects_blank_content_and_unknown_room() {
    let mut st = State::new();
    let alice = ident(1);
    st.create_room("General".to_string(), String::new(), false, &alice, 1);
    let before_profiles = st.profiles.clone();
    assert_eq!(
        st.send_message(1, String::new(), None, &alice, 2).unwrap_err(),
        ChatError::InvalidInput
    );
    assert_eq!(
        st.send_message(1, " \t\n ".to_string(), None, &alice, 2).unwrap_err(),
        ChatError::InvalidInput
    );
    // an em space is whitespace too
    assert_eq!(
        st.send_message(1, "\u{2003}".to_string(), None, &alice, 2).unwrap_err(),
        ChatError::InvalidInput
    );
    assert_eq!(
        st.send_message(7, "hello".to_string(), None, &alice, 2).unwrap_err(),
        ChatError::NotFound
    );
    // nothing was committed
    assert!(st.messages.is_empty());
    assert_eq!(st.next_message_id, 1);
    assert_eq!(st.profiles, before_profiles);
}

#[test]
fn message_ids_grow_monotonically() {
    let mut st = State::new();
    let alice = ident(1);
    st.create_room("General".to_string(), String::new(), false, &alice, 1);
    let mut last = 0;
    for k in 0..5u64 {
        let m = st
            .send_message(1, format!("m{}", k), None, &alice, 10 + k)
            .expect("accepted");
        assert!(m.id > last);
        last = m.id;
    }
    let p = st.get_profile(&alice).unwrap();
    assert_eq!(p.messages_posted, 5);
}

#[test]
fn edit_message_rejects_blank_and_unknown() {
    let mut st = State::new();
    let alice = ident(1);
    st.create_room("General".to_string(), String::new(), false, &alice, 1);
    st.send_message(1, "hello".to_string(), None, &alice, 2).unwrap();
    assert_eq!(
        st.edit_message(1, "  ".to_string(), &alice).unwrap_err(),
        ChatError::InvalidInput
    );
    assert_eq!(
        st.edit_message(9, "hi".to_string(), &alice).unwrap_err(),
        ChatError::NotFound
    );
    let listed = st.list_messages(1, None, 0);
    assert_eq!(listed[0].content, "hello");
    assert!(!listed[0].edited);
}

#[test]
fn tip_message_updates_all_three_counters() {
    let mut st = State::new();
    let alice = ident(1);
    let bob = ident(2);
    st.create_room("General".to_string(), String::new(), false, &alice, 1);
    st.send_message(1, "hello".to_string(), None, &alice, 2).unwrap();
    st.ensure_profile(&bob, 3);
    st.tip_message(1, 40, &bob, 4).expect("tip accepted");
    let listed = st.list_messages(1, None, 0);
    assert_eq!(listed[0].tip_total_e8s, 40);
    assert_eq!(st.get_profile(&bob).unwrap().tips_given_e8s, 40);
    assert_eq!(st.get_profile(&alice).unwrap().tips_received_e8s, 40);
}

#[test]
fn tip_message_rejects_zero_and_unknown_and_commits_nothing() {
    let mut st = State::new();
    let alice = ident(1);
    let bob = ident(2);
    st.create_room("General".to_string(), String::new(), false, &alice, 1);
    st.send_message(1, "hello".to_string(), None, &alice, 2).unwrap();
    st.ensure_profile(&bob, 3);
    assert_eq!(st.tip_message(1, 0, &bob, 4).unwrap_err(), ChatError::InvalidInput);
    assert_eq!(st.tip_message(42, 10, &bob, 4).unwrap_err(), ChatError::NotFound);
    let listed = st.list_messages(1, None, 0);
    assert_eq!(listed[0].tip_total_e8s, 0);
    assert_eq!(st.get_profile(&bob).unwrap().tips_given_e8s, 0);
    assert_eq!(st.get_profile(&alice).unwrap().tips_received_e8s, 0);
}

#[test]
fn tip_without_tipper_profile_skips_given_counter() {
    let mut st = State::new();
    let alice = ident(1);
    let ghost_tipper = ident(9);
    st.create_room("General".to_string(), String::new(), false, &alice, 1);
    st.send_message(1, "hello".to_string(), None, &alice, 2).unwrap();
    st.tip_message(1, 25, &ghost_tipper, 3).expect("tip accepted");
    assert!(st.get_profile(&ghost_tipper).is_none());
    assert_eq!(st.get_profile(&alice).unwrap().tips_received_e8s, 25);
    assert_eq!(st.list_messages(1, None, 0)[0].tip_total_e8s, 25);
}

#[test]
fn tip_total_saturates_at_max() {
    let mut st = State::new();
    let alice = ident(1);
    let bob = ident(2);
    st.create_room("General".to_string(), String::new(), false, &alice, 1);
    st.send_message(1, "hello".to_string(), None, &alice, 2).unwrap();
    st.tip_message(1, u64::MAX, &bob, 3).unwrap();
    st.tip_message(1, 100, &bob, 4).unwrap();
    assert_eq!(st.list_messages(1, None, 0)[0].tip_total_e8s, u64::MAX);
    assert_eq!(st.get_profile(&alice).unwrap().tips_received_e8s, u64::MAX);
}

#[test]
fn self_tip_updates_both_counters_of_one_profile() {
    let mut st = State::new();
    let alice = ident(1);
    st.create_room("General".to_string(), String::new(), false, &alice, 1);
    st.send_message(1, "hello".to_string(), None, &alice, 2).unwrap();
    st.tip_message(1, 7, &alice, 3).unwrap();
    let p = st.get_profile(&alice).unwrap();
    assert_eq!(p.tips_given_e8s, 7);
    assert_eq!(p.tips_received_e8s, 7);
}

#[test]
fn upsert_profile_merges_only_provided_fields() {
    let mut st = State::new();
    let alice = ident(1);
    let p = st.upsert_profile(Some("Alice".to_string()), None, &alice, 5);
    assert_eq!(p.nickname.as_deref(), Some("Alice"));
    assert_eq!(p.bio, None);
    assert_eq!(p.join_date, 5);
    let p = st.upsert_profile(None, Some("hi there".to_string()), &alice, 9);
    assert_eq!(p.nickname.as_deref(), Some("Alice"));
    assert_eq!(p.bio.as_deref(), Some("hi there"));
    assert_eq!(p.join_date, 5, "join date keeps the first interaction time");
    assert_eq!(st.profiles.len(), 1);
}

#[test]
fn ensure_profile_is_idempotent() {
    let mut st = State::new();
    let alice = ident(1);
    st.ensure_profile(&alice, 5);
    st.ensure_profile(&alice, 99);
    assert_eq!(st.profiles.len(), 1);
    assert_eq!(st.get_profile(&alice).unwrap().join_date, 5);
    assert!(st.get_profile(&ident(2)).is_none());
}

#[test]
fn register_referral_increments_first_matching_profile() {
    let mut st = State::new();
    let referrer = ident(1);
    let newcomer = ident(2);
    st.upsert_profile(Some("ref".to_string()), None, &referrer, 1);
    // this core never issues codes; plant one as an external issuer would
    st.profiles[0].referral_code = Some("WELCOME".to_string());
    st.register_referral("  WELCOME  ".to_string(), &newcomer, 2).expect("accepted");
    assert_eq!(st.get_profile(&referrer).unwrap().referral_count, 1);
    assert!(st.get_profile(&newcomer).is_some(), "registrant profile is ensured");
}

#[test]
fn register_referral_blank_or_unmatched() {
    let mut st = State::new();
    let newcomer = ident(2);
    assert_eq!(
        st.register_referral("   ".to_string(), &newcomer, 2).unwrap_err(),
        ChatError::InvalidInput
    );
    assert!(st.profiles.is_empty(), "a rejected call commits nothing");
    st.register_referral("NOBODY".to_string(), &newcomer, 3).expect("no match is no error");
    assert_eq!(st.profiles.len(), 1);
    assert_eq!(st.get_profile(&newcomer).unwrap().referral_count, 0);
}

#[test]
fn edit_marker_is_appended_to_the_untrimmed_content() {
    let mut st = State::new();
    let alice = ident(1);
    st.create_room("General".to_string(), String::new(), false, &alice, 1);
    st.send_message(1, "hello".to_string(), None, &alice, 2).unwrap();
    st.edit_message(1, " hi ".to_string(), &alice).unwrap();
    assert_eq!(st.list_messages(1, None, 0)[0].content, " hi  (edited)");
}

#[test]
fn register_referral_bumps_only_the_first_match() {
    let mut st = State::new();
    let first = ident(1);
    let second = ident(2);
    let newcomer = ident(3);
    st.ensure_profile(&first, 1);
    st.ensure_profile(&second, 1);
    st.profiles[0].referral_code = Some("CODE".to_string());
    st.profiles[1].referral_code = Some("CODE".to_string());
    st.register_referral("CODE".to_string(), &newcomer, 2).unwrap();
    assert_eq!(st.get_profile(&first).unwrap().referral_count, 1);
    assert_eq!(st.get_profile(&second).unwrap().referral_count, 0);
}

#[test]
fn list_messages_filters_sorts_and_caps() {
    let mut st = State::new();
    let alice = ident(1);
    st.create_room("a".to_string(), String::new(), false, &alice, 1);
    st.create_room("b".to_string(), String::new(), false, &alice, 1);
    // out-of-order timestamps, spread over two rooms
    st.send_message(1, "m1".to_string(), None, &alice, 30).unwrap();
    st.send_message(2, "other".to_string(), None, &alice, 5).unwrap();
    st.send_message(1, "m2".to_string(), None, &alice, 10).unwrap();
    st.send_message(1, "m3".to_string(), None, &alice, 20).unwrap();
    let listed = st.list_messages(1, None, 0);
    assert_eq!(listed.len(), 3);
    assert_eq!(listed[0].content, "m2");
    assert_eq!(listed[1].content, "m3");
    assert_eq!(listed[2].content, "m1");
    let listed = st.list_messages(1, Some(15), 0);
    assert_eq!(listed.len(), 2);
    assert_eq!(listed[0].content, "m3");
    assert_eq!(listed[1].content, "m1");
    let listed = st.list_messages(1, None, 2);
    assert_eq!(listed.len(), 2);
    assert_eq!(listed[0].content, "m2");
    assert_eq!(listed[1].content, "m3");
    assert!(st.list_messages(9, None, 0).is_empty(), "unknown room matches nothing");
}

#[test]
fn list_messages_default_and_hard_caps() {
    let mut st = State::new();
    let alice = ident(1);
    st.create_room("a".to_string(), String::new(), false, &alice, 1);
    for k in 0..220u64 {
        st.send_message(1, format!("m{}", k), None, &alice, k).unwrap();
    }
    assert_eq!(st.list_messages(1, None, 0).len(), 50, "default limit");
    assert_eq!(st.list_messages(1, None, 1000).len(), 200, "hard cap");
    assert_eq!(st.list_messages(1, None, 3).len(), 3);
}
