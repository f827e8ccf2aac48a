use chaturbate_recorder::error::Error;
use chaturbate_recorder::monitor::{
    classify_check_error, CheckOutcome, CycleAction, MonitorState, RoomAction, RoomCheckState,
    RoomErrorKind, RoomStatus,
};

fn rooms(n: usize) -> Vec<String> {
    (0..n).map(|i| format!("room{}", i)).collect()
}

#[test]
fn offline_backoff_doubles() {
    let base = 60_000u64;
    let mut st = RoomCheckState::new();
    assert!(st.record_error(RoomErrorKind::Offline, base, 0));
    assert_eq!(st.next_check_at, Some(base * 2));
    assert!(!st.record_error(RoomErrorKind::Offline, base, 1000));
    assert_eq!(st.next_check_at, Some(1000 + base * 4));
    assert!(!st.record_error(RoomErrorKind::Offline, base, 2000));
    assert_eq!(st.next_check_at, Some(2000 + base * 8));
}

#[test]
fn other_kind_restarts_backoff() {
    let base = 10u64;
    let mut st = RoomCheckState::new();
    st.record_error(RoomErrorKind::Offline, base, 0);
    st.record_error(RoomErrorKind::Offline, base, 0);
    assert!(st.record_error(RoomErrorKind::Private, base, 100));
    assert_eq!(st.next_check_at, Some(100 + base * 2));
    assert!(st.record_error(RoomErrorKind::Offline, base, 200));
    assert_eq!(st.next_check_at, Some(200 + base * 2));
    assert_eq!(st.consecutive_same_error, 1);
}

#[test]
fn backoff_is_capped_at_sixty_four() {
    let mut st = RoomCheckState::new();
    for _ in 0..10 {
        st.record_error(RoomErrorKind::Other, 1, 0);
    }
    assert_eq!(st.next_check_at, Some(64));
    st.record_error(RoomErrorKind::Other, u64::MAX / 2, 5);
    assert_eq!(st.next_check_at, Some(u64::MAX));
}

#[test]
fn success_clears_backoff() {
    let mut st = RoomCheckState::new();
    st.record_error(RoomErrorKind::Offline, 10, 0);
    assert!(st.should_skip(19));
    assert!(!st.should_skip(20));
    st.record_success();
    assert_eq!(st, RoomCheckState::new());
    assert!(!st.should_skip(0));
}

#[test]
fn errors_map_to_kinds() {
    assert_eq!(classify_check_error(&Error::BroadcasterOffline("a".into())), RoomErrorKind::Offline);
    assert_eq!(classify_check_error(&Error::PrivateStream), RoomErrorKind::Private);
    assert_eq!(classify_check_error(&Error::CloudflareBlocked), RoomErrorKind::Cloudflare);
    assert_eq!(classify_check_error(&Error::RoomNotFound("u".into())), RoomErrorKind::Other);
}

#[test]
fn two_private_of_four_is_cookie_death() {
    let mut m = MonitorState::new(rooms(4), 1000);
    m.on_check_result(0, CheckOutcome::Failed(RoomErrorKind::Private), 0);
    m.on_check_result(1, CheckOutcome::Failed(RoomErrorKind::Private), 0);
    m.on_check_result(2, CheckOutcome::Failed(RoomErrorKind::Offline), 0);
    m.on_check_result(3, CheckOutcome::Failed(RoomErrorKind::Offline), 0);
    assert_eq!(m.end_cycle(), CycleAction::CookieDied);
    assert!(m.cookie_dead);
    for i in 0..4 {
        assert_eq!(m.status(i), RoomStatus::CookieDead);
    }
    m.on_check_result(0, CheckOutcome::Failed(RoomErrorKind::Private), 0);
    assert_eq!(m.end_cycle(), CycleAction::Nothing);
}

#[test]
fn two_private_of_five_is_not_cookie_death() {
    let mut m = MonitorState::new(rooms(5), 1000);
    m.on_check_result(0, CheckOutcome::Failed(RoomErrorKind::Private), 0);
    m.on_check_result(1, CheckOutcome::Failed(RoomErrorKind::Private), 0);
    for i in 2..5 {
        m.on_check_result(i, CheckOutcome::Failed(RoomErrorKind::Offline), 0);
    }
    assert_eq!(m.end_cycle(), CycleAction::Nothing);
    assert!(!m.cookie_dead);
    assert_eq!(m.status(0), RoomStatus::Private);
    assert_eq!(m.status(4), RoomStatus::Offline);
}

#[test]
fn cookie_recovery_clears_backoff() {
    let mut m = MonitorState::new(rooms(2), 1000);
    m.on_check_result(0, CheckOutcome::Failed(RoomErrorKind::Cloudflare), 0);
    m.on_check_result(1, CheckOutcome::Failed(RoomErrorKind::Offline), 0);
    assert_eq!(m.end_cycle(), CycleAction::CookieDied);
    assert!(!m.should_check(0, 10));
    m.on_check_result(1, CheckOutcome::Failed(RoomErrorKind::Offline), 5000);
    assert_eq!(m.end_cycle(), CycleAction::CookieRecovered);
    assert!(!m.cookie_dead);
    assert!(m.should_check(0, 10));
    assert!(m.should_check(1, 10));
}

#[test]
fn empty_cycle_changes_nothing() {
    let mut m = MonitorState::new(rooms(3), 1000);
    assert_eq!(m.end_cycle(), CycleAction::Nothing);
    assert!(!m.cookie_dead);
}

#[test]
fn online_room_starts_recording_once() {
    let mut m = MonitorState::new(rooms(2), 1000);
    assert!(m.should_check(0, 0));
    assert_eq!(m.on_check_result(0, CheckOutcome::Online, 0), RoomAction::StartRecording);
    assert_eq!(m.status(0), RoomStatus::Recording);
    assert!(!m.should_check(0, 0));
    assert_eq!(m.on_check_result(0, CheckOutcome::Online, 0), RoomAction::Nothing);
    m.recording_finished(0);
    assert_eq!(m.status(0), RoomStatus::Unknown);
    assert!(m.should_check(0, 0));
}

#[test]
fn repeated_error_is_reported_once() {
    let mut m = MonitorState::new(rooms(1), 1000);
    assert_eq!(m.on_check_result(0, CheckOutcome::Failed(RoomErrorKind::Other), 0), RoomAction::ReportNew);
    assert_eq!(m.on_check_result(0, CheckOutcome::Failed(RoomErrorKind::Other), 0), RoomAction::Nothing);
    assert_eq!(m.status(0), RoomStatus::Unknown);
    assert!(!m.should_check(0, 1999));
    assert!(m.should_check(0, 4000));
}

#[test]
fn repeated_room_names_are_watched_once() {
    let names = vec!["a".to_string(), "b".to_string(), "a".to_string(), "c".to_string(), "b".to_string()];
    let mut m = MonitorState::new(names, 1000);
    assert_eq!(m.rooms, vec!["a".to_string(), "b".to_string(), "c".to_string()]);
    assert_eq!(m.on_check_result(0, CheckOutcome::Online, 0), RoomAction::StartRecording);
    assert_eq!(m.statuses.len(), 3);
    assert_eq!(m.recording, vec![true, false, false]);
}
