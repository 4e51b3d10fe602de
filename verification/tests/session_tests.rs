use invomodo::session::{
    calculate_checksum, current_server_time, dashboard_status_label, detect_clock_tampering,
    has_valid_subscription, hash64, is_authorized, is_session_valid, load_existing_session,
    new_session_data, refresh_session_state, select_layout, session_state_at,
    session_status_label, update_session_state, verify_session_integrity, LayoutChoice,
    ServerData, SessionData, SessionState, StoredSession,
};

const HOUR: u64 = 3_600_000;

fn server() -> ServerData {
    ServerData {
        server_time: 1_700_000_000_000,
        subscription_token: "tok".to_string(),
        subscription_expires: 1_700_000_000_000 + 30 * 24 * HOUR,
        offline_window_hours: 12,
    }
}

#[test]
fn fnv1a_known_values() {
    assert_eq!(hash64(""), 0xcbf29ce484222325);
    assert_eq!(hash64("a"), 0xaf63dc4c8601ec8c);
    assert_eq!(hash64("foobar"), 0x85944171f73967e8);
}

#[test]
fn hash_reads_utf8_bytes() {
    // "é" is two bytes; hashing them one after the other
    let mut h: u64 = 0xcbf29ce484222325;
    for b in "é".bytes() {
        h ^= b as u64;
        h = h.wrapping_mul(1099511628211);
    }
    assert_eq!(hash64("é"), h);
}

#[test]
fn checksum_is_hex_of_hash_of_fields() {
    let sd = SessionData {
        server_time: 1,
        client_time: 2,
        session_start: 3,
        subscription_token: "t".to_string(),
        subscription_expires: 4,
        offline_window_hours: 5,
        checksum: "ignored".to_string(),
    };
    assert_eq!(calculate_checksum(&sd), format!("{:x}", hash64("123t45")));
}

#[test]
fn new_session_carries_its_checksum() {
    let sd = new_session_data(server(), 42);
    assert_eq!(sd.server_time, 1_700_000_000_000);
    assert_eq!(sd.session_start, sd.server_time);
    assert_eq!(sd.client_time, 42);
    assert_eq!(sd.checksum, calculate_checksum(&sd));
    let stored = sd.checksum.clone();
    assert!(verify_session_integrity(&sd, &stored));
}

#[test]
fn integrity_fails_on_changes() {
    let sd = new_session_data(server(), 42);
    let stored = sd.checksum.clone();
    assert!(!verify_session_integrity(&sd, ""));
    let mut forged = sd.clone();
    forged.subscription_expires += 1;
    assert!(!verify_session_integrity(&forged, &stored));
}

#[test]
fn state_follows_offline_window() {
    let sd = new_session_data(server(), 0);
    assert_eq!(session_state_at(&sd, sd.server_time), SessionState::Valid);
    assert_eq!(session_state_at(&sd, sd.server_time + 12 * HOUR + HOUR - 1), SessionState::Valid);
    assert_eq!(session_state_at(&sd, sd.server_time + 13 * HOUR), SessionState::Expired);
    assert_eq!(session_state_at(&sd, sd.subscription_expires), SessionState::SubscriptionExpired);
}

#[test]
fn update_and_refresh() {
    let sd = new_session_data(server(), 0);
    assert_eq!(update_session_state(&None, 0), SessionState::Loading);
    let data = Some(sd.clone());
    assert_eq!(update_session_state(&data, 0), SessionState::Valid);
    assert_eq!(update_session_state(&data, 20 * HOUR), SessionState::Expired);
    assert_eq!(refresh_session_state(SessionState::Valid, &data, 20 * HOUR), SessionState::Expired);
    assert_eq!(refresh_session_state(SessionState::Offline, &data, 0), SessionState::Valid);
    assert_eq!(
        refresh_session_state(SessionState::TamperingDetected, &data, 0),
        SessionState::TamperingDetected
    );
    assert_eq!(refresh_session_state(SessionState::Loading, &data, 0), SessionState::Loading);
    assert_eq!(current_server_time(&sd, 5), sd.server_time + 5);
}

#[test]
fn subscription_and_validity() {
    let sd = new_session_data(server(), 0);
    assert!(has_valid_subscription(&Some(sd.clone()), 0));
    assert!(!has_valid_subscription(&Some(sd.clone()), 30 * 24 * HOUR));
    assert!(!has_valid_subscription(&None, 0));
    assert!(is_session_valid(SessionState::Valid));
    assert!(is_session_valid(SessionState::Offline));
    assert!(!is_session_valid(SessionState::Expired));
    assert!(!is_session_valid(SessionState::Loading));
    assert_eq!(SessionState::default(), SessionState::Loading);
}

#[test]
fn clock_tampering() {
    let sd = new_session_data(server(), 1_000_000);
    assert!(!detect_clock_tampering(&sd, 1_000_000, 0));
    assert!(!detect_clock_tampering(&sd, 1_000_000 - 300_000, 0));
    assert!(detect_clock_tampering(&sd, 1_000_000 - 300_001, 0));
    assert!(!detect_clock_tampering(&sd, 5_000_000, 10));
    assert!(detect_clock_tampering(&sd, 1_000_000, 400_000));
}

#[test]
fn loading_stored_sessions() {
    let sd = new_session_data(server(), 1_000_000);
    let stored = sd.checksum.clone();
    let out = load_existing_session(StoredSession::Found(sd.clone()), &stored, 1_000_000, 0);
    assert_eq!(out.session_data, Some(sd.clone()));
    assert_eq!(out.session_state, Some(SessionState::Valid));
    assert!(!out.clear_storage);

    let out = load_existing_session(StoredSession::Found(sd.clone()), "other", 1_000_000, 0);
    assert_eq!(out.session_data, None);
    assert_eq!(out.session_state, Some(SessionState::TamperingDetected));
    assert!(out.clear_storage);

    let out = load_existing_session(StoredSession::Found(sd.clone()), &stored, 0, 0);
    assert_eq!(out.session_state, Some(SessionState::TamperingDetected));
    assert!(out.clear_storage);

    let out = load_existing_session(StoredSession::Unreadable, "", 0, 0);
    assert_eq!(out.session_state, None);
    assert!(out.clear_storage);

    let out = load_existing_session(StoredSession::Missing, "", 0, 0);
    assert_eq!(out.session_state, Some(SessionState::Loading));
    assert!(!out.clear_storage);
    let out = load_existing_session(StoredSession::Unavailable, "", 0, 0);
    assert_eq!(out.session_state, Some(SessionState::Loading));
}

#[test]
fn layouts() {
    assert_eq!(select_layout(true, SessionState::Valid, true), LayoutChoice::Private);
    assert_eq!(select_layout(true, SessionState::Offline, true), LayoutChoice::Private);
    assert_eq!(select_layout(true, SessionState::Valid, false), LayoutChoice::Public);
    assert_eq!(select_layout(true, SessionState::SubscriptionExpired, false), LayoutChoice::SubscriptionExpired);
    assert_eq!(select_layout(true, SessionState::TamperingDetected, true), LayoutChoice::SecurityWarning);
    assert_eq!(select_layout(true, SessionState::Expired, true), LayoutChoice::SessionExpired);
    assert_eq!(select_layout(false, SessionState::Valid, true), LayoutChoice::Public);
    assert_eq!(select_layout(true, SessionState::Loading, true), LayoutChoice::Public);
    assert!(is_authorized(true, SessionState::Valid, true));
    assert!(!is_authorized(false, SessionState::Valid, true));
    assert!(!is_authorized(true, SessionState::Expired, true));
}

#[test]
fn labels() {
    assert_eq!(session_status_label(SessionState::Valid), "🟢 Online");
    assert_eq!(session_status_label(SessionState::Offline), "🟡 Offline");
    assert_eq!(session_status_label(SessionState::Expired), "🔴 Session Expired");
    assert_eq!(session_status_label(SessionState::TamperingDetected), "⚠️ Security Warning");
    assert_eq!(session_status_label(SessionState::SubscriptionExpired), "❌ Subscription Expired");
    assert_eq!(session_status_label(SessionState::NetworkError), "⏳ Loading...");
    assert_eq!(dashboard_status_label(SessionState::Valid), "Active");
    assert_eq!(dashboard_status_label(SessionState::Offline), "Offline");
    assert_eq!(dashboard_status_label(SessionState::Expired), "Unknown");
}

#[test]
fn checks_that_are_not_reached_need_no_sane_clock() {
    // A tampered session with a client time so large that the clock check
    // could not be computed is dropped on its checksum alone.
    let mut sd = new_session_data(server(), u64::MAX);
    sd.checksum = "forged".to_string();
    let out = load_existing_session(StoredSession::Found(sd.clone()), "forged", 0, u64::MAX);
    assert_eq!(out.session_state, Some(SessionState::TamperingDetected));
    assert!(out.clear_storage);
    // A state that is not re-judged is kept even when the session's
    // server time would overflow.
    let data = Some(sd);
    assert_eq!(refresh_session_state(SessionState::Expired, &data, u64::MAX), SessionState::Expired);
}

#[test]
fn saved_session_loads_back() {
    let sd = new_session_data(server(), 5_000_000);
    let stored = sd.checksum.clone();
    let out = load_existing_session(StoredSession::Found(sd.clone()), &stored, 5_000_000 + HOUR, HOUR);
    assert_eq!(out.session_data, Some(sd.clone()));
    assert_eq!(out.session_state, Some(update_session_state(&Some(sd), HOUR)));
    assert!(!out.clear_storage);
}
