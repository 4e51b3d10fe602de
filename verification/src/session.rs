//! The offline session guard: the server-time estimate, the integrity
//! checksum over the stored session, clock-tampering detection and the
//! session state that decides which layout the user sees.
use vstd::prelude::*;
use vstd::utf8::encode_utf8;
use crate::text::{decimal, lower_hex, u64_to_decimal, u64_to_lower_hex};

verus! {

/// What the server hands back when a session is opened.
#[derive(Debug, Clone, PartialEq)]
pub struct ServerData {
    pub server_time: u64,
    pub subscription_token: String,
    pub subscription_expires: u64,
    pub offline_window_hours: u32,
}

/// The stored session, as the guard reads it. Times are milliseconds.
#[derive(Debug, Clone, PartialEq)]
pub struct SessionData {
    /// Server time when the session was last synced.
    pub server_time: u64,
    /// Client wall-clock time when `server_time` was received.
    pub client_time: u64,
    /// Server-adjusted start of the session.
    pub session_start: u64,
    pub subscription_token: String,
    pub subscription_expires: u64,
    /// How long the app may be used offline after the last sync.
    pub offline_window_hours: u32,
    /// Integrity check over the other fields.
    pub checksum: String,
}

/// The state of the session, for the user interface.
#[derive(Debug, Clone, Copy, PartialEq, Eq, Structural)]
pub enum SessionState {
    Loading,
    Valid,
    Expired,
    Offline,
    TamperingDetected,
    SubscriptionExpired,
    NetworkError,
}

impl Default for SessionState {
    fn default() -> (r: Self)
        ensures
            r == SessionState::Loading,
    {
        SessionState::Loading
    }
}

pub const FNV_OFFSET_BASIS: u64 = 14695981039346656037;

pub const FNV_PRIME: u64 = 1099511628211;

/// Backward clock movement beyond this many milliseconds counts as tampering (five minutes).
pub const MAX_CLOCK_DRIFT_MS: i64 = 300000;

/// Milliseconds in an hour.
pub const MS_PER_HOUR: u64 = 3600000;

/// The 64-bit FNV-1a hash of a byte sequence.
pub open spec fn fnv1a(bytes: Seq<u8>) -> u64
    decreases bytes.len(),
{
    if bytes.len() == 0 {
        FNV_OFFSET_BASIS
    } else {
        vstd::wrapping::u64_specs::wrapping_mul(
            fnv1a(bytes.drop_last()) ^ (bytes.last() as u64),
            FNV_PRIME,
        )
    }
}

/// The 64-bit FNV-1a hash of the UTF-8 bytes of `data`.
pub fn hash64(data: &str) -> (r: u64)
    ensures
        r == fnv1a(encode_utf8(data@)),
{
    let bytes = data.as_bytes();
    let mut hash: u64 = FNV_OFFSET_BASIS;
    let mut i: usize = 0;
    while i < bytes.len()
        invariant
            bytes@ == encode_utf8(data@),
            i <= bytes@.len(),
            hash == fnv1a(bytes@.take(i as int)),
        decreases bytes@.len() - i,
    {
        assert(bytes@.take(i + 1).drop_last() =~= bytes@.take(i as int));
        hash = hash ^ (bytes[i] as u64);
        hash = hash.wrapping_mul(FNV_PRIME);
        i = i + 1;
    }
    assert(bytes@.take(i as int) =~= bytes@);
    hash
}

/// The text the checksum is taken over: the session's numeric fields in
/// decimal and the subscription token, run together.
pub open spec fn checksum_text(sd: SessionData) -> Seq<char> {
    decimal(sd.server_time as nat) + decimal(sd.client_time as nat) + decimal(
        sd.session_start as nat,
    ) + sd.subscription_token@ + decimal(sd.subscription_expires as nat) + decimal(
        sd.offline_window_hours as nat,
    )
}

/// The checksum of a session: the FNV-1a hash of `checksum_text` in lower-case hex.
pub open spec fn checksum_spec(sd: SessionData) -> Seq<char> {
    lower_hex(fnv1a(encode_utf8(checksum_text(sd))) as nat)
}

/// Computes the integrity checksum of a session (its own `checksum` field is not read).
pub fn calculate_checksum(sd: &SessionData) -> (r: String)
    ensures
        r@ == checksum_spec(*sd),
{
    let mut data = u64_to_decimal(sd.server_time);
    data.append(u64_to_decimal(sd.client_time).as_str());
    data.append(u64_to_decimal(sd.session_start).as_str());
    data.append(sd.subscription_token.as_str());
    data.append(u64_to_decimal(sd.subscription_expires).as_str());
    data.append(u64_to_decimal(sd.offline_window_hours as u64).as_str());
    assert(data@ =~= checksum_text(*sd));
    u64_to_lower_hex(hash64(data.as_str()))
}

/// A new session opened at the client time `client_time` from what the server sent;
/// the session starts at the server's time and carries its checksum.
pub fn new_session_data(server: ServerData, client_time: u64) -> (r: SessionData)
    ensures
        r.server_time == server.server_time,
        r.client_time == client_time,
        r.session_start == server.server_time,
        r.subscription_token@ == server.subscription_token@,
        r.subscription_expires == server.subscription_expires,
        r.offline_window_hours == server.offline_window_hours,
        r.checksum@ == checksum_spec(r),
{
    let unsigned = SessionData {
        server_time: server.server_time,
        client_time,
        session_start: server.server_time,
        subscription_token: server.subscription_token,
        subscription_expires: server.subscription_expires,
        offline_window_hours: server.offline_window_hours,
        checksum: String::new(),
    };
    let checksum = calculate_checksum(&unsigned);
    SessionData { checksum, ..unsigned }
}

/// The stored session is intact: its checksum matches its fields and the
/// separately stored checksum (`""` when that one is missing).
pub open spec fn integrity_spec(sd: SessionData, stored_checksum: Seq<char>) -> bool {
    sd.checksum@ == checksum_spec(sd) && checksum_spec(sd) == stored_checksum
}

/// Checks a loaded session against its checksum and the separately stored one.
pub fn verify_session_integrity(sd: &SessionData, stored_checksum: &str) -> (r: bool)
    ensures
        r == integrity_spec(*sd, stored_checksum@),
{
    let expected = calculate_checksum(sd);
    let stored = crate::text::copy_str(stored_checksum);
    sd.checksum == expected && expected == stored
}

/// The server time now: the synced server time plus the time elapsed since
/// the sync, as measured by the monotonic clock.
pub open spec fn server_time_spec(sd: SessionData, elapsed_ms: u64) -> int {
    sd.server_time + elapsed_ms
}

/// Estimates the current server time from the milliseconds elapsed since the sync.
pub fn current_server_time(sd: &SessionData, elapsed_ms: u64) -> (r: u64)
    requires
        sd.server_time + elapsed_ms <= u64::MAX,
    ensures
        r == server_time_spec(*sd, elapsed_ms),
{
    sd.server_time + elapsed_ms
}

/// The state of a session at server time `now`: past the subscription's end
/// it has expired; otherwise it is valid while the whole hours since its
/// start stay within the offline window.
pub open spec fn state_at_spec(sd: SessionData, now: int) -> SessionState {
    if now >= sd.subscription_expires {
        SessionState::SubscriptionExpired
    } else if (now - sd.session_start) / (MS_PER_HOUR as int) <= sd.offline_window_hours {
        SessionState::Valid
    } else {
        SessionState::Expired
    }
}

/// A session can be judged at `now` without the hours going negative.
pub open spec fn judgeable(sd: SessionData, now: int) -> bool {
    now >= sd.subscription_expires || now >= sd.session_start
}

/// The state of a session at the given server time.
pub fn session_state_at(sd: &SessionData, now: u64) -> (r: SessionState)
    requires
        judgeable(*sd, now as int),
    ensures
        r == state_at_spec(*sd, now as int),
{
    if now >= sd.subscription_expires {
        return SessionState::SubscriptionExpired;
    }
    let hours = (now - sd.session_start) / MS_PER_HOUR;
    if hours <= sd.offline_window_hours as u64 {
        SessionState::Valid
    } else {
        SessionState::Expired
    }
}

/// The session can be timed and judged `elapsed_ms` after its sync.
pub open spec fn can_judge(data: Option<SessionData>, elapsed_ms: u64) -> bool {
    match data {
        Some(sd) => sd.server_time + elapsed_ms <= u64::MAX && judgeable(
            sd,
            server_time_spec(sd, elapsed_ms),
        ),
        None => true,
    }
}

/// The state the session guard shows: `Loading` without a session, else the
/// state of the session at the estimated server time.
pub open spec fn update_spec(data: Option<SessionData>, elapsed_ms: u64) -> SessionState {
    match data {
        Some(sd) => state_at_spec(sd, server_time_spec(sd, elapsed_ms)),
        None => SessionState::Loading,
    }
}

/// Recomputes the session state from the stored session.
pub fn update_session_state(data: &Option<SessionData>, elapsed_ms: u64) -> (r: SessionState)
    requires
        can_judge(*data, elapsed_ms),
    ensures
        r == update_spec(*data, elapsed_ms),
{
    match data {
        Some(sd) => {
            let now = current_server_time(sd, elapsed_ms);
            session_state_at(sd, now)
        },
        None => SessionState::Loading,
    }
}

/// The periodic refresh: only a valid or offline session is re-judged;
/// any other state is kept.
pub open spec fn refresh_spec(
    current: SessionState,
    data: Option<SessionData>,
    elapsed_ms: u64,
) -> SessionState {
    match current {
        SessionState::Valid | SessionState::Offline => update_spec(data, elapsed_ms),
        _ => current,
    }
}

/// The periodic session refresh.
pub fn refresh_session_state(
    current: SessionState,
    data: &Option<SessionData>,
    elapsed_ms: u64,
) -> (r: SessionState)
    requires
        usable_spec(current) ==> can_judge(*data, elapsed_ms),
    ensures
        r == refresh_spec(current, *data, elapsed_ms),
{
    match current {
        SessionState::Valid | SessionState::Offline => update_session_state(data, elapsed_ms),
        _ => current,
    }
}

/// A session is usable when it is valid or offline.
pub open spec fn usable_spec(state: SessionState) -> bool {
    state == SessionState::Valid || state == SessionState::Offline
}

/// Whether the session is usable (not expired, no tampering).
pub fn is_session_valid(state: SessionState) -> (r: bool)
    ensures
        r == usable_spec(state),
{
    match state {
        SessionState::Valid | SessionState::Offline => true,
        _ => false,
    }
}

/// The subscription is paid up at the estimated server time.
pub open spec fn subscription_spec(data: Option<SessionData>, elapsed_ms: u64) -> bool {
    match data {
        Some(sd) => server_time_spec(sd, elapsed_ms) < sd.subscription_expires,
        None => false,
    }
}

/// Whether there is a session whose subscription has not yet run out.
pub fn has_valid_subscription(data: &Option<SessionData>, elapsed_ms: u64) -> (r: bool)
    requires
        data matches Some(sd) ==> sd.server_time + elapsed_ms <= u64::MAX,
    ensures
        r == subscription_spec(*data, elapsed_ms),
{
    match data {
        Some(sd) => current_server_time(sd, elapsed_ms) < sd.subscription_expires,
        None => false,
    }
}

/// The client time the session predicts now.
pub open spec fn expected_client_time(sd: SessionData, elapsed_ms: u64) -> int {
    sd.client_time + elapsed_ms
}

/// The signed drift between the client clock and its predicted value, as
/// the two readings are compared after conversion to `i64`.
pub open spec fn drift_spec(sd: SessionData, now_client: u64, elapsed_ms: u64) -> int {
    (now_client as i64) as int - (expected_client_time(sd, elapsed_ms) as u64 as i64) as int
}

/// The readings fit the arithmetic of the tampering check.
pub open spec fn drift_computable(sd: SessionData, now_client: u64, elapsed_ms: u64) -> bool {
    &&& expected_client_time(sd, elapsed_ms) <= u64::MAX
    &&& i64::MIN <= drift_spec(sd, now_client, elapsed_ms) <= i64::MAX
}

/// The clock moved backward by more than the allowed drift.
pub open spec fn tampering_spec(sd: SessionData, now_client: u64, elapsed_ms: u64) -> bool {
    drift_spec(sd, now_client, elapsed_ms) < -(MAX_CLOCK_DRIFT_MS as int)
}

/// Detects a client clock set back since the sync: the wall clock reads
/// more than five minutes earlier than the sync time plus the monotonic
/// time elapsed.
pub fn detect_clock_tampering(sd: &SessionData, now_client: u64, elapsed_ms: u64) -> (r: bool)
    requires
        drift_computable(*sd, now_client, elapsed_ms),
    ensures
        r == tampering_spec(*sd, now_client, elapsed_ms),
{
    let expected = sd.client_time + elapsed_ms;
    let drift = (now_client as i64) - (expected as i64);
    drift < -MAX_CLOCK_DRIFT_MS
}


/// What reading the stored session gave.
#[derive(Debug, Clone, PartialEq)]
pub enum StoredSession {
    /// Storage could not be reached.
    Unavailable,
    /// Nothing was stored.
    Missing,
    /// Something was stored but it is not a session.
    Unreadable,
    /// A session was stored.
    Found(SessionData),
}

/// What to do after reading the stored session.
#[derive(Debug, Clone, PartialEq)]
pub struct LoadOutcome {
    /// The session to keep, if it is accepted.
    pub session_data: Option<SessionData>,
    /// The state to show, or `None` to leave it as it is.
    pub session_state: Option<SessionState>,
    /// Whether the stored session is to be removed.
    pub clear_storage: bool,
}

/// The stored session can be checked with the given clock readings: an
/// intact session's clock readings fit the tampering check, and when they
/// pass it, the session can be judged.
pub open spec fn load_checkable(
    stored: StoredSession,
    stored_checksum: Seq<char>,
    now_client: u64,
    elapsed_ms: u64,
) -> bool {
    match stored {
        StoredSession::Found(sd) => integrity_spec(sd, stored_checksum) ==> {
            &&& drift_computable(sd, now_client, elapsed_ms)
            &&& !tampering_spec(sd, now_client, elapsed_ms) ==> can_judge(Some(sd), elapsed_ms)
        },
        _ => true,
    }
}

/// The decision taken on startup: an intact session whose clock has not been
/// set back is kept and judged; a session that fails either check is
/// dropped as tampered with; unreadable data is dropped; without data the
/// guard shows `Loading`.
pub open spec fn load_spec(
    stored: StoredSession,
    stored_checksum: Seq<char>,
    now_client: u64,
    elapsed_ms: u64,
) -> LoadOutcome {
    match stored {
        StoredSession::Unavailable | StoredSession::Missing => LoadOutcome {
            session_data: None,
            session_state: Some(SessionState::Loading),
            clear_storage: false,
        },
        StoredSession::Unreadable => LoadOutcome {
            session_data: None,
            session_state: None,
            clear_storage: true,
        },
        StoredSession::Found(sd) => if integrity_spec(sd, stored_checksum) && !tampering_spec(
            sd,
            now_client,
            elapsed_ms,
        ) {
            LoadOutcome {
                session_data: Some(sd),
                session_state: Some(update_spec(Some(sd), elapsed_ms)),
                clear_storage: false,
            }
        } else {
            LoadOutcome {
                session_data: None,
                session_state: Some(SessionState::TamperingDetected),
                clear_storage: true,
            }
        },
    }
}

/// Decides what to do with the session read from storage at startup.
/// `stored_checksum` is the separately stored checksum (`""` when missing),
/// `now_client` the wall clock and `elapsed_ms` the monotonic time since the sync.
pub fn load_existing_session(
    stored: StoredSession,
    stored_checksum: &str,
    now_client: u64,
    elapsed_ms: u64,
) -> (r: LoadOutcome)
    requires
        load_checkable(stored, stored_checksum@, now_client, elapsed_ms),
    ensures
        r == load_spec(stored, stored_checksum@, now_client, elapsed_ms),
{
    match stored {
        StoredSession::Unavailable | StoredSession::Missing => LoadOutcome {
            session_data: None,
            session_state: Some(SessionState::Loading),
            clear_storage: false,
        },
        StoredSession::Unreadable => LoadOutcome {
            session_data: None,
            session_state: None,
            clear_storage: true,
        },
        StoredSession::Found(sd) => {
            if verify_session_integrity(&sd, stored_checksum) {
                if detect_clock_tampering(&sd, now_client, elapsed_ms) {
                    LoadOutcome {
                        session_data: None,
                        session_state: Some(SessionState::TamperingDetected),
                        clear_storage: true,
                    }
                } else {
                    let data = Some(sd);
                    let state = update_session_state(&data, elapsed_ms);
                    LoadOutcome { session_data: data, session_state: Some(state), clear_storage: false }
                }
            } else {
                LoadOutcome {
                    session_data: None,
                    session_state: Some(SessionState::TamperingDetected),
                    clear_storage: true,
                }
            }
        },
    }
}

/// The page layout for the current user.
#[derive(Debug, Clone, Copy, PartialEq, Eq, Structural)]
pub enum LayoutChoice {
    /// The signed-in layout with sidebar and header.
    Private,
    /// The notice that the subscription has run out.
    SubscriptionExpired,
    /// The warning shown after tampering was detected.
    SecurityWarning,
    /// The notice that the offline window has passed.
    SessionExpired,
    /// The public layout.
    Public,
}

/// Which layout a user sees: a signed-in user with a usable session and a
/// paid subscription gets the private layout; a signed-in user whose
/// subscription ran out, whose session was tampered with or whose session
/// expired gets the matching notice; everyone else the public layout.
pub open spec fn layout_spec(
    is_authenticated: bool,
    state: SessionState,
    has_valid_subscription: bool,
) -> LayoutChoice {
    if is_authenticated && usable_spec(state) && has_valid_subscription {
        LayoutChoice::Private
    } else if is_authenticated && state == SessionState::SubscriptionExpired {
        LayoutChoice::SubscriptionExpired
    } else if is_authenticated && state == SessionState::TamperingDetected {
        LayoutChoice::SecurityWarning
    } else if is_authenticated && state == SessionState::Expired {
        LayoutChoice::SessionExpired
    } else {
        LayoutChoice::Public
    }
}

/// Chooses the layout for the current user.
pub fn select_layout(
    is_authenticated: bool,
    state: SessionState,
    has_valid_subscription: bool,
) -> (r: LayoutChoice)
    ensures
        r == layout_spec(is_authenticated, state, has_valid_subscription),
{
    match (is_authenticated, state) {
        (true, SessionState::Valid) if has_valid_subscription => LayoutChoice::Private,
        (true, SessionState::Offline) if has_valid_subscription => LayoutChoice::Private,
        (true, SessionState::SubscriptionExpired) => LayoutChoice::SubscriptionExpired,
        (true, SessionState::TamperingDetected) => LayoutChoice::SecurityWarning,
        (true, SessionState::Expired) => LayoutChoice::SessionExpired,
        _ => LayoutChoice::Public,
    }
}

/// Protected content is shown to a signed-in user with a usable session and subscription.
pub fn is_authorized(user_present: bool, state: SessionState, has_valid_subscription: bool) -> (r:
    bool)
    ensures
        r == (user_present && usable_spec(state) && has_valid_subscription),
{
    user_present && is_session_valid(state) && has_valid_subscription
}

/// The status line shown in the signed-in header.
pub open spec fn status_label_spec(state: SessionState) -> Seq<char> {
    match state {
        SessionState::Valid => "🟢 Online"@,
        SessionState::Offline => "🟡 Offline"@,
        SessionState::Expired => "🔴 Session Expired"@,
        SessionState::TamperingDetected => "⚠️ Security Warning"@,
        SessionState::SubscriptionExpired => "❌ Subscription Expired"@,
        _ => "⏳ Loading..."@,
    }
}

/// The status line for the header.
pub fn session_status_label(state: SessionState) -> (r: &'static str)
    ensures
        r@ == status_label_spec(state),
{
    match state {
        SessionState::Valid => "🟢 Online",
        SessionState::Offline => "🟡 Offline",
        SessionState::Expired => "🔴 Session Expired",
        SessionState::TamperingDetected => "⚠️ Security Warning",
        SessionState::SubscriptionExpired => "❌ Subscription Expired",
        _ => "⏳ Loading...",
    }
}

/// The session status on the dashboard card.
pub open spec fn dashboard_label_spec(state: SessionState) -> Seq<char> {
    match state {
        SessionState::Valid => "Active"@,
        SessionState::Offline => "Offline"@,
        _ => "Unknown"@,
    }
}

/// The session status shown on the dashboard.
pub fn dashboard_status_label(state: SessionState) -> (r: &'static str)
    ensures
        r@ == dashboard_label_spec(state),
{
    match state {
        SessionState::Valid => "Active",
        SessionState::Offline => "Offline",
        _ => "Unknown",
    }
}


/// A session made by `new_session_data`, stored with its own checksum, passes
/// the integrity check when it is loaded again.
pub proof fn lemma_new_session_intact(sd: SessionData)
    requires
        sd.checksum@ == checksum_spec(sd),
    ensures
        integrity_spec(sd, sd.checksum@),
{
}

/// A stored checksum other than the session's own fails the integrity check.
pub proof fn lemma_checksum_mismatch_rejected(sd: SessionData, stored: Seq<char>)
    requires
        stored != sd.checksum@,
    ensures
        !integrity_spec(sd, stored),
{
}

/// The periodic refresh never overrides a state that is neither valid nor
/// offline (loading, expired, tampered with, subscription ended, network
/// error), and re-judges a valid or offline session exactly as an update does.
pub proof fn lemma_refresh_keeps_other_states(
    current: SessionState,
    data: Option<SessionData>,
    elapsed_ms: u64,
)
    ensures
        !usable_spec(current) ==> refresh_spec(current, data, elapsed_ms) == current,
        usable_spec(current) ==> refresh_spec(current, data, elapsed_ms) == update_spec(data, elapsed_ms),
{
}

/// A saved session, which carries its own checksum, is given back whole when
/// it is loaded with that checksum and the wall clock was not set back: it
/// is kept, judged as an update judges it, and storage is left alone.
pub proof fn lemma_saved_session_loads_back(sd: SessionData, now_client: u64, elapsed_ms: u64)
    requires
        sd.checksum@ == checksum_spec(sd),
        !tampering_spec(sd, now_client, elapsed_ms),
    ensures
        load_spec(StoredSession::Found(sd), sd.checksum@, now_client, elapsed_ms) == (LoadOutcome {
            session_data: Some(sd),
            session_state: Some(update_spec(Some(sd), elapsed_ms)),
            clear_storage: false,
        }),
{
}

/// A session that is no longer valid at some time is not valid at any later
/// time: expiry is permanent until the session is synced again.
pub proof fn lemma_expiry_is_permanent(sd: SessionData, t1: int, t2: int)
    requires
        t1 <= t2,
        judgeable(sd, t1),
        state_at_spec(sd, t1) != SessionState::Valid,
    ensures
        judgeable(sd, t2),
        state_at_spec(sd, t2) != SessionState::Valid,
{
    if t2 < sd.subscription_expires {
        assert(t1 < sd.subscription_expires);
        assert(t1 >= sd.session_start);
        vstd::arithmetic::div_mod::lemma_div_is_ordered(
            t1 - sd.session_start,
            t2 - sd.session_start,
            MS_PER_HOUR as int,
        );
    }
}

/// A session just opened, whose subscription runs past the server's time,
/// is valid.
pub proof fn lemma_fresh_session_valid(sd: SessionData)
    requires
        sd.session_start == sd.server_time,
        sd.server_time < sd.subscription_expires,
    ensures
        update_spec(Some(sd), 0) == SessionState::Valid,
{
    assert((sd.server_time + 0 - sd.session_start) / (MS_PER_HOUR as int) == 0);
}

/// The subscription check and the session state agree: the state is
/// `SubscriptionExpired` exactly when the subscription is not paid up.
pub proof fn lemma_subscription_agrees(sd: SessionData, elapsed_ms: u64)
    ensures
        (update_spec(Some(sd), elapsed_ms) == SessionState::SubscriptionExpired) <==> !subscription_spec(
            Some(sd),
            elapsed_ms,
        ),
{
}

/// On startup only an intact session whose clock was not set back is kept;
/// a session that fails either check is reported as tampered with and removed.
pub proof fn lemma_load_keeps_only_trusted(
    sd: SessionData,
    stored_checksum: Seq<char>,
    now_client: u64,
    elapsed_ms: u64,
)
    ensures
        load_spec(StoredSession::Found(sd), stored_checksum, now_client, elapsed_ms).session_data
            is Some <==> (integrity_spec(sd, stored_checksum) && !tampering_spec(
            sd,
            now_client,
            elapsed_ms,
        )),
        load_spec(StoredSession::Found(sd), stored_checksum, now_client, elapsed_ms).session_data
            is None ==> load_spec(
            StoredSession::Found(sd),
            stored_checksum,
            now_client,
            elapsed_ms,
        ).session_state == Some(SessionState::TamperingDetected) && load_spec(
            StoredSession::Found(sd),
            stored_checksum,
            now_client,
            elapsed_ms,
        ).clear_storage,
{
}

/// The private layout is shown exactly to a signed-in user with a usable
/// session and a paid subscription, the same condition that guards protected content.
pub proof fn lemma_private_layout_is_authorized(
    is_authenticated: bool,
    state: SessionState,
    has_valid_subscription: bool,
)
    ensures
        (layout_spec(is_authenticated, state, has_valid_subscription) == LayoutChoice::Private)
            <==> (is_authenticated && usable_spec(state) && has_valid_subscription),
{
}

/// Each notice goes to a signed-in user in exactly one state: the
/// subscription notice when the subscription has ended, the security warning
/// after tampering, the session notice when the offline window has passed.
/// Every other case that does not get the private layout (signed out, still
/// loading, a failed refresh, a usable session without a paid subscription)
/// gets the public layout.
pub proof fn lemma_layout_notices(
    is_authenticated: bool,
    state: SessionState,
    has_valid_subscription: bool,
)
    ensures
        (layout_spec(is_authenticated, state, has_valid_subscription) == LayoutChoice::SessionExpired)
            <==> (is_authenticated && state == SessionState::Expired),
        (layout_spec(is_authenticated, state, has_valid_subscription)
            == LayoutChoice::SubscriptionExpired) <==> (is_authenticated && state
            == SessionState::SubscriptionExpired),
        (layout_spec(is_authenticated, state, has_valid_subscription) == LayoutChoice::SecurityWarning)
            <==> (is_authenticated && state == SessionState::TamperingDetected),
        (layout_spec(is_authenticated, state, has_valid_subscription) == LayoutChoice::Public) <==> (
        !is_authenticated || state == SessionState::Loading || state == SessionState::NetworkError
            || ((state == SessionState::Valid || state == SessionState::Offline)
            && !has_valid_subscription)),
{
}

/// Before the subscription ends, a session judged at or after its start is
/// valid exactly while the whole hours since its start are within its offline
/// window, whatever the window's length: that is, until the start of the hour
/// that follows the window's last one. Otherwise it has expired. From the
/// subscription's end on, the subscription has expired.
pub proof fn lemma_offline_window(sd: SessionData, now: int)
    ensures
        now >= sd.subscription_expires ==> state_at_spec(sd, now) == SessionState::SubscriptionExpired,
        sd.session_start <= now < sd.subscription_expires ==> {
            &&& (state_at_spec(sd, now) == SessionState::Valid) <==> ((now - sd.session_start)
                / 3600000 <= sd.offline_window_hours)
            &&& (state_at_spec(sd, now) == SessionState::Valid) <==> (now < sd.session_start + (
            sd.offline_window_hours + 1) * 3600000)
            &&& (state_at_spec(sd, now) != SessionState::Valid) ==> state_at_spec(sd, now)
                == SessionState::Expired
        },
{
    if sd.session_start <= now < sd.subscription_expires {
        let x = now - sd.session_start;
        let w = sd.offline_window_hours as int;
        vstd::arithmetic::div_mod::lemma_fundamental_div_mod(x, 3600000);
        vstd::arithmetic::div_mod::lemma_mod_bound(x, 3600000);
        let q = x / 3600000;
        assert(x == 3600000 * q + x % 3600000);
        if q <= w {
            assert(3600000 * q <= 3600000 * w) by (nonlinear_arith)
                requires q <= w;
        } else {
            assert(3600000 * q >= 3600000 * (w + 1)) by (nonlinear_arith)
                requires q >= w + 1;
        }
    }
}

/// The checksum of a session is the FNV-1a hash, in lower-case hex, of the
/// UTF-8 text made of its server time, client time and start in decimal, its
/// subscription token, and its subscription end and offline window in decimal.
pub proof fn lemma_checksum_of_fields(sd: SessionData)
    ensures
        checksum_spec(sd) == lower_hex(
            fnv1a(
                encode_utf8(
                    decimal(sd.server_time as nat) + decimal(sd.client_time as nat) + decimal(
                        sd.session_start as nat,
                    ) + sd.subscription_token@ + decimal(sd.subscription_expires as nat)
                        + decimal(sd.offline_window_hours as nat),
                ),
            ) as nat,
        ),
{
}

/// An update judges the session at the synced server time plus the time
/// elapsed since the sync: the subscription has expired once that time
/// reaches its end; before that, and from the session's start on, the session
/// is valid while fewer than the offline window's hours plus one have passed
/// since its start, and has expired after. Without a session it is loading.
pub proof fn lemma_update_at_elapsed_time(data: Option<SessionData>, elapsed_ms: u64)
    ensures
        data is None ==> update_spec(data, elapsed_ms) == SessionState::Loading,
        data matches Some(sd) ==> {
            &&& sd.server_time + elapsed_ms >= sd.subscription_expires ==> update_spec(data, elapsed_ms)
                == SessionState::SubscriptionExpired
            &&& sd.session_start <= sd.server_time + elapsed_ms < sd.subscription_expires ==> {
                &&& (update_spec(data, elapsed_ms) == SessionState::Valid) <==> (sd.server_time
                    + elapsed_ms < sd.session_start + (sd.offline_window_hours + 1) * 3600000)
                &&& (update_spec(data, elapsed_ms) != SessionState::Valid) ==> update_spec(
                    data,
                    elapsed_ms,
                ) == SessionState::Expired
            }
        },
{
    if let Some(sd) = data {
        lemma_offline_window(sd, sd.server_time + elapsed_ms);
    }
}

} // verus!
