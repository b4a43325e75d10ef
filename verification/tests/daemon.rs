use kitchen_table::account::{
    resolve_identity, resolve_relay_url, stored, valid_handle, Account, AccountError, AccountLink, Cloud,
    LinkAnswer, PollStep, Source, DEFAULT_RELAY_URL, GIVE_UP_AFTER_MS, POLL_EVERY_MS,
};
use kitchen_table::backoff::{jitter, jitter_from, window, Backoff, Retry, RECONNECT_MAX_SECS};
use kitchen_table::daemon::{
    changes, not_forgotten, origin_for, port_degraded, ports_from, serving_state, DegradedReason, ServingState,
};
use kitchen_table::label::{normalise_public_label, LabelFault};
use kitchen_table::library::Library;
use kitchen_table::request::{plan_request, Param, RequestStep};
use kitchen_table::socket::{bind_step, BindStep, SocketError};
use kitchen_table::startup::stored_keys;
use kitchen_table::device::{Device, DeviceStatus};
use kitchen_table::access::{RelayMode, Visibility};
use kitchen_table::invite::{Invite, InviteError, InvitePolicy};
use kitchen_table::registry::{AppManifest, AppRecord};
use kitchen_table::relay::{
    CloseReason, Config, Control, ControlFrame, ControlStep, Ended, Heartbeat, Incoming, Next, ReadBuffer,
    ReadResult, RelayLoop, RelayState, RelayStatus, run_attempts, read_stream, Attempt,
};
use kitchen_table::rpc::{
    author_error, device_action, device_param, no_such_device, string_param,
    invite_policy, invite_url, log_limit, route, storage_mode_param, unknown_method, visibility_param, ErrorCode,
    Method, StorageMode,
};
use kitchen_table::socket::{lagged_message, ClientSession, LineStep};
use kitchen_table::startup::{seed_plan, validate, PickedFolder, SeedPlan, WorkspaceError};
use kitchen_table::trust::{redeem_plan, should_discover};
use kitchen_table::authoring::AuthorError;

// ---- accounts --------------------------------------------------------------

#[test]
fn a_handle_with_a_hyphen_or_a_dot_is_refused() {
    assert_eq!(valid_handle("devi"), Some("devi".into()));
    assert_eq!(valid_handle("  Devi "), Some("devi".into()));
    assert_eq!(valid_handle("de-vi"), None);
    assert_eq!(valid_handle("de.vi"), None);
    assert_eq!(valid_handle(""), None);
}

#[test]
fn an_empty_setting_reads_as_absent() {
    assert_eq!(stored(Some(String::new())), None);
    assert_eq!(stored(Some("adarsh".into())), Some("adarsh".into()));
    assert_eq!(stored(None), None);
}

#[test]
fn the_environment_outranks_the_stored_link() {
    assert_eq!(
        resolve_identity(Some("Env"), None, Some("stored".into()), None),
        Some(("env".into(), "kitchentable.cloud".into(), Source::Environment))
    );
    assert_eq!(resolve_identity(Some("bad-handle"), None, Some("stored".into()), None), None);
    assert_eq!(
        resolve_identity(None, None, Some("stored".into()), Some("example.org".into())),
        Some(("stored".into(), "example.org".into(), Source::Stored))
    );
    assert_eq!(resolve_identity(None, None, Some(String::new()), None), None);
}

#[test]
fn a_linked_install_dials_the_default_edge_when_nothing_says_otherwise() {
    assert_eq!(resolve_relay_url(None, None, true), Some(DEFAULT_RELAY_URL.to_string()));
    assert_eq!(resolve_relay_url(None, None, false), None);
    assert_eq!(resolve_relay_url(Some("  ws://x  "), Some("wss://y".into()), true), Some("ws://x".into()));
    assert_eq!(resolve_relay_url(Some("   "), Some("wss://y".into()), false), Some("wss://y".into()));
}

#[test]
fn cloud_addresses_lose_their_trailing_slashes() {
    let cloud = Cloud::from_settings(Some(" http://localhost:9000/ "), None);
    assert_eq!(cloud.site, "http://localhost:9000");
    assert_eq!(cloud.api, "https://api.kitchentable.cloud");
}

fn nowhere() -> Account {
    Account::new(Cloud { site: "https://site.test".into(), api: "http://127.0.0.1:1".into() })
}

#[test]
fn the_upgrade_url_names_this_install() {
    let mut account = nowhere();
    let step = account.begin_upgrade(Some("KEY"), 0).expect("starts");
    assert_eq!(step.started.url, "https://site.test/upgrade?install=KEY");
    assert!(step.announce);
    assert!(step.start_poll);
    assert_eq!(account.link(), AccountLink::Waiting);
    assert_eq!(account.poll_address("KEY"), "http://127.0.0.1:1/v1/installs/KEY");
}

#[test]
fn no_identity_means_no_upgrade_rather_than_a_dead_checkout() {
    let mut account = nowhere();
    assert!(matches!(account.begin_upgrade(None, 0), Err(AccountError::NoIdentity)));
}

#[test]
fn pressing_the_button_twice_does_not_stack_polls() {
    let mut account = nowhere();
    let first = account.begin_upgrade(Some("KEY"), 0).expect("starts");
    let second = account.begin_upgrade(Some("KEY"), 10).expect("still fine");
    assert_eq!(first.started.url, second.started.url);
    assert!(!second.announce, "already waiting");
    assert!(first.start_poll);
    assert!(!second.start_poll, "the running poll is left alone");
    // Once that poll gave up, the next press starts a new one.
    assert!(matches!(account.on_answer(None, GIVE_UP_AFTER_MS), PollStep::GiveUp { .. }));
    assert!(account.begin_upgrade(Some("KEY"), GIVE_UP_AFTER_MS + 1).expect("again").start_poll);
}

fn answer(linked: bool, handle: Option<&str>) -> Option<LinkAnswer> {
    Some(LinkAnswer { linked, handle: handle.map(String::from), domain: None, relay_url: None })
}

#[test]
fn a_landed_checkout_links_publishes_and_persists() {
    let mut account = nowhere();
    account.begin_upgrade(Some("KEY"), 0).expect("starts");
    assert!(matches!(account.on_answer(answer(false, None), 1), PollStep::Sleep(ms) if ms == POLL_EVERY_MS));
    match account.on_answer(answer(true, Some("Devi")), 2) {
        PollStep::Finalize { handle, domain, relay_url } => {
            assert_eq!(handle, "devi");
            assert_eq!(domain, "kitchentable.cloud");
            assert_eq!(relay_url, DEFAULT_RELAY_URL);
        }
        other => panic!("unexpected: {other:?}"),
    }
    assert_eq!(account.link(), AccountLink::Linked { handle: "devi".into(), domain: "kitchentable.cloud".into() });
}

#[test]
fn a_linked_answer_with_a_broken_handle_is_not_stored() {
    let mut account = nowhere();
    account.begin_upgrade(Some("KEY"), 0).expect("starts");
    assert!(matches!(account.on_answer(answer(true, Some("de-vi")), 1), PollStep::Sleep(_)));
    assert_eq!(account.link(), AccountLink::Waiting);
}

#[test]
fn an_abandoned_checkout_ends_back_at_unlinked() {
    let mut account = nowhere();
    account.begin_upgrade(Some("KEY"), 0).expect("starts");
    assert!(matches!(account.on_answer(None, GIVE_UP_AFTER_MS), PollStep::GiveUp { announce: true }));
    assert_eq!(account.link(), AccountLink::Unlinked);
}

#[test]
fn an_already_linked_install_is_told_so() {
    let mut account = nowhere();
    account.start("devi".into(), "kitchentable.cloud".into());
    assert!(matches!(
        account.begin_upgrade(Some("KEY"), 0),
        Err(AccountError::AlreadyLinked { handle }) if handle == "devi"
    ));
}

#[test]
fn unlink_clears_the_link_unless_the_environment_sets_it() {
    let mut account = nowhere();
    account.start("devi".into(), "kitchentable.cloud".into());
    assert!(matches!(account.unlink(true), Err(AccountError::EnvironmentOutranks)));
    assert!(account.unlink(false).is_ok());
    assert_eq!(account.link(), AccountLink::Unlinked);
}

// ---- serving ---------------------------------------------------------------

#[test]
fn the_default_port_is_left_out_of_urls() {
    assert_eq!(origin_for("localhost", 80), "http://localhost");
    assert_eq!(origin_for("trip.local", 80), "http://trip.local");
}

#[test]
fn a_fallback_port_is_shown_because_it_has_to_be_typed() {
    assert_eq!(origin_for("localhost", 8420), "http://localhost:8420");
}

#[test]
fn ports_come_from_the_setting_or_the_defaults() {
    assert_eq!(ports_from(None), vec![80, 8420, 8421, 8422]);
    assert_eq!(ports_from(Some("9000, 9001")), vec![9000, 9001]);
    assert_eq!(ports_from(Some("nope,,70000,+81")), vec![81]);
    assert_eq!(ports_from(Some("")), vec![80, 8420, 8421, 8422]);
    assert_eq!(ports_from(Some("-1")), vec![80, 8420, 8421, 8422]);
}

fn record(slug: &str, version: u32) -> AppRecord {
    AppRecord {
        manifest: AppManifest {
            name: slug.into(),
            slug: slug.into(),
            icon: None,
            entry: "index.html".into(),
            visibility: Visibility::Private,
            version,
            paused: false,
            relay: RelayMode::Off,
            public_label: None,
            storage: StorageMode::Synced,
            storage_backup: false,
        },
        path: format!("/ws/{slug}"),
        size_bytes: 10,
        deployed_at: Some(1),
        entry_exists: true,
    }
}

#[test]
fn a_rescan_reports_what_changed_and_what_left() {
    let before = vec![record("a", 1), record("b", 1), record("c", 1)];
    let after = vec![record("a", 1), record("b", 2), record("d", 1)];
    let c = changes(&before, &after);
    assert_eq!(c.changed, vec![1, 2]);
    assert_eq!(c.removed, vec!["c".to_string()]);
}

#[test]
fn an_unchanged_workspace_diffs_to_nothing() {
    let a = vec![record("one", 1), record("two", 1)];
    let c = changes(&a, &a);
    assert!(c.changed.is_empty());
    assert!(c.removed.is_empty());
}

// ---- the relay -------------------------------------------------------------

#[test]
fn an_unconfigured_relay_is_off_rather_than_unknown() {
    assert_eq!(RelayStatus::new().get(), RelayState::Off);
}

#[test]
fn only_a_real_transition_is_announced() {
    let mut status = RelayStatus::new();
    assert!(status.set(RelayState::Connecting), "off -> connecting");
    assert!(!status.set(RelayState::Connecting), "no change, no event");
    assert!(status.set(RelayState::Connected), "connecting -> connected");
}

#[test]
fn a_daemon_with_no_relay_configured_has_no_relay() {
    assert_eq!(Config::from_setting(None), None);
}

#[test]
fn an_empty_setting_counts_as_unset() {
    assert_eq!(Config::from_setting(Some("")), None);
    assert_eq!(Config::from_setting(Some("   ")), None);
}

#[test]
fn a_configured_url_is_taken_as_given() {
    assert_eq!(
        Config::from_setting(Some("wss://tunnel.kitchentable.cloud")),
        Some(Config { url: "wss://tunnel.kitchentable.cloud".into() })
    );
}

#[test]
fn surrounding_whitespace_does_not_become_part_of_the_url() {
    assert_eq!(Config::from_setting(Some("  ws://localhost:9000  ")).expect("configured").url, "ws://localhost:9000");
}

#[test]
fn the_window_doubles_from_the_floor() {
    assert_eq!(window(0), 1000);
    assert_eq!(window(1), 2000);
    assert_eq!(window(2), 4000);
    assert_eq!(window(3), 8000);
}

#[test]
fn the_window_stops_at_the_ceiling_and_never_overflows() {
    assert_eq!(window(6), 60_000);
    assert_eq!(window(60), 60_000);
    assert_eq!(window(u32::MAX), 60_000);
}

#[test]
fn a_permanent_refusal_yields_no_delay_at_all() {
    let mut backoff = Backoff::new();
    assert_eq!(backoff.next_delay(Retry::Never), None);
}

#[test]
fn repeated_failures_climb_and_then_hold() {
    let mut backoff = Backoff::new();
    for _ in 0..10 {
        let delay = backoff.next_delay(Retry::Backoff).expect("retryable");
        assert!(delay <= u64::from(RECONNECT_MAX_SECS) * 1000, "{delay} is over the ceiling");
    }
    assert_eq!(backoff.attempts(), 10);
}

#[test]
fn a_drain_does_not_push_the_schedule_upwards() {
    let mut backoff = Backoff::new();
    for _ in 0..5 {
        let delay = backoff.next_delay(Retry::Soon).expect("retryable");
        assert!(delay <= 1000, "{delay} is not soon");
    }
    assert_eq!(backoff.attempts(), 0);
}

#[test]
fn a_working_connection_resets_the_climb() {
    let mut backoff = Backoff::new();
    for _ in 0..5 {
        backoff.next_delay(Retry::Backoff);
    }
    assert_eq!(backoff.attempts(), 5);

    backoff.succeeded();
    assert_eq!(backoff.attempts(), 0);

    let delay = backoff.next_delay(Retry::Backoff).expect("retryable");
    assert!(delay <= 1000, "back to the bottom");
}

#[test]
fn jitter_spreads_across_the_whole_window_rather_than_near_its_top() {
    let ceiling = 60_000u64;
    let draws: Vec<u64> = (0..200).map(|_| jitter(ceiling)).collect();

    assert!(draws.iter().all(|d| *d <= ceiling), "a draw escaped the window");
    let quarter = ceiling / 4;
    let low = draws.iter().filter(|d| **d < quarter).count();
    let high = draws.iter().filter(|d| **d > ceiling - quarter).count();
    assert!(low > 10 && high > 10, "draws are bunched: {low} in the bottom quarter, {high} in the top");
}

#[test]
fn a_zero_window_is_not_a_division_by_zero() {
    assert_eq!(jitter(0), 0);
    assert_eq!(jitter_from(0, None), 0);
    assert_eq!(jitter_from(0, Some(&[255u8; 8])), 0);
}

#[test]
fn a_draw_lands_where_its_bytes_say() {
    assert_eq!(jitter_from(1000, Some(&[0, 0, 0, 0, 0, 0, 0x0b, 0xb9])), 3001 % 1001);
    assert_eq!(jitter_from(1000, None), 1000, "no randomness is the unscattered ceiling");
}

fn refused(retry: Retry, needs_the_owner: bool) -> Ended {
    Ended::Refused(CloseReason { retry, needs_the_owner, detail: "InstallRevoked".into() })
}

#[test]
fn an_edge_that_is_not_there_is_worth_retrying() {
    let ended = Ended::Transport("connection refused".into());
    assert_eq!(ended.retry(), Retry::Backoff);
    assert!(!ended.needs_the_owner());
}

#[test]
fn a_revoked_install_stops_dialling_and_says_so() {
    let mut relay = RelayLoop::new();
    assert_eq!(relay.start(), Some(RelayState::Connecting));
    let ended = refused(Retry::Never, true);
    assert!(ended.needs_the_owner());
    let (next, told) = relay.ended(&ended);
    assert_eq!(next, Next::Stop);
    assert_eq!(
        told,
        Some(RelayState::NeedsAttention("the relay refused this install: InstallRevoked".into()))
    );
}

#[test]
fn a_drain_comes_straight_back() {
    let mut relay = RelayLoop::new();
    relay.start();
    relay.connected();
    let (next, told) = relay.ended(&refused(Retry::Soon, false));
    assert!(matches!(next, Next::WaitThenDial(ms) if ms <= 1000));
    assert_eq!(told, Some(RelayState::Connecting));
}

#[test]
fn a_reconnect_that_keeps_failing_is_announced_once() {
    let mut relay = RelayLoop::new();
    assert_eq!(relay.start(), Some(RelayState::Connecting));
    for _ in 0..4 {
        let (_, told) = relay.ended(&Ended::Transport("refused".into()));
        assert_eq!(told, None);
    }
    assert_eq!(relay.connected(), Some(RelayState::Connected));
    assert_eq!(relay.status(), RelayState::Connected);
}

fn beat() -> Heartbeat {
    Heartbeat { interval_ms: 15_000, timeout_ms: 45_000 }
}

#[test]
fn a_ping_is_answered_and_counts_as_hearing_from_the_edge() {
    let mut control = Control::new(vec![1, 2, 3, 4], beat(), 65_536, 0);
    match control.on_frame(ControlFrame::Ping { seq: 7 }, 3, 10) {
        ControlStep::Send(ControlFrame::Pong { seq }) => assert_eq!(seq, 7),
        other => panic!("unexpected: {other:?}"),
    }
    assert_eq!(control.buffered(), &[4]);
}

#[test]
fn silence_past_the_timeout_ends_the_tunnel() {
    let mut control = Control::new(Vec::new(), beat(), 65_536, 0);
    match control.on_tick(15_000) {
        ControlStep::Send(ControlFrame::Ping { seq }) => assert_eq!(seq, 1),
        other => panic!("unexpected: {other:?}"),
    }
    match control.on_tick(30_000) {
        ControlStep::Send(ControlFrame::Ping { seq }) => assert_eq!(seq, 2),
        other => panic!("unexpected: {other:?}"),
    }
    assert!(matches!(control.on_tick(45_001), ControlStep::End(Ended::Transport(_))));
}

#[test]
fn a_goodbye_ends_the_connection_with_its_reason() {
    let mut control = Control::new(Vec::new(), beat(), 65_536, 0);
    let reason = CloseReason { retry: Retry::Soon, needs_the_owner: false, detail: "Draining".into() };
    assert!(matches!(
        control.on_frame(ControlFrame::Goodbye { reason }, 0, 1),
        ControlStep::End(Ended::Refused(r)) if r.retry == Retry::Soon
    ));
}

#[test]
fn a_closed_control_stream_or_a_runaway_frame_ends_it() {
    let mut control = Control::new(Vec::new(), beat(), 4, 0);
    assert!(control.on_read(&[1, 2, 3]).is_none());
    assert!(control.oversized().is_none());
    assert!(control.on_read(&[4, 5]).is_none());
    assert!(matches!(control.oversized(), Some(Ended::Protocol(_))));
    assert!(matches!(control.on_read(&[]), Some(Ended::Transport(_))));
}

#[test]
fn the_tail_of_a_message_is_kept_for_the_next_read() {
    let mut buffer = ReadBuffer::new();
    assert!(matches!(buffer.begin_read(4), ReadResult::NeedMessage));
    match buffer.on_message(Incoming::Binary(vec![1, 2, 3, 4, 5, 6]), 4) {
        ReadResult::Ready(b) => assert_eq!(b, vec![1, 2, 3, 4]),
        other => panic!("unexpected: {other:?}"),
    }
    match buffer.begin_read(4) {
        ReadResult::Ready(b) => assert_eq!(b, vec![5, 6]),
        other => panic!("unexpected: {other:?}"),
    }
    assert!(matches!(buffer.begin_read(4), ReadResult::NeedMessage));
}

#[test]
fn only_the_end_of_the_websocket_reads_as_the_end_of_the_stream() {
    let mut buffer = ReadBuffer::new();
    assert!(matches!(buffer.on_message(Incoming::Binary(Vec::new()), 8), ReadResult::NeedMessage));
    assert!(matches!(buffer.on_message(Incoming::Ping, 8), ReadResult::NeedMessage));
    assert!(matches!(buffer.on_message(Incoming::Text, 8), ReadResult::Failed(_)));
    assert!(matches!(buffer.on_message(Incoming::Close, 8), ReadResult::Ready(b) if b.is_empty()));
    assert!(matches!(buffer.begin_read(8), ReadResult::Ready(b) if b.is_empty()));
    assert!(matches!(buffer.begin_read(0), ReadResult::Ready(b) if b.is_empty()));
}

// ---- the socket and its methods --------------------------------------------

#[test]
fn an_unknown_method_is_a_bad_request() {
    assert_eq!(route("no.such.method"), None);
    let e = unknown_method("no.such.method");
    assert_eq!(e.code, ErrorCode::BadRequest);
    assert_eq!(e.message, "unknown method \"no.such.method\"");
}

#[test]
fn every_method_on_the_wire_is_routed() {
    assert_eq!(route("app.list"), Some(Method::AppList));
    assert_eq!(route("share.set_public_label"), Some(Method::SetPublicLabel));
    assert_eq!(route("presence.list"), Some(Method::PresenceList));
}

#[test]
fn household_is_accepted_as_a_synonym_for_the_wire_value() {
    assert_eq!(visibility_param("household").expect("accepted"), Visibility::Network);
    let e = visibility_param("everyone").expect_err("refused");
    assert_eq!(e.message, "\"everyone\" is not a visibility level");
}

#[test]
fn a_storage_mode_this_daemon_does_not_know_is_refused() {
    assert_eq!(storage_mode_param("per_device").expect("known"), StorageMode::PerDevice);
    let e = storage_mode_param("cloud").expect_err("unknown");
    assert_eq!(e.code, ErrorCode::BadRequest);
    assert_eq!(e.message, "\"cloud\" is not a storage mode");
}

#[test]
fn the_activity_log_is_readable_and_capped() {
    assert_eq!(log_limit(None), 100);
    assert_eq!(log_limit(Some(5)), 5);
    assert_eq!(log_limit(Some(1_000_000)), 1000);
}

#[test]
fn creating_a_share_link_returns_a_url_someone_can_send() {
    let policy = invite_policy(Some(3600), None, None, 1_000);
    assert_eq!(policy.expires_at, Some(4_600));
    assert!(policy.pin_to_first_device);
    assert!(!policy.auto_approve_on_household);
    assert_eq!(
        invite_url(false, None, Some("trip.local"), "http", ":8420", "http://10.0.0.2:8420", "TOKEN"),
        "http://trip.local:8420/i/TOKEN"
    );
}

#[test]
fn a_published_apps_invite_carries_a_link_that_works_away_from_home() {
    assert_eq!(
        invite_url(true, Some("trip-adarsh.kitchentable.cloud"), Some("trip.local"), "http", "", "x", "T"),
        "https://trip-adarsh.kitchentable.cloud/i/T"
    );
    assert_eq!(
        invite_url(false, Some("trip-adarsh.kitchentable.cloud"), None, "http", "", "http://10.0.0.2", "T"),
        "http://10.0.0.2/i/T"
    );
}

#[test]
fn subscribing_is_opt_in_and_happens_once() {
    let mut session = ClientSession::new();
    assert_eq!(session.on_line("   "), LineStep::Skip);
    assert_eq!(session.on_line("{}"), LineStep::Parse);
    let first = session.on_request("event.subscribe", true);
    assert!(first.subscribe_now && first.reply);
    let again = session.on_request("event.subscribe", true);
    assert!(!again.subscribe_now);
    let note = session.on_request("app.list", false);
    assert!(!note.reply, "a notification expects no reply");
}

#[test]
fn a_lagging_subscriber_is_told_how_much_it_missed() {
    assert_eq!(lagged_message(12), "12 events were missed; the window may be out of date");
}

// ---- trust -----------------------------------------------------------------

const NOW: i64 = 1_700_000_000;

fn link(policy: InvitePolicy) -> Invite {
    Invite::new("trip", "For book club", policy, NOW).expect("randomness")
}

fn visitor(status: DeviceStatus) -> Device {
    Device::new_for_test("abcdefghijklmnopqrstuv", status)
}

#[test]
fn redeeming_a_link_records_the_device_and_leaves_it_pending() {
    let plan = redeem_plan(&link(InvitePolicy::default()), &visitor(DeviceStatus::Pending), NOW, true)
        .expect("redeems");
    assert!(plan.pin);
    assert!(plan.pending);
    assert!(!plan.paired);
}

#[test]
fn a_household_link_can_waive_the_prompt() {
    let policy = InvitePolicy { auto_approve_on_household: true, ..Default::default() };
    let at_home = redeem_plan(&link(policy.clone()), &visitor(DeviceStatus::Pending), NOW, true).expect("redeems");
    assert!(at_home.auto_approve && !at_home.pending && at_home.paired);
    let away = redeem_plan(&link(policy), &visitor(DeviceStatus::Pending), NOW, false).expect("redeems");
    assert!(!away.auto_approve && away.pending);
}

#[test]
fn an_approved_device_skips_the_wait_page() {
    let plan = redeem_plan(&link(InvitePolicy::default()), &visitor(DeviceStatus::Approved), NOW, false)
        .expect("redeems");
    assert!(!plan.pending);
}

#[test]
fn a_forwarded_pinned_link_is_refused() {
    let mut invite = link(InvitePolicy::default());
    let first = visitor(DeviceStatus::Pending);
    let outcome = invite.check(&first.id, NOW, 0).expect("first");
    invite.redeem(&first.id, &outcome);
    let stranger = Device::new_for_test("zyxwvutsrqponmlkjihgfe", DeviceStatus::Pending);
    assert_eq!(redeem_plan(&invite, &stranger, NOW, true), Err(InviteError::PinnedElsewhere));
}

#[test]
fn only_another_machine_on_the_network_is_asked_its_name() {
    assert!(should_discover(Some(0x0a00_0002), true));
    assert!(!should_discover(Some(0x7f00_0001), true));
    assert!(!should_discover(Some(0x0a00_0002), false));
    assert!(!should_discover(None, true));
}

// ---- startup ---------------------------------------------------------------

#[test]
fn the_sample_app_is_created_on_a_first_run() {
    assert_eq!(seed_plan(false, Ok(false), false), SeedPlan::Write);
}

#[test]
fn it_does_not_come_back_once_it_is_deleted() {
    assert_eq!(seed_plan(false, Ok(true), false), SeedPlan::Skip);
    assert_eq!(seed_plan(true, Ok(false), false), SeedPlan::Skip);
    assert_eq!(seed_plan(false, Err(()), false), SeedPlan::Skip);
    assert_eq!(seed_plan(false, Ok(false), true), SeedPlan::Remember);
}

fn picked(canonical: &str) -> PickedFolder {
    PickedFolder {
        absolute: true,
        exists: true,
        is_dir: true,
        canonical: Ok(canonical.into()),
        listing: Ok(()),
        has_git: false,
        state_dir: Some("/home/sam/.kitchentable".into()),
    }
}

#[test]
fn an_ordinary_folder_is_fine() {
    assert_eq!(validate("~/KT", picked("/home/sam/KT")), Ok("/home/sam/KT".to_string()));
}

#[test]
fn a_checkout_or_the_state_directory_is_refused() {
    let mut repo = picked("/home/sam/code");
    repo.has_git = true;
    assert_eq!(validate("~/code", repo), Err(WorkspaceError::IsRepository("~/code".into())));
    assert_eq!(
        validate("state", picked("/home/sam/.kitchentable/apps")),
        Err(WorkspaceError::InsideStateDir("state".into()))
    );
    let mut relative = picked("x");
    relative.absolute = false;
    assert_eq!(validate("x", relative), Err(WorkspaceError::NotAbsolute("x".into())));
}

// ---- request parameters and error words ------------------------------------

#[test]
fn a_missing_parameter_is_a_bad_request_not_a_panic() {
    assert_eq!(string_param("app.get", "slug", Some("notes")).expect("present"), "notes");
    // Absent, and present as a number rather than a string, read the same.
    let e = string_param("app.get", "slug", None).expect_err("absent");
    assert_eq!(e.code, ErrorCode::BadRequest);
    assert_eq!(e.message, "app.get requires a string \"slug\" parameter");
}

#[test]
fn a_malformed_device_id_is_a_bad_request_not_a_lookup() {
    let e = device_param("device.approve", Some("../../etc")).expect_err("malformed");
    assert_eq!(e.code, ErrorCode::BadRequest);
    assert_eq!(e.message, "that is not a device id");
    let e = device_param("device.approve", None).expect_err("absent");
    assert_eq!(e.message, "device.approve requires a string \"id\" parameter");
    let good = "AAAAAAAAAAAAAAAAAAAAAA";
    assert_eq!(device_param("device.approve", Some(good)).expect("well formed").as_str(), good);
}

#[test]
fn device_decisions_are_logged_by_what_was_done() {
    assert_eq!(device_action(Method::DeviceApprove), "paired");
    assert_eq!(device_action(Method::DeviceDeny), "denied");
    assert_eq!(device_action(Method::DeviceRevoke), "revoked");
    let e = no_such_device();
    assert_eq!(e.code, ErrorCode::NotFound);
    assert_eq!(e.message, "no such device");
}

#[test]
fn an_authoring_failure_is_answered_in_its_own_words() {
    let e = author_error(&AuthorError::NameEmpty);
    assert_eq!(e.code, ErrorCode::BadRequest);
    assert_eq!(e.message, "an app needs a name");
    let e = author_error(&AuthorError::Missing("/nope".into()));
    assert_eq!(e.message, "\"/nope\" does not exist");
    let e = author_error(&AuthorError::Io { path: "/ws/a".into(), source: "disk full".into() });
    assert_eq!(e.code, ErrorCode::Internal);
    assert_eq!(e.message, "could not write /ws/a: disk full");
}

#[test]
fn a_refused_workspace_names_the_folder() {
    assert_eq!(
        WorkspaceError::NotAbsolute("ws".into()).message(),
        "a workspace has to be a full path, and \"ws\" is not"
    );
    assert_eq!(WorkspaceError::Unreadable("/ws".into(), "denied".into()).message(), "\"/ws\" cannot be read: denied");
}

#[test]
fn a_forgotten_folder_is_left_out_of_the_library() {
    let scanned = vec![record("notes", 1), record("menu", 1), record("games", 1)];
    let kept = not_forgotten(scanned, &["/ws/menu".to_string()]);
    let slugs: Vec<&str> = kept.iter().map(|r| r.manifest.slug.as_str()).collect();
    assert_eq!(slugs, vec!["notes", "games"]);
}

// ---- planning requests -------------------------------------------------------

fn p(name: &str, value: Param) -> (String, Param) {
    (name.to_string(), value)
}

fn library_with_trip() -> Library {
    let mut library = Library::new();
    library.replace(vec![record("trip", 1)], vec![Some("/tmp".to_string())]);
    library
}

#[test]
fn an_unknown_method_is_refused_by_name() {
    let library = Library::new();
    match plan_request("app.frobnicate", &[], &library) {
        RequestStep::Fail(e) => {
            assert_eq!(e.code, ErrorCode::BadRequest);
            assert_eq!(e.message, "unknown method \"app.frobnicate\"");
        },
        other => panic!("{other:?}"),
    }
}

#[test]
fn app_get_finds_by_slug() {
    let library = library_with_trip();
    match plan_request("app.get", &[p("slug", Param::Str("trip".into()))], &library) {
        RequestStep::GetApp { slug } => assert_eq!(slug, "trip"),
        other => panic!("{other:?}"),
    }
}

#[test]
fn app_get_on_a_missing_slug_is_not_found() {
    let library = library_with_trip();
    match plan_request("app.get", &[p("slug", Param::Str("nope".into()))], &library) {
        RequestStep::Fail(e) => {
            assert_eq!(e.code, ErrorCode::NotFound);
            assert_eq!(e.message, "no app with slug \"nope\"");
        },
        other => panic!("{other:?}"),
    }
}

#[test]
fn a_number_where_a_string_belongs_is_a_bad_request() {
    let library = library_with_trip();
    for params in [vec![], vec![p("slug", Param::Int(7))]] {
        match plan_request("app.get", &params, &library) {
            RequestStep::Fail(e) => {
                assert_eq!(e.code, ErrorCode::BadRequest);
                assert_eq!(e.message, "app.get requires a string \"slug\" parameter");
            },
            other => panic!("{other:?}"),
        }
    }
}

#[test]
fn an_install_with_no_handle_refuses_to_name_anything() {
    let library = library_with_trip();
    let params = [p("slug", Param::Str("trip".into())), p("label", Param::Str("holiday".into()))];
    match plan_request("share.set_public_label", &params, &library) {
        RequestStep::Fail(e) => assert_eq!(e.code, ErrorCode::InvalidState),
        other => panic!("{other:?}"),
    }
    let reset = [p("slug", Param::Str("trip".into())), p("label", Param::Null)];
    assert!(matches!(
        plan_request("share.set_public_label", &reset, &library),
        RequestStep::SetPublicLabel { label: None, .. }
    ));
}

#[test]
fn changing_only_the_mode_leaves_the_backup_setting_where_it_was() {
    let library = library_with_trip();
    let params = [p("slug", Param::Str("trip".into())), p("mode", Param::Str("per_device".into()))];
    match plan_request("storage.set_mode", &params, &library) {
        RequestStep::SetStorage { slug, path, mode, backup } => {
            assert_eq!(slug, "trip");
            assert_eq!(path, "/ws/trip");
            assert_eq!(mode, StorageMode::PerDevice);
            assert!(!backup, "the app's own setting, not a default");
        },
        other => panic!("{other:?}"),
    }
}

#[test]
fn approving_carries_a_trimmed_name() {
    let library = Library::new();
    let params = [p("id", Param::Str("AAAAAAAAAAAAAAAAAAAAAA".into())), p("name", Param::Str("  Kitchen iPad ".into()))];
    match plan_request("device.approve", &params, &library) {
        RequestStep::Approve { id, name } => {
            assert_eq!(id.as_str(), "AAAAAAAAAAAAAAAAAAAAAA");
            assert_eq!(name.as_deref(), Some("Kitchen iPad"));
        },
        other => panic!("{other:?}"),
    }
}

#[test]
fn a_log_query_is_capped() {
    let library = Library::new();
    assert!(matches!(
        plan_request("log.query", &[p("limit", Param::Int(5000))], &library),
        RequestStep::QueryLog { slug: None, limit: 1000 }
    ));
    assert!(matches!(plan_request("log.query", &[], &library), RequestStep::QueryLog { limit: 100, .. }));
}

// ---- serving state, the socket file, stored keys ---------------------------

#[test]
fn serving_is_degraded_by_a_fallback_port_before_anything_else() {
    assert_eq!(port_degraded(0), None);
    assert_eq!(port_degraded(1), Some(DegradedReason::PortFallback));
    match serving_state(Some(DegradedReason::PortFallback), false, 8080) {
        ServingState::Degraded { reason, message } => {
            assert_eq!(reason, DegradedReason::PortFallback);
            assert_eq!(message, "Port 80 was already in use, so apps are served on port 8080 for now.");
        },
        other => panic!("{other:?}"),
    }
    assert!(matches!(
        serving_state(None, false, 80),
        ServingState::Degraded { reason: DegradedReason::MdnsUnavailable, .. }
    ));
    assert_eq!(serving_state(None, true, 80), ServingState::Serving);
}

#[test]
fn a_live_socket_is_refused_and_a_stale_one_replaced() {
    assert_eq!(bind_step(false, false), BindStep::Bind);
    assert_eq!(bind_step(true, true), BindStep::Refuse);
    assert_eq!(bind_step(true, false), BindStep::ReplaceStale);
    assert_eq!(SocketError::AlreadyRunning { path: "/s".into() }.message(), "another daemon already owns /s");
}

#[test]
fn a_stored_key_of_the_right_size_is_the_key() {
    let keys = stored_keys(&Ok(Some(vec![9u8; 32]))).expect("a key");
    assert_eq!(keys.to_bytes(), [9u8; 32]);
    assert!(stored_keys(&Ok(Some(vec![9u8; 31]))).is_none());
    assert!(stored_keys(&Ok(None)).is_none());
}

#[test]
fn an_address_another_app_already_answers_to_is_a_conflict() {
    let mut library = Library::new();
    library.replace(
        vec![record("trip-planner", 1), record("chores", 1)],
        vec![Some("/tmp".to_string()), Some("/tmp".to_string())],
    );
    library.set_relay_identity(Some(("adarsh".to_string(), "kitchentable.cloud".to_string())));
    let rename = |label: &str| {
        plan_request(
            "share.set_public_label",
            &[p("slug", Param::Str("chores".into())), p("label", Param::Str(label.into()))],
            &library,
        )
    };
    match rename("trip-planner") {
        RequestStep::Fail(e) => assert_eq!(e.code, ErrorCode::Conflict),
        other => panic!("{other:?}"),
    }
    assert!(matches!(rename("chores"), RequestStep::SetPublicLabel { .. }), "keeping its own address");
    assert!(matches!(rename("holiday"), RequestStep::SetPublicLabel { .. }));
}

#[test]
fn a_share_link_for_an_app_that_does_not_exist_is_refused() {
    let library = library_with_trip();
    match plan_request("share.create_invite", &[p("slug", Param::Str("nope".into()))], &library) {
        RequestStep::Fail(e) => assert_eq!(e.code, ErrorCode::NotFound),
        other => panic!("{other:?}"),
    }
}

#[test]
fn an_unknown_method_is_an_error_the_connection_survives() {
    let library = library_with_trip();
    let mut session = ClientSession::new();

    assert_eq!(session.on_line("{\"method\":\"app.nonsense\",\"id\":1}"), LineStep::Parse);
    let step = session.on_request("app.nonsense", true);
    assert!(step.reply, "the caller is told");
    assert!(matches!(plan_request("app.nonsense", &[], &library), RequestStep::Fail(_)));

    // The same connection goes on answering.
    let step = session.on_request("sys.status", true);
    assert!(step.reply);
    assert!(matches!(plan_request("sys.status", &[], &library), RequestStep::Status));
}

#[test]
fn a_whole_run_tells_each_change_once_and_stops_only_when_told_never() {
    let attempts = vec![
        Attempt { connected: false, ended: Ended::Transport("refused".into()) },
        Attempt { connected: true, ended: Ended::Transport("dropped".into()) },
        Attempt {
            connected: false,
            ended: Ended::Refused(CloseReason { retry: Retry::Never, needs_the_owner: true, detail: "revoked".into() }),
        },
        Attempt { connected: true, ended: Ended::Transport("never reached".into()) },
    ];
    let report = run_attempts(&attempts);
    assert!(report.stopped);
    assert_eq!(report.attempts_made, 3);
    assert_eq!(report.told.len(), 4, "{:?}", report.told);
    assert!(matches!(report.told[0], RelayState::Connecting));
    assert!(matches!(report.told[1], RelayState::Connected));
    assert!(matches!(report.told[2], RelayState::Connecting));
    assert!(matches!(report.last, RelayState::NeedsAttention(_)));
}

#[test]
fn a_whole_stream_reads_back_every_byte_in_order_then_ends() {
    let messages = vec![
        Incoming::Binary(vec![1, 2, 3, 4, 5]),
        Incoming::Ping,
        Incoming::Binary(vec![]),
        Incoming::Binary(vec![6, 7]),
        Incoming::Close,
    ];
    let report = read_stream(messages, 2);
    assert!(report.ended);
    let all: Vec<u8> = report.reads.iter().flatten().copied().collect();
    assert_eq!(all, vec![1, 2, 3, 4, 5, 6, 7]);
    assert!(report.reads.last().expect("an end").is_empty());
    assert!(report.reads.iter().all(|r| r.len() <= 2));
}

// ---- public labels -----------------------------------------------------------

fn library_with_trip_planner() -> Library {
    let mut library = Library::new();
    library.replace(vec![record("trip-planner", 1)], vec![Some("/tmp".to_string())]);
    library.set_relay_identity(Some(("adarsh".to_string(), "kitchentable.cloud".to_string())));
    library
}

/// What the app answers to once a planned label has been written and the
/// library rescanned: the manifest's effective label.
fn answered_label(library: &Library, step: RequestStep) -> String {
    let mut r = record("trip-planner", 1);
    match step {
        RequestStep::SetPublicLabel { slug, label, .. } => {
            assert_eq!(slug, "trip-planner");
            assert!(library.record("trip-planner").is_some());
            r.manifest.public_label = label;
        },
        other => panic!("{other:?}"),
    }
    r.manifest.effective_public_label().to_string()
}

#[test]
fn a_public_address_can_be_renamed_and_reset() {
    let library = library_with_trip_planner();
    let set = |label: Param| {
        plan_request(
            "share.set_public_label",
            &[p("slug", Param::Str("trip-planner".into())), p("label", label)],
            &library,
        )
    };

    assert_eq!(answered_label(&library, set(Param::Str("Holiday".into()))), "holiday", "normalised, not refused");

    // Null is the way back to following the folder.
    assert_eq!(answered_label(&library, set(Param::Null)), "trip-planner");
}

#[test]
fn renaming_a_public_address_says_which_rule_was_broken() {
    let library = library_with_trip_planner();
    let params = [p("slug", Param::Str("trip-planner".into())), p("label", Param::Str("my trip".into()))];
    match plan_request("share.set_public_label", &params, &library) {
        RequestStep::Fail(e) => {
            assert_eq!(e.code, ErrorCode::BadRequest);
            assert!(e.message.contains("letters, numbers and hyphens"), "{e:?}");
        },
        other => panic!("a space is not a hostname: {other:?}"),
    }
}

#[test]
fn each_broken_label_rule_has_its_own_answer() {
    assert_eq!(normalise_public_label("  Holiday ", "adarsh"), Ok("holiday".to_string()));
    assert_eq!(normalise_public_label("trip-2", "adarsh"), Ok("trip-2".to_string()));
    assert_eq!(normalise_public_label("   ", "adarsh"), Err(LabelFault::Empty));
    assert_eq!(normalise_public_label("café", "adarsh"), Err(LabelFault::Characters));
    assert_eq!(normalise_public_label("a.b", "adarsh"), Err(LabelFault::Characters));
    assert_eq!(normalise_public_label("-trip", "adarsh"), Err(LabelFault::Hyphen));
    assert_eq!(normalise_public_label("trip-", "adarsh"), Err(LabelFault::Hyphen));
    // 56 + 1 + 6 is the most one hostname part holds.
    let longest = "a".repeat(56);
    assert_eq!(normalise_public_label(&longest, "adarsh"), Ok(longest.clone()));
    assert_eq!(normalise_public_label(&format!("{longest}a"), "adarsh"), Err(LabelFault::TooLong));
    assert_eq!(LabelFault::Hyphen.message(), "a public address cannot start or end with a hyphen");
}

#[test]
fn a_label_is_compared_with_others_in_its_normal_form() {
    let mut library = Library::new();
    library.replace(
        vec![record("trip-planner", 1), record("chores", 1)],
        vec![Some("/tmp".to_string()), Some("/tmp".to_string())],
    );
    library.set_relay_identity(Some(("adarsh".to_string(), "kitchentable.cloud".to_string())));
    let params = [p("slug", Param::Str("chores".into())), p("label", Param::Str(" Trip-Planner ".into()))];
    match plan_request("share.set_public_label", &params, &library) {
        RequestStep::Fail(e) => assert_eq!(e.code, ErrorCode::Conflict),
        other => panic!("{other:?}"),
    }
}

#[test]
fn a_log_limit_beyond_what_a_signed_number_holds_is_still_capped() {
    let library = Library::new();
    let huge = i64::MAX as i128 + 1;
    assert!(matches!(
        plan_request("log.query", &[p("limit", Param::Int(huge))], &library),
        RequestStep::QueryLog { limit: 1000, .. }
    ));
    assert!(matches!(
        plan_request("log.query", &[p("limit", Param::Int(-1))], &library),
        RequestStep::QueryLog { limit: 100, .. }
    ));
}

#[test]
fn an_invite_lifetime_that_no_signed_number_holds_is_left_unset() {
    let library = library_with_trip();
    let ask = |secs: i128| {
        plan_request(
            "share.create_invite",
            &[p("slug", Param::Str("trip".into())), p("expires_in_secs", Param::Int(secs))],
            &library,
        )
    };
    assert!(matches!(ask(3600), RequestStep::CreateInvite { expires_in_secs: Some(3600), .. }));
    assert!(matches!(ask(i64::MAX as i128 + 1), RequestStep::CreateInvite { expires_in_secs: None, .. }));
}
