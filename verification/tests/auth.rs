use kitchen_table::device::{fingerprint, suggest_name, Device, DeviceId, DeviceStatus};
use kitchen_table::access::{decide, Decision, DenyReason, RelayMode, RequestContext, Visibility};
use kitchen_table::invite::{Invite, InviteError, InvitePolicy, InviteToken, MAX_ATTEMPTS_PER_SOURCE};
use kitchen_table::session::{SessionError, SessionKeys, SESSION_TTL_SECONDS};

const NOW: i64 = 1_700_000_000;

fn new_id() -> DeviceId {
    DeviceId::generate().expect("the system has randomness")
}

fn invite(policy: InvitePolicy) -> Invite {
    Invite::new("trip-planner", "For the family", policy, NOW).expect("the system has randomness")
}

// ---- devices ---------------------------------------------------------------

#[test]
fn generated_ids_are_distinct_and_parseable() {
    let a = new_id();
    let b = new_id();
    assert_ne!(a, b);
    assert_eq!(DeviceId::parse(a.as_str()), Some(a));
}

#[test]
fn a_hand_crafted_cookie_cannot_smuggle_anything_in() {
    let long = "x".repeat(65);
    for bad in [
        "",
        "short",
        "../../etc/passwd",
        "abcdefghijklmnop'; DROP TABLE devices;--",
        "abcdefghijklmnop/../..",
        long.as_str(),
    ] {
        assert_eq!(DeviceId::parse(bad), None, "{bad:?} should be rejected");
    }
}

#[test]
fn fingerprints_are_stable_and_differ_between_devices() {
    let a = new_id();
    let b = new_id();
    assert_eq!(fingerprint(&a), fingerprint(&a));
    assert_ne!(fingerprint(&a), fingerprint(&b));
}

#[test]
fn device_names_are_recognisable() {
    let cases = [
        ("Mozilla/5.0 (iPhone; CPU iPhone OS 19_0) Safari", "iPhone"),
        ("Mozilla/5.0 (iPad; CPU OS 19_0) Safari", "iPad"),
        ("Mozilla/5.0 (Linux; Android 15; Pixel 9) Chrome", "Android phone"),
        ("Mozilla/5.0 (Macintosh; Intel Mac OS X 14_0) Safari", "Mac"),
        ("Mozilla/5.0 (Windows NT 10.0; Win64) Chrome", "Windows PC"),
        ("curl/8.0", "New device"),
        ("", "New device"),
    ];

    for (ua, expected) in cases {
        assert_eq!(suggest_name(ua), expected, "for {ua:?}");
    }
}

#[test]
fn an_ipad_is_not_mistaken_for_a_mac() {
    let ipad_desktop_mode = "Mozilla/5.0 (Macintosh; Intel Mac OS X 10_15_7) AppleWebKit iPad";
    assert_eq!(suggest_name(ipad_desktop_mode), "iPad");
}

#[test]
fn a_new_device_starts_pending() {
    let d = Device::pending(new_id(), "iPhone", 100);
    assert_eq!(d.status, DeviceStatus::Pending);
    assert_eq!(d.first_seen, 100);
}

#[test]
fn a_device_fingerprint_is_short_hex_pairs() {
    let f = fingerprint(&DeviceId::parse("abcdefghijklmnopqrstuv").expect("valid"));
    assert_eq!(f.len(), 8);
    assert_eq!(f.chars().filter(|c| *c == ':').count(), 2);
}

// ---- invites ---------------------------------------------------------------

#[test]
fn tokens_carry_enough_entropy_and_are_distinct() {
    let a = InviteToken::generate().expect("randomness");
    let b = InviteToken::generate().expect("randomness");
    assert_ne!(a, b);
    assert!(a.as_str().len() >= 20, "128 bits should not encode shorter");
}

#[test]
fn a_fresh_link_can_be_redeemed() {
    let invite = invite(InvitePolicy::default());
    assert!(invite.check(&new_id(), NOW, 0).is_ok());
}

#[test]
fn an_expired_link_is_refused() {
    let invite = invite(InvitePolicy {
        expires_at: Some(NOW + 100),
        ..Default::default()
    });
    assert!(invite.check(&new_id(), NOW + 50, 0).is_ok());
    assert_eq!(invite.check(&new_id(), NOW + 100, 0), Err(InviteError::Expired));
}

#[test]
fn a_revoked_link_is_refused_even_before_it_expires() {
    let mut invite = invite(InvitePolicy::default());
    invite.revoked_at = Some(NOW + 1);
    assert_eq!(invite.check(&new_id(), NOW + 2, 0), Err(InviteError::Revoked));
}

#[test]
fn a_pinned_link_stops_working_when_forwarded() {
    let mut invite = invite(InvitePolicy::default());
    let first = new_id();

    let outcome = invite.check(&first, NOW, 0).expect("first redemption");
    assert!(outcome.pins_now);
    invite.redeem(&first, &outcome);

    assert!(invite.check(&first, NOW, 0).is_ok());
    assert_eq!(invite.check(&new_id(), NOW, 0), Err(InviteError::PinnedElsewhere));
}

#[test]
fn an_unpinned_link_serves_a_whole_household() {
    let mut invite = invite(InvitePolicy {
        pin_to_first_device: false,
        ..Default::default()
    });

    for _ in 0..5 {
        let device = new_id();
        let outcome = invite.check(&device, NOW, 0).expect("redeems");
        assert!(!outcome.pins_now);
        invite.redeem(&device, &outcome);
    }
    assert_eq!(invite.redemptions, 5);
}

#[test]
fn links_pin_by_default() {
    assert!(InvitePolicy::default().pin_to_first_device);
    assert!(!InvitePolicy::default().auto_approve_on_household);
}

#[test]
fn hammering_the_endpoint_is_throttled() {
    let invite = invite(InvitePolicy::default());
    assert_eq!(
        invite.check(&new_id(), NOW, MAX_ATTEMPTS_PER_SOURCE),
        Err(InviteError::RateLimited)
    );
}

#[test]
fn rate_limiting_is_checked_before_anything_that_leaks_state() {
    let mut invite = invite(InvitePolicy {
        expires_at: Some(NOW - 1),
        ..Default::default()
    });
    invite.revoked_at = Some(NOW - 1);

    assert_eq!(
        invite.check(&new_id(), NOW, MAX_ATTEMPTS_PER_SOURCE),
        Err(InviteError::RateLimited)
    );
}

#[test]
fn token_comparison_does_not_short_circuit() {
    let token = InviteToken::generate().expect("randomness");
    let same = InviteToken::parse(token.as_str()).expect("parses");
    assert!(token.matches(&same));
    assert!(!token.matches(&InviteToken::generate().expect("randomness")));
}

#[test]
fn a_malformed_token_never_becomes_one() {
    let long = "x".repeat(65);
    for bad in ["", "short", "has spaces", "../../secret", long.as_str()] {
        assert_eq!(InviteToken::parse(bad), None, "{bad:?} should be rejected");
    }
}

#[test]
fn a_link_stays_active_until_it_expires_or_is_revoked() {
    let mut invite = invite(InvitePolicy {
        expires_at: Some(NOW + 10),
        ..Default::default()
    });
    assert!(invite.is_active(NOW));
    assert!(!invite.is_active(NOW + 10));
    invite.revoked_at = Some(NOW);
    assert!(!invite.is_active(NOW + 1));
}

#[test]
fn every_refusal_has_words_for_a_person() {
    assert_eq!(InviteError::Expired.message(), "that link has expired");
    assert_eq!(InviteError::RateLimited.message(), "too many attempts; wait a moment and try again");
}

// ---- who may open an app --------------------------------------------------------------

fn ctx(loopback: bool, household: bool) -> RequestContext {
    RequestContext {
        session: None,
        arrived_by_relay: false,
        on_household_network: household,
        is_loopback: loopback,
    }
}

fn device(status: DeviceStatus) -> Device {
    Device::new_for_test("d1", status)
}

#[test]
fn pausing_overrides_every_row_of_the_matrix() {
    for visibility in [Visibility::Private, Visibility::Network, Visibility::Invited, Visibility::Public] {
        for relay in [RelayMode::Off, RelayMode::Standard, RelayMode::Strict] {
            for status in [
                None,
                Some(DeviceStatus::Owner),
                Some(DeviceStatus::Approved),
                Some(DeviceStatus::Pending),
                Some(DeviceStatus::Revoked),
            ] {
                for loopback in [true, false] {
                    for household in [true, false] {
                        let device = status.map(device);
                        let got = decide(visibility, true, relay, device.as_ref(), &ctx(loopback, household));
                        assert_eq!(
                            got,
                            Decision::Deny(DenyReason::Paused),
                            "{visibility:?}/{status:?}/loopback={loopback}/household={household} should be refused while paused"
                        );
                    }
                }
            }
        }
    }
}

#[test]
fn an_unpublished_app_is_refused_every_relayed_request() {
    for visibility in [Visibility::Private, Visibility::Network, Visibility::Invited, Visibility::Public] {
        for status in [
            None,
            Some(DeviceStatus::Owner),
            Some(DeviceStatus::Approved),
            Some(DeviceStatus::Pending),
            Some(DeviceStatus::Revoked),
        ] {
            let device = status.map(device);
            let mut relayed = ctx(false, false);
            relayed.arrived_by_relay = true;

            assert_eq!(
                decide(visibility, false, RelayMode::Off, device.as_ref(), &relayed),
                Decision::Deny(DenyReason::NotPublished),
                "{visibility:?}/{status:?} arriving over the relay should be refused while the app is unpublished"
            );
        }
    }
}

#[test]
fn publishing_changes_nothing_about_who_may_open_it() {
    for relay in [RelayMode::Standard, RelayMode::Strict] {
        let mut relayed = ctx(false, false);
        relayed.arrived_by_relay = true;

        assert_eq!(decide(Visibility::Public, false, relay, None, &relayed), Decision::Allow);
        assert_eq!(decide(Visibility::Invited, false, relay, None, &relayed), Decision::NeedsPairing);
        assert_eq!(
            decide(Visibility::Invited, false, relay, Some(&device(DeviceStatus::Approved)), &relayed),
            Decision::Allow
        );
        assert_eq!(
            decide(Visibility::Network, false, relay, None, &relayed),
            Decision::Deny(DenyReason::WrongNetwork)
        );
        assert_eq!(
            decide(Visibility::Private, false, relay, None, &relayed),
            Decision::Deny(DenyReason::NotTheOwner)
        );
    }
}

#[test]
fn local_requests_do_not_care_whether_the_relay_is_on() {
    for visibility in [Visibility::Private, Visibility::Network, Visibility::Invited, Visibility::Public] {
        for loopback in [true, false] {
            for household in [true, false] {
                let local = ctx(loopback, household);
                let baseline = decide(visibility, false, RelayMode::Off, None, &local);

                for relay in [RelayMode::Standard, RelayMode::Strict] {
                    assert_eq!(
                        decide(visibility, false, relay, None, &local),
                        baseline,
                        "{visibility:?}/loopback={loopback}/household={household} changed answer because the relay was {relay:?}"
                    );
                }
            }
        }
    }
}

#[test]
fn the_visibility_matrix() {
    let cases: &[(Visibility, Option<DeviceStatus>, bool, bool, Decision)] = &[
        (Visibility::Private, None, true, false, Decision::Allow),
        (Visibility::Private, Some(DeviceStatus::Owner), false, false, Decision::Allow),
        (Visibility::Private, Some(DeviceStatus::Approved), false, true, Decision::Deny(DenyReason::NotTheOwner)),
        (Visibility::Private, None, false, true, Decision::Deny(DenyReason::NotTheOwner)),
        (Visibility::Network, None, false, true, Decision::Allow),
        (Visibility::Network, Some(DeviceStatus::Approved), false, true, Decision::Allow),
        (Visibility::Network, Some(DeviceStatus::Approved), false, false, Decision::Deny(DenyReason::WrongNetwork)),
        (Visibility::Network, None, false, false, Decision::Deny(DenyReason::WrongNetwork)),
        (Visibility::Network, None, true, false, Decision::Allow),
        (Visibility::Invited, Some(DeviceStatus::Approved), false, false, Decision::Allow),
        (Visibility::Invited, Some(DeviceStatus::Pending), false, false, Decision::NeedsPairing),
        (Visibility::Invited, None, false, false, Decision::NeedsPairing),
        (Visibility::Invited, None, false, true, Decision::NeedsPairing),
        (Visibility::Invited, None, true, false, Decision::Allow),
        (Visibility::Public, None, false, false, Decision::Allow),
        (Visibility::Public, Some(DeviceStatus::Pending), false, false, Decision::Allow),
    ];

    for (visibility, status, loopback, household, expected) in cases {
        let device = status.map(device);
        let got = decide(*visibility, false, RelayMode::Off, device.as_ref(), &ctx(*loopback, *household));
        assert_eq!(
            got, *expected,
            "{visibility:?} + {status:?} (loopback={loopback}, household={household})"
        );
    }
}

#[test]
fn a_revoked_device_is_refused_at_every_level() {
    for visibility in [Visibility::Private, Visibility::Network, Visibility::Invited, Visibility::Public] {
        let revoked = device(DeviceStatus::Revoked);
        assert_eq!(
            decide(visibility, false, RelayMode::Off, Some(&revoked), &ctx(false, true)),
            Decision::Deny(DenyReason::DeviceRevoked),
            "{visibility:?} let a revoked device through"
        );
    }
}

#[test]
fn nothing_is_reachable_by_default() {
    assert_eq!(
        decide(Visibility::default(), false, RelayMode::Off, None, &ctx(false, true)),
        Decision::Deny(DenyReason::NotTheOwner)
    );
}

// ---- sessions --------------------------------------------------------------

fn keys() -> SessionKeys {
    SessionKeys::generate().expect("randomness")
}

#[test]
fn a_minted_session_verifies() {
    let keys = keys();
    let device = new_id();

    let cookie = keys.mint(&device, NOW);
    let token = keys.verify(&cookie, NOW).expect("verifies");

    assert_eq!(token.device, device);
    assert_eq!(token.expires_at, NOW + SESSION_TTL_SECONDS);
}

#[test]
fn another_daemons_signature_does_not_verify() {
    let mine = keys();
    let theirs = keys();
    let cookie = theirs.mint(&new_id(), NOW);

    assert_eq!(mine.verify(&cookie, NOW), Err(SessionError::BadSignature));
}

#[test]
fn changing_the_device_invalidates_the_cookie() {
    let keys = keys();
    let cookie = keys.mint(&new_id(), NOW);

    let forged = format!(
        "{}.{}",
        new_id().as_str(),
        cookie.split_once('.').expect("has parts").1
    );
    assert_eq!(keys.verify(&forged, NOW), Err(SessionError::BadSignature));
}

#[test]
fn extending_the_expiry_invalidates_the_cookie() {
    let keys = keys();
    let device = new_id();
    let cookie = keys.mint(&device, NOW);
    let signature = cookie.rsplit_once('.').expect("has a signature").1;

    let forged = format!("{}.{}.{signature}", device.as_str(), NOW + 999_999_999);
    assert_eq!(keys.verify(&forged, NOW), Err(SessionError::BadSignature));
}

#[test]
fn an_expired_session_is_rejected() {
    let keys = keys();
    let cookie = keys.mint(&new_id(), NOW);

    assert_eq!(keys.verify(&cookie, NOW + SESSION_TTL_SECONDS), Err(SessionError::Expired));
}

#[test]
fn garbage_is_malformed_not_a_panic() {
    let keys = keys();
    for bad in ["", ".", "no-dots", "a.b", "a.b.c", "....", "x.999999999999999999999.y"] {
        let result = keys.verify(bad, NOW);
        assert!(result.is_err(), "{bad:?} should not verify");
    }
}

#[test]
fn keys_round_trip_through_bytes() {
    let keys = keys();
    let device = new_id();
    let cookie = keys.mint(&device, NOW);

    let restored = SessionKeys::from_bytes(&keys.to_bytes());
    assert!(restored.verify(&cookie, NOW).is_ok());
    assert_eq!(restored.verifying_key(), keys.verifying_key());
}

#[test]
fn tokens_are_unpredictable() {
    let a = kitchen_table::entropy::random_token(16).expect("randomness");
    let b = kitchen_table::entropy::random_token(16).expect("randomness");
    assert_ne!(a, b);
    assert!(a.len() >= 20, "16 bytes should not encode this short");
}

#[test]
fn a_cookie_is_device_expiry_and_signature() {
    let keys = keys();
    let device = new_id();
    let cookie = keys.mint(&device, NOW);
    let parts: Vec<&str> = cookie.split('.').collect();
    assert_eq!(parts.len(), 3);
    assert_eq!(parts[0], device.as_str());
    assert_eq!(parts[1], (NOW + SESSION_TTL_SECONDS).to_string());
}

