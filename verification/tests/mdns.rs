use kitchen_table::mdns::{
    claim_name, is_mac, name_from, service_slice_ms, tidy, Announcer, BonjourAnnouncer, Discoverer, MdnsError, MockAnnouncer,
    MockDiscoverer, NoDiscoverer, UnsupportedAnnouncer, NAME_CONFLICT_CODE,
};

const LOCALHOST: u32 = 0x7f00_0001;

#[test]
fn a_hostname_is_the_registered_name_not_the_requested_one() {
    let mut announcer = MockAnnouncer::new().with_taken(vec!["notes".to_string()]);
    let a = announcer.announce("notes", LOCALHOST).expect("announces");

    assert_eq!(a.requested, "notes");
    assert_eq!(a.registered, "notes-2");
    assert_eq!(a.hostname(), "notes-2.local");
    assert!(a.was_renamed());
}

#[test]
fn an_uncontested_name_is_not_renamed() {
    let mut announcer = MockAnnouncer::new();
    let a = announcer.announce("trip-planner", LOCALHOST).expect("announces");

    assert_eq!(a.hostname(), "trip-planner.local");
    assert!(!a.was_renamed());
}

#[test]
fn records_what_it_announced() {
    let mut announcer = MockAnnouncer::new();
    announcer.announce("a", LOCALHOST).expect("announces");
    announcer.announce("b", LOCALHOST).expect("announces");
    assert_eq!(announcer.announced(), ["a", "b"]);
}

#[test]
fn two_apps_wanting_one_name_both_get_served() {
    let mut announcer = MockAnnouncer::new();
    let first = announcer.announce("notes", LOCALHOST).expect("first");
    let second = announcer.announce("notes", LOCALHOST).expect("second");

    assert_eq!(first.registered, "notes");
    assert_eq!(second.registered, "notes-2");
}

#[test]
fn a_failing_responder_is_an_error_not_a_silent_success() {
    let mut announcer = MockAnnouncer::new().failing("permission denied");
    assert!(matches!(announcer.announce("x", LOCALHOST), Err(MdnsError::Responder(_))));
}

#[test]
fn unsupported_platforms_say_so_rather_than_pretending() {
    assert!(matches!(UnsupportedAnnouncer::new().announce("x", LOCALHOST), Err(MdnsError::Unsupported)));
    assert!(!UnsupportedAnnouncer::new().is_live());
}

#[test]
fn the_first_free_suffix_is_taken() {
    let taken = vec!["notes".to_string(), "notes-2".to_string(), "notes-4".to_string()];
    assert_eq!(claim_name("notes", &taken), "notes-3");
    assert_eq!(claim_name("other", &taken), "other");
}

#[test]
fn two_apps_wanting_the_same_name_get_different_ones() {
    let mut bonjour = BonjourAnnouncer::new();
    let first = bonjour.claim("notes");
    let second = bonjour.claim("notes");
    assert_eq!(first, "notes");
    assert_eq!(second, "notes-2");
}

#[test]
fn a_name_the_network_says_is_taken_is_not_asked_for_again() {
    let mut bonjour = BonjourAnnouncer::new();
    bonjour.on_register("notes".to_string(), NAME_CONFLICT_CODE);
    assert_eq!(bonjour.claim("notes"), "notes-2");
}

#[test]
fn a_failed_registration_gives_the_name_back() {
    let mut bonjour = BonjourAnnouncer::new();
    let name = bonjour.claim("trip");
    let err = bonjour.settle("trip", &name, NAME_CONFLICT_CODE).expect_err("conflict");
    assert!(matches!(err, MdnsError::NameConflict { ref name } if name == "trip"));
    assert_eq!(err.message(), "trip.local is already claimed on this network");
    assert_eq!(bonjour.claim("trip"), "trip", "the name was released");

    let other = bonjour.settle("trip", "trip", -65537).expect_err("failure");
    assert_eq!(
        other.message(),
        "could not reach the system mDNS responder: DNSServiceRegisterRecord failed (-65537)"
    );
}

#[test]
fn a_successful_registration_is_held_by_the_announcement() {
    let mut bonjour = BonjourAnnouncer::new();
    let name = bonjour.claim("trip");
    let a = bonjour.settle("trip", &name, 0).expect("registered");
    assert_eq!(a.hostname(), "trip.local");
    assert_eq!(a.registration().expect("held").name(), "trip");
}

#[test]
fn a_name_with_a_nul_byte_is_refused_before_it_reaches_the_responder() {
    assert!(BonjourAnnouncer::full_name("bad\0name").is_err());
    assert_eq!(BonjourAnnouncer::full_name("trip").expect("fine"), "trip.local.");
}

#[test]
fn raop_and_workstation_decorations_are_stripped() {
    assert_eq!(tidy("AABBCCDDEEFF@Living Room"), "Living Room");
    assert_eq!(tidy("desktop [aa:bb:cc:dd:ee:ff]"), "desktop");
    assert_eq!(tidy("Kitchen iPad"), "Kitchen iPad");
}

#[test]
fn a_name_that_merely_contains_an_at_sign_is_left_alone() {
    assert_eq!(tidy("me@home iMac"), "me@home iMac");
    assert_eq!(tidy("Studio [not a mac]"), "Studio [not a mac]");
}

#[test]
fn a_mac_address_is_six_pairs_of_hex() {
    assert!(is_mac("aa:bb:cc:dd:ee:ff"));
    assert!(is_mac("00:11:22:33:44:55"));
    assert!(!is_mac("aa:bb:cc:dd:ee"));
    assert!(!is_mac("aa:bb:cc:dd:ee:fg"));
    assert!(!is_mac("aabb:cc:dd:ee:ff"));
}

#[test]
fn a_discoverer_with_nothing_to_ask_answers_nothing() {
    assert_eq!(NoDiscoverer.name_for(0x0a00_0002, 4000), None);
    assert!(!NoDiscoverer.is_live());
}

#[test]
fn the_mock_discoverer_answers_from_its_sheet() {
    let d = MockDiscoverer::new().with(0x0a00_0002, "Kitchen iPad").with(0x0a00_0002, "Hall iPad");
    assert_eq!(d.name_for(0x0a00_0002, 4000).as_deref(), Some("Hall iPad"));
    assert_eq!(d.name_for(0x0a00_0003, 4000), None);
}

#[test]
fn an_answer_that_tidies_to_nothing_names_nobody() {
    assert_eq!(name_from("001122AABBCC@Living Room"), Some("Living Room".to_string()));
    assert_eq!(name_from("   "), None);
}

#[test]
fn each_service_gets_a_share_of_the_allowance() {
    assert_eq!(service_slice_ms(2_000, 2_000, 5), 400);
    assert_eq!(service_slice_ms(150, 2_000, 5), 150);
}
