use kitchen_table::authoring::{folder_name, import, plan_create, skipped, starter, unique_in, AuthorError};
use kitchen_table::access::{RelayMode, Visibility};
use kitchen_table::library::Library;
use kitchen_table::mdns::MockAnnouncer;
use kitchen_table::registry::{
    choose_entry, diff, generate, is_hidden, is_interesting, AppManifest, AppRecord, ManifestFound, Measure,
    Registry, RegistryError, StorageMode, sort_by_slug,
};
use kitchen_table::slug::{deduplicate, slugify};

// ---- slugs -----------------------------------------------------------------

#[test]
fn lowercases_and_hyphenates() {
    assert_eq!(slugify("Trip Planner"), "trip-planner");
    assert_eq!(slugify("Chores Rota"), "chores-rota");
}

#[test]
fn collapses_runs_of_punctuation() {
    assert_eq!(slugify("my   app!!!"), "my-app");
    assert_eq!(slugify("a_b_c"), "a-b-c");
}

#[test]
fn trims_leading_and_trailing_separators() {
    assert_eq!(slugify("  spaced  "), "spaced");
    assert_eq!(slugify("...dots..."), "dots");
    assert_eq!(slugify("-lead-"), "lead");
}

#[test]
fn drops_characters_that_cannot_live_in_a_hostname() {
    assert_eq!(slugify("café münchen"), "caf-m-nchen");
    assert_eq!(slugify("emoji 🧳 trip"), "emoji-trip");
}

#[test]
fn always_produces_something_usable() {
    assert_eq!(slugify(""), "app");
    assert_eq!(slugify("🧳"), "app");
    assert_eq!(slugify("---"), "app");
}

#[test]
fn respects_the_hostname_label_limit() {
    let slug = slugify(&"a".repeat(100));
    assert_eq!(slug.len(), 63);
    assert!(!slug.ends_with('-'));
}

#[test]
fn collisions_get_a_numeric_suffix() {
    let taken = vec!["notes".to_string()];
    assert_eq!(deduplicate("notes", &taken), "notes-2");

    let taken = vec!["notes".to_string(), "notes-2".to_string()];
    assert_eq!(deduplicate("notes", &taken), "notes-3");
}

#[test]
fn a_free_slug_is_left_alone() {
    assert_eq!(deduplicate("notes", &[]), "notes");
}

// ---- the registry ----------------------------------------------------------

fn entry(has_html: bool, has_htm: bool, files: Option<&[&str]>) -> String {
    let owned: Option<Vec<String>> = files.map(|f| f.iter().map(|s| s.to_string()).collect());
    choose_entry(has_html, has_htm, owned.as_deref())
}

#[test]
fn a_lone_page_becomes_the_entry_when_there_is_no_index() {
    assert_eq!(
        entry(false, false, Some(&["Trip Briefing.dc.html", "support.js"])),
        "Trip Briefing.dc.html"
    );
}

#[test]
fn index_html_wins_whenever_it_is_there() {
    assert_eq!(entry(true, false, Some(&["index.html", "about.html"])), "index.html");
    assert_eq!(entry(false, true, Some(&["index.htm", "about.html"])), "index.htm");
}

#[test]
fn several_pages_and_no_index_is_left_alone_and_flagged() {
    assert_eq!(entry(false, false, Some(&["one.html", "two.html"])), "index.html");
}

#[test]
fn a_folder_holding_one_file_opens_on_it_whatever_it_is() {
    for file in ["menu.pdf", "poster.png", "readme.txt"] {
        assert_eq!(entry(false, false, Some(&[file])), file);
    }
}

#[test]
fn a_lone_page_still_beats_a_lone_file_among_assets() {
    assert_eq!(entry(false, false, Some(&["Design.html", "style.css"])), "Design.html");
    assert_eq!(entry(false, false, Some(&["PAGE.HTM", "notes.txt"])), "PAGE.HTM");
}

#[test]
fn an_app_whose_entry_is_missing_is_flagged() {
    assert_eq!(entry(false, false, Some(&["notes.txt", "more.txt"])), "index.html");
    assert_eq!(entry(false, false, None), "index.html");
}

#[test]
fn hidden_folders_and_loose_files_are_not_apps() {
    assert!(is_hidden("/ws/.git"));
    assert!(!is_hidden("/ws/real"));
    assert!(!is_hidden("/"));
}

#[test]
fn editor_noise_does_not_trigger_a_rescan() {
    assert!(!is_interesting(&[".notes.swp".to_string(), "/ws/a/index.html~".to_string()]));
    assert!(is_interesting(&["/ws/.DS_Store".to_string(), "/ws/a/index.html".to_string()]));
}

#[test]
fn a_folder_becomes_an_app() {
    let registry = Registry::new("/ws");
    let loaded = registry
        .load_or_create("/ws/Trip Planner", ManifestFound::Absent, &[], "index.html")
        .expect("loads");
    assert!(loaded.generated);
    assert_eq!(loaded.manifest.slug, "trip-planner");
    assert_eq!(loaded.manifest.name, "Trip Planner");
    assert_eq!(loaded.manifest_path, "/ws/Trip Planner/app.json");
}

#[test]
fn nothing_is_shared_just_by_existing() {
    let m = generate("Anything", &[], "index.html");
    assert_eq!(m.visibility, Visibility::Private);
    assert_eq!(m.relay, RelayMode::Off);
    assert_eq!(m.version, 1);
    assert!(!m.paused);
    assert_eq!(m.public_label, None);
}

fn manifest(name: &str, slug: &str) -> AppManifest {
    AppManifest {
        name: name.into(),
        slug: slug.into(),
        icon: None,
        entry: "index.html".into(),
        visibility: Visibility::Network,
        version: 9,
        paused: false,
        relay: RelayMode::Off,
        public_label: None,
        storage: StorageMode::Synced,
        storage_backup: true,
    }
}

#[test]
fn an_existing_manifest_wins_over_defaults() {
    let registry = Registry::new("/ws");
    let loaded = registry
        .load_or_create("/ws/whatever", ManifestFound::Parsed(manifest("Real Name", "real")), &[], "index.html")
        .expect("loads");
    assert!(!loaded.generated);
    assert_eq!(loaded.manifest.name, "Real Name");
    assert_eq!(loaded.manifest.slug, "real");
    assert_eq!(loaded.manifest.visibility, Visibility::Network);
    assert_eq!(loaded.manifest.version, 9);
}

#[test]
fn a_broken_manifest_does_not_lose_the_app() {
    let registry = Registry::new("/ws");
    let loaded = registry
        .load_or_create("/ws/Notes", ManifestFound::Unreadable, &[], "index.html")
        .expect("loads");
    assert_eq!(loaded.manifest.slug, "notes");
}

#[test]
fn an_unreadable_manifest_is_an_error_naming_the_file() {
    let registry = Registry::new("/ws");
    let err = registry
        .load_or_create("/ws/Notes", ManifestFound::Failed("permission denied".into()), &[], "index.html")
        .expect_err("unreadable");
    match err {
        RegistryError::Write { path, source } => {
            assert_eq!(path, "/ws/Notes/app.json");
            assert_eq!(source, "permission denied");
        }
        other => panic!("unexpected: {other:?}"),
    }
}

#[test]
fn colliding_folder_names_get_distinct_slugs() {
    let mut taken: Vec<String> = Vec::new();
    let mut slugs = Vec::new();
    for name in ["My App", "my-app", "my_app"] {
        let m = generate(name, &taken, "index.html");
        taken.push(m.slug.clone());
        slugs.push(m.slug);
    }
    assert_eq!(slugs, ["my-app", "my-app-2", "my-app-3"]);
}

#[test]
fn the_workspace_is_where_it_was_said_to_be() {
    assert_eq!(Registry::new("/home/sam/KitchenTable").workspace(), "/home/sam/KitchenTable");
}

// ---- the library -----------------------------------------------------------

fn record(slug: &str, name: &str, path: &str) -> AppRecord {
    AppRecord {
        manifest: AppManifest {
            visibility: Visibility::Private,
            version: 1,
            ..manifest(name, slug)
        },
        path: path.into(),
        size_bytes: 0,
        deployed_at: None,
        entry_exists: true,
    }
}

fn roots(n: usize) -> Vec<Option<String>> {
    vec![Some("/tmp".to_string()); n]
}

#[test]
fn an_unservable_path_is_skipped_without_losing_the_rest() {
    let mut library = Library::new();
    library.replace(
        vec![record("real", "Real", "/tmp"), record("ghost", "Ghost", "/nonexistent/path/for/sure")],
        vec![Some("/tmp".into()), None],
    );

    assert_eq!(library.len(), 1);
    assert!(library.get("real").is_some());
    assert!(library.get("ghost").is_none());
}

#[test]
fn replacing_removes_what_is_gone() {
    let mut library = Library::new();
    library.replace(vec![record("a", "A", "/tmp"), record("b", "B", "/tmp")], roots(2));
    assert_eq!(library.len(), 2);

    library.replace(vec![record("a", "A", "/tmp")], roots(1));
    assert_eq!(library.len(), 1);
    assert!(library.get("b").is_none());
}

#[test]
fn an_announced_app_is_reachable_by_its_hostname() {
    let mut announcer = MockAnnouncer::new();
    let mut library = Library::new();

    library.replace_announcing(vec![record("trip", "Trip", "/tmp")], roots(1), &mut announcer, Some(0x7f00_0001));

    assert_eq!(library.hostname("trip").as_deref(), Some("trip.local"));
    assert!(library.get_by_hostname("trip.local").is_some());
    assert!(library.get_by_hostname("other.local").is_none());
}

#[test]
fn a_relay_hostname_resolves_to_the_app_it_names() {
    let mut library = Library::new();
    library.replace(
        vec![
            record("chores-rota", "Chores rota", "/tmp"),
            record("trip-briefing-html-template", "Trip briefing", "/tmp"),
        ],
        roots(2),
    );
    library.set_relay_identity(Some(("adarsh".into(), "kitchentable.cloud".into())));

    assert_eq!(
        library.get_by_hostname("chores-rota-adarsh.kitchentable.cloud").map(|a| a.slug),
        Some("chores-rota".to_string())
    );
    assert_eq!(
        library
            .get_by_hostname("trip-briefing-html-template-adarsh.kitchentable.cloud")
            .map(|a| a.slug),
        Some("trip-briefing-html-template".to_string())
    );
    assert!(library.get_by_hostname("Chores-Rota-Adarsh.KitchenTable.Cloud.").is_some());
}

#[test]
fn a_hostname_this_machine_does_not_own_resolves_to_nothing() {
    let mut library = Library::new();
    library.replace(vec![record("chores-rota", "Chores rota", "/tmp")], roots(1));
    library.set_relay_identity(Some(("adarsh".into(), "kitchentable.cloud".into())));

    for hostname in [
        "chores-rota-someoneelse.kitchentable.cloud",
        "chores-rota-adarsh.example.com",
        "a.chores-rota-adarsh.kitchentable.cloud",
        "chores-rota.kitchentable.cloud",
        "-adarsh.kitchentable.cloud",
        "nosuchapp-adarsh.kitchentable.cloud",
    ] {
        assert!(library.get_by_hostname(hostname).is_none(), "{hostname} should not have resolved");
    }
}

#[test]
fn an_install_with_no_handle_answers_no_relay_hostname() {
    let mut library = Library::new();
    library.replace(vec![record("chores-rota", "Chores rota", "/tmp")], roots(1));

    assert!(library.get_by_hostname("chores-rota-adarsh.kitchentable.cloud").is_none());
    assert_eq!(library.public_host("chores-rota"), None);
}

#[test]
fn the_name_the_window_hands_out_is_the_one_the_daemon_answers_to() {
    let mut library = Library::new();
    library.replace(
        vec![
            record("chores-rota", "Chores rota", "/tmp"),
            record("trip-briefing-html-template", "Trip briefing", "/tmp"),
        ],
        roots(2),
    );
    library.set_relay_identity(Some(("adarsh".into(), "kitchentable.cloud".into())));

    for slug in ["chores-rota", "trip-briefing-html-template"] {
        let host = library.public_host(slug).expect("a handle is claimed");
        assert_eq!(host, format!("{slug}-adarsh.kitchentable.cloud"));
        assert_eq!(library.get_by_hostname(&host).map(|a| a.slug), Some(slug.to_string()));
    }
}

#[test]
fn a_renamed_address_resolves_and_the_old_one_stops() {
    let mut library = Library::new();
    let mut rec = record("trip-briefing-html-template", "Trip briefing", "/tmp");
    library.replace(vec![rec.clone()], roots(1));
    library.set_relay_identity(Some(("adarsh".into(), "kitchentable.cloud".into())));

    let before = library.public_host("trip-briefing-html-template").expect("named");
    assert_eq!(before, "trip-briefing-html-template-adarsh.kitchentable.cloud");

    rec.manifest.public_label = Some("trip".into());
    library.replace(vec![rec], roots(1));

    assert_eq!(
        library.public_host("trip-briefing-html-template").as_deref(),
        Some("trip-adarsh.kitchentable.cloud")
    );
    assert_eq!(
        library.get_by_hostname("trip-adarsh.kitchentable.cloud").map(|a| a.slug),
        Some("trip-briefing-html-template".to_string())
    );
    assert!(library.get_by_hostname(&before).is_none());
}

#[test]
fn renaming_a_public_address_leaves_the_local_one_alone() {
    let mut announcer = MockAnnouncer::new();
    let mut library = Library::new();
    let mut rec = record("chores-rota", "Chores rota", "/tmp");
    rec.manifest.public_label = Some("jobs".into());
    library.replace_announcing(vec![rec], roots(1), &mut announcer, Some(0x7f00_0001));
    library.set_relay_identity(Some(("adarsh".into(), "kitchentable.cloud".into())));

    assert_eq!(library.public_host("chores-rota").as_deref(), Some("jobs-adarsh.kitchentable.cloud"));
    assert_eq!(
        library.get_by_hostname("chores-rota.local").map(|a| a.slug).as_deref(),
        Some("chores-rota")
    );
}

#[test]
fn a_rescan_does_not_re_announce_what_is_already_on_the_air() {
    let mut announcer = MockAnnouncer::new();
    let mut library = Library::new();
    let records = vec![record("trip", "Trip", "/tmp")];

    library.replace_announcing(records.clone(), roots(1), &mut announcer, Some(0x7f00_0001));
    library.replace_announcing(records, roots(1), &mut announcer, Some(0x7f00_0001));

    assert_eq!(announcer.announced(), ["trip"]);
}

#[test]
fn an_app_that_cannot_be_announced_is_still_served() {
    let mut announcer = MockAnnouncer::new().failing("no permission");
    let mut library = Library::new();

    library.replace_announcing(vec![record("trip", "Trip", "/tmp")], roots(1), &mut announcer, Some(0x7f00_0001));

    assert_eq!(library.len(), 1);
    assert!(library.get("trip").is_some());
    assert_eq!(library.hostname("trip"), None);
}

#[test]
fn listings_are_name_ordered() {
    let mut library = Library::new();
    library.replace(
        vec![record("z", "Alpha", "/tmp"), record("a", "zulu", "/tmp"), record("m", "Middle", "/tmp")],
        roots(3),
    );

    let names: Vec<_> = library.list().into_iter().map(|a| a.name).collect();
    assert_eq!(names, ["Alpha", "Middle", "zulu"]);
    let records: Vec<_> = library.records().into_iter().map(|r| r.manifest.slug).collect();
    assert_eq!(records, ["z", "m", "a"]);
}

#[test]
fn a_label_is_found_whatever_its_case() {
    let mut library = Library::new();
    library.replace(vec![record("notes", "Notes", "/tmp")], roots(1));
    assert_eq!(library.slug_for_public_label("  NOTES ").as_deref(), Some("notes"));
    assert_eq!(library.slug_for_public_label("other"), None);
}

#[test]
fn the_handle_is_kept_in_lower_case() {
    let mut library = Library::new();
    library.set_relay_identity(Some((" Adarsh ".into(), "KitchenTable.Cloud".into())));
    assert_eq!(library.relay_identity(), Some(("adarsh".into(), "kitchentable.cloud".into())));
}

// ---- authoring -------------------------------------------------------------

#[test]
fn a_new_app_gets_a_folder_and_a_page_that_works() {
    let app = plan_create("Packing List", &[], 0).expect("creates");
    assert_eq!(app.folder, "Packing List");
    assert!(app.page.contains("<title>Packing List</title>"));
}

#[test]
fn a_second_app_of_the_same_name_is_suffixed_rather_than_clobbering() {
    let app = plan_create("Notes", &["Notes".to_string()], 0).expect("creates");
    assert_eq!(app.folder, "Notes 2");
}

#[test]
fn a_name_that_would_escape_the_workspace_is_flattened() {
    let name = folder_name("../../etc/evil").expect("usable");
    assert!(!name.contains('/'));
    assert_eq!(name, "-..-etc-evil");
}

#[test]
fn a_leading_dot_is_stripped_so_the_app_is_not_born_hidden() {
    assert_eq!(folder_name(".secret").expect("usable"), "secret");
}

#[test]
fn a_name_with_nothing_usable_in_it_is_refused() {
    assert!(matches!(plan_create("   ", &[], 0), Err(AuthorError::NameEmpty)));
    assert!(matches!(plan_create("...", &[], 0), Err(AuthorError::NameUnusable(_))));
}

#[test]
fn long_names_are_cut_to_a_portable_length() {
    let name = folder_name(&"é".repeat(100)).expect("usable");
    assert_eq!(name.chars().count(), 64);
}

#[test]
fn finder_style_numbering_falls_back_to_the_clock() {
    let mut taken = vec!["Notes".to_string()];
    for n in 2..1000 {
        taken.push(format!("Notes {n}"));
    }
    assert_eq!(unique_in(&taken, "Notes", 1_700_000_000), "Notes 1700000000");
    assert_eq!(unique_in(&taken[..5], "Notes", 0), "Notes 6");
}

#[test]
fn the_starter_page_names_its_folder() {
    let page = starter("Trip");
    assert!(page.starts_with("<!doctype html>\n"));
    assert!(page.contains("  <h1>Trip</h1>\n"));
    assert!(page.contains("in your Trip folder."));
    assert!(page.ends_with("</html>\n"));
}

#[test]
fn importing_lands_next_to_the_other_apps() {
    let dest = import("/ws", "/home/sam/Trip Planner", Some("/home/sam/Trip Planner"), true, &[], 0)
        .expect("imports");
    assert_eq!(dest, "/ws/Trip Planner");
}

#[test]
fn importing_something_already_in_the_workspace_is_refused() {
    assert!(matches!(
        import("/ws", "/ws/Already Here", Some("/ws/Already Here"), true, &[], 0),
        Err(AuthorError::AlreadyInWorkspace(_))
    ));
}

#[test]
fn importing_a_parent_of_the_workspace_is_refused() {
    assert!(matches!(
        import("/ws/inner", "/ws", Some("/ws"), true, &[], 0),
        Err(AuthorError::ContainsWorkspace(_))
    ));
}

#[test]
fn importing_a_file_or_a_missing_path_is_refused() {
    assert!(matches!(
        import("/ws", "/out/page.html", Some("/out/page.html"), false, &[], 0),
        Err(AuthorError::NotAFolder(_))
    ));
    assert!(matches!(import("/ws", "/out/nope", None, false, &[], 0), Err(AuthorError::Missing(_))));
}

#[test]
fn a_sibling_that_shares_a_prefix_is_not_inside() {
    let dest = import("/ws", "/wsx/app", Some("/wsx/app"), true, &[], 0).expect("imports");
    assert_eq!(dest, "/ws/app");
}

#[test]
fn importing_skips_version_control_and_dependencies() {
    assert!(skipped(".git"));
    assert!(skipped("node_modules"));
    assert!(skipped(".DS_Store"));
    assert!(!skipped("index.html"));
}

// ---- rescans and folder sizes ----------------------------------------------

#[test]
fn a_rescan_of_the_same_folders_changes_nothing() {
    let listing = vec![record("notes", "Notes", "/ws/notes"), record("menu", "Menu", "/ws/menu")];
    let d = diff(&listing, &listing);
    assert!(d.is_empty());
    assert!(d.changed.is_empty());
    assert!(d.removed.is_empty());
}

#[test]
fn a_rescan_names_what_changed_and_what_left() {
    let before = vec![record("notes", "Notes", "/ws/notes"), record("menu", "Menu", "/ws/menu")];
    let after = vec![record("notes", "Notes Renamed", "/ws/notes"), record("games", "Games", "/ws/games")];
    let d = diff(&before, &after);
    assert!(!d.is_empty());
    let changed: Vec<String> = d.changed.iter().map(|r| r.manifest.slug.clone()).collect();
    assert_eq!(changed, vec!["notes".to_string(), "games".to_string()]);
    assert_eq!(d.removed, vec!["menu".to_string()]);
}

#[test]
fn folder_sizes_add_up_and_the_newest_change_wins() {
    let mut m = Measure::new();
    assert_eq!(m.bytes, 0);
    assert_eq!(m.newest, None);
    m.count_file(10);
    m.count_file(32);
    m.saw_modified(1_700_000_000);
    m.saw_modified(1_600_000_000);
    assert_eq!(m.bytes, 42);
    assert_eq!(m.newest, Some(1_700_000_000));
}

#[test]
fn a_folder_too_large_to_count_stays_at_the_top() {
    let mut m = Measure::new();
    m.count_file(u64::MAX - 1);
    m.count_file(5);
    assert_eq!(m.bytes, u64::MAX);
}

#[test]
fn a_typed_name_full_of_separators_stays_a_single_visible_folder() {
    let name = folder_name("  ./a/b\\c:d*e  ").expect("usable");
    assert!(!name.is_empty());
    assert!(!name.starts_with('.'));
    assert!(!name.contains('/') && !name.contains('\\') && !name.contains(':') && !name.contains('*'));
}

#[test]
fn a_scan_lists_apps_in_slug_order() {
    let sorted = sort_by_slug(vec![record("zebra", "Z", "/ws/z"), record("apple", "A", "/ws/a"), record("mango", "M", "/ws/m")]);
    let slugs: Vec<&str> = sorted.iter().map(|r| r.manifest.slug.as_str()).collect();
    assert_eq!(slugs, vec!["apple", "mango", "zebra"]);
}

#[test]
fn each_new_app_is_asked_for_once_and_its_answer_kept() {
    let mut announcer = MockAnnouncer::new();
    let mut library = Library::new();
    library.replace_announcing(
        vec![record("trip", "Trip", "/tmp"), record("menu", "Menu", "/tmp")],
        roots(2),
        &mut announcer,
        Some(0x7f00_0001),
    );
    assert_eq!(announcer.announced(), vec!["trip".to_string(), "menu".to_string()]);
    assert_eq!(library.hostname("menu").as_deref(), Some("menu.local"));

    // Nothing to point the names at: nothing is announced.
    let mut quiet = MockAnnouncer::new();
    let mut fresh = Library::new();
    fresh.replace_announcing(vec![record("trip", "Trip", "/tmp")], roots(1), &mut quiet, None);
    assert!(quiet.announced().is_empty());
    assert_eq!(fresh.hostname("trip"), None);
}
