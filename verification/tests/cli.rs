use kitchen_table::account::AccountLink;
use kitchen_table::cli::{
    account_lines, app_row, field, link_lines, parse_command, status_lines, url_lines, usage_error, Command,
    Serving, URL_WITHOUT_APP, USAGE,
};
use kitchen_table::qr::render;
use kitchen_table::table::{column_widths, display_width};

#[test]
fn columns_are_sized_to_the_widest_cell() {
    let widths = [3usize, 5];
    let row = ["ab".to_string(), "cd".to_string()];
    assert_eq!(kitchen_table::table::line(&row, &widths), "ab   cd");
}

#[test]
fn the_last_column_has_no_trailing_padding() {
    let widths = [2usize, 10];
    let row = ["ab".to_string(), "cd".to_string()];
    assert_eq!(kitchen_table::table::line(&row, &widths), "ab  cd");
}

#[test]
fn non_ascii_names_stay_aligned() {
    assert_eq!(display_width("café"), 4);
    assert_eq!(display_width("cafe"), 4);
}

#[test]
fn a_column_is_as_wide_as_its_widest_cell_or_header() {
    let headers = ["APP".to_string(), "VISIBILITY".to_string()];
    let rows = vec![
        ["trip-planner".to_string(), "private".to_string()],
        ["a".to_string(), "invited".to_string()],
    ];
    assert_eq!(column_widths(&headers, &rows), vec![12, 10]);
}

// ---- the QR code -----------------------------------------------------------

#[test]
fn renders_something_scannable_shaped() {
    let out = render("http://trip-planner.local");
    assert!(!out.is_empty());

    let lines: Vec<_> = out.lines().collect();
    assert!(lines.len() > 8, "a QR code should be more than a few rows");

    let widths: Vec<usize> = lines.iter().map(|l| l.chars().count()).collect();
    assert!(widths.windows(2).all(|w| w[0] == w[1]), "rows differ in width: {widths:?}");
}

#[test]
fn the_quiet_zone_is_present_on_every_side() {
    let out = render("http://a.local");
    let lines: Vec<&str> = out.lines().collect();

    assert!(lines[0].trim().is_empty(), "the first rows must be blank quiet zone");
    assert!(lines[lines.len() - 1].trim().is_empty(), "the last rows must be blank quiet zone");
    for line in &lines {
        assert!(line.starts_with("    "), "each row needs a left quiet zone: {line:?}");
    }
}

#[test]
fn a_longer_url_makes_a_bigger_code() {
    let small = render("http://a.local").lines().count();
    let large = render(&format!("http://{}.local", "x".repeat(200))).lines().count();
    assert!(large > small);
}

#[test]
fn undrawable_data_returns_empty_rather_than_panicking() {
    assert_eq!(render(&"x".repeat(10_000)), "");
}

// ---- the command line ------------------------------------------------------

fn args(words: &[&str]) -> Vec<String> {
    words.iter().map(|w| w.to_string()).collect()
}

#[test]
fn no_arguments_means_help() {
    assert_eq!(parse_command(&args(&[])), Command::Help);
    assert_eq!(parse_command(&args(&["--help"])), Command::Help);
    assert_eq!(parse_command(&args(&["-h"])), Command::Help);
}

#[test]
fn each_command_is_recognised() {
    assert_eq!(parse_command(&args(&["ls"])), Command::List);
    assert_eq!(parse_command(&args(&["list"])), Command::List);
    assert_eq!(parse_command(&args(&["url", "trip"])), Command::Url("trip".into()));
    assert_eq!(parse_command(&args(&["url"])), Command::UrlWithoutApp);
    assert_eq!(parse_command(&args(&["status"])), Command::Status);
    assert_eq!(parse_command(&args(&["account"])), Command::Account);
    assert_eq!(parse_command(&args(&["account", "status"])), Command::Account);
    assert_eq!(parse_command(&args(&["account", "link"])), Command::AccountLink);
    assert_eq!(
        parse_command(&args(&["account", "nope"])),
        Command::UnknownAccountCommand("nope".into())
    );
    assert_eq!(parse_command(&args(&["frobnicate"])), Command::Unknown("frobnicate".into()));
}

#[test]
fn a_field_pads_its_label_to_twelve_columns() {
    assert_eq!(field("handle", "jo"), "handle       jo");
    assert_eq!(field("a-label-longer-than-twelve", "x"), "a-label-longer-than-twelve x");
}

#[test]
fn a_linked_account_says_where_apps_publish() {
    let link = AccountLink::Linked { handle: "jo".into(), domain: "kt.example".into() };
    assert_eq!(
        account_lines(&link, Some("abc123")),
        vec![
            "account      linked".to_string(),
            "handle       jo".to_string(),
            "names        apps publish as <app>-jo.kt.example".to_string(),
            "install key  abc123".to_string(),
        ]
    );
    assert_eq!(
        account_lines(&AccountLink::Unlinked, None),
        vec![
            "account      not linked".to_string(),
            "hint         `kt account link` gives your apps public addresses".to_string(),
        ]
    );
    assert_eq!(account_lines(&AccountLink::Waiting, None).len(), 2);
}

#[test]
fn status_names_the_state_the_folder_and_the_versions() {
    let lines = status_lines(&Serving::Degraded("disk full".into()), "/ws", 3, "0.4.1", 2);
    assert_eq!(
        lines,
        vec![
            "status       degraded - disk full".to_string(),
            "workspace    /ws".to_string(),
            "apps         3".to_string(),
            "daemon       0.4.1 (protocol 2)".to_string(),
        ]
    );
}

#[test]
fn a_list_row_prefixes_the_version() {
    let row = app_row("notes", "Network", 12, "http://notes.local");
    assert_eq!(row[2], "v12");
    assert_eq!(row[0], "notes");
}

#[test]
fn the_url_shows_the_fallback_and_a_taken_name() {
    assert_eq!(
        url_lines("http://notes.local", "http://10.0.0.2:4000/notes", Some("notes-2.local"), "notes-2"),
        vec!["  http://notes.local".to_string(), "  http://10.0.0.2:4000/notes   (if .local does not resolve)".to_string()]
    );
    assert_eq!(
        url_lines("http://notes-2.local", "http://notes-2.local", Some("notes-2.local"), "notes"),
        vec!["  http://notes-2.local".to_string()]
    );
    assert_eq!(
        url_lines("http://x.local", "http://x.local", Some("y.local"), "x"),
        vec!["  http://x.local".to_string(), "  announced as y.local - the name you wanted was taken".to_string()]
    );
}

#[test]
fn usage_errors_name_what_was_not_understood() {
    assert_eq!(usage_error(&Command::UrlWithoutApp), Some(URL_WITHOUT_APP.to_string()));
    assert_eq!(usage_error(&Command::Unknown("frob".into())), Some(format!("kt: unknown command \"frob\"\n\n{USAGE}")));
    assert_eq!(
        usage_error(&Command::UnknownAccountCommand("zap".into())),
        Some(format!("kt account: unknown subcommand \"zap\"\n\n{USAGE}"))
    );
    assert_eq!(usage_error(&Command::List), None);
    assert!(USAGE.starts_with("kt - a home for your small software"));
}

#[test]
fn linking_prints_the_address_to_finish_at() {
    let lines = link_lines("https://kt.example/upgrade?k=1");
    assert_eq!(lines[0], "  https://kt.example/upgrade?k=1");
    assert_eq!(lines.len(), 4);
}
