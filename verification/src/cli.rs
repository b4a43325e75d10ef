//! `kt`, the command line: which command was asked for, and the lines it
//! prints. Talking to the daemon and printing are the caller's.

use vstd::prelude::*;

use crate::account::AccountLink;
use crate::decimal::{digits, format_u64};
use crate::table::{pad_for, spaces};
use crate::text::{append, append_str, chars_of, debug_quoted, quoted, same_text, string_from};

verus! {

/// What `kt` was asked to do.
#[derive(Debug, Clone, PartialEq, Eq)]
pub enum Command {
    List,
    Url(String),
    /// `kt url` with no app named: a usage error.
    UrlWithoutApp,
    Status,
    Account,
    AccountLink,
    /// `kt account <other>`: a usage error.
    UnknownAccountCommand(String),
    Help,
    /// An unknown command: a usage error.
    Unknown(String),
}

/// Which command the arguments name. No arguments means help.
pub fn parse_command(args: &[String]) -> (c: Command)
    ensures
        args.len() == 0 ==> c == Command::Help,
        args.len() > 0 && (args@[0]@ == "list"@ || args@[0]@ == "ls"@) ==> c == Command::List,
        args.len() > 1 && args@[0]@ == "url"@ ==> (c matches Command::Url(s) && s@ == args@[1]@),
        args.len() == 1 && args@[0]@ == "url"@ ==> c == Command::UrlWithoutApp,
        args.len() > 0 && args@[0]@ == "status"@ ==> c == Command::Status,
        args.len() > 0 && args@[0]@ == "account"@ && (args.len() == 1 || args@[1]@ == "status"@)
            ==> c == Command::Account,
        args.len() > 1 && args@[0]@ == "account"@ && args@[1]@ == "link"@ ==> c == Command::AccountLink,
        args.len() > 1 && args@[0]@ == "account"@ && args@[1]@ != "status"@ && args@[1]@ != "link"@
            ==> (c matches Command::UnknownAccountCommand(s) && s@ == args@[1]@),
        args.len() > 0 && (args@[0]@ == "help"@ || args@[0]@ == "-h"@ || args@[0]@ == "--help"@)
            ==> c == Command::Help,
        args.len() > 0 && !(args@[0]@ == "list"@ || args@[0]@ == "ls"@ || args@[0]@ == "url"@
            || args@[0]@ == "status"@ || args@[0]@ == "account"@ || args@[0]@ == "help"@ || args@[0]@
            == "-h"@ || args@[0]@ == "--help"@) ==> (c matches Command::Unknown(s) && s@ == args@[0]@),
{
    if args.len() == 0 {
        return Command::Help;
    }
    proof {
        reveal_strlit("list");
        reveal_strlit("ls");
        reveal_strlit("url");
        reveal_strlit("status");
        reveal_strlit("account");
        reveal_strlit("link");
        reveal_strlit("help");
        reveal_strlit("-h");
        reveal_strlit("--help");
        assert("list"@.len() == 4);
        assert("ls"@.len() == 2);
        assert("url"@.len() == 3);
        assert("status"@.len() == 6);
        assert("account"@.len() == 7);
        assert("link"@.len() == 4);
        assert("help"@.len() == 4);
        assert("-h"@.len() == 2);
        assert("--help"@.len() == 6);
        assert("list"@ != "link"@) by {
            assert("list"@[2] != "link"@[2]);
        }
        assert("list"@ != "help"@) by {
            assert("list"@[0] != "help"@[0]);
        }
        assert("link"@ != "help"@) by {
            assert("link"@[0] != "help"@[0]);
        }
        assert("ls"@ != "-h"@) by {
            assert("ls"@[0] != "-h"@[0]);
        }
        assert("status"@ != "--help"@) by {
            assert("status"@[0] != "--help"@[0]);
        }
    }
    let first = args[0].as_str();
    if same_text(first, "list") || same_text(first, "ls") {
        Command::List
    } else if same_text(first, "url") {
        if args.len() > 1 {
            Command::Url(args[1].clone())
        } else {
            Command::UrlWithoutApp
        }
    } else if same_text(first, "status") {
        Command::Status
    } else if same_text(first, "account") {
        if args.len() == 1 || same_text(args[1].as_str(), "status") {
            Command::Account
        } else if same_text(args[1].as_str(), "link") {
            Command::AccountLink
        } else {
            Command::UnknownAccountCommand(args[1].clone())
        }
    } else if same_text(first, "help") || same_text(first, "-h") || same_text(first, "--help") {
        Command::Help
    } else {
        Command::Unknown(first.to_owned())
    }
}

/// What `kt help` prints, and what follows a usage error.
pub const USAGE: &'static str = "kt - a home for your small software\n\nUsage:\n  kt list            Everything in your workspace, and where to reach it\n  kt url <app>       The app's URL, with a QR code to point a phone at\n  kt status          Whether the daemon is serving, and from which folder\n  kt account         Whether this machine is linked to an account\n  kt account link    Start the upgrade that links it\n  kt help            This message\n";

/// What `kt url` with no app named prints.
pub const URL_WITHOUT_APP: &'static str = "kt url: which app?\n\n  kt url trip-planner\n";

/// How a usage error reads: `None` for a command that is not one.
pub open spec fn spec_usage_error(c: Command) -> Option<Seq<char>> {
    match c {
        Command::UrlWithoutApp => Some(URL_WITHOUT_APP@),
        Command::UnknownAccountCommand(s) => Some(
            "kt account: unknown subcommand "@ + debug_quoted(s@) + "\n\n"@ + USAGE@,
        ),
        Command::Unknown(s) => Some("kt: unknown command "@ + debug_quoted(s@) + "\n\n"@ + USAGE@),
        _ => None,
    }
}

/// The message for a usage error, which `kt` prints before exiting with 2.
pub fn usage_error(c: &Command) -> (m: Option<String>)
    ensures
        match m {
            Some(t) => spec_usage_error(*c) == Some(t@),
            None => spec_usage_error(*c) is None,
        },
{
    match c {
        Command::UrlWithoutApp => Some(URL_WITHOUT_APP.to_owned()),
        Command::UnknownAccountCommand(other) => {
            let mut out = chars_of("kt account: unknown subcommand ");
            let q = quoted(other.as_str());
            append_str(&mut out, q.as_str());
            append_str(&mut out, "\n\n");
            append_str(&mut out, USAGE);
            Some(string_from(&out))
        },
        Command::Unknown(other) => {
            let mut out = chars_of("kt: unknown command ");
            let q = quoted(other.as_str());
            append_str(&mut out, q.as_str());
            append_str(&mut out, "\n\n");
            append_str(&mut out, USAGE);
            Some(string_from(&out))
        },
        _ => None,
    }
}

/// A label and its value as `kt` prints them: the label left-aligned in twelve
/// columns, a space, the value.
pub open spec fn spec_field(label: Seq<char>, value: Seq<char>) -> Seq<char> {
    label + spaces(pad_for(label, 12)) + " "@ + value
}

pub fn field(label: &str, value: &str) -> (r: String)
    ensures
        r@ == spec_field(label@, value@),
{
    let mut out = chars_of(label);
    let used = out.len();
    let ghost with_label = out@;
    let pad: usize = if used < 12 {
        12 - used
    } else {
        0
    };
    let mut k: usize = 0;
    while k < pad
        invariant
            k <= pad,
            out@ == with_label + spaces(k as nat),
        decreases pad - k,
    {
        out.push(' ');
        k = k + 1;
        assert(out@ =~= with_label + spaces(k as nat));
    }
    append_str(&mut out, " ");
    append_str(&mut out, value);
    string_from(&out)
}

/// What `kt account` prints about a link.
pub open spec fn spec_account_lines(link: AccountLink, install_key: Option<Seq<char>>) -> Seq<Seq<char>> {
    let head = match link {
        AccountLink::Linked { handle, domain } => seq![
            spec_field("account"@, "linked"@),
            spec_field("handle"@, handle@),
            spec_field("names"@, "apps publish as <app>-"@ + handle@ + "."@ + domain@),
        ],
        AccountLink::Waiting => seq![
            spec_field("account"@, "waiting - finish the upgrade in your browser"@),
            spec_field("hint"@, "run `kt account link` again for the address"@),
        ],
        AccountLink::Unlinked => seq![
            spec_field("account"@, "not linked"@),
            spec_field("hint"@, "`kt account link` gives your apps public addresses"@),
        ],
    };
    match install_key {
        Some(k) => head.push(spec_field("install key"@, k)),
        None => head,
    }
}

pub fn account_lines(link: &AccountLink, install_key: Option<&str>) -> (lines: Vec<String>)
    ensures
        lines@.map_values(|l: String| l@) == spec_account_lines(*link, match install_key {
            Some(k) => Some(k@),
            None => None,
        }),
{
    let mut lines: Vec<String> = Vec::new();
    match link {
        AccountLink::Linked { handle, domain } => {
            lines.push(field("account", "linked"));
            lines.push(field("handle", handle.as_str()));
            let mut names = chars_of("apps publish as <app>-");
            append_str(&mut names, handle.as_str());
            append_str(&mut names, ".");
            append_str(&mut names, domain.as_str());
            let names = string_from(&names);
            lines.push(field("names", names.as_str()));
        },
        AccountLink::Waiting => {
            lines.push(field("account", "waiting - finish the upgrade in your browser"));
            lines.push(field("hint", "run `kt account link` again for the address"));
        },
        AccountLink::Unlinked => {
            lines.push(field("account", "not linked"));
            lines.push(field("hint", "`kt account link` gives your apps public addresses"));
        },
    }
    match install_key {
        Some(k) => lines.push(field("install key", k)),
        None => {},
    }
    assert(lines@.map_values(|l: String| l@) =~= spec_account_lines(*link, match install_key {
        Some(k) => Some(k@),
        None => None,
    }));
    lines
}

/// Whether the daemon is serving, as `kt status` puts it.
#[derive(Debug, Clone, PartialEq, Eq)]
pub enum Serving {
    Serving,
    Paused,
    Degraded(String),
}

pub open spec fn spec_serving_text(s: Serving) -> Seq<char> {
    match s {
        Serving::Serving => "serving"@,
        Serving::Paused => "paused"@,
        Serving::Degraded(message) => "degraded - "@ + message@,
    }
}

/// What `kt status` prints.
pub open spec fn spec_status_lines(
    serving: Serving,
    workspace: Seq<char>,
    app_count: nat,
    daemon_version: Seq<char>,
    protocol_version: nat,
) -> Seq<Seq<char>> {
    seq![
        spec_field("status"@, spec_serving_text(serving)),
        spec_field("workspace"@, workspace),
        spec_field("apps"@, digits(app_count)),
        spec_field("daemon"@, daemon_version + " (protocol "@ + digits(protocol_version) + ")"@),
    ]
}

pub fn status_lines(
    serving: &Serving,
    workspace: &str,
    app_count: u64,
    daemon_version: &str,
    protocol_version: u64,
) -> (lines: Vec<String>)
    ensures
        lines@.map_values(|l: String| l@) == spec_status_lines(
            *serving,
            workspace@,
            app_count as nat,
            daemon_version@,
            protocol_version as nat,
        ),
{
    let text = match serving {
        Serving::Serving => "serving".to_owned(),
        Serving::Paused => "paused".to_owned(),
        Serving::Degraded(message) => {
            let mut t = chars_of("degraded - ");
            append_str(&mut t, message.as_str());
            string_from(&t)
        },
    };
    let mut lines: Vec<String> = Vec::new();
    lines.push(field("status", text.as_str()));
    lines.push(field("workspace", workspace));
    let count = string_from(&format_u64(app_count));
    lines.push(field("apps", count.as_str()));
    let mut daemon = chars_of(daemon_version);
    append_str(&mut daemon, " (protocol ");
    let proto = format_u64(protocol_version);
    append(&mut daemon, &proto);
    append_str(&mut daemon, ")");
    let daemon = string_from(&daemon);
    lines.push(field("daemon", daemon.as_str()));
    assert(lines@.map_values(|l: String| l@) =~= spec_status_lines(
        *serving,
        workspace@,
        app_count as nat,
        daemon_version@,
        protocol_version as nat,
    ));
    lines
}

/// One row of `kt list`: the app, its visibility, its version and its URL.
pub fn app_row(slug: &str, visibility: &str, version: u64, url: &str) -> (row: [String; 4])
    ensures
        row[0]@ == slug@,
        row[1]@ == visibility@,
        row[2]@ == seq!['v'] + digits(version as nat),
        row[3]@ == url@,
{
    let mut v = chars_of("v");
    proof {
        reveal_strlit("v");
    }
    let d = format_u64(version);
    append(&mut v, &d);
    [slug.to_owned(), visibility.to_owned(), string_from(&v), url.to_owned()]
}

/// What `kt url` prints under the code: the address; the fallback, where it
/// differs; and, where the name the app wanted was taken, the one it got.
pub open spec fn spec_url_lines(
    url: Seq<char>,
    fallback_url: Seq<char>,
    hostname: Option<Seq<char>>,
    slug: Seq<char>,
) -> Seq<Seq<char>> {
    let first = seq!["  "@ + url];
    let with_fallback = if url != fallback_url {
        first.push("  "@ + fallback_url + "   (if .local does not resolve)"@)
    } else {
        first
    };
    match hostname {
        Some(h) => if slug.is_prefix_of(h) {
            with_fallback
        } else {
            with_fallback.push("  announced as "@ + h + " - the name you wanted was taken"@)
        },
        None => with_fallback,
    }
}

fn starts_with(text: &Vec<char>, prefix: &Vec<char>) -> (b: bool)
    ensures
        b == prefix@.is_prefix_of(text@),
{
    if prefix.len() > text.len() {
        return false;
    }
    let mut i: usize = 0;
    while i < prefix.len()
        invariant
            i <= prefix.len() <= text.len(),
            forall|k: int| 0 <= k < i ==> prefix@[k] == text@[k],
        decreases prefix.len() - i,
    {
        if prefix[i] != text[i] {
            return false;
        }
        i = i + 1;
    }
    true
}

pub fn url_lines(url: &str, fallback_url: &str, hostname: Option<&str>, slug: &str) -> (lines: Vec<String>)
    ensures
        lines@.map_values(|l: String| l@) == spec_url_lines(url@, fallback_url@, match hostname {
            Some(h) => Some(h@),
            None => None,
        }, slug@),
{
    let mut lines: Vec<String> = Vec::new();
    let mut first = chars_of("  ");
    append_str(&mut first, url);
    lines.push(string_from(&first));
    if !same_text(url, fallback_url) {
        let mut second = chars_of("  ");
        append_str(&mut second, fallback_url);
        append_str(&mut second, "   (if .local does not resolve)");
        lines.push(string_from(&second));
    }
    match hostname {
        Some(h) => {
            let hv = chars_of(h);
            let sv = chars_of(slug);
            if !starts_with(&hv, &sv) {
                let mut third = chars_of("  announced as ");
                append_str(&mut third, h);
                append_str(&mut third, " - the name you wanted was taken");
                lines.push(string_from(&third));
            }
        },
        None => {},
    }
    assert(lines@.map_values(|l: String| l@) =~= spec_url_lines(url@, fallback_url@, match hostname {
        Some(h) => Some(h@),
        None => None,
    }, slug@));
    lines
}

/// What `kt account link` prints under the code.
pub open spec fn spec_link_lines(url: Seq<char>) -> Seq<Seq<char>> {
    seq![
        "  "@ + url,
        ""@,
        "  Finish in your browser (or scan from a phone)."@,
        "  This machine will notice by itself - nothing to come back for."@,
    ]
}

pub fn link_lines(url: &str) -> (lines: Vec<String>)
    ensures
        lines@.map_values(|l: String| l@) == spec_link_lines(url@),
{
    let mut first = chars_of("  ");
    append_str(&mut first, url);
    let mut lines: Vec<String> = Vec::new();
    lines.push(string_from(&first));
    lines.push("".to_owned());
    lines.push("  Finish in your browser (or scan from a phone).".to_owned());
    lines.push("  This machine will notice by itself - nothing to come back for.".to_owned());
    assert(lines@.map_values(|l: String| l@) =~= spec_link_lines(url@));
    lines
}

} // verus!
