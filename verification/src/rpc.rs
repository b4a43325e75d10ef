//! The socket API: which method a request names, what its parameters come
//! to, and how a failure is reported. The store behind each method is the
//! caller's.

use vstd::prelude::*;

pub use crate::registry::StorageMode;

use crate::authoring::AuthorError;
use crate::access::{parse_relay_mode, parse_visibility, relay_mode_named, visibility_named, RelayMode, Visibility};
use crate::device::{is_token_shape, DeviceId};
use crate::invite::InvitePolicy;
use crate::text::{append_str, chars_of, debug_quoted, quoted, same_text, string_from, trim, trimmed};

verus! {

/// The methods the socket answers.
#[derive(Debug, Clone, Copy, PartialEq, Eq, Structural)]
pub enum Method {
    AppList,
    AppGet,
    AppCreate,
    AppImport,
    AppPause,
    AppResume,
    AppForget,
    SetVisibility,
    SetRelay,
    SetStorageMode,
    SetPublicLabel,
    CreateInvite,
    ListInvites,
    RevokeInvite,
    DeviceList,
    DeviceApprove,
    DeviceDeny,
    DeviceRevoke,
    DeviceRename,
    DeviceForget,
    LogQuery,
    SysStatus,
    EventSubscribe,
    PresenceList,
}

/// The method a name on the wire stands for.
pub open spec fn method_named(name: Seq<char>) -> Option<Method> {
    if name == "app.list"@ { Some(Method::AppList) }
    else if name == "app.get"@ { Some(Method::AppGet) }
    else if name == "app.create"@ { Some(Method::AppCreate) }
    else if name == "app.import"@ { Some(Method::AppImport) }
    else if name == "app.pause"@ { Some(Method::AppPause) }
    else if name == "app.resume"@ { Some(Method::AppResume) }
    else if name == "app.forget"@ { Some(Method::AppForget) }
    else if name == "share.set_visibility"@ { Some(Method::SetVisibility) }
    else if name == "share.set_relay"@ { Some(Method::SetRelay) }
    else if name == "storage.set_mode"@ { Some(Method::SetStorageMode) }
    else if name == "share.set_public_label"@ { Some(Method::SetPublicLabel) }
    else if name == "share.create_invite"@ { Some(Method::CreateInvite) }
    else if name == "share.list_invites"@ { Some(Method::ListInvites) }
    else if name == "share.revoke_invite"@ { Some(Method::RevokeInvite) }
    else if name == "device.list"@ { Some(Method::DeviceList) }
    else if name == "device.approve"@ { Some(Method::DeviceApprove) }
    else if name == "device.deny"@ { Some(Method::DeviceDeny) }
    else if name == "device.revoke"@ { Some(Method::DeviceRevoke) }
    else if name == "device.rename"@ { Some(Method::DeviceRename) }
    else if name == "device.forget"@ { Some(Method::DeviceForget) }
    else if name == "log.query"@ { Some(Method::LogQuery) }
    else if name == "sys.status"@ { Some(Method::SysStatus) }
    else if name == "event.subscribe"@ { Some(Method::EventSubscribe) }
    else if name == "presence.list"@ { Some(Method::PresenceList) }
    else { None }
}

/// The method a request names, if the socket answers it.
pub fn route(name: &str) -> (m: Option<Method>)
    ensures
        m == method_named(name@),
{
    if same_text(name, "app.list") { Some(Method::AppList) }
    else if same_text(name, "app.get") { Some(Method::AppGet) }
    else if same_text(name, "app.create") { Some(Method::AppCreate) }
    else if same_text(name, "app.import") { Some(Method::AppImport) }
    else if same_text(name, "app.pause") { Some(Method::AppPause) }
    else if same_text(name, "app.resume") { Some(Method::AppResume) }
    else if same_text(name, "app.forget") { Some(Method::AppForget) }
    else if same_text(name, "share.set_visibility") { Some(Method::SetVisibility) }
    else if same_text(name, "share.set_relay") { Some(Method::SetRelay) }
    else if same_text(name, "storage.set_mode") { Some(Method::SetStorageMode) }
    else if same_text(name, "share.set_public_label") { Some(Method::SetPublicLabel) }
    else if same_text(name, "share.create_invite") { Some(Method::CreateInvite) }
    else if same_text(name, "share.list_invites") { Some(Method::ListInvites) }
    else if same_text(name, "share.revoke_invite") { Some(Method::RevokeInvite) }
    else if same_text(name, "device.list") { Some(Method::DeviceList) }
    else if same_text(name, "device.approve") { Some(Method::DeviceApprove) }
    else if same_text(name, "device.deny") { Some(Method::DeviceDeny) }
    else if same_text(name, "device.revoke") { Some(Method::DeviceRevoke) }
    else if same_text(name, "device.rename") { Some(Method::DeviceRename) }
    else if same_text(name, "device.forget") { Some(Method::DeviceForget) }
    else if same_text(name, "log.query") { Some(Method::LogQuery) }
    else if same_text(name, "sys.status") { Some(Method::SysStatus) }
    else if same_text(name, "event.subscribe") { Some(Method::EventSubscribe) }
    else if same_text(name, "presence.list") { Some(Method::PresenceList) }
    else { None }
}

/// What kind of failure an answer reports.
#[derive(Debug, Clone, Copy, PartialEq, Eq, Structural)]
pub enum ErrorCode {
    BadRequest,
    NotFound,
    Conflict,
    InvalidState,
    Io,
    Internal,
}

/// A failure the caller can act on.
#[derive(Debug)]
pub struct KtError {
    pub code: ErrorCode,
    pub message: String,
}

fn error(code: ErrorCode, parts: &[&str]) -> (e: KtError)
    ensures
        e.code == code,
        e.message@ == crate::rpc::joined_parts(parts@),
{
    let mut out: Vec<char> = Vec::new();
    let mut i: usize = 0;
    while i < parts.len()
        invariant
            i <= parts.len(),
            out@ == joined_parts(parts@.take(i as int)),
        decreases parts.len() - i,
    {
        append_str(&mut out, parts[i]);
        i = i + 1;
        assert(parts@.take(i as int).drop_last() =~= parts@.take(i as int - 1));
    }
    assert(parts@.take(i as int) =~= parts@);
    KtError { code, message: string_from(&out) }
}

/// Pieces of text, one after another.
pub open spec fn joined_parts(parts: Seq<&str>) -> Seq<char>
    decreases parts.len(),
{
    if parts.len() == 0 {
        Seq::empty()
    } else {
        joined_parts(parts.drop_last()) + parts.last()@
    }
}

/// The answer to a method the socket does not know.
pub fn unknown_method(name: &str) -> (e: KtError)
    ensures
        e.code == ErrorCode::BadRequest,
        e.message@ == "unknown method "@ + debug_quoted(name@),
{
    let q = quoted(name);
    let e = error(ErrorCode::BadRequest, &["unknown method ", q.as_str()]);
    proof {
        reveal_with_fuel(joined_parts, 3);
    }
    e
}

/// The answer for a slug no app has.
pub fn not_found(slug: &str) -> (e: KtError)
    ensures
        e.code == ErrorCode::NotFound,
        e.message@ == "no app with slug "@ + debug_quoted(slug@),
{
    let q = quoted(slug);
    let e = error(ErrorCode::NotFound, &["no app with slug ", q.as_str()]);
    proof {
        reveal_with_fuel(joined_parts, 3);
    }
    e
}

/// A required string parameter of `method`: the value the request carried
/// under `name`, or the refusal naming both when there was no string there.
pub fn string_param(method: &str, name: &str, value: Option<&str>) -> (r: Result<String, KtError>)
    ensures
        (match value {
            Some(v) => r matches Ok(got) && got@ == v@,
            None => r matches Err(e) && e.code == ErrorCode::BadRequest && e.message@ == method@
                + " requires a string "@ + debug_quoted(name@) + " parameter"@,
        }),
{
    match value {
        Some(v) => Ok(v.to_owned()),
        None => {
            let q = quoted(name);
            let e = error(ErrorCode::BadRequest, &[method, " requires a string ", q.as_str(), " parameter"]);
            proof {
                reveal_with_fuel(joined_parts, 5);
            }
            Err(e)
        },
    }
}

/// The device a request names: its `id` parameter, which must be a string of
/// the shape device ids are minted in.
pub fn device_param(method: &str, value: Option<&str>) -> (r: Result<DeviceId, KtError>)
    ensures
        (match value {
            Some(v) => if is_token_shape(v@) {
                r matches Ok(id) && id@ == v@
            } else {
                r matches Err(e) && e.code == ErrorCode::BadRequest && e.message@ == "that is not a device id"@
            },
            None => r matches Err(e) && e.code == ErrorCode::BadRequest && e.message@ == method@
                + " requires a string "@ + debug_quoted("id"@) + " parameter"@,
        }),
{
    let raw = match string_param(method, "id", value) {
        Ok(raw) => raw,
        Err(e) => return Err(e),
    };
    match DeviceId::parse(raw.as_str()) {
        Some(id) => Ok(id),
        None => Err(KtError { code: ErrorCode::BadRequest, message: "that is not a device id".to_owned() }),
    }
}

/// The answer when a device decision names no device the store knows.
pub fn no_such_device() -> (e: KtError)
    ensures
        e.code == ErrorCode::NotFound,
        e.message@ == "no such device"@,
{
    KtError { code: ErrorCode::NotFound, message: "no such device".to_owned() }
}

/// What the activity log calls a device decision: approving pairs a device;
/// denying and revoking reach the same status but are not the same event.
pub fn device_action(method: Method) -> (a: &'static str)
    ensures
        a@ == match method {
            Method::DeviceApprove => "paired"@,
            Method::DeviceDeny => "denied"@,
            _ => "revoked"@,
        },
{
    match method {
        Method::DeviceApprove => "paired",
        Method::DeviceDeny => "denied",
        _ => "revoked",
    }
}

/// A visibility as the API spells it, or why it is not one.
pub fn visibility_param(raw: &str) -> (r: Result<Visibility, KtError>)
    ensures
        (match visibility_named(raw@) {
            Some(v) => r matches Ok(got) && got == v,
            None => r matches Err(e) && e.code == ErrorCode::BadRequest && e.message@ == debug_quoted(raw@)
                + " is not a visibility level"@,
        }),
{
    match parse_visibility(raw) {
        Some(v) => Ok(v),
        None => {
            let q = quoted(raw);
            let e = error(ErrorCode::BadRequest, &[q.as_str(), " is not a visibility level"]);
            proof {
                reveal_with_fuel(joined_parts, 3);
            }
            Err(e)
        },
    }
}

/// A relay mode as the API spells it, or why it is not one.
pub fn relay_mode_param(raw: &str) -> (r: Result<RelayMode, KtError>)
    ensures
        (match relay_mode_named(raw@) {
            Some(m) => r matches Ok(got) && got == m,
            None => r matches Err(e) && e.code == ErrorCode::BadRequest && e.message@ == debug_quoted(raw@)
                + " is not a relay mode"@,
        }),
{
    match parse_relay_mode(raw) {
        Some(m) => Ok(m),
        None => {
            let q = quoted(raw);
            let e = error(ErrorCode::BadRequest, &[q.as_str(), " is not a relay mode"]);
            proof {
                reveal_with_fuel(joined_parts, 3);
            }
            Err(e)
        },
    }
}

/// A storage mode as the API spells it, or why it is not one.
pub fn storage_mode_param(raw: &str) -> (r: Result<StorageMode, KtError>)
    ensures
        raw@ == "synced"@ ==> (r matches Ok(m) && m == StorageMode::Synced),
        raw@ == "per_device"@ ==> (r matches Ok(m) && m == StorageMode::PerDevice),
        raw@ != "synced"@ && raw@ != "per_device"@ ==> (r matches Err(e) && e.code
            == ErrorCode::BadRequest && e.message@ == debug_quoted(raw@) + " is not a storage mode"@),
{
    proof {
        reveal_strlit("synced");
        reveal_strlit("per_device");
        assert("synced"@.len() == 6);
        assert("per_device"@.len() == 10);
    }
    if same_text(raw, "synced") {
        Ok(StorageMode::Synced)
    } else if same_text(raw, "per_device") {
        Ok(StorageMode::PerDevice)
    } else {
        let q = quoted(raw);
        let e = error(ErrorCode::BadRequest, &[q.as_str(), " is not a storage mode"]);
        proof {
            reveal_with_fuel(joined_parts, 3);
        }
        Err(e)
    }
}

/// How many log lines a query returns: 100 unless asked, never more than a
/// thousand.
pub fn log_limit(asked: Option<u64>) -> (n: u32)
    ensures
        n == (match asked {
            Some(a) => if a < 1000 { a } else { 1000 },
            None => 100,
        }),
{
    match asked {
        Some(a) => if a < 1000 {
            a as u32
        } else {
            1000
        },
        None => 100,
    }
}

/// The policy a new share link gets from its parameters: it expires when
/// asked, pins to the first device unless told not to, and does not skip
/// approval at home unless told to.
pub fn invite_policy(
    expires_in_secs: Option<i64>,
    pin: Option<bool>,
    auto_approve_at_home: Option<bool>,
    now: i64,
) -> (p: InvitePolicy)
    requires
        expires_in_secs matches Some(s) ==> i64::MIN <= now + s <= i64::MAX,
    ensures
        p.expires_at == (match expires_in_secs {
            Some(s) => Some((now + s) as i64),
            None => None,
        }),
        p.pin_to_first_device == (match pin {
            Some(b) => b,
            None => true,
        }),
        p.auto_approve_on_household == (match auto_approve_at_home {
            Some(b) => b,
            None => false,
        }),
{
    InvitePolicy {
        expires_at: match expires_in_secs {
            Some(s) => Some(now + s),
            None => None,
        },
        pin_to_first_device: match pin {
            Some(b) => b,
            None => true,
        },
        auto_approve_on_household: match auto_approve_at_home {
            Some(b) => b,
            None => false,
        },
    }
}

/// The label a share link gets when none is given.
pub fn invite_label(asked: Option<String>) -> (l: String)
    ensures
        l@ == (match asked {
            Some(a) => a@,
            None => "Share link"@,
        }),
{
    match asked {
        Some(a) => a,
        None => "Share link".to_owned(),
    }
}

/// The name an approval carries, if it carries a usable one: trimmed, and
/// nothing when that leaves nothing.
pub fn approval_name(asked: Option<&str>) -> (n: Option<String>)
    ensures
        (match asked {
            Some(a) => if trim(a@).len() == 0 {
                n is None
            } else {
                n matches Some(s) && s@ == trim(a@)
            },
            None => n is None,
        }),
{
    match asked {
        None => None,
        Some(a) => {
            let t = trimmed(&chars_of(a));
            if t.len() == 0 {
                None
            } else {
                Some(string_from(&t))
            }
        },
    }
}

/// Whether a storage change keeps backups: as asked, or as before.
pub fn backup_setting(asked: Option<bool>, current: bool) -> (b: bool)
    ensures
        b == (match asked {
            Some(a) => a,
            None => current,
        }),
{
    match asked {
        Some(a) => a,
        None => current,
    }
}

/// The failure code an authoring error is reported with: a disk failure is
/// this machine's fault, anything else the request's.
pub fn author_error_code(e: &AuthorError) -> (c: ErrorCode)
    ensures
        (e is Io) ==> c == ErrorCode::Internal,
        !(e is Io) ==> c == ErrorCode::BadRequest,
{
    match e {
        AuthorError::Io { .. } => ErrorCode::Internal,
        _ => ErrorCode::BadRequest,
    }
}

/// How an authoring failure is answered: its code, and its own words.
pub fn author_error(e: &AuthorError) -> (k: KtError)
    ensures
        (e is Io) ==> k.code == ErrorCode::Internal,
        !(e is Io) ==> k.code == ErrorCode::BadRequest,
        k.message@ == e.spec_message(),
{
    KtError { code: author_error_code(e), message: e.message() }
}

/// Where a share link points: the app's public address when it is published
/// and this install has one, else its announced `.local` name on this
/// machine's port, else this machine's own address.
pub open spec fn spec_invite_origin(
    published: bool,
    public_host: Option<Seq<char>>,
    hostname: Option<Seq<char>>,
    scheme: Seq<char>,
    port_suffix: Seq<char>,
    fallback_origin: Seq<char>,
) -> Seq<char> {
    match public_host {
        Some(h) if published => "https://"@ + h,
        _ => match hostname {
            Some(h) => scheme + "://"@ + h + port_suffix,
            None => fallback_origin,
        },
    }
}

/// The address a share link is sent as: its origin, then `/i/<token>`.
pub fn invite_url(
    published: bool,
    public_host: Option<&str>,
    hostname: Option<&str>,
    scheme: &str,
    port_suffix: &str,
    fallback_origin: &str,
    token: &str,
) -> (u: String)
    ensures
        u@ == spec_invite_origin(
            published,
            crate::account::opt_view(public_host),
            crate::account::opt_view(hostname),
            scheme@,
            port_suffix@,
            fallback_origin@,
        ) + "/i/"@ + token@,
{
    let mut out: Vec<char> = Vec::new();
    match public_host {
        Some(h) if published => {
            append_str(&mut out, "https://");
            append_str(&mut out, h);
        },
        _ => match hostname {
            Some(h) => {
                append_str(&mut out, scheme);
                append_str(&mut out, "://");
                append_str(&mut out, h);
                append_str(&mut out, port_suffix);
            },
            None => append_str(&mut out, fallback_origin),
        },
    }
    append_str(&mut out, "/i/");
    append_str(&mut out, token);
    string_from(&out)
}

} // verus!
