//! What a request on the socket comes to before anything is read or written:
//! the method, its parameters checked, the app it names looked up in the
//! library. The store, the disk and the answer's JSON are the caller's.

use vstd::prelude::*;

use crate::access::{relay_mode_named, visibility_named, RelayMode, Visibility};
use crate::device::{is_token_shape, DeviceId};
use crate::invite::InviteToken;
use crate::label::{fault_message, lemma_normal_form, normalise_public_label, spec_normalise};
use crate::library::Library;
use crate::rpc::{
    approval_name, backup_setting, device_param, log_limit, method_named, not_found, relay_mode_param, route, storage_mode_param,
    string_param, unknown_method, visibility_param, ErrorCode, KtError, Method, StorageMode,
};
use crate::text::{debug_quoted, same_text, trim};

verus! {

/// What naming an app with an address another app answers to is told: two
/// apps on one public address would leave one of them silently unreachable.
/// A label is compared in its normal form; an app keeping its own address is
/// no conflict.
pub const TAKEN: &'static str = "another app already answers to that address";

/// One parameter of a request, as far as a method looks at it.
#[derive(Debug)]
pub enum Param {
    Str(String),
    Bool(bool),
    /// A whole number; JSON's run from `i64::MIN` to `u64::MAX`, which an
    /// `i128` holds.
    Int(i128),
    Null,
    /// Anything else: an array, an object, a fraction.
    Other,
}

/// A parameter as a value.
pub enum ParamView {
    Str(Seq<char>),
    Bool(bool),
    Int(i128),
    Null,
    Other,
}

impl View for Param {
    type V = ParamView;

    open spec fn view(&self) -> ParamView {
        match self {
            Param::Str(s) => ParamView::Str(s@),
            Param::Bool(b) => ParamView::Bool(*b),
            Param::Int(i) => ParamView::Int(*i),
            Param::Null => ParamView::Null,
            Param::Other => ParamView::Other,
        }
    }
}

/// A request's parameters, as names and values.
pub open spec fn params_view(params: Seq<(String, Param)>) -> Seq<(Seq<char>, ParamView)> {
    params.map_values(|e: (String, Param)| (e.0@, e.1@))
}

/// The value of the parameter called `name`: the last one given, as a JSON
/// object keeps it.
pub open spec fn param_at(params: Seq<(Seq<char>, ParamView)>, name: Seq<char>) -> Option<ParamView>
    decreases params.len(),
{
    if params.len() == 0 {
        None
    } else if params.last().0 == name {
        Some(params.last().1)
    } else {
        param_at(params.drop_last(), name)
    }
}

/// The parameter called `name`, when it is a string.
pub open spec fn text_at(params: Seq<(Seq<char>, ParamView)>, name: Seq<char>) -> Option<Seq<char>> {
    match param_at(params, name) {
        Some(ParamView::Str(s)) => Some(s),
        _ => None,
    }
}

/// The parameter called `name`, when it is a boolean.
pub open spec fn bool_at(params: Seq<(Seq<char>, ParamView)>, name: Seq<char>) -> Option<bool> {
    match param_at(params, name) {
        Some(ParamView::Bool(b)) => Some(b),
        _ => None,
    }
}

/// The parameter called `name`, when it is an integer.
pub open spec fn int_at(params: Seq<(Seq<char>, ParamView)>, name: Seq<char>) -> Option<i128> {
    match param_at(params, name) {
        Some(ParamView::Int(i)) => Some(i),
        _ => None,
    }
}

/// The refusal for a required string parameter that is missing.
pub open spec fn missing(method: Seq<char>, name: Seq<char>) -> StepView {
    StepView::Fail(ErrorCode::BadRequest, method + " requires a string "@ + debug_quoted(name) + " parameter"@)
}

/// The refusal for a slug no app has.
pub open spec fn no_app(slug: Seq<char>) -> StepView {
    StepView::Fail(ErrorCode::NotFound, "no app with slug "@ + debug_quoted(slug))
}

/// What a request comes to, as values.
pub enum StepView {
    Fail(ErrorCode, Seq<char>),
    ListApps,
    GetApp(Seq<char>),
    Create(Seq<char>),
    Import(Seq<char>),
    SetPaused(Seq<char>, Seq<char>, bool),
    Forget(Seq<char>, Seq<char>),
    SetVisibility(Seq<char>, Seq<char>, Visibility),
    SetRelay(Seq<char>, Seq<char>, RelayMode),
    SetStorage(Seq<char>, Seq<char>, StorageMode, bool),
    SetPublicLabel(Seq<char>, Seq<char>, Option<Seq<char>>),
    CreateInvite(Seq<char>, Seq<char>, Option<i64>, Option<bool>, Option<bool>),
    ListInvites(Seq<char>),
    RevokeInvite(Seq<char>),
    ListDevices,
    Approve(Seq<char>, Option<Seq<char>>),
    Deny(Seq<char>),
    Revoke(Seq<char>),
    Rename(Seq<char>, Seq<char>),
    ForgetDevice(Seq<char>),
    QueryLog(Option<Seq<char>>, u32),
    Status,
    Subscribe,
    Presence(Seq<char>),
}

/// What a request comes to: a refusal, or the work to do, with every
/// parameter it needs checked.
#[derive(Debug)]
pub enum RequestStep {
    /// Refused before anything was touched.
    Fail(KtError),
    ListApps,
    GetApp { slug: String },
    Create { name: String },
    Import { path: String },
    /// Write `paused` into the manifest in the app's folder.
    SetPaused { slug: String, path: String, paused: bool },
    /// Stop looking at the app's folder, without touching it.
    Forget { slug: String, path: String },
    SetVisibility { slug: String, path: String, visibility: Visibility },
    SetRelay { slug: String, path: String, mode: RelayMode },
    /// `backup` is as asked, or the app's current setting when the request
    /// leaves it alone.
    SetStorage { slug: String, path: String, mode: StorageMode, backup: bool },
    /// `label` is the new label in its normal form, or `None` to go back to
    /// following the folder.
    SetPublicLabel { slug: String, path: String, label: Option<String> },
    CreateInvite {
        slug: String,
        label: String,
        expires_in_secs: Option<i64>,
        pin: Option<bool>,
        auto_approve_at_home: Option<bool>,
    },
    ListInvites { slug: String },
    RevokeInvite { token: InviteToken },
    ListDevices,
    /// Approve the device, naming it first when a usable name came with it.
    Approve { id: DeviceId, name: Option<String> },
    Deny { id: DeviceId },
    Revoke { id: DeviceId },
    Rename { id: DeviceId, name: String },
    ForgetDevice { id: DeviceId },
    QueryLog { slug: Option<String>, limit: u32 },
    Status,
    Subscribe,
    Presence { slug: String },
}

pub open spec fn opt_text(o: Option<String>) -> Option<Seq<char>> {
    match o {
        Some(s) => Some(s@),
        None => None,
    }
}

impl View for RequestStep {
    type V = StepView;

    open spec fn view(&self) -> StepView {
        match self {
            RequestStep::Fail(e) => StepView::Fail(e.code, e.message@),
            RequestStep::ListApps => StepView::ListApps,
            RequestStep::GetApp { slug } => StepView::GetApp(slug@),
            RequestStep::Create { name } => StepView::Create(name@),
            RequestStep::Import { path } => StepView::Import(path@),
            RequestStep::SetPaused { slug, path, paused } => StepView::SetPaused(slug@, path@, *paused),
            RequestStep::Forget { slug, path } => StepView::Forget(slug@, path@),
            RequestStep::SetVisibility { slug, path, visibility } => StepView::SetVisibility(
                slug@,
                path@,
                *visibility,
            ),
            RequestStep::SetRelay { slug, path, mode } => StepView::SetRelay(slug@, path@, *mode),
            RequestStep::SetStorage { slug, path, mode, backup } => StepView::SetStorage(
                slug@,
                path@,
                *mode,
                *backup,
            ),
            RequestStep::SetPublicLabel { slug, path, label } => StepView::SetPublicLabel(
                slug@,
                path@,
                opt_text(*label),
            ),
            RequestStep::CreateInvite { slug, label, expires_in_secs, pin, auto_approve_at_home } =>
                StepView::CreateInvite(slug@, label@, *expires_in_secs, *pin, *auto_approve_at_home),
            RequestStep::ListInvites { slug } => StepView::ListInvites(slug@),
            RequestStep::RevokeInvite { token } => StepView::RevokeInvite(token@),
            RequestStep::ListDevices => StepView::ListDevices,
            RequestStep::Approve { id, name } => StepView::Approve(id@, opt_text(*name)),
            RequestStep::Deny { id } => StepView::Deny(id@),
            RequestStep::Revoke { id } => StepView::Revoke(id@),
            RequestStep::Rename { id, name } => StepView::Rename(id@, name@),
            RequestStep::ForgetDevice { id } => StepView::ForgetDevice(id@),
            RequestStep::QueryLog { slug, limit } => StepView::QueryLog(opt_text(*slug), *limit),
            RequestStep::Status => StepView::Status,
            RequestStep::Subscribe => StepView::Subscribe,
            RequestStep::Presence { slug } => StepView::Presence(slug@),
        }
    }
}

/// The folder of the app `slug` in the library, if it is there.
pub open spec fn folder_of(lib: Library, slug: Seq<char>) -> Option<Seq<char>> {
    match lib.record_for(slug) {
        Some(r) => Some(r.path@),
        None => None,
    }
}

/// A request for the app named by `slug` in the library: `then` with its
/// folder when there is one, else the refusal.
pub open spec fn with_app(
    lib: Library,
    method: Seq<char>,
    params: Seq<(Seq<char>, ParamView)>,
    then: spec_fn(Seq<char>, Seq<char>) -> StepView,
) -> StepView {
    match text_at(params, "slug"@) {
        None => missing(method, "slug"@),
        Some(slug) => match folder_of(lib, slug) {
            None => no_app(slug),
            Some(path) => then(slug, path),
        },
    }
}

/// A usable approval name: trimmed, and nothing when that leaves nothing.
pub open spec fn usable_name(asked: Option<Seq<char>>) -> Option<Seq<char>> {
    match asked {
        Some(a) => if trim(a).len() == 0 {
            None
        } else {
            Some(trim(a))
        },
        None => None,
    }
}

/// The number a log query asked for, when it asked with a number that fits
/// a `u64`.
pub open spec fn asked_limit(params: Seq<(Seq<char>, ParamView)>) -> Option<u64> {
    match int_at(params, "limit"@) {
        Some(i) => if 0 <= i <= u64::MAX {
            Some(i as u64)
        } else {
            None
        },
        None => None,
    }
}

/// How long an invite was asked to last, when the request gave a number that
/// fits an `i64`.
pub open spec fn asked_seconds(params: Seq<(Seq<char>, ParamView)>) -> Option<i64> {
    match int_at(params, "expires_in_secs"@) {
        Some(i) => if i64::MIN <= i <= i64::MAX {
            Some(i as i64)
        } else {
            None
        },
        None => None,
    }
}

pub open spec fn spec_visibility(lib: Library, method: Seq<char>, params: Seq<(Seq<char>, ParamView)>) -> StepView {
    match text_at(params, "slug"@) {
        None => missing(method, "slug"@),
        Some(slug) => match text_at(params, "visibility"@) {
            None => missing(method, "visibility"@),
            Some(raw) => match visibility_named(raw) {
                None => StepView::Fail(ErrorCode::BadRequest, debug_quoted(raw) + " is not a visibility level"@),
                Some(v) => match folder_of(lib, slug) {
                    None => no_app(slug),
                    Some(path) => StepView::SetVisibility(slug, path, v),
                },
            },
        },
    }
}

pub open spec fn spec_relay(lib: Library, method: Seq<char>, params: Seq<(Seq<char>, ParamView)>) -> StepView {
    match text_at(params, "slug"@) {
        None => missing(method, "slug"@),
        Some(slug) => match text_at(params, "mode"@) {
            None => missing(method, "mode"@),
            Some(raw) => match relay_mode_named(raw) {
                None => StepView::Fail(ErrorCode::BadRequest, debug_quoted(raw) + " is not a relay mode"@),
                Some(mode) => match folder_of(lib, slug) {
                    None => no_app(slug),
                    Some(path) => StepView::SetRelay(slug, path, mode),
                },
            },
        },
    }
}

pub open spec fn spec_storage(lib: Library, method: Seq<char>, params: Seq<(Seq<char>, ParamView)>) -> StepView {
    match text_at(params, "slug"@) {
        None => missing(method, "slug"@),
        Some(slug) => match text_at(params, "mode"@) {
            None => missing(method, "mode"@),
            Some(raw) => if raw != "synced"@ && raw != "per_device"@ {
                StepView::Fail(ErrorCode::BadRequest, debug_quoted(raw) + " is not a storage mode"@)
            } else {
                match lib.record_for(slug) {
                    None => no_app(slug),
                    Some(r) => StepView::SetStorage(
                        slug,
                        r.path@,
                        if raw == "synced"@ {
                            StorageMode::Synced
                        } else {
                            StorageMode::PerDevice
                        },
                        match bool_at(params, "backup"@) {
                            Some(b) => b,
                            None => r.manifest.storage_backup,
                        },
                    ),
                }
            },
        },
    }
}

pub open spec fn spec_label(lib: Library, method: Seq<char>, params: Seq<(Seq<char>, ParamView)>) -> StepView {
    match text_at(params, "slug"@) {
        None => missing(method, "slug"@),
        Some(slug) => match folder_of(lib, slug) {
            None => no_app(slug),
            Some(path) => match param_at(params, "label"@) {
                None => StepView::SetPublicLabel(slug, path, None),
                Some(ParamView::Null) => StepView::SetPublicLabel(slug, path, None),
                Some(ParamView::Str(l)) => match lib.identity() {
                    None => StepView::Fail(
                        ErrorCode::InvalidState,
                        "this machine has no handle yet, so it has no public addresses"@,
                    ),
                    Some((handle, _)) => match spec_normalise(l, handle) {
                        Err(f) => StepView::Fail(ErrorCode::BadRequest, fault_message(f)),
                        Ok(n) => if exists|o: Seq<char>| o != slug && #[trigger] lib.label_of(o) == Some(n) {
                            StepView::Fail(ErrorCode::Conflict, TAKEN@)
                        } else {
                            StepView::SetPublicLabel(slug, path, Some(n))
                        },
                    },
                },
                Some(_) => StepView::Fail(ErrorCode::BadRequest, "label must be a string or null"@),
            },
        },
    }
}

pub open spec fn spec_invite(lib: Library, method: Seq<char>, params: Seq<(Seq<char>, ParamView)>) -> StepView {
    match text_at(params, "slug"@) {
        None => missing(method, "slug"@),
        Some(slug) => match folder_of(lib, slug) {
            None => no_app(slug),
            Some(_) => StepView::CreateInvite(
                slug,
                match text_at(params, "label"@) {
                    Some(l) => l,
                    None => "Share link"@,
                },
                asked_seconds(params),
                bool_at(params, "pin"@),
                bool_at(params, "auto_approve_at_home"@),
            ),
        },
    }
}

/// A request that needs one string parameter, `name`: `then` with it, or the
/// refusal.
pub open spec fn with_text(
    method: Seq<char>,
    params: Seq<(Seq<char>, ParamView)>,
    name: Seq<char>,
    then: spec_fn(Seq<char>) -> StepView,
) -> StepView {
    match text_at(params, name) {
        None => missing(method, name),
        Some(v) => then(v),
    }
}

pub open spec fn spec_revoke_invite(method: Seq<char>, params: Seq<(Seq<char>, ParamView)>) -> StepView {
    match text_at(params, "token"@) {
        None => missing(method, "token"@),
        Some(t) => if is_token_shape(t) {
            StepView::RevokeInvite(t)
        } else {
            StepView::Fail(ErrorCode::BadRequest, "that is not a share link token"@)
        },
    }
}

pub open spec fn spec_device(m: Method, method: Seq<char>, params: Seq<(Seq<char>, ParamView)>) -> StepView {
    match text_at(params, "id"@) {
        None => missing(method, "id"@),
        Some(id) => if !is_token_shape(id) {
            StepView::Fail(ErrorCode::BadRequest, "that is not a device id"@)
        } else {
            match m {
                Method::DeviceApprove => StepView::Approve(id, usable_name(text_at(params, "name"@))),
                Method::DeviceDeny => StepView::Deny(id),
                Method::DeviceRevoke => StepView::Revoke(id),
                Method::DeviceRename => match text_at(params, "name"@) {
                    None => missing(method, "name"@),
                    Some(n) => StepView::Rename(id, n),
                },
                _ => StepView::ForgetDevice(id),
            }
        },
    }
}

pub open spec fn spec_log(params: Seq<(Seq<char>, ParamView)>) -> StepView {
    StepView::QueryLog(
        text_at(params, "slug"@),
        match asked_limit(params) {
            Some(a) => if a < 1000 {
                a as u32
            } else {
                1000
            },
            None => 100,
        },
    )
}

/// The requests that name an app by its slug and need nothing else.
pub open spec fn spec_app(lib: Library, m: Method, method: Seq<char>, params: Seq<(Seq<char>, ParamView)>) -> StepView {
    match m {
        Method::AppGet => with_app(lib, method, params, |slug: Seq<char>, path: Seq<char>| StepView::GetApp(slug)),
        Method::AppPause => with_app(
            lib,
            method,
            params,
            |slug: Seq<char>, path: Seq<char>| StepView::SetPaused(slug, path, true),
        ),
        Method::AppResume => with_app(
            lib,
            method,
            params,
            |slug: Seq<char>, path: Seq<char>| StepView::SetPaused(slug, path, false),
        ),
        _ => with_app(lib, method, params, |slug: Seq<char>, path: Seq<char>| StepView::Forget(slug, path)),
    }
}

/// The requests that need one string parameter and nothing from the library.
pub open spec fn spec_text(m: Method, method: Seq<char>, params: Seq<(Seq<char>, ParamView)>) -> StepView {
    match m {
        Method::AppCreate => with_text(method, params, "name"@, |n: Seq<char>| StepView::Create(n)),
        Method::AppImport => with_text(method, params, "path"@, |p: Seq<char>| StepView::Import(p)),
        Method::ListInvites => with_text(method, params, "slug"@, |s: Seq<char>| StepView::ListInvites(s)),
        _ => with_text(method, params, "slug"@, |s: Seq<char>| StepView::Presence(s)),
    }
}

/// What a request for `method` with these parameters comes to against this
/// library.
pub open spec fn spec_plan(lib: Library, method: Seq<char>, params: Seq<(Seq<char>, ParamView)>) -> StepView {
    match method_named(method) {
        None => StepView::Fail(ErrorCode::BadRequest, "unknown method "@ + debug_quoted(method)),
        Some(m) => match m {
            Method::AppList => StepView::ListApps,
            Method::AppGet | Method::AppPause | Method::AppResume | Method::AppForget => spec_app(lib, m, method, params),
            Method::AppCreate | Method::AppImport | Method::ListInvites | Method::PresenceList => spec_text(
                m,
                method,
                params,
            ),
            Method::SetVisibility => spec_visibility(lib, method, params),
            Method::SetRelay => spec_relay(lib, method, params),
            Method::SetStorageMode => spec_storage(lib, method, params),
            Method::SetPublicLabel => spec_label(lib, method, params),
            Method::CreateInvite => spec_invite(lib, method, params),
            Method::RevokeInvite => spec_revoke_invite(method, params),
            Method::DeviceList => StepView::ListDevices,
            Method::DeviceApprove | Method::DeviceDeny | Method::DeviceRevoke | Method::DeviceRename
            | Method::DeviceForget => spec_device(m, method, params),
            Method::LogQuery => spec_log(params),
            Method::SysStatus => StepView::Status,
            Method::EventSubscribe => StepView::Subscribe,
        },
    }
}

/// Pausing pauses and resuming resumes: for an app in the library, a pause
/// request plans marking that app paused in its own folder, and a resume
/// request with the same parameters plans the opposite.
pub proof fn lemma_pause_and_resume(lib: Library, params: Seq<(Seq<char>, ParamView)>, slug: Seq<char>)
    requires
        text_at(params, "slug"@) == Some(slug),
        lib.record_for(slug) is Some,
    ensures
        spec_plan(lib, "app.pause"@, params) == StepView::SetPaused(slug, lib.record_for(slug)->Some_0.path@, true),
        spec_plan(lib, "app.resume"@, params) == StepView::SetPaused(slug, lib.record_for(slug)->Some_0.path@, false),
{
    reveal_strlit("app.list");
    reveal_strlit("app.get");
    reveal_strlit("app.create");
    reveal_strlit("app.import");
    reveal_strlit("app.pause");
    reveal_strlit("app.resume");
    assert("app.pause"@ != "app.list"@);
    assert("app.pause"@ != "app.get"@);
    assert("app.pause"@ != "app.create"@);
    assert("app.pause"@ != "app.import"@);
    assert("app.resume"@ != "app.list"@);
    assert("app.resume"@ != "app.get"@);
    assert("app.resume"@[4] != "app.create"@[4]);
    assert("app.resume"@[4] != "app.import"@[4]);
    assert("app.resume"@ != "app.pause"@);
}

fn find_param(params: &[(String, Param)], name: &str) -> (r: Option<usize>)
    ensures
        (match r {
            Some(i) => i < params.len() && param_at(params_view(params@), name@) == Some(params@[i as int].1@),
            None => param_at(params_view(params@), name@) is None,
        }),
{
    let mut i = params.len();
    assert(params_view(params@).take(i as int) =~= params_view(params@));
    while i > 0
        invariant
            i <= params.len(),
            param_at(params_view(params@), name@) == param_at(params_view(params@).take(i as int), name@),
        decreases i,
    {
        let ghost t = params_view(params@).take(i as int);
        assert(t.drop_last() =~= params_view(params@).take(i as int - 1));
        if same_text(params[i - 1].0.as_str(), name) {
            return Some(i - 1);
        }
        i = i - 1;
    }
    assert(params_view(params@).take(0) =~= Seq::<(Seq<char>, ParamView)>::empty());
    None
}

/// The parameter called `name`, when it is a string.
fn text_param<'a>(params: &'a [(String, Param)], name: &str) -> (r: Option<&'a str>)
    ensures
        (match r {
            Some(s) => text_at(params_view(params@), name@) == Some(s@),
            None => text_at(params_view(params@), name@) is None,
        }),
{
    match find_param(params, name) {
        Some(i) => match &params[i].1 {
            Param::Str(s) => Some(s.as_str()),
            _ => None,
        },
        None => None,
    }
}

fn bool_param(params: &[(String, Param)], name: &str) -> (r: Option<bool>)
    ensures
        r == bool_at(params_view(params@), name@),
{
    match find_param(params, name) {
        Some(i) => match &params[i].1 {
            Param::Bool(b) => Some(*b),
            _ => None,
        },
        None => None,
    }
}

fn int_param(params: &[(String, Param)], name: &str) -> (r: Option<i128>)
    ensures
        r == int_at(params_view(params@), name@),
{
    match find_param(params, name) {
        Some(i) => match &params[i].1 {
            Param::Int(n) => Some(*n),
            _ => None,
        },
        None => None,
    }
}

/// The app a request names by its `slug` parameter, with its folder, or the
/// refusal.
fn app_param(library: &Library, method: &str, params: &[(String, Param)]) -> (r: Result<(String, String), KtError>)
    requires
        library.wf(),
    ensures
        (match r {
            Ok((slug, path)) => text_at(params_view(params@), "slug"@) == Some(slug@) && folder_of(*library, slug@)
                == Some(path@),
            Err(e) => StepView::Fail(e.code, e.message@) == (match text_at(params_view(params@), "slug"@) {
                None => missing(method@, "slug"@),
                Some(slug) => no_app(slug),
            }) && (text_at(params_view(params@), "slug"@) matches Some(slug) ==> folder_of(*library, slug) is None),
        }),
{
    let slug = match string_param(method, "slug", text_param(params, "slug")) {
        Ok(s) => s,
        Err(e) => return Err(e),
    };
    match library.record(slug.as_str()) {
        Some(r) => Ok((slug, r.path)),
        None => Err(not_found(slug.as_str())),
    }
}

/// The device a request names by its `id` parameter, or the refusal.
fn device_of(method: &str, params: &[(String, Param)]) -> (r: Result<DeviceId, KtError>)
    ensures
        (match text_at(params_view(params@), "id"@) {
            Some(v) => if is_token_shape(v) {
                r matches Ok(id) && id@ == v
            } else {
                r matches Err(e) && StepView::Fail(e.code, e.message@) == StepView::Fail(
                    ErrorCode::BadRequest,
                    "that is not a device id"@,
                )
            },
            None => r matches Err(e) && StepView::Fail(e.code, e.message@) == missing(method@, "id"@),
        }),
{
    device_param(method, text_param(params, "id"))
}

fn plan_app(m: Method, method: &str, ps: &[(String, Param)], library: &Library) -> (s: RequestStep)
    requires
        library.wf(),
    ensures
        s@ == spec_app(*library, m, method@, params_view(ps@)),
{
    match app_param(library, method, ps) {
        Ok((slug, path)) => match m {
            Method::AppGet => RequestStep::GetApp { slug },
            Method::AppPause => RequestStep::SetPaused { slug, path, paused: true },
            Method::AppResume => RequestStep::SetPaused { slug, path, paused: false },
            _ => RequestStep::Forget { slug, path },
        },
        Err(e) => RequestStep::Fail(e),
    }
}

fn plan_text(m: Method, method: &str, ps: &[(String, Param)]) -> (s: RequestStep)
    ensures
        s@ == spec_text(m, method@, params_view(ps@)),
{
    let name = match m {
        Method::AppCreate => "name",
        Method::AppImport => "path",
        _ => "slug",
    };
    proof {
        reveal_strlit("name");
        reveal_strlit("path");
        reveal_strlit("slug");
    }
    match string_param(method, name, text_param(ps, name)) {
        Ok(v) => match m {
            Method::AppCreate => RequestStep::Create { name: v },
            Method::AppImport => RequestStep::Import { path: v },
            Method::ListInvites => RequestStep::ListInvites { slug: v },
            _ => RequestStep::Presence { slug: v },
        },
        Err(e) => RequestStep::Fail(e),
    }
}

fn plan_visibility(method: &str, ps: &[(String, Param)], library: &Library) -> (s: RequestStep)
    requires
        library.wf(),
    ensures
        s@ == spec_visibility(*library, method@, params_view(ps@)),
{
    let slug = match string_param(method, "slug", text_param(ps, "slug")) {
        Ok(s) => s,
        Err(e) => return RequestStep::Fail(e),
    };
    let raw = match string_param(method, "visibility", text_param(ps, "visibility")) {
        Ok(s) => s,
        Err(e) => return RequestStep::Fail(e),
    };
    let visibility = match visibility_param(raw.as_str()) {
        Ok(v) => v,
        Err(e) => return RequestStep::Fail(e),
    };
    match library.record(slug.as_str()) {
        Some(r) => RequestStep::SetVisibility { slug, path: r.path, visibility },
        None => RequestStep::Fail(not_found(slug.as_str())),
    }
}

fn plan_relay(method: &str, ps: &[(String, Param)], library: &Library) -> (s: RequestStep)
    requires
        library.wf(),
    ensures
        s@ == spec_relay(*library, method@, params_view(ps@)),
{
    let slug = match string_param(method, "slug", text_param(ps, "slug")) {
        Ok(s) => s,
        Err(e) => return RequestStep::Fail(e),
    };
    let raw = match string_param(method, "mode", text_param(ps, "mode")) {
        Ok(s) => s,
        Err(e) => return RequestStep::Fail(e),
    };
    let mode = match relay_mode_param(raw.as_str()) {
        Ok(v) => v,
        Err(e) => return RequestStep::Fail(e),
    };
    match library.record(slug.as_str()) {
        Some(r) => RequestStep::SetRelay { slug, path: r.path, mode },
        None => RequestStep::Fail(not_found(slug.as_str())),
    }
}

fn plan_storage(method: &str, ps: &[(String, Param)], library: &Library) -> (s: RequestStep)
    requires
        library.wf(),
    ensures
        s@ == spec_storage(*library, method@, params_view(ps@)),
{
    let slug = match string_param(method, "slug", text_param(ps, "slug")) {
        Ok(s) => s,
        Err(e) => return RequestStep::Fail(e),
    };
    let raw = match string_param(method, "mode", text_param(ps, "mode")) {
        Ok(s) => s,
        Err(e) => return RequestStep::Fail(e),
    };
    let mode = match storage_mode_param(raw.as_str()) {
        Ok(v) => v,
        Err(e) => return RequestStep::Fail(e),
    };
    match library.record(slug.as_str()) {
        Some(r) => {
            let backup = backup_setting(bool_param(ps, "backup"), r.manifest.storage_backup);
            RequestStep::SetStorage { slug, path: r.path, mode, backup }
        },
        None => RequestStep::Fail(not_found(slug.as_str())),
    }
}

fn plan_label(method: &str, ps: &[(String, Param)], library: &Library) -> (s: RequestStep)
    requires
        library.wf(),
    ensures
        s@ == spec_label(*library, method@, params_view(ps@)),
{
    let (slug, path) = match app_param(library, method, ps) {
        Ok(found) => found,
        Err(e) => return RequestStep::Fail(e),
    };
    match find_param(ps, "label") {
        None => RequestStep::SetPublicLabel { slug, path, label: None },
        Some(i) => match &ps[i].1 {
            Param::Null => RequestStep::SetPublicLabel { slug, path, label: None },
            Param::Str(l) => match library.relay_identity() {
                None => RequestStep::Fail(
                    KtError {
                        code: ErrorCode::InvalidState,
                        message: "this machine has no handle yet, so it has no public addresses".to_owned(),
                    },
                ),
                Some((handle, _)) => match normalise_public_label(l.as_str(), handle.as_str()) {
                    Err(f) => RequestStep::Fail(KtError { code: ErrorCode::BadRequest, message: f.message().to_owned() }),
                    Ok(n) => {
                        proof {
                            lemma_normal_form(l@, handle@);
                        }
                        match library.other_holder(slug.as_str(), n.as_str()) {
                            Some(_) => RequestStep::Fail(KtError { code: ErrorCode::Conflict, message: TAKEN.to_owned() }),
                            None => RequestStep::SetPublicLabel { slug, path, label: Some(n) },
                        }
                    },
                },
            },
            _ => RequestStep::Fail(
                KtError { code: ErrorCode::BadRequest, message: "label must be a string or null".to_owned() },
            ),
        },
    }
}

fn plan_invite(method: &str, ps: &[(String, Param)], library: &Library) -> (s: RequestStep)
    requires
        library.wf(),
    ensures
        s@ == spec_invite(*library, method@, params_view(ps@)),
{
    let (slug, _) = match app_param(library, method, ps) {
        Ok(found) => found,
        Err(e) => return RequestStep::Fail(e),
    };
    let label = match text_param(ps, "label") {
        Some(l) => l.to_owned(),
        None => "Share link".to_owned(),
    };
    RequestStep::CreateInvite {
        slug,
        label,
        expires_in_secs: match int_param(ps, "expires_in_secs") {
            Some(n) => if i64::MIN as i128 <= n && n <= i64::MAX as i128 {
                Some(n as i64)
            } else {
                None
            },
            None => None,
        },
        pin: bool_param(ps, "pin"),
        auto_approve_at_home: bool_param(ps, "auto_approve_at_home"),
    }
}

fn plan_revoke_invite(method: &str, ps: &[(String, Param)]) -> (s: RequestStep)
    ensures
        s@ == spec_revoke_invite(method@, params_view(ps@)),
{
    let raw = match string_param(method, "token", text_param(ps, "token")) {
        Ok(s) => s,
        Err(e) => return RequestStep::Fail(e),
    };
    match InviteToken::parse(raw.as_str()) {
        Some(token) => RequestStep::RevokeInvite { token },
        None => RequestStep::Fail(
            KtError { code: ErrorCode::BadRequest, message: "that is not a share link token".to_owned() },
        ),
    }
}

fn plan_device(m: Method, method: &str, ps: &[(String, Param)]) -> (s: RequestStep)
    ensures
        s@ == spec_device(m, method@, params_view(ps@)),
{
    let id = match device_of(method, ps) {
        Ok(id) => id,
        Err(e) => return RequestStep::Fail(e),
    };
    match m {
        Method::DeviceApprove => RequestStep::Approve { id, name: approval_name(text_param(ps, "name")) },
        Method::DeviceDeny => RequestStep::Deny { id },
        Method::DeviceRevoke => RequestStep::Revoke { id },
        Method::DeviceRename => match string_param(method, "name", text_param(ps, "name")) {
            Ok(name) => RequestStep::Rename { id, name },
            Err(e) => RequestStep::Fail(e),
        },
        _ => RequestStep::ForgetDevice { id },
    }
}

fn plan_log(ps: &[(String, Param)]) -> (s: RequestStep)
    ensures
        s@ == spec_log(params_view(ps@)),
{
    let asked = match int_param(ps, "limit") {
        Some(n) => if 0 <= n && n <= u64::MAX as i128 {
            Some(n as u64)
        } else {
            None
        },
        None => None,
    };
    let slug = match text_param(ps, "slug") {
        Some(s) => Some(s.to_owned()),
        None => None,
    };
    RequestStep::QueryLog { slug, limit: log_limit(asked) }
}

/// What a request comes to against this library: refused with the reason
/// the socket gives, or the work to do with its parameters checked.
pub fn plan_request(method: &str, params: &[(String, Param)], library: &Library) -> (s: RequestStep)
    requires
        library.wf(),
    ensures
        s@ == spec_plan(*library, method@, params_view(params@)),
{
    let m = match route(method) {
        None => return RequestStep::Fail(unknown_method(method)),
        Some(m) => m,
    };
    match m {
        Method::AppList => RequestStep::ListApps,
        Method::AppGet | Method::AppPause | Method::AppResume | Method::AppForget => plan_app(m, method, params, library),
        Method::AppCreate | Method::AppImport | Method::ListInvites | Method::PresenceList => plan_text(m, method, params),
        Method::SetVisibility => plan_visibility(method, params, library),
        Method::SetRelay => plan_relay(method, params, library),
        Method::SetStorageMode => plan_storage(method, params, library),
        Method::SetPublicLabel => plan_label(method, params, library),
        Method::CreateInvite => plan_invite(method, params, library),
        Method::RevokeInvite => plan_revoke_invite(method, params),
        Method::DeviceList => RequestStep::ListDevices,
        Method::DeviceApprove | Method::DeviceDeny | Method::DeviceRevoke | Method::DeviceRename
        | Method::DeviceForget => plan_device(m, method, params),
        Method::LogQuery => plan_log(params),
        Method::SysStatus => RequestStep::Status,
        Method::EventSubscribe => RequestStep::Subscribe,
    }
}

} // verus!
