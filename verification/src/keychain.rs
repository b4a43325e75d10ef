//! The macOS login Keychain as a keystore: what its status codes mean and
//! what each answer amounts to.
//!
//! The calls into Security.framework are the platform's; what is decided here
//! is how an `OSStatus` is reported and what a read or a write comes to.

use vstd::prelude::*;

use crate::decimal::{format_i64, signed_digits};
use crate::secret::SecretError;
use crate::text::{append, append_str, string_from};

verus! {

/// What a person browsing Keychain Access sees the items filed under.
pub const SERVICE: &'static str = "Kitchen Table";

pub const ERR_SEC_SUCCESS: i32 = 0;
pub const ERR_SEC_DUPLICATE_ITEM: i32 = -25299;
pub const ERR_SEC_ITEM_NOT_FOUND: i32 = -25300;
pub const ERR_SEC_AUTH_FAILED: i32 = -25293;
pub const ERR_SEC_INTERACTION_NOT_ALLOWED: i32 = -25308;
pub const ERR_SEC_USER_CANCELED: i32 = -128;

/// What a status means, in words a person can act on.
pub open spec fn meaning(status: i32) -> Seq<char> {
    if status == ERR_SEC_AUTH_FAILED {
        "authentication failed"@
    } else if status == ERR_SEC_INTERACTION_NOT_ALLOWED {
        "the keychain is locked and cannot prompt"@
    } else if status == ERR_SEC_USER_CANCELED {
        "the request was cancelled"@
    } else {
        "unexpected keychain error"@
    }
}

/// A status worth putting in a log line: its meaning and, always, its code.
pub open spec fn spec_describe(status: i32) -> Seq<char> {
    meaning(status) + " (OSStatus "@ + signed_digits(status as int) + ")"@
}

/// Turn an `OSStatus` into something worth putting in a log line.
pub fn describe(status: i32) -> (s: String)
    ensures
        s@ == spec_describe(status),
{
    let mut out: Vec<char> = Vec::new();
    if status == ERR_SEC_AUTH_FAILED {
        append_str(&mut out, "authentication failed");
    } else if status == ERR_SEC_INTERACTION_NOT_ALLOWED {
        append_str(&mut out, "the keychain is locked and cannot prompt");
    } else if status == ERR_SEC_USER_CANCELED {
        append_str(&mut out, "the request was cancelled");
    } else {
        append_str(&mut out, "unexpected keychain error");
    }
    append_str(&mut out, " (OSStatus ");
    let digits = format_i64(status as i64);
    append(&mut out, &digits);
    append_str(&mut out, ")");
    string_from(&out)
}

/// What a write comes to.
#[derive(Debug)]
pub enum WriteOutcome {
    Stored,
    /// The item exists already and has to be modified in place.
    Replace,
    Failed(SecretError),
}

/// The login Keychain.
pub struct Keychain;

impl Keychain {
    pub fn new() -> (k: Self) {
        Keychain
    }

    /// Where this keystore keeps things, for the startup log.
    pub fn describe(&self) -> (d: &'static str)
        ensures
            d@ == "the Keychain"@,
    {
        "the Keychain"
    }

    /// What a read comes to: the secret, nothing (never stored), or the
    /// keystore's refusal. A success with no data is read as nothing.
    pub fn read_outcome(status: i32, data: Option<Vec<u8>>) -> (r: Result<Option<Vec<u8>>, SecretError>)
        ensures
            status == ERR_SEC_SUCCESS ==> (r matches Ok(got) && got == data),
            status == ERR_SEC_ITEM_NOT_FOUND ==> (r matches Ok(None)),
            status != ERR_SEC_SUCCESS && status != ERR_SEC_ITEM_NOT_FOUND ==> (r matches Err(
                SecretError::Keystore(m),
            ) && m@ == spec_describe(status)),
    {
        if status == ERR_SEC_SUCCESS {
            Ok(data)
        } else if status == ERR_SEC_ITEM_NOT_FOUND {
            Ok(None)
        } else {
            Err(SecretError::Keystore(describe(status)))
        }
    }

    /// What adding an item comes to. The API has no upsert: a duplicate is
    /// replaced in place.
    pub fn write_outcome(status: i32) -> (r: WriteOutcome)
        ensures
            status == ERR_SEC_SUCCESS ==> r is Stored,
            status == ERR_SEC_DUPLICATE_ITEM ==> r is Replace,
            status != ERR_SEC_SUCCESS && status != ERR_SEC_DUPLICATE_ITEM ==> (r matches WriteOutcome::Failed(
                SecretError::Keystore(m),
            ) && m@ == spec_describe(status)),
    {
        if status == ERR_SEC_SUCCESS {
            WriteOutcome::Stored
        } else if status == ERR_SEC_DUPLICATE_ITEM {
            WriteOutcome::Replace
        } else {
            WriteOutcome::Failed(SecretError::Keystore(describe(status)))
        }
    }

    /// What replacing an item comes to: finding it, then modifying it.
    pub fn replace_outcome(find: i32, modify: Option<i32>) -> (r: Result<(), SecretError>)
        requires
            find == ERR_SEC_SUCCESS <==> modify is Some,
        ensures
            find != ERR_SEC_SUCCESS ==> (r matches Err(SecretError::Keystore(m)) && m@ == spec_describe(find)),
            modify == Some(ERR_SEC_SUCCESS) ==> r is Ok,
            modify is Some && modify->Some_0 != ERR_SEC_SUCCESS ==> (r matches Err(SecretError::Keystore(m)) && m@ == spec_describe(modify->Some_0)),
    {
        match modify {
            None => Err(SecretError::Keystore(describe(find))),
            Some(s) => if s == ERR_SEC_SUCCESS {
                Ok(())
            } else {
                Err(SecretError::Keystore(describe(s)))
            },
        }
    }
}

} // verus!
