//! Kitchen Table's verified core.

#![allow(unused_imports)]

use vstd::prelude::*;

pub mod account;
pub mod authoring;
pub mod backoff;
pub mod cli;
pub mod daemon;
pub mod decimal;
pub mod device;
pub mod entropy;
pub mod access;
pub mod invite;
pub mod keychain;
pub mod label;
pub mod library;
pub mod mdns;
pub mod order;
pub mod qr;
pub mod registry;
pub mod relay;
pub mod request;
pub mod rpc;
pub mod secret;
pub mod session;
pub mod signing;
pub mod slug;
pub mod socket;
pub mod startup;
pub mod table;
pub mod text;
pub mod trust;

verus! {

} // verus!
