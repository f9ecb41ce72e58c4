//! The core of a small publish/subscribe relay.
//!
//! Clients register to obtain an identity, connect under it, subscribe to
//! named groups and receive what is published to those groups. This crate
//! holds the registry of clients, the life of a connection and the dispatch
//! of a published message; the transport around them belongs to the caller.

pub mod channel;
pub mod handler;
pub mod identity;
pub mod json;
pub mod laws;
pub mod models;
pub mod registry;
pub mod text;
pub mod ws;

use vstd::prelude::*;
use vstd::string::*;
use crate::text::{decimal, decimal_text};

verus! {

/// An address as text: the host, a colon and the port in decimal.
pub open spec fn root_address(host: Seq<char>, port: u16) -> Seq<char> {
    host + ":"@ + decimal(port as nat)
}

/// Writes the address that the relay is reached under.
#[allow(non_snake_case)]
pub fn getRoot(bind_address: String, bind_port: u16) -> (root: String)
    ensures
        root@ == root_address(bind_address@, bind_port),
{
    let mut root = bind_address;
    root.append(":");
    root.append(decimal_text(bind_port).as_str());
    root
}

} // verus!
