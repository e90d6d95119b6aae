//! Settings of the game server.

use vstd::prelude::*;

verus! {

/// The server's settings file: `wroot` is the directory of the web client
/// that the server hands out.
#[derive(Debug, PartialEq)]
pub struct Config {
    pub wroot: String,
}

} // verus!
