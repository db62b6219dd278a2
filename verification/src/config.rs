//! The server's configuration as read from the workspace's TOML
//! configuration file. The file itself is loaded and deserialized outside
//! the library; these are the plain values the server consumes.

use vstd::prelude::*;

verus! {

/// The server's own table of the configuration file.
#[derive(Clone, Copy, Debug, PartialEq)]
pub struct Config {
    /// The workspace port the front door forwards to; `None` asks the
    /// server to detect one.
    pub port: Option<u16>,
}

/// The whole configuration file: only the server's own table is read.
#[derive(Clone, Debug, PartialEq)]
pub struct DotReplit {
    pub autobahn: Config,
}

impl DotReplit {
    /// The server configuration the file holds.
    pub fn config(&self) -> (r: Config)
        ensures
            r == self.autobahn,
    {
        self.autobahn
    }
}

} // verus!
