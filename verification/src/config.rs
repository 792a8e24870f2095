use vstd::prelude::*;
use vstd::string::StringExecFns;
use crate::text::owned;

verus! {

/// Settings of the host application.
#[derive(Debug)]
pub struct AppConfig {
    /// Base URL of the signalling server, without a trailing slash.
    pub server_url: String,
}

/// The signalling server used when none is configured.
pub open spec fn default_server_url() -> Seq<char> {
    "ws://localhost:3000"@
}

pub open spec fn pairing_path() -> Seq<char> {
    "/ws/pairing/remote"@
}

pub open spec fn launch_path() -> Seq<char> {
    "/ws/launch/target"@
}

impl Default for AppConfig {
    fn default() -> (r: Self)
        ensures
            r.server_url@ == default_server_url(),
    {
        AppConfig { server_url: owned("ws://localhost:3000") }
    }
}

impl Clone for AppConfig {
    fn clone(&self) -> (r: Self)
        ensures
            r == *self,
    {
        AppConfig { server_url: self.server_url.clone() }
    }
}

impl AppConfig {
    /// The endpoint on which the host waits to be paired with a controller.
    pub fn pairing_url(&self) -> (u: String)
        ensures
            u@ == self.server_url@ + pairing_path(),
    {
        self.server_url.clone().concat("/ws/pairing/remote")
    }

    /// The endpoint on which the host offers itself to paired controllers.
    pub fn launch_url(&self) -> (u: String)
        ensures
            u@ == self.server_url@ + launch_path(),
    {
        self.server_url.clone().concat("/ws/launch/target")
    }
}

} // verus!
