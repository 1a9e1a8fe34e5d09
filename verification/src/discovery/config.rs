//! The settings of the directory service.

use crate::text::dec_text;
use crate::text::push_dec;
use vstd::prelude::*;
use vstd::string::*;

verus! {

/// The settings of the directory service.
#[derive(Debug)]
pub struct DiscoveryConfig {
    /// The port to listen on.
    pub port: u16,
    /// The host to bind to.
    pub host: String,
    /// Where the list of nodes is kept between runs.
    pub consensus_path: String,
    /// Whether to show the dashboard in the terminal.
    pub tui: bool,
    /// After how many seconds of silence a node is dropped.
    pub stale_timeout_secs: u64,
}

impl Default for DiscoveryConfig {
    fn default() -> (r: Self)
        ensures
            r.port == 8080,
            r.host@ == "0.0.0.0"@,
            r.consensus_path@ == "services/discovery/data/consensus.json"@,
            !r.tui,
            r.stale_timeout_secs == 120,
    {
        Self {
            port: 8080,
            host: "0.0.0.0".to_owned(),
            consensus_path: "services/discovery/data/consensus.json".to_owned(),
            tui: false,
            stale_timeout_secs: 120,
        }
    }
}

/// A host and a port, with a colon between them.
pub open spec fn host_port_text(host: Seq<char>, port: u16) -> Seq<char> {
    host + ":"@ + dec_text(port as nat)
}

/// A host and a port, with a colon between them.
pub fn host_port(host: &str, port: u16) -> (s: String)
    ensures
        s@ == host_port_text(host@, port),
{
    let mut s = host.to_owned();
    s.append(":");
    push_dec(&mut s, port as u64);
    s
}

impl DiscoveryConfig {
    /// The address to bind to.
    pub fn bind_addr(&self) -> (s: String)
        ensures
            s@ == host_port_text(self.host@, self.port),
    {
        host_port(self.host.as_str(), self.port)
    }
}

}
