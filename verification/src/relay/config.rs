//! The settings of a relay.

use crate::net::IpAddr;
use crate::net::SocketAddr;
use crate::text::framed;
use crate::text::opt_text;
use crate::types::opt_policy;
use crate::types::ExitPolicy;
use crate::types::ExitPolicyView;
use crate::types::NodeType;
use vstd::prelude::*;
use vstd::string::*;

verus! {

/// The settings of a relay.
#[derive(Debug)]
pub struct RelayConfig {
    /// The part that the relay plays. Without one the setup form asks for it.
    pub node_type: Option<NodeType>,
    /// The port to listen on.
    pub port: u16,
    /// The address under which the relay registers.
    pub host: String,
    /// Where the directory is.
    pub directory_url: String,
    /// The bandwidth that the relay offers, in bytes per second.
    pub bandwidth: u64,
    /// The seconds between two heartbeats.
    pub heartbeat_interval: u64,
    /// Whether an exit connects to every destination.
    pub exit_allow_all: bool,
    /// Whether to show the dashboard in the terminal.
    pub tui: bool,
    /// The address to bind to.
    pub bind_host: String,
    /// Who runs the relay. Relays of one operator never share a circuit.
    pub operator_id: Option<String>,
}

/// The settings of a relay.
#[verifier::ext_equal]
pub struct RelayConfigView {
    pub node_type: Option<NodeType>,
    pub port: u16,
    pub host: Seq<char>,
    pub directory_url: Seq<char>,
    pub bandwidth: u64,
    pub heartbeat_interval: u64,
    pub exit_allow_all: bool,
    pub tui: bool,
    pub bind_host: Seq<char>,
    pub operator_id: Option<Seq<char>>,
}

impl View for RelayConfig {
    type V = RelayConfigView;

    open spec fn view(&self) -> RelayConfigView {
        RelayConfigView {
            node_type: self.node_type,
            port: self.port,
            host: self.host@,
            directory_url: self.directory_url@,
            bandwidth: self.bandwidth,
            heartbeat_interval: self.heartbeat_interval,
            exit_allow_all: self.exit_allow_all,
            tui: self.tui,
            bind_host: self.bind_host@,
            operator_id: opt_text(self.operator_id),
        }
    }
}

impl Default for RelayConfig {
    fn default() -> (r: Self)
        ensures
            r@ == (RelayConfigView {
                node_type: None,
                port: 9001,
                host: "127.0.0.1"@,
                directory_url: "http://localhost:8080"@,
                bandwidth: 1048576,
                heartbeat_interval: 60,
                exit_allow_all: false,
                tui: false,
                bind_host: "0.0.0.0"@,
                operator_id: None,
            }),
    {
        Self {
            node_type: None,
            port: 9001,
            host: "127.0.0.1".to_owned(),
            directory_url: "http://localhost:8080".to_owned(),
            bandwidth: 1048576,
            heartbeat_interval: 60,
            exit_allow_all: false,
            tui: false,
            bind_host: "0.0.0.0".to_owned(),
            operator_id: None,
        }
    }
}

/// What an exit connects to by default: the web ports, no mail ports, and neither itself nor the
/// first address of a private network.
pub open spec fn careful_policy() -> ExitPolicyView {
    ExitPolicyView {
        allowed_ports: seq![80, 443, 8080, 8443],
        blocked_ports: seq![25, 465, 587],
        allowed_ips: seq![],
        blocked_ips: seq![
            IpAddr::V4(IpAddr::v4_number(127, 0, 0, 1) as u32),
            IpAddr::V4(IpAddr::v4_number(10, 0, 0, 0) as u32),
            IpAddr::V4(IpAddr::v4_number(172, 16, 0, 0) as u32),
            IpAddr::V4(IpAddr::v4_number(192, 168, 0, 0) as u32),
        ],
    }
}

impl RelayConfigView {
    /// The exit policy of a relay: exits alone have one.
    pub open spec fn policy(self) -> Option<ExitPolicyView> {
        if self.node_type != Some(NodeType::Exit) {
            None
        } else if self.exit_allow_all {
            Some(
                ExitPolicyView {
                    allowed_ports: seq![],
                    blocked_ports: seq![],
                    allowed_ips: seq![],
                    blocked_ips: seq![],
                },
            )
        } else {
            Some(careful_policy())
        }
    }
}

impl RelayConfig {
    /// The address to bind to, where the host reads as `ip`, or the complaint about the host.
    pub fn bind_addr(&self, ip: Result<IpAddr, String>) -> (r: Result<SocketAddr, String>)
        ensures
            match ip {
                Ok(ip) => r == Ok::<SocketAddr, String>(
                    (SocketAddr { ip, port: self.port, scope_id: 0 }),
                ),
                Err(e) => r == Err::<SocketAddr, String>(e),
            },
    {
        match ip {
            Ok(ip) => Ok(SocketAddr::new(ip, self.port)),
            Err(e) => Err(e),
        }
    }

    /// The exit policy of the relay: exits alone have one.
    pub fn exit_policy(&self) -> (r: Option<ExitPolicy>)
        ensures
            opt_policy(r) == self@.policy(),
    {
        let is_exit = match self.node_type {
            Some(NodeType::Exit) => true,
            _ => false,
        };
        if !is_exit {
            return None;
        }
        if self.exit_allow_all {
            return Some(ExitPolicy::allow_all());
        }
        let policy = ExitPolicy {
            allowed_ports: vec![80, 443, 8080, 8443],
            blocked_ports: vec![25, 465, 587],
            allowed_ips: Vec::new(),
            blocked_ips: vec![
                IpAddr::v4(127, 0, 0, 1),
                IpAddr::v4(10, 0, 0, 0),
                IpAddr::v4(172, 16, 0, 0),
                IpAddr::v4(192, 168, 0, 0),
            ],
        };
        proof {
            assert(policy@ =~= careful_policy());
        }
        Some(policy)
    }
}

/// Reads the type of node from the command line, in any case of its letters.
pub fn parse_node_type(s: &str) -> (r: Result<NodeType, String>)
    ensures
        match r {
            Ok(t) => NodeType::parsed(s@) == Ok::<NodeType, Seq<char>>(t),
            Err(e) => {
                &&& NodeType::parsed(s@) is Err
                &&& e@ == "Invalid node type: '"@ + s@
                    + "'. Must be 'entry', 'middle', or 'exit'"@
            },
        },
{
    match NodeType::from_str(s) {
        Ok(t) => Ok(t),
        Err(_) => Err(
            framed("Invalid node type: '", s, "'. Must be 'entry', 'middle', or 'exit'"),
        ),
    }
}

/// What an exit refuses by default, it refuses whatever its other lists say: a mail port, and
/// its own address on every port.
pub proof fn careful_exits_refuse_mail(config: RelayConfigView, addr: SocketAddr)
    requires
        config.node_type == Some(NodeType::Exit),
        !config.exit_allow_all,
        addr.port == 25 || addr.port == 465 || addr.port == 587 || addr.ip == IpAddr::V4(
            IpAddr::v4_number(127, 0, 0, 1) as u32,
        ),
    ensures
        config.policy() is Some,
        !config.policy()->0.permits(addr),
{
    let policy = careful_policy();
    assert(policy.blocked_ports[0] == 25);
    assert(policy.blocked_ports[1] == 465);
    assert(policy.blocked_ports[2] == 587);
    assert(policy.blocked_ips[0] == IpAddr::V4(IpAddr::v4_number(127, 0, 0, 1) as u32));
}

/// Which destinations a relay lets through: a relay that is no exit has no policy, an exit that
/// allows all lets every destination through, and any other exit lets through the web ports alone,
/// and not to its own address or the three base addresses of private networks.
pub proof fn exits_let_through_the_web(config: RelayConfigView, addr: SocketAddr)
    ensures
        config.policy() is Some <==> config.node_type == Some(NodeType::Exit),
        config.policy() is Some && config.exit_allow_all ==> config.policy()->0.permits(addr),
        config.policy() is Some && !config.exit_allow_all ==> (config.policy()->0.permits(addr)
            <==> (addr.port == 80 || addr.port == 443 || addr.port == 8080 || addr.port == 8443)
            && addr.ip != IpAddr::V4(2130706433) && addr.ip != IpAddr::V4(167772160) && addr.ip
            != IpAddr::V4(2886729728) && addr.ip != IpAddr::V4(3232235520)),
{
    if config.policy() is Some && !config.exit_allow_all {
        let policy = careful_policy();
        assert(policy.allowed_ports[0] == 80 && policy.allowed_ports[1] == 443
            && policy.allowed_ports[2] == 8080 && policy.allowed_ports[3] == 8443);
        assert(policy.blocked_ips[0] == IpAddr::V4(2130706433));
        assert(policy.blocked_ips[1] == IpAddr::V4(167772160));
        assert(policy.blocked_ips[2] == IpAddr::V4(2886729728));
        assert(policy.blocked_ips[3] == IpAddr::V4(3232235520));
    }
}

}
