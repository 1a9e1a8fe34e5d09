//! The messages between the directory and its clients, and what the values in them stand for.

use crate::bytes::array32_at;
use crate::bytes::be128;
use crate::bytes::be_bytes;
use crate::bytes::be_value;
use crate::bytes::be_value_of_bytes;
use crate::bytes::push_be;
use crate::discovery::registry::RegistryStats;
use crate::net::IpAddr;
use crate::net::SocketAddr;
use crate::text::clone_opt_string;
use crate::text::dec_text;
use crate::text::numbered;
use crate::text::opt_text;
use crate::types::ExitPolicy;
use crate::types::ExitPolicyView;
use crate::types::NodeDescriptor;
use crate::types::NodeDescriptorView;
use crate::types::NodeMetrics;
use crate::types::NodeMetricsView;
use crate::types::NodeType;
use crate::types::PublicKey;
use vstd::prelude::*;
use vstd::string::*;

verus! {

/// A node type in a message.
#[derive(Debug, Clone, Copy, PartialEq, Eq, Structural)]
pub enum WireNodeType {
    Unspecified,
    Entry,
    Middle,
    Exit,
}

impl WireNodeType {
    /// The node type that a message carries for `t`.
    pub open spec fn carried(t: NodeType) -> WireNodeType {
        match t {
            NodeType::Entry => WireNodeType::Entry,
            NodeType::Middle => WireNodeType::Middle,
            NodeType::Exit => WireNodeType::Exit,
        }
    }

    /// The node type in a message, if it names one.
    pub open spec fn meant(self) -> Option<NodeType> {
        match self {
            WireNodeType::Unspecified => None,
            WireNodeType::Entry => Some(NodeType::Entry),
            WireNodeType::Middle => Some(NodeType::Middle),
            WireNodeType::Exit => Some(NodeType::Exit),
        }
    }

    /// The node type that a message carries for `t`.
    pub fn from_node_type(t: NodeType) -> (r: WireNodeType)
        ensures
            r == WireNodeType::carried(t),
    {
        match t {
            NodeType::Entry => WireNodeType::Entry,
            NodeType::Middle => WireNodeType::Middle,
            NodeType::Exit => WireNodeType::Exit,
        }
    }

    /// The node type in a message.
    pub fn to_node_type(self) -> (r: Result<NodeType, String>)
        ensures
            match r {
                Ok(t) => self.meant() == Some(t),
                Err(e) => self.meant() is None && e@ == "NodeType unspecified"@,
            },
    {
        match self {
            WireNodeType::Entry => Ok(NodeType::Entry),
            WireNodeType::Middle => Ok(NodeType::Middle),
            WireNodeType::Exit => Ok(NodeType::Exit),
            WireNodeType::Unspecified => Err("NodeType unspecified".to_owned()),
        }
    }
}

/// Reads a public key from a message: it has 32 bytes.
pub fn key_from_bytes(bytes: &Vec<u8>) -> (r: Result<PublicKey, String>)
    ensures
        match r {
            Ok(key) => bytes@.len() == 32 && key@ == bytes@,
            Err(e) => bytes@.len() != 32 && e@ == "PublicKey must be exactly 32 bytes"@,
        },
{
    if bytes.len() != 32 {
        return Err("PublicKey must be exactly 32 bytes".to_owned());
    }
    let key = PublicKey::new(array32_at(bytes.as_slice(), 0));
    proof {
        assert(key@ =~= bytes@);
    }
    Ok(key)
}

/// The bytes of a public key in a message.
pub fn key_to_bytes(key: &PublicKey) -> (r: Vec<u8>)
    ensures
        r@ == key@,
{
    crate::bytes::slice_vec(key.as_bytes().as_slice(), 0, 32)
}

/// The octets of an address: four or sixteen.
pub open spec fn octets(ip: IpAddr) -> Seq<u8> {
    match ip {
        IpAddr::V4(n) => be_bytes(n as nat, 4),
        IpAddr::V6(n) => be_bytes(n as nat, 16),
    }
}

/// The address with these octets, or the complaint about their number.
pub open spec fn ip_of(bytes: Seq<u8>) -> Result<IpAddr, Seq<char>> {
    if bytes.len() == 4 {
        Ok(IpAddr::V4(be_value(bytes) as u32))
    } else if bytes.len() == 16 {
        Ok(IpAddr::V6(be_value(bytes) as u128))
    } else {
        Err("Invalid IP byte length: "@ + dec_text(bytes.len()))
    }
}

/// The addresses with these octets, or the complaint about the first that is none.
pub open spec fn ips_of(list: Seq<Seq<u8>>) -> Result<Seq<IpAddr>, Seq<char>>
    decreases list.len(),
{
    if list.len() == 0 {
        Ok(Seq::empty())
    } else {
        match ips_of(list.drop_last()) {
            Err(e) => Err(e),
            Ok(front) => match ip_of(list.last()) {
                Ok(ip) => Ok(front.push(ip)),
                Err(e) => Err(e),
            },
        }
    }
}

/// The byte strings of a list.
pub open spec fn byte_strings(list: Seq<Vec<u8>>) -> Seq<Seq<u8>> {
    Seq::new(list.len(), |i: int| list[i]@)
}

/// The octets of an address.
pub fn ip_to_bytes(ip: &IpAddr) -> (r: Vec<u8>)
    ensures
        r@ == octets(*ip),
{
    let mut r: Vec<u8> = Vec::new();
    match *ip {
        IpAddr::V4(n) => push_be(&mut r, n as u128, 4),
        IpAddr::V6(n) => push_be(&mut r, n, 16),
    }
    proof {
        assert(r@ =~= octets(*ip));
    }
    r
}

/// The address with these octets.
pub fn ip_from_bytes(bytes: &[u8]) -> (r: Result<IpAddr, String>)
    ensures
        match r {
            Ok(ip) => ip_of(bytes@) == Ok::<IpAddr, Seq<char>>(ip),
            Err(e) => ip_of(bytes@) == Err::<IpAddr, Seq<char>>(e@),
        },
{
    if bytes.len() == 4 {
        let n = crate::bytes::be32_at(bytes, 0);
        proof {
            assert(bytes@.subrange(0, 4) =~= bytes@);
        }
        Ok(IpAddr::V4(n))
    } else if bytes.len() == 16 {
        Ok(IpAddr::V6(be128(bytes)))
    } else {
        Err(numbered("Invalid IP byte length: ", bytes.len() as u64))
    }
}

/// The bytes in a list of addresses.
fn ips_to_bytes(ips: &Vec<IpAddr>) -> (r: Vec<Vec<u8>>)
    ensures
        byte_strings(r@) == ips@.map_values(|ip: IpAddr| octets(ip)),
{
    let mut r: Vec<Vec<u8>> = Vec::new();
    let mut i: usize = 0;
    while i < ips.len()
        invariant
            i <= ips@.len(),
            r@.len() == i,
            forall|j: int| 0 <= j < i ==> (#[trigger] r@[j])@ == octets(ips@[j]),
        decreases ips@.len() - i,
    {
        r.push(ip_to_bytes(&ips[i]));
        i += 1;
    }
    proof {
        assert(byte_strings(r@) =~= ips@.map_values(|ip: IpAddr| octets(ip)));
    }
    r
}

/// A complaint about the front of a list is one about all of it.
proof fn complaints_stay(list: Seq<Seq<u8>>, n: int)
    requires
        0 <= n <= list.len(),
        ips_of(list.take(n)) is Err,
    ensures
        ips_of(list) == ips_of(list.take(n)),
    decreases list.len() - n,
{
    if n == list.len() {
        assert(list.take(n) =~= list);
    } else {
        assert(list.take(n + 1).drop_last() =~= list.take(n));
        complaints_stay(list, n + 1);
    }
}

/// The addresses in a list.
fn ips_from_bytes(list: &Vec<Vec<u8>>) -> (r: Result<Vec<IpAddr>, String>)
    ensures
        match r {
            Ok(ips) => ips_of(byte_strings(list@)) == Ok::<Seq<IpAddr>, Seq<char>>(ips@),
            Err(e) => ips_of(byte_strings(list@)) == Err::<Seq<IpAddr>, Seq<char>>(e@),
        },
{
    let ghost all = byte_strings(list@);
    let mut r: Vec<IpAddr> = Vec::new();
    let mut i: usize = 0;
    while i < list.len()
        invariant
            all == byte_strings(list@),
            i <= list@.len(),
            ips_of(all.take(i as int)) == Ok::<Seq<IpAddr>, Seq<char>>(r@),
        decreases list@.len() - i,
    {
        proof {
            assert(all.take(i as int + 1).drop_last() =~= all.take(i as int));
            assert(all.take(i as int + 1).last() == list@[i as int]@);
        }
        match ip_from_bytes(list[i].as_slice()) {
            Ok(ip) => r.push(ip),
            Err(e) => {
                proof {
                    complaints_stay(all, i as int + 1);
                }
                return Err(e);
            },
        }
        i += 1;
    }
    proof {
        assert(all.take(all.len() as int) =~= all);
    }
    Ok(r)
}

/// An exit policy in a message.
#[derive(Debug)]
pub struct WireExitPolicy {
    pub allowed_ports: Vec<u32>,
    pub blocked_ports: Vec<u32>,
    pub allowed_ips: Vec<Vec<u8>>,
    pub blocked_ips: Vec<Vec<u8>>,
}

/// An exit policy in a message.
#[verifier::ext_equal]
pub struct WireExitPolicyView {
    pub allowed_ports: Seq<u32>,
    pub blocked_ports: Seq<u32>,
    pub allowed_ips: Seq<Seq<u8>>,
    pub blocked_ips: Seq<Seq<u8>>,
}

impl View for WireExitPolicy {
    type V = WireExitPolicyView;

    open spec fn view(&self) -> WireExitPolicyView {
        WireExitPolicyView {
            allowed_ports: self.allowed_ports@,
            blocked_ports: self.blocked_ports@,
            allowed_ips: byte_strings(self.allowed_ips@),
            blocked_ips: byte_strings(self.blocked_ips@),
        }
    }
}

/// The message for an exit policy.
pub open spec fn wire_policy(policy: ExitPolicyView) -> WireExitPolicyView {
    WireExitPolicyView {
        allowed_ports: policy.allowed_ports.map_values(|p: u16| p as u32),
        blocked_ports: policy.blocked_ports.map_values(|p: u16| p as u32),
        allowed_ips: policy.allowed_ips.map_values(|ip: IpAddr| octets(ip)),
        blocked_ips: policy.blocked_ips.map_values(|ip: IpAddr| octets(ip)),
    }
}

/// The exit policy in a message, or the complaint about its first bad address. Of a port the
/// lowest 16 bits count.
pub open spec fn policy_of(message: WireExitPolicyView) -> Result<ExitPolicyView, Seq<char>> {
    match ips_of(message.allowed_ips) {
        Err(e) => Err(e),
        Ok(allowed_ips) => match ips_of(message.blocked_ips) {
            Err(e) => Err(e),
            Ok(blocked_ips) => Ok(
                ExitPolicyView {
                    allowed_ports: message.allowed_ports.map_values(|p: u32| p as u16),
                    blocked_ports: message.blocked_ports.map_values(|p: u32| p as u16),
                    allowed_ips,
                    blocked_ips,
                },
            ),
        },
    }
}

fn ports_to_wire(ports: &Vec<u16>) -> (r: Vec<u32>)
    ensures
        r@ == ports@.map_values(|p: u16| p as u32),
{
    let mut r: Vec<u32> = Vec::new();
    let mut i: usize = 0;
    while i < ports.len()
        invariant
            i <= ports@.len(),
            r@.len() == i,
            forall|j: int| 0 <= j < i ==> r@[j] == ports@[j] as u32,
        decreases ports@.len() - i,
    {
        r.push(ports[i] as u32);
        i += 1;
    }
    proof {
        assert(r@ =~= ports@.map_values(|p: u16| p as u32));
    }
    r
}

fn ports_from_wire(ports: &Vec<u32>) -> (r: Vec<u16>)
    ensures
        r@ == ports@.map_values(|p: u32| p as u16),
{
    let mut r: Vec<u16> = Vec::new();
    let mut i: usize = 0;
    while i < ports.len()
        invariant
            i <= ports@.len(),
            r@.len() == i,
            forall|j: int| 0 <= j < i ==> r@[j] == ports@[j] as u16,
        decreases ports@.len() - i,
    {
        r.push(#[verifier::truncate] (ports[i] as u16));
        i += 1;
    }
    proof {
        assert(r@ =~= ports@.map_values(|p: u32| p as u16));
    }
    r
}

impl WireExitPolicy {
    /// The message for an exit policy.
    pub fn from_policy(policy: &ExitPolicy) -> (r: Self)
        ensures
            r@ == wire_policy(policy@),
    {
        Self {
            allowed_ports: ports_to_wire(&policy.allowed_ports),
            blocked_ports: ports_to_wire(&policy.blocked_ports),
            allowed_ips: ips_to_bytes(&policy.allowed_ips),
            blocked_ips: ips_to_bytes(&policy.blocked_ips),
        }
    }

    /// The exit policy in a message.
    pub fn to_policy(&self) -> (r: Result<ExitPolicy, String>)
        ensures
            match r {
                Ok(policy) => policy_of(self@) == Ok::<ExitPolicyView, Seq<char>>(policy@),
                Err(e) => policy_of(self@) == Err::<ExitPolicyView, Seq<char>>(e@),
            },
    {
        let allowed_ips = match ips_from_bytes(&self.allowed_ips) {
            Ok(ips) => ips,
            Err(e) => return Err(e),
        };
        let blocked_ips = match ips_from_bytes(&self.blocked_ips) {
            Ok(ips) => ips,
            Err(e) => return Err(e),
        };
        Ok(
            ExitPolicy {
                allowed_ports: ports_from_wire(&self.allowed_ports),
                blocked_ports: ports_from_wire(&self.blocked_ports),
                allowed_ips,
                blocked_ips,
            },
        )
    }
}

/// A node in a message. Its address stands there as text.
#[derive(Debug)]
pub struct WireDescriptor {
    pub node_id: String,
    /// The node type that the number in the message stands for, or the complaint about a number
    /// that stands for none.
    pub node_type: Result<WireNodeType, String>,
    pub address: String,
    pub public_key: Option<Vec<u8>>,
    pub bandwidth: u64,
    pub exit_policy: Option<WireExitPolicy>,
    pub operator_id: Option<String>,
    pub tls_cert_fingerprint: String,
}

/// A node in a message.
#[verifier::ext_equal]
pub struct WireDescriptorView {
    pub node_id: Seq<char>,
    pub node_type: Result<WireNodeType, Seq<char>>,
    pub address: Seq<char>,
    pub public_key: Option<Seq<u8>>,
    pub bandwidth: u64,
    pub exit_policy: Option<WireExitPolicyView>,
    pub operator_id: Option<Seq<char>>,
    pub tls_cert_fingerprint: Seq<char>,
}

impl View for WireDescriptor {
    type V = WireDescriptorView;

    open spec fn view(&self) -> WireDescriptorView {
        WireDescriptorView {
            node_id: self.node_id@,
            node_type: match self.node_type {
                Ok(t) => Ok(t),
                Err(e) => Err(e@),
            },
            address: self.address@,
            public_key: match self.public_key {
                Some(bytes) => Some(bytes@),
                None => None,
            },
            bandwidth: self.bandwidth,
            exit_policy: match self.exit_policy {
                Some(policy) => Some(policy@),
                None => None,
            },
            operator_id: opt_text(self.operator_id),
            tls_cert_fingerprint: self.tls_cert_fingerprint@,
        }
    }
}

/// The message for a node whose address reads `address`.
pub open spec fn wire_descriptor(
    node: NodeDescriptorView,
    address: Seq<char>,
) -> WireDescriptorView {
    WireDescriptorView {
        node_id: node.node_id,
        node_type: Ok(WireNodeType::carried(node.node_type)),
        address,
        public_key: Some(node.public_key),
        bandwidth: node.bandwidth,
        exit_policy: match node.exit_policy {
            Some(policy) => Some(wire_policy(policy)),
            None => None,
        },
        operator_id: node.operator_id,
        tls_cert_fingerprint: node.tls_cert_fingerprint,
    }
}

/// The node in a message, or the first complaint about it. What its address reads as is said by
/// `address`.
pub open spec fn descriptor_of(
    message: WireDescriptorView,
    address: Result<SocketAddr, Seq<char>>,
) -> Result<NodeDescriptorView, Seq<char>> {
    if let Err(e) = message.node_type {
        Err("Invalid node type: "@ + e)
    } else if message.node_type->Ok_0.meant() is None {
        Err("NodeType unspecified"@)
    } else if let Err(e) = address {
        Err("Invalid address: "@ + e)
    } else if message.public_key is None {
        Err("PublicKey is required"@)
    } else if message.public_key->0.len() != 32 {
        Err("PublicKey must be exactly 32 bytes"@)
    } else if message.exit_policy is Some && policy_of(message.exit_policy->0) is Err {
        Err(policy_of(message.exit_policy->0)->Err_0)
    } else {
        Ok(
            NodeDescriptorView {
                node_id: message.node_id,
                node_type: message.node_type->Ok_0.meant()->0,
                address: address->Ok_0,
                public_key: message.public_key->0,
                bandwidth: message.bandwidth,
                exit_policy: match message.exit_policy {
                    Some(policy) => Some(policy_of(policy)->Ok_0),
                    None => None,
                },
                operator_id: message.operator_id,
                tls_cert_fingerprint: message.tls_cert_fingerprint,
            },
        )
    }
}

/// The view of what an address reads as.
pub open spec fn read_address(
    address: Result<SocketAddr, String>,
) -> Result<SocketAddr, Seq<char>> {
    match address {
        Ok(a) => Ok(a),
        Err(e) => Err(e@),
    }
}

impl WireDescriptor {
    /// The message for a node whose address reads `address`.
    pub fn from_descriptor(node: NodeDescriptor, address: String) -> (r: Self)
        ensures
            r@ == wire_descriptor(node@, address@),
    {
        let exit_policy = match &node.exit_policy {
            Some(policy) => Some(WireExitPolicy::from_policy(policy)),
            None => None,
        };
        Self {
            node_id: node.node_id,
            node_type: Ok(WireNodeType::from_node_type(node.node_type)),
            address,
            public_key: Some(key_to_bytes(&node.public_key)),
            bandwidth: node.bandwidth,
            exit_policy,
            operator_id: node.operator_id,
            tls_cert_fingerprint: node.tls_cert_fingerprint,
        }
    }

    /// The node in a message. What its address reads as, or the complaint about it, is said by
    /// `address`.
    pub fn to_descriptor(&self, address: Result<SocketAddr, String>) -> (r: Result<
        NodeDescriptor,
        String,
    >)
        ensures
            match r {
                Ok(node) => descriptor_of(self@, read_address(address)) == Ok::<
                    NodeDescriptorView,
                    Seq<char>,
                >(node@),
                Err(e) => descriptor_of(self@, read_address(address)) == Err::<
                    NodeDescriptorView,
                    Seq<char>,
                >(e@),
            },
    {
        let node_type = match &self.node_type {
            Ok(carried) => match carried.to_node_type() {
                Ok(t) => t,
                Err(e) => return Err(e),
            },
            Err(e) => {
                let mut complaint = "Invalid node type: ".to_owned();
                complaint.append(e.as_str());
                return Err(complaint);
            },
        };
        let address = match address {
            Ok(a) => a,
            Err(e) => {
                let mut complaint = "Invalid address: ".to_owned();
                complaint.append(e.as_str());
                return Err(complaint);
            },
        };
        let public_key = match &self.public_key {
            Some(bytes) => match key_from_bytes(bytes) {
                Ok(key) => key,
                Err(e) => return Err(e),
            },
            None => return Err("PublicKey is required".to_owned()),
        };
        let exit_policy = match &self.exit_policy {
            Some(policy) => match policy.to_policy() {
                Ok(policy) => Some(policy),
                Err(e) => return Err(e),
            },
            None => None,
        };
        Ok(
            NodeDescriptor {
                node_id: self.node_id.clone(),
                node_type,
                address,
                public_key,
                bandwidth: self.bandwidth,
                exit_policy,
                operator_id: clone_opt_string(&self.operator_id),
                tls_cert_fingerprint: self.tls_cert_fingerprint.clone(),
            },
        )
    }
}

/// A node's figures in a message, which carries no events.
#[derive(Debug, Clone, Copy, PartialEq, Eq, Structural)]
pub struct WireMetrics {
    pub connections_accepted: u64,
    pub circuits_active: u64,
    pub circuits_created: u64,
    pub circuits_destroyed: u64,
    pub bytes_forwarded: u64,
    pub bytes_received: u64,
    pub streams_opened: u64,
    pub uptime_secs: u64,
}

impl WireMetrics {
    /// A node's figures in a message, without events.
    pub open spec fn carried(self) -> NodeMetricsView {
        NodeMetricsView {
            connections_accepted: self.connections_accepted,
            circuits_active: self.circuits_active,
            circuits_created: self.circuits_created,
            circuits_destroyed: self.circuits_destroyed,
            bytes_forwarded: self.bytes_forwarded,
            bytes_received: self.bytes_received,
            streams_opened: self.streams_opened,
            uptime_secs: self.uptime_secs,
            event_snapshot: Seq::empty(),
        }
    }

    /// The message for a node's figures.
    pub fn from_metrics(m: &NodeMetrics) -> (r: Self)
        ensures
            r == (WireMetrics {
                connections_accepted: m.connections_accepted,
                circuits_active: m.circuits_active,
                circuits_created: m.circuits_created,
                circuits_destroyed: m.circuits_destroyed,
                bytes_forwarded: m.bytes_forwarded,
                bytes_received: m.bytes_received,
                streams_opened: m.streams_opened,
                uptime_secs: m.uptime_secs,
            }),
    {
        Self {
            connections_accepted: m.connections_accepted,
            circuits_active: m.circuits_active,
            circuits_created: m.circuits_created,
            circuits_destroyed: m.circuits_destroyed,
            bytes_forwarded: m.bytes_forwarded,
            bytes_received: m.bytes_received,
            streams_opened: m.streams_opened,
            uptime_secs: m.uptime_secs,
        }
    }

    /// A node's figures in a message, without events.
    pub fn to_metrics(&self) -> (r: NodeMetrics)
        ensures
            r@ == self.carried(),
    {
        let r = NodeMetrics {
            connections_accepted: self.connections_accepted,
            circuits_active: self.circuits_active,
            circuits_created: self.circuits_created,
            circuits_destroyed: self.circuits_destroyed,
            bytes_forwarded: self.bytes_forwarded,
            bytes_received: self.bytes_received,
            streams_opened: self.streams_opened,
            uptime_secs: self.uptime_secs,
            event_snapshot: Vec::new(),
        };
        proof {
            assert(r@.event_snapshot =~= Seq::<Seq<char>>::empty());
        }
        r
    }
}

/// The figures of a heartbeat: a message without them is refused.
pub fn required_metrics(metrics: Option<WireMetrics>) -> (r: Result<NodeMetrics, String>)
    ensures
        match metrics {
            Some(m) => {
                &&& r is Ok
                &&& r->Ok_0@ == m.carried()
            },
            None => {
                &&& r is Err
                &&& r->Err_0@ == "Metrics are required"@
            },
        },
{
    match metrics {
        Some(m) => Ok(m.to_metrics()),
        None => Err("Metrics are required".to_owned()),
    }
}

/// The registry's figures in a message.
#[derive(Debug, Clone, Copy, PartialEq, Eq, Structural)]
pub struct WireStats {
    pub total_nodes: u64,
    pub entry_count: u64,
    pub middle_count: u64,
    pub exit_count: u64,
    pub oldest_node_age_secs: Option<u64>,
    pub newest_node_age_secs: Option<u64>,
}

/// The registry's figures out of a message.
#[derive(Debug, Clone, Copy, PartialEq, Eq, Structural)]
pub struct RegistryStatsConverted {
    pub total_nodes: usize,
    pub entry_count: usize,
    pub middle_count: usize,
    pub exit_count: usize,
    pub oldest_node_age_secs: Option<u64>,
    pub newest_node_age_secs: Option<u64>,
}

impl WireStats {
    /// The message for the registry's figures.
    pub fn from_stats(s: &RegistryStats) -> (r: Self)
        ensures
            r == (WireStats {
                total_nodes: s.total_nodes as u64,
                entry_count: s.entry_count as u64,
                middle_count: s.middle_count as u64,
                exit_count: s.exit_count as u64,
                oldest_node_age_secs: s.oldest_node_age_secs,
                newest_node_age_secs: s.newest_node_age_secs,
            }),
    {
        Self {
            total_nodes: s.total_nodes as u64,
            entry_count: s.entry_count as u64,
            middle_count: s.middle_count as u64,
            exit_count: s.exit_count as u64,
            oldest_node_age_secs: s.oldest_node_age_secs,
            newest_node_age_secs: s.newest_node_age_secs,
        }
    }

    /// The registry's figures in a message.
    pub fn to_stats(&self) -> (r: RegistryStatsConverted)
        ensures
            r == (RegistryStatsConverted {
                total_nodes: self.total_nodes as usize,
                entry_count: self.entry_count as usize,
                middle_count: self.middle_count as usize,
                exit_count: self.exit_count as usize,
                oldest_node_age_secs: self.oldest_node_age_secs,
                newest_node_age_secs: self.newest_node_age_secs,
            }),
    {
        RegistryStatsConverted {
            total_nodes: #[verifier::truncate] (self.total_nodes as usize),
            entry_count: #[verifier::truncate] (self.entry_count as usize),
            middle_count: #[verifier::truncate] (self.middle_count as usize),
            exit_count: #[verifier::truncate] (self.exit_count as usize),
            oldest_node_age_secs: self.oldest_node_age_secs,
            newest_node_age_secs: self.newest_node_age_secs,
        }
    }
}

/// Every address comes back out of a message.
pub proof fn addresses_survive_the_wire(ip: IpAddr)
    ensures
        ip_of(octets(ip)) == Ok::<IpAddr, Seq<char>>(ip),
{
    match ip {
        IpAddr::V4(n) => {
            crate::bytes::be_bytes_len(n as nat, 4);
            be_value_of_bytes(n as nat, 4);
        },
        IpAddr::V6(n) => {
            crate::bytes::be_bytes_len(n as nat, 16);
            be_value_of_bytes(n as nat, 16);
        },
    }
}

proof fn address_lists_survive_the_wire(ips: Seq<IpAddr>)
    ensures
        ips_of(ips.map_values(|ip: IpAddr| octets(ip))) == Ok::<Seq<IpAddr>, Seq<char>>(ips),
    decreases ips.len(),
{
    let list = ips.map_values(|ip: IpAddr| octets(ip));
    if ips.len() > 0 {
        address_lists_survive_the_wire(ips.drop_last());
        addresses_survive_the_wire(ips.last());
        assert(list.drop_last() =~= ips.drop_last().map_values(|ip: IpAddr| octets(ip)));
        assert(ips.drop_last().push(ips.last()) =~= ips);
    } else {
        assert(ips =~= Seq::<IpAddr>::empty());
    }
}

proof fn ports_survive_the_wire(ports: Seq<u16>)
    ensures
        ports.map_values(|p: u16| p as u32).map_values(|p: u32| p as u16) == ports,
{
    assert forall|i: int| 0 <= i < ports.len() implies (ports[i] as u32) as u16 == ports[i] by {}
    assert(ports.map_values(|p: u16| p as u32).map_values(|p: u32| p as u16) =~= ports);
}

/// Every exit policy comes back out of a message.
pub proof fn policies_survive_the_wire(policy: ExitPolicyView)
    ensures
        policy_of(wire_policy(policy)) == Ok::<ExitPolicyView, Seq<char>>(policy),
{
    address_lists_survive_the_wire(policy.allowed_ips);
    address_lists_survive_the_wire(policy.blocked_ips);
    ports_survive_the_wire(policy.allowed_ports);
    ports_survive_the_wire(policy.blocked_ports);
}

/// Every node comes back out of a message, as long as the text of its address reads as that
/// address.
pub proof fn descriptors_survive_the_wire(node: NodeDescriptorView, address: Seq<char>)
    requires
        node.public_key.len() == 32,
    ensures
        descriptor_of(wire_descriptor(node, address), Ok(node.address)) == Ok::<
            NodeDescriptorView,
            Seq<char>,
        >(node),
{
    if let Some(policy) = node.exit_policy {
        policies_survive_the_wire(policy);
    }
}

/// A node is read from a message as the message has it, field by field. A message is refused
/// exactly if it names no type, its address is none, its key is missing or has not 32 bytes, or one
/// of the addresses in its exit policy is none.
pub proof fn messages_are_read_as_they_stand(
    message: WireDescriptorView,
    address: Result<SocketAddr, Seq<char>>,
)
    ensures
        descriptor_of(message, address) is Ok <==> {
            &&& message.node_type is Ok && message.node_type->Ok_0 != WireNodeType::Unspecified
            &&& address is Ok
            &&& message.public_key is Some && message.public_key->0.len() == 32
            &&& message.exit_policy is Some ==> policy_of(message.exit_policy->0) is Ok
        },
        descriptor_of(message, address) is Ok ==> ({
            let node = descriptor_of(message, address)->Ok_0;
            &&& node.node_id == message.node_id
            &&& node.address == address->Ok_0
            &&& node.public_key == message.public_key->0
            &&& node.bandwidth == message.bandwidth
            &&& node.operator_id == message.operator_id
            &&& node.tls_cert_fingerprint == message.tls_cert_fingerprint
            &&& node.node_type == NodeType::Entry <==> message.node_type->Ok_0
                == WireNodeType::Entry
            &&& node.node_type == NodeType::Middle <==> message.node_type->Ok_0
                == WireNodeType::Middle
            &&& node.node_type == NodeType::Exit <==> message.node_type->Ok_0
                == WireNodeType::Exit
            &&& node.exit_policy is Some <==> message.exit_policy is Some
            &&& node.exit_policy is Some ==> Ok::<ExitPolicyView, Seq<char>>(
                node.exit_policy->0,
            ) == policy_of(message.exit_policy->0)
        }),
{
}

/// A list of addresses is read one by one: it is refused exactly if one of them has neither four nor
/// sixteen bytes, and otherwise each is read where it stands.
pub proof fn address_lists_are_read_one_by_one(list: Seq<Seq<u8>>)
    ensures
        ips_of(list) is Ok <==> forall|i: int|
            0 <= i < list.len() ==> (#[trigger] list[i]).len() == 4 || list[i].len() == 16,
        ips_of(list) is Ok ==> ips_of(list)->Ok_0.len() == list.len() && forall|i: int|
            0 <= i < list.len() ==> Ok::<IpAddr, Seq<char>>(ips_of(list)->Ok_0[i]) == ip_of(
                #[trigger] list[i],
            ),
    decreases list.len(),
{
    if list.len() > 0 {
        let front = list.drop_last();
        address_lists_are_read_one_by_one(front);
        let n = list.len() - 1;
        if ips_of(list) is Ok {
            assert forall|i: int| 0 <= i < list.len() implies (#[trigger] list[i]).len() == 4
                || list[i].len() == 16 by {
                if i < n {
                    assert(front[i] == list[i]);
                }
            }
            assert forall|i: int| 0 <= i < list.len() implies Ok::<IpAddr, Seq<char>>(
                ips_of(list)->Ok_0[i],
            ) == ip_of(#[trigger] list[i]) by {
                if i < n {
                    assert(front[i] == list[i]);
                }
            }
        }
        if forall|i: int|
            0 <= i < list.len() ==> (#[trigger] list[i]).len() == 4 || list[i].len() == 16 {
            assert forall|i: int| 0 <= i < front.len() implies (#[trigger] front[i]).len() == 4
                || front[i].len() == 16 by {
                assert(front[i] == list[i]);
            }
            assert(list[n].len() == 4 || list[n].len() == 16);
        }
    }
}

/// Four octets make an address with the first one in front.
pub proof fn octets_are_read_in_order(a: u8, b: u8, c: u8, d: u8)
    ensures
        ip_of(seq![a, b, c, d]) == Ok::<IpAddr, Seq<char>>(
            IpAddr::V4((a * 16777216 + b * 65536 + c * 256 + d) as u32),
        ),
{
    crate::bytes::be_value_small(seq![a, b, c, d]);
}

/// A policy that is read from a message has as many ports and addresses as the message.
pub proof fn policies_are_read_whole(message: WireExitPolicyView)
    requires
        policy_of(message) is Ok,
    ensures
        ({
            let policy = policy_of(message)->Ok_0;
            &&& policy.allowed_ports.len() == message.allowed_ports.len()
            &&& policy.blocked_ports.len() == message.blocked_ports.len()
            &&& policy.allowed_ips.len() == message.allowed_ips.len()
            &&& policy.blocked_ips.len() == message.blocked_ips.len()
            &&& forall|i: int|
                0 <= i < message.allowed_ports.len() && message.allowed_ports[i] <= 65535
                    ==> #[trigger] policy.allowed_ports[i] == message.allowed_ports[i]
            &&& forall|i: int|
                0 <= i < message.blocked_ports.len() && message.blocked_ports[i] <= 65535
                    ==> #[trigger] policy.blocked_ports[i] == message.blocked_ports[i]
        }),
{
    address_lists_are_read_one_by_one(message.allowed_ips);
    address_lists_are_read_one_by_one(message.blocked_ips);
}

/// The figures of a node come back out of a message, without the events, which it does not carry.
pub proof fn figures_survive_the_wire(m: NodeMetricsView)
    ensures
        (WireMetrics {
            connections_accepted: m.connections_accepted,
            circuits_active: m.circuits_active,
            circuits_created: m.circuits_created,
            circuits_destroyed: m.circuits_destroyed,
            bytes_forwarded: m.bytes_forwarded,
            bytes_received: m.bytes_received,
            streams_opened: m.streams_opened,
            uptime_secs: m.uptime_secs,
        }).carried() == (NodeMetricsView { event_snapshot: Seq::empty(), ..m }),
{
}

}
