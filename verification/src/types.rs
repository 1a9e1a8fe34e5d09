//! Nodes, their keys, their exit policies and their descriptors.

use crate::bytes::contains_u16;
use crate::error::prefixed;
use crate::net::contains_ip;
use crate::net::IpAddr;
use crate::net::SocketAddr;
use crate::text::ascii_lower;
use crate::text::clone_opt_string;
use crate::text::clone_strings;
use crate::text::dec_text;
use crate::text::hex2_reads_back;
use crate::text::hex_char;
use crate::text::hex_value;
use crate::text::hex_value_of;
use crate::text::opt_text;
use crate::text::push_dec;
use crate::text::push_hex2;
use crate::text::same;
use crate::text::texts;
use crate::text::to_ascii_lower;
use vstd::prelude::*;
use vstd::string::*;
use vstd::utf8::*;

verus! {

/// The part that a node plays in a circuit.
#[derive(Debug, Clone, Copy, PartialEq, Eq, Hash, Structural)]
pub enum NodeType {
    Entry,
    Middle,
    Exit,
}

impl NodeType {
    /// The name of the node type.
    pub open spec fn text(self) -> Seq<char> {
        match self {
            NodeType::Entry => "entry"@,
            NodeType::Middle => "middle"@,
            NodeType::Exit => "exit"@,
        }
    }

    /// The name of the node type.
    pub fn to_string(&self) -> (s: String)
        ensures
            s@ == self.text(),
    {
        match self {
            NodeType::Entry => "entry".to_owned(),
            NodeType::Middle => "middle".to_owned(),
            NodeType::Exit => "exit".to_owned(),
        }
    }

    /// The node type with this name, in any case of its letters.
    pub open spec fn parsed(s: Seq<char>) -> Result<NodeType, Seq<char>> {
        let lower = ascii_lower(s);
        if lower == "entry"@ {
            Ok(NodeType::Entry)
        } else if lower == "middle"@ {
            Ok(NodeType::Middle)
        } else if lower == "exit"@ {
            Ok(NodeType::Exit)
        } else {
            Err("Invalid node type: "@ + s)
        }
    }

    /// Reads the name of a node type, in any case of its letters.
    pub fn from_str(s: &str) -> (r: Result<NodeType, String>)
        ensures
            match r {
                Ok(t) => NodeType::parsed(s@) == Ok::<NodeType, Seq<char>>(t),
                Err(e) => NodeType::parsed(s@) == Err::<NodeType, Seq<char>>(e@),
            },
    {
        let lower = to_ascii_lower(s);
        if same(lower.as_str(), "entry") {
            Ok(NodeType::Entry)
        } else if same(lower.as_str(), "middle") {
            Ok(NodeType::Middle)
        } else if same(lower.as_str(), "exit") {
            Ok(NodeType::Exit)
        } else {
            Err(prefixed("Invalid node type: ", s))
        }
    }
}

/// The name of each node type reads back as that node type.
pub proof fn node_type_name_reads_back(t: NodeType)
    ensures
        NodeType::parsed(t.text()) == Ok::<NodeType, Seq<char>>(t),
{
    reveal_strlit("entry");
    reveal_strlit("middle");
    reveal_strlit("exit");
    assert(ascii_lower("entry"@) =~= "entry"@);
    assert(ascii_lower("middle"@) =~= "middle"@);
    assert(ascii_lower("exit"@) =~= "exit"@);
    assert("middle"@.len() == 6 && "entry"@.len() == 5 && "exit"@.len() == 4);
}

/// The X25519 public key of a node.
#[derive(Debug, Clone, Copy, PartialEq, Eq, Hash)]
pub struct PublicKey {
    pub bytes: [u8; 32],
}

impl View for PublicKey {
    type V = Seq<u8>;

    open spec fn view(&self) -> Seq<u8> {
        self.bytes@
    }
}

/// The hexadecimal numeral of a byte string, two digits to a byte.
pub open spec fn hex_text(b: Seq<u8>) -> Seq<char> {
    Seq::new(
        2 * b.len(),
        |i: int|
            if i % 2 == 0 {
                hex_char((b[i / 2] / 16) as nat)
            } else {
                hex_char((b[i / 2] % 16) as nat)
            },
    )
}

/// The byte spelled by the digit pair number `i` of the text with the UTF-8 bytes `b`.
pub open spec fn hex_pair(b: Seq<u8>, i: int) -> Option<u8> {
    match (hex_value(b[2 * i]), hex_value(b[2 * i + 1])) {
        (Some(high), Some(low)) => Some((16 * high + low) as u8),
        _ => None,
    }
}

/// The first complaint about a digit pair, from pair number `i` on.
pub open spec fn hex_complaint(b: Seq<u8>, i: int) -> Option<Seq<char>>
    decreases 32 - i,
{
    if i >= 32 {
        None
    } else if !is_char_boundary(b, 2 * i + 2) {
        Some("Invalid hex slice at position "@ + dec_text(i as nat))
    } else if hex_pair(b, i) is None {
        Some("Invalid hex: invalid digit found in string"@)
    } else {
        hex_complaint(b, i + 1)
    }
}

impl PublicKey {
    /// The key with these bytes.
    pub fn new(bytes: [u8; 32]) -> (r: Self)
        ensures
            r.bytes == bytes,
    {
        Self { bytes }
    }

    /// The bytes of the key.
    pub fn as_bytes(&self) -> (r: &[u8; 32])
        ensures
            *r == self.bytes,
    {
        &self.bytes
    }

    /// What reading a key from a text gives, or why the text holds none.
    pub open spec fn parsed_hex(hex: Seq<char>) -> Result<Seq<u8>, Seq<char>> {
        let b = encode_utf8(hex);
        if b.len() != 64 {
            Err("Hex string must be 64 characters (32 bytes)"@)
        } else {
            match hex_complaint(b, 0) {
                Some(e) => Err(e),
                None => Ok(Seq::new(32, |i: int| hex_pair(b, i)->0)),
            }
        }
    }

    /// Reads a key from 64 hexadecimal digits, in either case.
    pub fn from_hex(hex: &str) -> (r: Result<Self, String>)
        ensures
            match r {
                Ok(k) => PublicKey::parsed_hex(hex@) == Ok::<Seq<u8>, Seq<char>>(k@),
                Err(e) => PublicKey::parsed_hex(hex@) == Err::<Seq<u8>, Seq<char>>(e@),
            },
    {
        let b = hex.as_bytes();
        if b.len() != 64 {
            return Err("Hex string must be 64 characters (32 bytes)".to_owned());
        }
        let mut bytes = [0u8; 32];
        let mut i: usize = 0;
        while i < 32
            invariant
                i <= 32,
                b@ == encode_utf8(hex@),
                b@.len() == 64,
                hex_complaint(b@, 0) == hex_complaint(b@, i as int),
                forall|j: int| 0 <= j < i ==> hex_pair(b@, j) == Some(#[trigger] bytes@[j]),
            decreases 32 - i,
        {
            if !hex.is_char_boundary(2 * i + 2) {
                let mut e = "Invalid hex slice at position ".to_owned();
                push_dec(&mut e, i as u64);
                return Err(e);
            }
            match (hex_value_of(b[2 * i]), hex_value_of(b[2 * i + 1])) {
                (Some(high), Some(low)) => {
                    bytes[i] = 16 * high + low;
                },
                _ => {
                    return Err("Invalid hex: invalid digit found in string".to_owned());
                },
            }
            i += 1;
        }
        proof {
            assert(bytes@ =~= Seq::new(32, |j: int| hex_pair(b@, j)->0)) by {
                assert forall|j: int| 0 <= j < 32 implies bytes@[j] == hex_pair(b@, j)->0 by {
                    assert(hex_pair(b@, j) == Some(bytes@[j]));
                }
            }
        }
        Ok(Self { bytes })
    }

    /// The key as 64 lower-case hexadecimal digits.
    pub fn to_hex(&self) -> (s: String)
        ensures
            s@ == hex_text(self@),
    {
        let mut s = String::new();
        let mut i: usize = 0;
        while i < 32
            invariant
                i <= 32,
                s@ == hex_text(self@).take(2 * i),
            decreases 32 - i,
        {
            push_hex2(&mut s, self.bytes[i]);
            proof {
                assert(s@ =~= hex_text(self@).take(2 * (i + 1)));
            }
            i += 1;
        }
        proof {
            assert(hex_text(self@).take(64) =~= hex_text(self@));
        }
        s
    }

    /// The first 16 hexadecimal digits of the key, for display.
    pub fn to_string(&self) -> (s: String)
        ensures
            s@ == hex_text(self@).take(16),
    {
        let mut s = String::new();
        let mut i: usize = 0;
        while i < 8
            invariant
                i <= 8,
                s@ == hex_text(self@).take(2 * i),
            decreases 8 - i,
        {
            push_hex2(&mut s, self.bytes[i]);
            proof {
                assert(s@ =~= hex_text(self@).take(2 * (i + 1)));
            }
            i += 1;
        }
        s
    }
}

/// The hexadecimal text of a key reads back as that key.
pub proof fn public_key_hex_reads_back(key: Seq<u8>)
    requires
        key.len() == 32,
    ensures
        PublicKey::parsed_hex(hex_text(key)) == Ok::<Seq<u8>, Seq<char>>(key),
{
    let t = hex_text(key);
    assert forall|i: int| 0 <= i < 64 implies (#[trigger] t[i]) as int <= 127 by {
        hex2_reads_back(key[i / 2]);
    }
    assert(is_ascii_chars(t));
    is_ascii_chars_encode_utf8(t);
    encode_utf8_valid_utf8(t);
    let b = encode_utf8(t);
    assert forall|i: int| 0 <= i < 32 implies hex_pair(b, i) == Some(key[i]) by {
        hex2_reads_back(key[i]);
        assert(b[2 * i] == t[2 * i] as u8);
        assert(b[2 * i + 1] == t[2 * i + 1] as u8);
        assert((2 * i) / 2 == i && (2 * i + 1) / 2 == i);
    }
    assert forall|i: int| 0 <= i <= 64 implies is_char_boundary(b, i) by {
        if i == 64 {
            is_char_boundary_start_end_of_seq(b);
        } else {
            is_char_boundary_iff_not_is_continuation_byte(b, i);
            let byte = b[i];
            assert(byte == t[i] as u8);
            assert(byte <= 127 ==> !is_continuation_byte(byte)) by (bit_vector);
        }
    }
    hex_no_complaint(b, 0);
    assert(Seq::new(32, |i: int| hex_pair(b, i)->0) =~= key);
}

/// A key that was read is written as the text that it was read from, in lower case.
pub proof fn public_key_is_written_in_lower_case(hex: Seq<char>)
    requires
        PublicKey::parsed_hex(hex) is Ok,
    ensures
        hex_text(PublicKey::parsed_hex(hex)->Ok_0) == ascii_lower(hex),
{
    let b = encode_utf8(hex);
    let key = PublicKey::parsed_hex(hex)->Ok_0;
    let plain = Seq::new(64, |i: int| b[i] as char);
    hex_pairs_are_digits(b, 0);
    assert forall|i: int| 0 <= i < 64 implies hex_value(#[trigger] b[i]) is Some by {
        assert(hex_pair(b, i / 2) is Some);
        assert(2 * (i / 2) == i || 2 * (i / 2) + 1 == i);
    }
    assert(is_ascii_chars(plain));
    is_ascii_chars_encode_utf8(plain);
    assert(encode_utf8(plain) =~= b);
    encode_utf8_decode_utf8(plain);
    encode_utf8_decode_utf8(hex);
    assert(hex == plain);
    assert forall|i: int| 0 <= i < 64 implies hex_text(key)[i] == ascii_lower(hex)[i] by {
        let n = i / 2;
        assert(hex_pair(b, n) == Some(key[n]));
        assert(hex_value(b[2 * n]) is Some && hex_value(b[2 * n + 1]) is Some);
        assert(hex[i] as u8 == b[i]);
    }
    assert(hex_text(key) =~= ascii_lower(hex));
}

proof fn hex_pairs_are_digits(b: Seq<u8>, from: int)
    requires
        0 <= from <= 32,
        hex_complaint(b, from) is None,
    ensures
        forall|i: int| from <= i < 32 ==> hex_pair(b, i) is Some,
    decreases 32 - from,
{
    if from < 32 {
        hex_pairs_are_digits(b, from + 1);
    }
}

proof fn hex_no_complaint(b: Seq<u8>, from: int)
    requires
        0 <= from <= 32,
        forall|i: int| 0 <= i < 32 ==> hex_pair(b, i) is Some,
        forall|i: int| 0 <= i <= 64 ==> is_char_boundary(b, i),
    ensures
        hex_complaint(b, from) is None,
    decreases 32 - from,
{
    if from < 32 {
        hex_no_complaint(b, from + 1);
    }
}

/// Which destinations an exit node connects to.
#[derive(Debug)]
pub struct ExitPolicy {
    pub allowed_ports: Vec<u16>,
    pub blocked_ports: Vec<u16>,
    pub allowed_ips: Vec<IpAddr>,
    pub blocked_ips: Vec<IpAddr>,
}

/// The lists of an exit policy.
#[verifier::ext_equal]
pub struct ExitPolicyView {
    pub allowed_ports: Seq<u16>,
    pub blocked_ports: Seq<u16>,
    pub allowed_ips: Seq<IpAddr>,
    pub blocked_ips: Seq<IpAddr>,
}

impl View for ExitPolicy {
    type V = ExitPolicyView;

    open spec fn view(&self) -> ExitPolicyView {
        ExitPolicyView {
            allowed_ports: self.allowed_ports@,
            blocked_ports: self.blocked_ports@,
            allowed_ips: self.allowed_ips@,
            blocked_ips: self.blocked_ips@,
        }
    }
}

impl ExitPolicyView {
    /// A destination is allowed when its address is not blocked and stands in the list of
    /// allowed addresses, and the same holds of its port. An empty list of allowed addresses
    /// or ports allows every one.
    pub open spec fn permits(self, addr: SocketAddr) -> bool {
        &&& !self.blocked_ips.contains(addr.ip)
        &&& self.allowed_ips.len() == 0 || self.allowed_ips.contains(addr.ip)
        &&& !self.blocked_ports.contains(addr.port)
        &&& self.allowed_ports.len() == 0 || self.allowed_ports.contains(addr.port)
    }
}

impl ExitPolicy {
    /// The default policy: the common web ports, and no mail ports.
    pub fn default_policy() -> (r: Self)
        ensures
            r@ == (ExitPolicyView {
                allowed_ports: seq![80, 443, 8080, 8443],
                blocked_ports: seq![25, 587, 465],
                allowed_ips: seq![],
                blocked_ips: seq![],
            }),
    {
        let r = Self {
            allowed_ports: vec![80, 443, 8080, 8443],
            blocked_ports: vec![25, 587, 465],
            allowed_ips: Vec::new(),
            blocked_ips: Vec::new(),
        };
        proof {
            assert(r.allowed_ports@ =~= seq![80, 443, 8080, 8443]);
            assert(r.blocked_ports@ =~= seq![25, 587, 465]);
        }
        r
    }

    /// The policy that allows every destination.
    pub fn allow_all() -> (r: Self)
        ensures
            r@ == (ExitPolicyView {
                allowed_ports: seq![],
                blocked_ports: seq![],
                allowed_ips: seq![],
                blocked_ips: seq![],
            }),
    {
        Self {
            allowed_ports: Vec::new(),
            blocked_ports: Vec::new(),
            allowed_ips: Vec::new(),
            blocked_ips: Vec::new(),
        }
    }

    /// Whether the policy allows a connection to `addr`.
    pub fn allows(&self, addr: &SocketAddr) -> (r: bool)
        ensures
            r == self@.permits(*addr),
            r ==> (self.allowed_ports@.len() == 0 || self.allowed_ports@.contains(addr.port)),
            r ==> (self.allowed_ips@.len() == 0 || self.allowed_ips@.contains(addr.ip)),
            r ==> !self.blocked_ports@.contains(addr.port) && !self.blocked_ips@.contains(addr.ip),
            !r ==> (self.blocked_ports@.contains(addr.port) || self.blocked_ips@.contains(addr.ip)
                || (self.allowed_ports@.len() > 0 && !self.allowed_ports@.contains(addr.port)) || (
            self.allowed_ips@.len() > 0 && !self.allowed_ips@.contains(addr.ip))),
    {
        if contains_ip(self.blocked_ips.as_slice(), addr.ip) {
            return false;
        }
        if !self.allowed_ips.is_empty() && !contains_ip(self.allowed_ips.as_slice(), addr.ip) {
            return false;
        }
        if contains_u16(self.blocked_ports.as_slice(), addr.port) {
            return false;
        }
        if self.allowed_ports.is_empty() {
            true
        } else {
            contains_u16(self.allowed_ports.as_slice(), addr.port)
        }
    }
}

impl Clone for ExitPolicy {
    fn clone(&self) -> (r: Self)
        ensures
            r@ == self@,
    {
        let r = Self {
            allowed_ports: self.allowed_ports.clone(),
            blocked_ports: self.blocked_ports.clone(),
            allowed_ips: self.allowed_ips.clone(),
            blocked_ips: self.blocked_ips.clone(),
        };
        proof {
            assert(r.allowed_ports@ =~= self.allowed_ports@);
            assert(r.blocked_ports@ =~= self.blocked_ports@);
            assert(r.allowed_ips@ =~= self.allowed_ips@);
            assert(r.blocked_ips@ =~= self.blocked_ips@);
        }
        r
    }
}

/// Blocking wins: no policy permits an address or a port that it blocks.
pub proof fn blocked_is_never_permitted(policy: ExitPolicyView, addr: SocketAddr)
    requires
        policy.blocked_ips.contains(addr.ip) || policy.blocked_ports.contains(addr.port),
    ensures
        !policy.permits(addr),
{
}

/// A policy with four empty lists permits every destination.
pub proof fn empty_policy_permits_all(policy: ExitPolicyView, addr: SocketAddr)
    requires
        policy.allowed_ports.len() == 0,
        policy.blocked_ports.len() == 0,
        policy.allowed_ips.len() == 0,
        policy.blocked_ips.len() == 0,
    ensures
        policy.permits(addr),
{
}

/// A list of allowed ports binds as soon as it holds one: a destination whose port is none of
/// them is refused, whatever the other lists hold. The same goes for a list of allowed
/// addresses.
pub proof fn allowed_lists_bind(policy: ExitPolicyView, addr: SocketAddr)
    requires
        (policy.allowed_ports.len() > 0 && forall|i: int|
            0 <= i < policy.allowed_ports.len() ==> policy.allowed_ports[i] != addr.port) || (
        policy.allowed_ips.len() > 0 && forall|i: int|
            0 <= i < policy.allowed_ips.len() ==> policy.allowed_ips[i] != addr.ip),
    ensures
        !policy.permits(addr),
{
}

/// What is allowed and not blocked gets through: a destination whose port and address stand in
/// the lists of allowed ones, where there are such lists, and in neither list of blocked ones,
/// is permitted.
pub proof fn allowed_and_not_blocked_is_permitted(
    policy: ExitPolicyView,
    addr: SocketAddr,
    port_at: int,
    ip_at: int,
)
    requires
        policy.allowed_ports.len() == 0 || (0 <= port_at < policy.allowed_ports.len()
            && policy.allowed_ports[port_at] == addr.port),
        policy.allowed_ips.len() == 0 || (0 <= ip_at < policy.allowed_ips.len()
            && policy.allowed_ips[ip_at] == addr.ip),
        forall|i: int|
            0 <= i < policy.blocked_ports.len() ==> policy.blocked_ports[i] != addr.port,
        forall|i: int| 0 <= i < policy.blocked_ips.len() ==> policy.blocked_ips[i] != addr.ip,
    ensures
        policy.permits(addr),
{
}

/// Of two policies, the one that also blocks a port permits what the other does, but for the
/// destinations at that port; and the one that also allows a port, where some are listed,
/// permits what the other does and, at that port, what it would permit with no list of ports.
pub proof fn listing_a_port_concerns_that_port_only(
    policy: ExitPolicyView,
    port: u16,
    addr: SocketAddr,
)
    ensures
        ({
            let stricter = ExitPolicyView {
                blocked_ports: policy.blocked_ports.push(port),
                ..policy
            };
            stricter.permits(addr) == (policy.permits(addr) && addr.port != port)
        }),
        policy.allowed_ports.len() > 0 ==> ({
            let wider = ExitPolicyView {
                allowed_ports: policy.allowed_ports.push(port),
                ..policy
            };
            let unlisted = ExitPolicyView { allowed_ports: seq![], ..policy };
            wider.permits(addr) == if addr.port == port {
                unlisted.permits(addr)
            } else {
                policy.permits(addr)
            }
        }),
{
    pushed_is_contained(policy.blocked_ports, port, addr.port);
    pushed_is_contained(policy.allowed_ports, port, addr.port);
}

proof fn pushed_is_contained(ports: Seq<u16>, port: u16, x: u16)
    ensures
        ports.push(port).contains(x) == (ports.contains(x) || x == port),
{
    let all = ports.push(port);
    if ports.contains(x) {
        let i = choose|i: int| 0 <= i < ports.len() && ports[i] == x;
        assert(all[i] == x);
    }
    if x == port {
        assert(all[ports.len() as int] == x);
    }
}

/// What the directory knows of a relay node.
#[derive(Debug)]
pub struct NodeDescriptor {
    pub node_id: String,
    pub node_type: NodeType,
    pub address: SocketAddr,
    pub public_key: PublicKey,
    pub bandwidth: u64,
    pub exit_policy: Option<ExitPolicy>,
    /// The operator family of the node, if it names one: a path never holds two nodes of one
    /// family.
    pub operator_id: Option<String>,
    /// The SHA-256 fingerprint of the node's TLS certificate, in hexadecimal.
    pub tls_cert_fingerprint: String,
}

/// The contents of a node descriptor.
#[verifier::ext_equal]
pub struct NodeDescriptorView {
    pub node_id: Seq<char>,
    pub node_type: NodeType,
    pub address: SocketAddr,
    pub public_key: Seq<u8>,
    pub bandwidth: u64,
    pub exit_policy: Option<ExitPolicyView>,
    pub operator_id: Option<Seq<char>>,
    pub tls_cert_fingerprint: Seq<char>,
}

/// The view of an optional exit policy.
pub open spec fn opt_policy(p: Option<ExitPolicy>) -> Option<ExitPolicyView> {
    match p {
        Some(policy) => Some(policy@),
        None => None,
    }
}

impl View for NodeDescriptor {
    type V = NodeDescriptorView;

    open spec fn view(&self) -> NodeDescriptorView {
        NodeDescriptorView {
            node_id: self.node_id@,
            node_type: self.node_type,
            address: self.address,
            public_key: self.public_key@,
            bandwidth: self.bandwidth,
            exit_policy: opt_policy(self.exit_policy),
            operator_id: opt_text(self.operator_id),
            tls_cert_fingerprint: self.tls_cert_fingerprint@,
        }
    }
}

impl NodeDescriptor {
    /// A descriptor without an operator family and without a certificate fingerprint.
    pub fn new(
        node_id: String,
        node_type: NodeType,
        address: SocketAddr,
        public_key: PublicKey,
        bandwidth: u64,
        exit_policy: Option<ExitPolicy>,
    ) -> (r: Self)
        ensures
            r@ == (NodeDescriptorView {
                node_id: node_id@,
                node_type,
                address,
                public_key: public_key@,
                bandwidth,
                exit_policy: opt_policy(exit_policy),
                operator_id: None,
                tls_cert_fingerprint: seq![],
            }),
    {
        Self {
            node_id,
            node_type,
            address,
            public_key,
            bandwidth,
            exit_policy,
            operator_id: None,
            tls_cert_fingerprint: String::new(),
        }
    }
}

impl Clone for NodeDescriptor {
    fn clone(&self) -> (r: Self)
        ensures
            r@ == self@,
    {
        let exit_policy = match &self.exit_policy {
            Some(p) => Some(p.clone()),
            None => None,
        };
        Self {
            node_id: self.node_id.clone(),
            node_type: self.node_type,
            address: self.address,
            public_key: self.public_key,
            bandwidth: self.bandwidth,
            exit_policy,
            operator_id: clone_opt_string(&self.operator_id),
            tls_cert_fingerprint: self.tls_cert_fingerprint.clone(),
        }
    }
}

/// The contents of a sequence of descriptors.
pub open spec fn descriptors(v: Seq<NodeDescriptor>) -> Seq<NodeDescriptorView> {
    Seq::new(v.len(), |i: int| v[i]@)
}

/// The live figures that a relay node sends with its heartbeat.
#[derive(Debug)]
pub struct NodeMetrics {
    pub connections_accepted: u64,
    pub circuits_active: u64,
    pub circuits_created: u64,
    pub circuits_destroyed: u64,
    pub bytes_forwarded: u64,
    pub bytes_received: u64,
    pub streams_opened: u64,
    pub uptime_secs: u64,
    pub event_snapshot: Vec<String>,
}

/// The contents of a metrics snapshot.
#[verifier::ext_equal]
pub struct NodeMetricsView {
    pub connections_accepted: u64,
    pub circuits_active: u64,
    pub circuits_created: u64,
    pub circuits_destroyed: u64,
    pub bytes_forwarded: u64,
    pub bytes_received: u64,
    pub streams_opened: u64,
    pub uptime_secs: u64,
    pub event_snapshot: Seq<Seq<char>>,
}

impl View for NodeMetrics {
    type V = NodeMetricsView;

    open spec fn view(&self) -> NodeMetricsView {
        NodeMetricsView {
            connections_accepted: self.connections_accepted,
            circuits_active: self.circuits_active,
            circuits_created: self.circuits_created,
            circuits_destroyed: self.circuits_destroyed,
            bytes_forwarded: self.bytes_forwarded,
            bytes_received: self.bytes_received,
            streams_opened: self.streams_opened,
            uptime_secs: self.uptime_secs,
            event_snapshot: texts(self.event_snapshot@),
        }
    }
}

impl Clone for NodeMetrics {
    fn clone(&self) -> (r: Self)
        ensures
            r@ == self@,
    {
        Self {
            connections_accepted: self.connections_accepted,
            circuits_active: self.circuits_active,
            circuits_created: self.circuits_created,
            circuits_destroyed: self.circuits_destroyed,
            bytes_forwarded: self.bytes_forwarded,
            bytes_received: self.bytes_received,
            streams_opened: self.streams_opened,
            uptime_secs: self.uptime_secs,
            event_snapshot: clone_strings(&self.event_snapshot),
        }
    }
}

impl Default for NodeMetrics {
    fn default() -> (r: Self)
        ensures
            r@ == (NodeMetricsView {
                connections_accepted: 0,
                circuits_active: 0,
                circuits_created: 0,
                circuits_destroyed: 0,
                bytes_forwarded: 0,
                bytes_received: 0,
                streams_opened: 0,
                uptime_secs: 0,
                event_snapshot: seq![],
            }),
    {
        let r = Self {
            connections_accepted: 0,
            circuits_active: 0,
            circuits_created: 0,
            circuits_destroyed: 0,
            bytes_forwarded: 0,
            bytes_received: 0,
            streams_opened: 0,
            uptime_secs: 0,
            event_snapshot: Vec::new(),
        };
        proof {
            assert(texts(r.event_snapshot@) =~= seq![]);
        }
        r
    }
}

/// A text names a node type exactly if it is the name of that type but for the case of its letters.
pub proof fn node_types_are_read_by_name(s: Seq<char>, t: NodeType)
    ensures
        NodeType::parsed(s) == Ok::<NodeType, Seq<char>>(t) <==> ascii_lower(s) == t.text(),
        NodeType::parsed(s) is Ok <==> NodeType::parsed(ascii_lower(s)) is Ok,
        NodeType::parsed(s) is Ok ==> NodeType::parsed(ascii_lower(s)) == NodeType::parsed(s),
{
    reveal_strlit("entry");
    reveal_strlit("middle");
    reveal_strlit("exit");
    assert("middle"@.len() == 6 && "entry"@.len() == 5 && "exit"@.len() == 4);
    assert(ascii_lower(ascii_lower(s)) =~= ascii_lower(s)) by {
        assert forall|i: int| 0 <= i < s.len() implies ascii_lower(ascii_lower(s))[i]
            == ascii_lower(s)[i] by {
            crate::text::folding_concerns_capitals_only(s, i);
        }
    }
}

/// A policy that allows the web ports, blocks the mail ports and lists no addresses lets through the
/// web ports at every address, and nothing else.
pub proof fn default_policy_is_for_the_web(policy: ExitPolicyView, addr: SocketAddr)
    requires
        policy.allowed_ports == seq![80u16, 443, 8080, 8443],
        policy.blocked_ports == seq![25u16, 587, 465],
        policy.allowed_ips.len() == 0,
        policy.blocked_ips.len() == 0,
    ensures
        policy.permits(addr) <==> addr.port == 80 || addr.port == 443 || addr.port == 8080
            || addr.port == 8443,
{
    assert(policy.allowed_ports[0] == 80 && policy.allowed_ports[1] == 443
        && policy.allowed_ports[2] == 8080 && policy.allowed_ports[3] == 8443);
}

/// A byte is written as two digits, the one that counts sixteen times first.
pub proof fn bytes_are_written_high_digit_first(b: Seq<u8>, i: int)
    requires
        0 <= i < b.len(),
    ensures
        hex_text(b).len() == 2 * b.len(),
        hex_value(hex_text(b)[2 * i] as u8) is Some,
        hex_value(hex_text(b)[2 * i + 1] as u8) is Some,
        hex_value(hex_text(b)[2 * i] as u8)->0 * 16 + hex_value(
            hex_text(b)[2 * i + 1] as u8,
        )->0 == b[i],
{
    assert((2 * i) / 2 == i && (2 * i + 1) / 2 == i);
    assert((2 * i) % 2 == 0 && (2 * i + 1) % 2 == 1);
    crate::text::hex2_reads_back(b[i]);
}

}
