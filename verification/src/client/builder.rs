//! Building a circuit: one handshake with each relay along a path.

use crate::bytes::array32_at;
use crate::bytes::push_bytes;
use crate::bytes::slice_vec;
use crate::client::circuit::Circuit;
use crate::client::circuit::CircuitState;
use crate::client::circuit::CircuitView;
use crate::client::metrics::ports_display;
use crate::client::metrics::ports_text;
use crate::client::onion::all_forwarded;
use crate::client::onion::all_returned;
use crate::client::onion::ciphers_of;
use crate::client::onion::keys_of;
use crate::client::onion::layers_keep_the_length;
use crate::client::onion::relayed_backward;
use crate::client::onion::relayed_forward;
use crate::client::onion::returned_data_arrives;
use crate::client::onion::unwrap_layers;
use crate::client::onion::unwrapped;
use crate::client::onion::wrap;
use crate::client::onion::wrapped;
use crate::client::onion::wrapped_data_arrives;
use crate::client::onion::OnionKeys;
use crate::client::onion::OnionView;
use crate::crypto::is_key_pair;
use crate::crypto::CipherPair;
use crate::crypto::CipherView;
use crate::crypto::SessionKey;
use crate::crypto::SessionKeyView;
use crate::ntor::client_outcome;
use crate::ntor::ntor_client_finish_raw;
use crate::ntor::ntor_sides_agree;
use crate::ntor::server_outcome;
use crate::ntor::NtorEphemeralKeyPair;
use crate::protocol::CircuitId;
use crate::protocol::Message;
use crate::protocol::MessageCommand;
use crate::protocol::MessageView;
use crate::protocol::StreamId;
use crate::relay::circuit::opt_message;
use crate::relay::middle::extend_request;
use crate::relay::middle::extend_request_reads_back;
use crate::text::dec_text;
use crate::text::push_dec;
use crate::types::NodeDescriptor;
use crate::types::PublicKey;
use vstd::prelude::*;
use vstd::string::*;
use vstd::utf8::encode_utf8;

verus! {

/// How long an answer in a handshake may take, in seconds.
pub const HANDSHAKE_TIMEOUT_SECS: u64 = 30;

/// The fewest relays of a circuit.
pub const MIN_HOPS: usize = 3;

/// What the client needs to know of a relay on the path.
#[derive(Debug)]
pub struct Hop {
    /// The address of the relay, in text.
    pub address: String,
    pub port: u16,
    pub public_key: PublicKey,
    pub tls_cert_fingerprint: String,
}

/// What the client needs to know of a relay on the path.
#[verifier::ext_equal]
pub struct HopView {
    pub address: Seq<char>,
    pub port: u16,
    pub public_key: Seq<u8>,
    pub tls_cert_fingerprint: Seq<char>,
}

impl View for Hop {
    type V = HopView;

    open spec fn view(&self) -> HopView {
        HopView {
            address: self.address@,
            port: self.port,
            public_key: self.public_key@,
            tls_cert_fingerprint: self.tls_cert_fingerprint@,
        }
    }
}

impl Hop {
    /// The hop of a relay whose address reads `address`.
    pub fn of(node: &NodeDescriptor, address: String) -> (r: Self)
        ensures
            r@ == (HopView {
                address: address@,
                port: node@.address.port,
                public_key: node@.public_key,
                tls_cert_fingerprint: node@.tls_cert_fingerprint,
            }),
    {
        Self {
            address,
            port: node.address.port,
            public_key: node.public_key,
            tls_cert_fingerprint: node.tls_cert_fingerprint.clone(),
        }
    }
}

/// The views of a sequence of hops.
pub open spec fn hops_of(v: Seq<Hop>) -> Seq<HopView> {
    Seq::new(v.len(), |i: int| v[i]@)
}

/// The ports of a sequence of hops.
pub open spec fn hop_ports(hops: Seq<HopView>) -> Seq<u16> {
    Seq::new(hops.len(), |i: int| hops[i].port)
}

/// The payload of an `extend` message: the address of the next relay, the client's public key and
/// the fingerprint of the relay's certificate, with a zero after the first two.
pub open spec fn extend_payload(hop: HopView, public: Seq<u8>) -> Seq<u8> {
    encode_utf8(hop.address) + seq![0u8] + public + seq![0u8] + encode_utf8(
        hop.tls_cert_fingerprint,
    )
}

/// A circuit that is being built: the handshakes with the first relays are done.
pub struct Handshake {
    circuit_id: CircuitId,
    hops: Vec<Hop>,
    session_keys: Vec<SessionKey>,
    ciphers: Vec<CipherPair>,
    ephemeral: Option<NtorEphemeralKeyPair>,
}

/// The secret and the public key of the client in one handshake.
#[verifier::ext_equal]
pub struct PairView {
    pub secret: Seq<u8>,
    pub public: Seq<u8>,
}

/// The state of a circuit that is being built.
#[verifier::ext_equal]
pub struct HandshakeView {
    pub circuit_id: CircuitId,
    pub hops: Seq<HopView>,
    pub session_keys: Seq<SessionKeyView>,
    pub ciphers: Seq<CipherView>,
    pub ephemeral: Option<PairView>,
}

impl View for Handshake {
    type V = HandshakeView;

    closed spec fn view(&self) -> HandshakeView {
        HandshakeView {
            circuit_id: self.circuit_id,
            hops: hops_of(self.hops@),
            session_keys: keys_of(self.session_keys@),
            ciphers: ciphers_of(self.ciphers@),
            ephemeral: match self.ephemeral {
                Some(pair) => Some(
                    PairView { secret: pair.secret_key(), public: pair.public_key() },
                ),
                None => None,
            },
        }
    }
}

impl HandshakeView {
    /// There is one cipher for each session key, no more of them than relays, and no cipher has
    /// been used for more than one message per handshake in either direction.
    pub open spec fn wf(self) -> bool {
        &&& MIN_HOPS <= self.hops.len() <= u64::MAX
        &&& self.session_keys.len() == self.ciphers.len()
        &&& self.ciphers.len() <= self.hops.len()
        &&& forall|i: int|
            0 <= i < self.ciphers.len() ==> {
                &&& (#[trigger] self.ciphers[i]).forward_pos <= (self.ciphers.len() + (
                if self.ephemeral is Some {
                    1int
                } else {
                    0int
                })) * u64::MAX
                &&& self.ciphers[i].backward_pos <= self.ciphers.len() * u64::MAX
            }
        &&& self.ephemeral is Some ==> {
            &&& self.ciphers.len() < self.hops.len()
            &&& is_key_pair(self.ephemeral->0.secret, self.ephemeral->0.public)
        }
    }

    /// The relay that the next handshake is with.
    pub open spec fn target(self) -> HopView {
        self.hops[self.session_keys.len() as int]
    }

    /// Whether the handshakes with all relays are done.
    pub open spec fn complete(self) -> bool {
        self.session_keys.len() == self.hops.len()
    }

    /// The message that starts the next handshake: `create` for the first relay, and for the
    /// others `extend` under the layers of all relays before them.
    pub open spec fn request(self, pair: PairView) -> MessageView {
        if self.session_keys.len() == 0 {
            MessageView::plain(self.circuit_id, 0, MessageCommand::Create, pair.public)
        } else {
            MessageView::plain(
                self.circuit_id,
                0,
                MessageCommand::Extend,
                wrapped(self.ciphers, extend_payload(self.target(), pair.public)),
            )
        }
    }

    /// The state after the message that starts the next handshake.
    pub open spec fn after_request(self, pair: PairView) -> HandshakeView {
        HandshakeView {
            ephemeral: Some(pair),
            ciphers: if self.session_keys.len() == 0 {
                self.ciphers
            } else {
                all_forwarded(
                    self.ciphers,
                    extend_payload(self.target(), pair.public).len(),
                )
            },
            ..self
        }
    }

    /// What the relay said in its answer: its data without the layers of the relays before it.
    pub open spec fn answer_data(self, answer: MessageView) -> Seq<u8> {
        unwrapped(self.ciphers, answer.data)
    }

    /// The session key that the answer leads to, if its tag is right.
    pub open spec fn answer_key(self, answer: MessageView) -> Option<SessionKeyView> {
        let data = self.answer_data(answer);
        client_outcome(
            self.ephemeral->0.secret,
            self.ephemeral->0.public,
            self.target().public_key,
            data.subrange(0, 32),
            data.subrange(32, 64),
        )
    }

    /// The name of the relay in complaints.
    pub open spec fn target_name(self) -> Seq<char> {
        if self.session_keys.len() == 0 {
            "entry"@
        } else {
            self.target().address
        }
    }

    /// Why an answer cannot be used, if it cannot.
    pub open spec fn complaint(self, answer: Option<MessageView>) -> Option<Seq<char>> {
        let first = self.session_keys.len() == 0;
        match answer {
            None => Some(
                if first {
                    "Entry node closed connection during CREATE"@
                } else {
                    "Connection closed during EXTEND to "@ + self.target().address
                },
            ),
            Some(m) => {
                let expected = if first {
                    MessageCommand::Created
                } else {
                    MessageCommand::Extended
                };
                let n = self.answer_data(m).len();
                if m.command != expected {
                    Some(
                        "Expected "@ + expected.text() + " from "@ + self.target_name() + ", got "@
                            + m.command.text(),
                    )
                } else if n < 64 {
                    Some(
                        expected.text() + " response too short: "@ + dec_text(n)
                            + " bytes (need 64)"@,
                    )
                } else if self.answer_key(m) is None {
                    Some(
                        "ntor handshake failed with "@ + self.target_name() + ": "@
                            + "ntor handshake AUTH verification failed \u{2014} possible MITM"@,
                    )
                } else {
                    None
                }
            },
        }
    }

    /// The state after an answer that can be used.
    pub open spec fn after_answer(self, answer: MessageView) -> HandshakeView {
        let key = self.answer_key(answer)->0;
        HandshakeView {
            session_keys: self.session_keys.push(key),
            ciphers: all_returned(self.ciphers, answer.data.len()).push(CipherView::fresh(key)),
            ephemeral: None,
            ..self
        }
    }

    /// The state after an answer that cannot be used: the layers of an answer of the expected kind
    /// have been taken off.
    pub open spec fn after_refusal(self, answer: Option<MessageView>) -> HandshakeView {
        let expected = if self.session_keys.len() == 0 {
            MessageCommand::Created
        } else {
            MessageCommand::Extended
        };
        match answer {
            Some(m) => if m.command == expected {
                HandshakeView { ciphers: all_returned(self.ciphers, m.data.len()), ..self }
            } else {
                self
            },
            None => self,
        }
    }

    /// The circuit once all handshakes are done.
    pub open spec fn circuit(self) -> CircuitView {
        CircuitView::ready(
            self.circuit_id,
            OnionView {
                session_keys: self.session_keys,
                ciphers: self.ciphers,
                forward: Seq::empty(),
                backward: Seq::empty(),
            },
            Some(ports_text(hop_ports(self.hops))),
        )
    }
}

/// Builds circuits.
#[derive(Debug, Clone, Copy)]
pub struct CircuitBuilder;

impl CircuitBuilder {
    /// Starts building a circuit along a path. A path of fewer than three relays is refused.
    pub fn build(circuit_id: CircuitId, path: Vec<Hop>) -> (r: Result<Handshake, String>)
        ensures
            match r {
                Ok(h) => {
                    &&& path@.len() >= MIN_HOPS
                    &&& h@.wf()
                    &&& h@ == (HandshakeView {
                        circuit_id,
                        hops: hops_of(path@),
                        session_keys: Seq::empty(),
                        ciphers: Seq::empty(),
                        ephemeral: None,
                    })
                },
                Err(e) => {
                    &&& path@.len() < MIN_HOPS
                    &&& e@ == "Circuit path must have at least 3 nodes, got "@ + dec_text(
                        path@.len(),
                    )
                },
            },
    {
        if path.len() < MIN_HOPS {
            let mut e = "Circuit path must have at least 3 nodes, got ".to_owned();
            push_dec(&mut e, path.len() as u64);
            return Err(e);
        }
        let h = Handshake {
            circuit_id,
            hops: path,
            session_keys: Vec::new(),
            ciphers: Vec::new(),
            ephemeral: None,
        };
        proof {
            assert(keys_of(h.session_keys@) =~= Seq::empty());
            assert(ciphers_of(h.ciphers@) =~= Seq::empty());
        }
        Ok(h)
    }
}

/// Writes the payload of an `extend` message.
fn write_payload(hop: &Hop, public: &[u8; 32]) -> (r: Vec<u8>)
    ensures
        r@ == extend_payload(hop@, public@),
{
    let mut r: Vec<u8> = Vec::new();
    push_bytes(&mut r, hop.address.as_str().as_bytes());
    r.push(0);
    push_bytes(&mut r, public.as_slice());
    r.push(0);
    push_bytes(&mut r, hop.tls_cert_fingerprint.as_str().as_bytes());
    proof {
        assert(r@ =~= extend_payload(hop@, public@));
    }
    r
}

impl Handshake {
    /// Whether the handshakes with all relays are done.
    pub fn is_complete(&self) -> (r: bool)
        ensures
            r == self@.complete(),
    {
        self.session_keys.len() == self.hops.len()
    }

    /// How many handshakes are done.
    pub fn hops_done(&self) -> (n: usize)
        ensures
            n == self@.session_keys.len(),
    {
        self.session_keys.len()
    }

    /// The relay that the next handshake is with.
    pub fn target(&self) -> (r: &Hop)
        requires
            self@.wf(),
            !self@.complete(),
        ensures
            r@ == self@.target(),
    {
        &self.hops[self.session_keys.len()]
    }

    /// Starts the next handshake with this key pair.
    pub fn request_with(&mut self, ephemeral: NtorEphemeralKeyPair) -> (r: Message)
        requires
            old(self)@.wf(),
            !old(self)@.complete(),
            old(self)@.ephemeral is None,
            ephemeral.wf(),
        ensures
            final(self)@.wf(),
            ({
                let pair = PairView {
                    secret: ephemeral.secret_key(),
                    public: ephemeral.public_key(),
                };
                &&& r@ == old(self)@.request(pair)
                &&& final(self)@ == old(self)@.after_request(pair)
            }),
    {
        let ghost before = self@;
        let public = *ephemeral.public_bytes();
        let k = self.session_keys.len();
        if k == 0 {
            self.ephemeral = Some(ephemeral);
            let data = slice_vec(public.as_slice(), 0, 32);
            proof {
                assert(data@ =~= public@);
                assert(self@.ciphers =~= before.ciphers);
            }
            return Message::create(self.circuit_id, data);
        }
        let mut payload = write_payload(&self.hops[k], &public);
        let ghost plain = payload@;
        proof {
            assert(payload.len() <= u64::MAX);
            assert forall|i: int| 0 <= i < before.ciphers.len() implies (
            #[trigger] before.ciphers[i]).forward_room(payload@.len()) by {
                assert(before.ciphers[i].forward_pos <= before.ciphers.len() * u64::MAX);
            }
        }
        wrap(&mut self.ciphers, payload.as_mut_slice());
        self.ephemeral = Some(ephemeral);
        proof {
            assert forall|i: int| 0 <= i < self@.ciphers.len() implies {
                &&& (#[trigger] self@.ciphers[i]).forward_pos <= (self@.ciphers.len() + 1)
                    * u64::MAX
                &&& self@.ciphers[i].backward_pos <= self@.ciphers.len() * u64::MAX
            } by {
                assert(self@.ciphers[i] == before.ciphers[i].forwarded(plain.len()));
            }
        }
        Message::extend(self.circuit_id, payload)
    }

    /// Starts the next handshake with a random key pair.
    pub fn request(&mut self) -> (r: Message)
        requires
            old(self)@.wf(),
            !old(self)@.complete(),
            old(self)@.ephemeral is None,
        ensures
            final(self)@.wf(),
            final(self)@.ephemeral is Some,
            r@ == old(self)@.request(final(self)@.ephemeral->0),
            final(self)@ == old(self)@.after_request(final(self)@.ephemeral->0),
    {
        self.request_with(NtorEphemeralKeyPair::generate())
    }
}

impl Handshake {
    /// The complaint about a command other than the expected one.
    fn unexpected(&self, expected: MessageCommand, got: MessageCommand) -> (e: String)
        requires
            self@.session_keys.len() < self@.hops.len(),
        ensures
            e@ == "Expected "@ + expected.text() + " from "@ + self@.target_name() + ", got "@
                + got.text(),
    {
        let mut e = "Expected ".to_owned();
        e.append(expected.to_string().as_str());
        e.append(" from ");
        if self.session_keys.len() == 0 {
            e.append("entry");
        } else {
            e.append(self.hops[self.session_keys.len()].address.as_str());
        }
        e.append(", got ");
        e.append(got.to_string().as_str());
        e
    }

    /// The complaint about a wrong tag.
    fn unauthentic(&self) -> (e: String)
        requires
            self@.session_keys.len() < self@.hops.len(),
        ensures
            e@ == "ntor handshake failed with "@ + self@.target_name() + ": "@
                + "ntor handshake AUTH verification failed \u{2014} possible MITM"@,
    {
        let mut e = "ntor handshake failed with ".to_owned();
        if self.session_keys.len() == 0 {
            e.append("entry");
        } else {
            e.append(self.hops[self.session_keys.len()].address.as_str());
        }
        e.append(": ");
        e.append("ntor handshake AUTH verification failed \u{2014} possible MITM");
        e
    }

    /// Takes the answer of the relay that the handshake is with. After a complaint the circuit
    /// cannot be built any more.
    pub fn answer(&mut self, answer: Option<Message>) -> (r: Result<(), String>)
        requires
            old(self)@.wf(),
            old(self)@.ephemeral is Some,
        ensures
            match r {
                Ok(_) => {
                    &&& old(self)@.complaint(opt_message(answer)) is None
                    &&& final(self)@.wf()
                    &&& final(self)@ == old(self)@.after_answer(answer->0@)
                },
                Err(e) => {
                    &&& old(self)@.complaint(opt_message(answer)) == Some(e@)
                    &&& final(self)@ == old(self)@.after_refusal(opt_message(answer))
                },
            },
    {
        let ghost before = self@;
        let k = self.session_keys.len();
        let m = match answer {
            None => {
                if k == 0 {
                    return Err("Entry node closed connection during CREATE".to_owned());
                }
                let mut e = "Connection closed during EXTEND to ".to_owned();
                e.append(self.hops[k].address.as_str());
                return Err(e);
            },
            Some(m) => m,
        };
        let expected = if k == 0 {
            MessageCommand::Created
        } else {
            MessageCommand::Extended
        };
        if m.command != expected {
            return Err(self.unexpected(expected, m.command));
        }
        let mut data = slice_vec(m.data.as_slice(), 0, m.data.len());
        proof {
            assert(data@ =~= m.data@);
            assert(data.len() <= u64::MAX);
            assert forall|i: int| 0 <= i < before.ciphers.len() implies (
            #[trigger] before.ciphers[i]).backward_room(data@.len()) by {
                assert(before.ciphers[i].backward_pos <= before.ciphers.len() * u64::MAX);
            }
        }
        unwrap_layers(&mut self.ciphers, data.as_mut_slice());
        if data.len() < 64 {
            let mut e = expected.to_string();
            e.append(" response too short: ");
            push_dec(&mut e, data.len() as u64);
            e.append(" bytes (need 64)");
            return Err(e);
        }
        let server_pub = array32_at(data.as_slice(), 0);
        let auth = array32_at(data.as_slice(), 32);
        let finished = match &self.ephemeral {
            Some(pair) => ntor_client_finish_raw(
                pair.secret_bytes(),
                pair.public_bytes(),
                &self.hops[k].public_key.bytes,
                &server_pub,
                &auth,
            ),
            None => {
                return Err(String::new());
            },
        };
        match finished {
            Err(_) => Err(self.unauthentic()),
            Ok(key) => {
                let ghost ciphers = ciphers_of(self.ciphers@);
                self.session_keys.push(key);
                self.ciphers.push(CipherPair::new(&key));
                self.ephemeral = None;
                proof {
                    assert(self@.session_keys =~= before.session_keys.push(key@));
                    assert(self@.ciphers =~= ciphers.push(CipherView::fresh(key@)));
                    assert forall|i: int| 0 <= i < self@.ciphers.len() implies {
                        &&& (#[trigger] self@.ciphers[i]).forward_pos <= self@.ciphers.len()
                            * u64::MAX
                        &&& self@.ciphers[i].backward_pos <= self@.ciphers.len() * u64::MAX
                    } by {
                        if i < before.ciphers.len() {
                            assert(self@.ciphers[i] == before.ciphers[i].returned(m.data@.len()));
                        }
                    }
                }
                Ok(())
            },
        }
    }

    /// The circuit, once all handshakes are done.
    pub fn finish(self) -> (r: Circuit)
        requires
            self@.wf(),
            self@.complete(),
        ensures
            r@ == self@.circuit(),
            r@.wf(),
    {
        let mut ports: Vec<u16> = Vec::new();
        let mut i: usize = 0;
        while i < self.hops.len()
            invariant
                i <= self.hops@.len(),
                ports@.len() == i,
                forall|j: int| 0 <= j < i ==> ports@[j] == self.hops@[j].port,
            decreases self.hops@.len() - i,
        {
            ports.push(self.hops[i].port);
            i += 1;
        }
        let display = ports_display(ports.as_slice());
        proof {
            assert(ports@ =~= hop_ports(self@.hops));
        }
        Circuit::new(
            self.circuit_id,
            OnionKeys::new(self.session_keys, self.ciphers),
            Some(display),
        )
    }
}

/// The handshake succeeds with every honest relay, however far along the path: if the relay
/// answers as the ntor handshake has it, and the relays before it each put on their layer, the
/// client accepts the answer and reaches the relay's session key.
pub proof fn honest_answers_are_accepted(
    h: HandshakeView,
    static_secret: Seq<u8>,
    server_secret: Seq<u8>,
    server_pub: Seq<u8>,
)
    requires
        h.wf(),
        h.ephemeral is Some,
        is_key_pair(static_secret, h.target().public_key),
        is_key_pair(server_secret, server_pub),
        server_pub.len() == 32,
        server_outcome(
            server_secret,
            static_secret,
            h.target().public_key,
            h.ephemeral->0.public,
        ).1.len() == 32,
    ensures
        ({
            let (sent_pub, auth, key) = server_outcome(
                server_secret,
                static_secret,
                h.target().public_key,
                h.ephemeral->0.public,
            );
            let command = if h.session_keys.len() == 0 {
                MessageCommand::Created
            } else {
                MessageCommand::Extended
            };
            let answer = MessageView::plain(
                h.circuit_id,
                0,
                command,
                relayed_backward(h.ciphers, sent_pub + auth),
            );
            &&& h.complaint(Some(answer)) is None
            &&& h.after_answer(answer).session_keys == h.session_keys.push(key)
            &&& h.after_answer(answer).ciphers == all_returned(h.ciphers, 64).push(
                CipherView::fresh(key),
            )
        }),
{
    let (sent_pub, auth, key) = server_outcome(
        server_secret,
        static_secret,
        h.target().public_key,
        h.ephemeral->0.public,
    );
    let said = sent_pub + auth;
    ntor_sides_agree(
        h.ephemeral->0.secret,
        h.ephemeral->0.public,
        static_secret,
        h.target().public_key,
        server_secret,
        server_pub,
    );
    returned_data_arrives(h.ciphers, said);
    layers_keep_the_length(h.ciphers, said);
    assert(said.subrange(0, 32) =~= server_pub);
    assert(said.subrange(32, 64) =~= auth);
}

/// The request reaches the relay at the end of the path so far: when the relays have each taken
/// off their layer, the last one reads the address of the next relay and, in front of what
/// follows it, the client's public key.
pub proof fn requests_reach_the_last_relay(h: HandshakeView, pair: PairView)
    requires
        h.session_keys.len() > 0,
        !h.target().address.contains('\0'),
        pair.public.len() == 32,
    ensures
        ({
            let request = extend_request(relayed_forward(h.ciphers, h.request(pair).data));
            &&& request is Ok
            &&& request->Ok_0 is Extend
            &&& request->Ok_0->Extend_address == h.target().address
            &&& request->Ok_0->Extend_payload == pair.public + seq![0u8] + encode_utf8(
                h.target().tls_cert_fingerprint,
            )
            &&& request->Ok_0->Extend_payload.subrange(0, 32) == pair.public
        }),
{
    let payload = extend_payload(h.target(), pair.public);
    let rest = pair.public + seq![0u8] + encode_utf8(h.target().tls_cert_fingerprint);
    wrapped_data_arrives(h.ciphers, payload);
    extend_request_reads_back(h.target().address, rest);
    assert(payload =~= encode_utf8(h.target().address) + seq![0u8] + rest);
    assert(rest.subrange(0, 32) =~= pair.public);
}

/// A circuit has as many keys as the path has relays, and at least three.
pub proof fn built_circuits_cover_the_path(h: HandshakeView)
    requires
        h.wf(),
        h.complete(),
    ensures
        h.circuit().onion.session_keys.len() == h.hops.len(),
        h.circuit().onion.ciphers.len() == h.hops.len(),
        h.circuit().onion.ciphers.len() >= 3,
{
}

/// The client takes one relay after the other, in the order of the path: an answer that is accepted
/// adds one key behind those that are there, and the next handshake is with the next relay. The
/// circuit and the path stay what they are.
pub proof fn handshakes_follow_the_path(h: HandshakeView, answer: MessageView)
    requires
        h.wf(),
        h.ephemeral is Some,
        h.complaint(Some(answer)) is None,
    ensures
        ({
            let done = h.session_keys.len() as int;
            let after = h.after_answer(answer);
            &&& h.target() == h.hops[done]
            &&& after.hops == h.hops
            &&& after.circuit_id == h.circuit_id
            &&& after.session_keys.len() == done + 1
            &&& forall|i: int|
                0 <= i < done ==> #[trigger] after.session_keys[i] == h.session_keys[i]
            &&& after.ciphers.len() == done + 1
            &&& forall|i: int|
                0 <= i < done ==> (#[trigger] after.ciphers[i]).key == h.ciphers[i].key
            &&& after.ciphers[done].key == after.session_keys[done]
            &&& after.ciphers[done].forward_pos == 0 && after.ciphers[done].backward_pos == 0
            &&& after.ephemeral is None
            &&& done + 1 < h.hops.len() ==> !after.complete() && after.target() == h.hops[done + 1]
            &&& done + 1 == h.hops.len() ==> after.complete()
        }),
{
}

/// An answer is accepted for one tag only: of two answers that tell the same ephemeral key but
/// different tags, at most one is accepted. No answer of another kind, none that is too short, and
/// no missing answer is accepted.
pub proof fn forged_answers_are_refused(
    h: HandshakeView,
    answer: MessageView,
    forged: MessageView,
)
    requires
        h.wf(),
        h.ephemeral is Some,
    ensures
        h.complaint(None) is Some,
        answer.command != (if h.session_keys.len() == 0 {
            MessageCommand::Created
        } else {
            MessageCommand::Extended
        }) ==> h.complaint(Some(answer)) is Some,
        answer.data.len() < 64 ==> h.complaint(Some(answer)) is Some,
        h.complaint(Some(answer)) is None && unwrapped(h.ciphers, forged.data).subrange(0, 32)
            == unwrapped(h.ciphers, answer.data).subrange(0, 32) && unwrapped(
            h.ciphers,
            forged.data,
        ).subrange(32, 64) != unwrapped(h.ciphers, answer.data).subrange(32, 64) ==> h.complaint(
            Some(forged),
        ) is Some,
        h.after_refusal(Some(answer)).session_keys == h.session_keys,
        h.after_refusal(Some(answer)).complete() == h.complete(),
{
    layers_keep_the_length(h.ciphers, answer.data);
}

/// A circuit that has been built starts unused: it is ready, no stream waits on it, both digests
/// have taken in nothing, and its keys are those of the handshakes, in the order of the path.
pub proof fn built_circuits_start_unused(h: HandshakeView)
    requires
        h.wf(),
        h.complete(),
    ensures
        h.circuit().circuit_id == h.circuit_id,
        h.circuit().state == CircuitState::Ready,
        h.circuit().streams == Set::<StreamId>::empty(),
        h.circuit().next_stream_id == 1,
        h.circuit().onion.session_keys == h.session_keys,
        h.circuit().onion.ciphers == h.ciphers,
        h.circuit().onion.forward == Seq::<u8>::empty(),
        h.circuit().onion.backward == Seq::<u8>::empty(),
{
}

/// The first request goes to the first relay as a `create` message with the client's public key and
/// nothing else; every later one is an `extend` message. Both are on the circuit itself.
pub proof fn the_first_request_creates(h: HandshakeView, pair: PairView)
    ensures
        h.request(pair).circuit_id == h.circuit_id,
        h.request(pair).stream_id == 0,
        h.session_keys.len() == 0 ==> h.request(pair).command == MessageCommand::Create
            && h.request(pair).data == pair.public,
        h.session_keys.len() > 0 ==> h.request(pair).command == MessageCommand::Extend,
        h.after_request(pair).ephemeral == Some(pair),
        h.after_request(pair).session_keys == h.session_keys,
        h.after_request(pair).hops == h.hops,
{
}

}
