//! The layers of encryption that a client shares with the relays of a circuit.

use crate::crypto::cipher_pairs_undo_each_other;
use crate::crypto::CipherPair;
use crate::crypto::CipherView;
use crate::crypto::RunningDigest;
use crate::crypto::SessionKey;
use crate::crypto::SessionKeyView;
use vstd::prelude::*;

verus! {

/// The states of a sequence of cipher pairs.
pub open spec fn ciphers_of(v: Seq<CipherPair>) -> Seq<CipherView> {
    Seq::new(v.len(), |i: int| v[i]@)
}

/// The views of a sequence of session keys.
pub open spec fn keys_of(v: Seq<SessionKey>) -> Seq<SessionKeyView> {
    Seq::new(v.len(), |i: int| v[i]@)
}

/// `data` under a forward layer for each hop: the last hop's innermost, the first hop's outermost.
pub open spec fn wrapped(ciphers: Seq<CipherView>, data: Seq<u8>) -> Seq<u8>
    decreases ciphers.len(),
{
    if ciphers.len() == 0 {
        data
    } else {
        wrapped(ciphers.drop_last(), ciphers.last().forward(data))
    }
}

/// `data` without the backward layers of all hops: the first hop's comes off first.
pub open spec fn unwrapped(ciphers: Seq<CipherView>, data: Seq<u8>) -> Seq<u8>
    decreases ciphers.len(),
{
    if ciphers.len() == 0 {
        data
    } else {
        ciphers.last().backward(unwrapped(ciphers.drop_last(), data))
    }
}

/// The ciphers after `n` more bytes in the forward direction.
pub open spec fn all_forwarded(ciphers: Seq<CipherView>, n: nat) -> Seq<CipherView> {
    Seq::new(ciphers.len(), |i: int| ciphers[i].forwarded(n))
}

/// The ciphers after `n` more bytes in the backward direction.
pub open spec fn all_returned(ciphers: Seq<CipherView>, n: nat) -> Seq<CipherView> {
    Seq::new(ciphers.len(), |i: int| ciphers[i].returned(n))
}

/// Whether every cipher can count `n` more bytes in the forward direction.
pub open spec fn all_forward_room(ciphers: Seq<CipherView>, n: nat) -> bool {
    forall|i: int| 0 <= i < ciphers.len() ==> (#[trigger] ciphers[i]).forward_room(n)
}

/// Whether every cipher can count `n` more bytes in the backward direction.
pub open spec fn all_backward_room(ciphers: Seq<CipherView>, n: nat) -> bool {
    forall|i: int| 0 <= i < ciphers.len() ==> (#[trigger] ciphers[i]).backward_room(n)
}

/// Puts a forward layer for each hop on the data, the last hop's first.
pub fn wrap(ciphers: &mut Vec<CipherPair>, data: &mut [u8])
    requires
        all_forward_room(ciphers_of(old(ciphers)@), old(data)@.len()),
    ensures
        final(data)@ == wrapped(ciphers_of(old(ciphers)@), old(data)@),
        final(data)@.len() == old(data)@.len(),
        ciphers_of(final(ciphers)@) == all_forwarded(
            ciphers_of(old(ciphers)@),
            old(data)@.len(),
        ),
{
    let ghost before = ciphers_of(ciphers@);
    let ghost plain = data@;
    let ghost n = data@.len();
    let mut i: usize = ciphers.len();
    proof {
        assert(before.take(i as int) =~= before);
    }
    while i > 0
        invariant
            i <= ciphers@.len(),
            ciphers@.len() == before.len(),
            data@.len() == n,
            all_forward_room(before, n),
            wrapped(before, plain) == wrapped(before.take(i as int), data@),
            forall|j: int| 0 <= j < i ==> (#[trigger] ciphers@[j])@ == before[j],
            forall|j: int|
                i <= j < before.len() ==> (#[trigger] ciphers@[j])@ == before[j].forwarded(n),
        decreases i,
    {
        i -= 1;
        proof {
            assert(ciphers@[i as int]@ == before[i as int]);
            assert(before.take(i as int + 1).drop_last() =~= before.take(i as int));
        }
        ciphers[i].apply_forward(data);
    }
    proof {
        assert(ciphers_of(ciphers@) =~= all_forwarded(before, n));
    }
}

/// Takes the backward layer of each hop off the data, the first hop's first.
pub fn unwrap_layers(ciphers: &mut Vec<CipherPair>, data: &mut [u8])
    requires
        all_backward_room(ciphers_of(old(ciphers)@), old(data)@.len()),
    ensures
        final(data)@ == unwrapped(ciphers_of(old(ciphers)@), old(data)@),
        final(data)@.len() == old(data)@.len(),
        ciphers_of(final(ciphers)@) == all_returned(ciphers_of(old(ciphers)@), old(data)@.len()),
{
    let ghost before = ciphers_of(ciphers@);
    let ghost sealed = data@;
    let ghost n = data@.len();
    let mut i: usize = 0;
    while i < ciphers.len()
        invariant
            i <= ciphers@.len(),
            ciphers@.len() == before.len(),
            data@.len() == n,
            all_backward_room(before, n),
            data@ == unwrapped(before.take(i as int), sealed),
            forall|j: int| i <= j < before.len() ==> (#[trigger] ciphers@[j])@ == before[j],
            forall|j: int| 0 <= j < i ==> (#[trigger] ciphers@[j])@ == before[j].returned(n),
        decreases ciphers@.len() - i,
    {
        proof {
            assert(ciphers@[i as int]@ == before[i as int]);
            assert(before.take(i as int + 1).drop_last() =~= before.take(i as int));
        }
        ciphers[i].apply_backward(data);
        i += 1;
    }
    proof {
        assert(before.take(i as int) =~= before);
        assert(ciphers_of(ciphers@) =~= all_returned(before, n));
    }
}

/// The keys of a circuit, from the entry relay to the exit relay, and the running digests that
/// the client shares with the exit relay.
pub struct OnionKeys {
    pub session_keys: Vec<SessionKey>,
    pub ciphers: Vec<CipherPair>,
    pub forward_digest: RunningDigest,
    pub backward_digest: RunningDigest,
}

/// The keys and ciphers of a circuit, and what each running digest has taken in.
#[verifier::ext_equal]
pub struct OnionView {
    pub session_keys: Seq<SessionKeyView>,
    pub ciphers: Seq<CipherView>,
    pub forward: Seq<u8>,
    pub backward: Seq<u8>,
}

impl View for OnionKeys {
    type V = OnionView;

    open spec fn view(&self) -> OnionView {
        OnionView {
            session_keys: keys_of(self.session_keys@),
            ciphers: ciphers_of(self.ciphers@),
            forward: self.forward_digest@,
            backward: self.backward_digest@,
        }
    }
}

impl OnionKeys {
    /// The keys of a circuit. The ciphers are those of the handshakes, so that their keystreams
    /// go on where the handshakes left them.
    pub fn new(session_keys: Vec<SessionKey>, ciphers: Vec<CipherPair>) -> (r: Self)
        ensures
            r@ == (OnionView {
                session_keys: keys_of(session_keys@),
                ciphers: ciphers_of(ciphers@),
                forward: Seq::empty(),
                backward: Seq::empty(),
            }),
    {
        Self {
            session_keys,
            ciphers,
            forward_digest: RunningDigest::new(),
            backward_digest: RunningDigest::new(),
        }
    }

    /// The keys of a circuit of three hops.
    pub fn from_parts(
        entry: SessionKey,
        middle: SessionKey,
        exit: SessionKey,
        entry_cipher: CipherPair,
        middle_cipher: CipherPair,
        exit_cipher: CipherPair,
    ) -> (r: Self)
        ensures
            r@ == (OnionView {
                session_keys: seq![entry@, middle@, exit@],
                ciphers: seq![entry_cipher@, middle_cipher@, exit_cipher@],
                forward: Seq::empty(),
                backward: Seq::empty(),
            }),
    {
        let mut session_keys: Vec<SessionKey> = Vec::new();
        session_keys.push(entry);
        session_keys.push(middle);
        session_keys.push(exit);
        let mut ciphers: Vec<CipherPair> = Vec::new();
        ciphers.push(entry_cipher);
        ciphers.push(middle_cipher);
        ciphers.push(exit_cipher);
        proof {
            assert(keys_of(session_keys@) =~= seq![entry@, middle@, exit@]);
            assert(ciphers_of(ciphers@) =~= seq![entry_cipher@, middle_cipher@, exit_cipher@]);
        }
        Self::new(session_keys, ciphers)
    }

    /// Puts all layers on data that goes to the exit relay.
    pub fn onion_encrypt(&mut self, data: &mut [u8])
        requires
            all_forward_room(old(self)@.ciphers, old(data)@.len()),
        ensures
            final(data)@ == wrapped(old(self)@.ciphers, old(data)@),
            final(data)@.len() == old(data)@.len(),
            final(self)@ == (OnionView {
                ciphers: all_forwarded(old(self)@.ciphers, old(data)@.len()),
                ..old(self)@
            }),
    {
        wrap(&mut self.ciphers, data);
    }

    /// Takes all layers off data that comes from the exit relay.
    pub fn onion_decrypt(&mut self, data: &mut [u8])
        requires
            all_backward_room(old(self)@.ciphers, old(data)@.len()),
        ensures
            final(data)@ == unwrapped(old(self)@.ciphers, old(data)@),
            final(data)@.len() == old(data)@.len(),
            final(self)@ == (OnionView {
                ciphers: all_returned(old(self)@.ciphers, old(data)@.len()),
                ..old(self)@
            }),
    {
        unwrap_layers(&mut self.ciphers, data);
    }
}

/// `data` after the relays of a circuit, from the first on, have each applied their forward
/// cipher.
pub open spec fn relayed_forward(ciphers: Seq<CipherView>, data: Seq<u8>) -> Seq<u8>
    decreases ciphers.len(),
{
    if ciphers.len() == 0 {
        data
    } else {
        ciphers.last().forward(relayed_forward(ciphers.drop_last(), data))
    }
}

/// `data` after the relays of a circuit, from the last on, have each applied their backward
/// cipher.
pub open spec fn relayed_backward(ciphers: Seq<CipherView>, data: Seq<u8>) -> Seq<u8>
    decreases ciphers.len(),
{
    if ciphers.len() == 0 {
        data
    } else {
        relayed_backward(ciphers.drop_last(), ciphers.last().backward(data))
    }
}

/// Layers do not change the length of the data.
pub proof fn layers_keep_the_length(ciphers: Seq<CipherView>, data: Seq<u8>)
    ensures
        wrapped(ciphers, data).len() == data.len(),
        unwrapped(ciphers, data).len() == data.len(),
        relayed_forward(ciphers, data).len() == data.len(),
        relayed_backward(ciphers, data).len() == data.len(),
    decreases ciphers.len(),
{
    if ciphers.len() > 0 {
        let last = ciphers.last();
        layers_keep_the_length(ciphers.drop_last(), data);
        layers_keep_the_length(ciphers.drop_last(), last.forward(data));
        layers_keep_the_length(ciphers.drop_last(), last.backward(data));
    }
}

/// What a client wraps for a circuit of any length arrives at its end: relays in step with the
/// client take off one layer each, and the last one sees the data.
pub proof fn wrapped_data_arrives(ciphers: Seq<CipherView>, data: Seq<u8>)
    ensures
        relayed_forward(ciphers, wrapped(ciphers, data)) == data,
    decreases ciphers.len(),
{
    if ciphers.len() > 0 {
        let last = ciphers.last();
        wrapped_data_arrives(ciphers.drop_last(), last.forward(data));
        cipher_pairs_undo_each_other(last, data);
    }
}

/// Along the way, the first `k` relays have taken off the first `k` layers and no others.
pub proof fn relays_take_off_their_layers(ciphers: Seq<CipherView>, data: Seq<u8>, k: int)
    requires
        0 <= k <= ciphers.len(),
    ensures
        relayed_forward(ciphers.take(k), wrapped(ciphers, data)) == wrapped(
            ciphers.skip(k),
            data,
        ),
    decreases ciphers.len(),
{
    if k == ciphers.len() {
        assert(ciphers.take(k) =~= ciphers);
        assert(ciphers.skip(k) =~= Seq::<CipherView>::empty());
        wrapped_data_arrives(ciphers, data);
    } else {
        let front = ciphers.drop_last();
        relays_take_off_their_layers(front, ciphers.last().forward(data), k);
        assert(ciphers.take(k) =~= front.take(k));
        assert(ciphers.skip(k).drop_last() =~= front.skip(k));
    }
}

/// What the exit relay sends back through a circuit of any length is what the client unwraps.
pub proof fn returned_data_arrives(ciphers: Seq<CipherView>, data: Seq<u8>)
    ensures
        unwrapped(ciphers, relayed_backward(ciphers, data)) == data,
    decreases ciphers.len(),
{
    if ciphers.len() > 0 {
        let last = ciphers.last();
        returned_data_arrives(ciphers.drop_last(), last.backward(data));
        cipher_pairs_undo_each_other(last, data);
    }
}

/// What goes through a circuit moves the cipher of every hop on by as many bytes, in that direction
/// and no other, and no hop comes or goes.
pub proof fn all_hops_move_on_alike(ciphers: Seq<CipherView>, n: nat, i: int)
    requires
        0 <= i < ciphers.len(),
    ensures
        all_forwarded(ciphers, n).len() == ciphers.len(),
        all_forwarded(ciphers, n)[i].key == ciphers[i].key,
        all_forwarded(ciphers, n)[i].forward_pos == ciphers[i].forward_pos + n,
        all_forwarded(ciphers, n)[i].backward_pos == ciphers[i].backward_pos,
        all_returned(ciphers, n).len() == ciphers.len(),
        all_returned(ciphers, n)[i].key == ciphers[i].key,
        all_returned(ciphers, n)[i].forward_pos == ciphers[i].forward_pos,
        all_returned(ciphers, n)[i].backward_pos == ciphers[i].backward_pos + n,
{
}

/// Every hop counts: with one more hop behind the others, the data comes out at that hop once the
/// others have taken off their layers, and what that hop sends back comes out of the layers of all.
/// Without hops the data stays as it is.
pub proof fn every_hop_has_its_layer(
    front: Seq<CipherView>,
    last: CipherView,
    data: Seq<u8>,
)
    ensures
        wrapped(Seq::empty(), data) == data,
        unwrapped(Seq::empty(), data) == data,
        last.forward(relayed_forward(front, wrapped(front.push(last), data))) == data,
        unwrapped(front.push(last), relayed_backward(front, last.backward(data))) == data,
{
    let all = front.push(last);
    assert(all.drop_last() =~= front);
    wrapped_data_arrives(all, data);
    returned_data_arrives(all, data);
}

}
