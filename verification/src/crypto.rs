//! Ciphers, digests and keys.

use crate::bytes::array16_at;
use crate::bytes::array4_at;
use crate::bytes::be_bytes;
use crate::bytes::be_bytes_len;
use crate::bytes::be_value_of_bytes;
use crate::bytes::push_be;
use crate::bytes::push_bytes;
use crate::bytes::same_bytes;
use crate::bytes::slice_vec;
use crate::text::dec_text;
use crate::text::push_dec;
use crate::types::PublicKey;
use aes::cipher::KeyIvInit;
use aes::cipher::StreamCipher;
use aes::cipher::StreamCipherSeek;
use hmac::Mac;
use rand::Rng;
use rand::TryRngCore;
use sha2::Digest;
use vstd::prelude::*;
use vstd::string::*;

verus! {

// ---------------------------------------------------------------------------------------------
// Primitives of the cryptographic crates.
// ---------------------------------------------------------------------------------------------

/// The byte at `position` of the AES-128-CTR keystream of a key and an initial counter block.
pub uninterp spec fn aes128_ctr_keystream(key: Seq<u8>, iv: Seq<u8>, position: int) -> u8;

/// `Ctr128BE::<Aes128>::apply_keystream` after `seek` to `position`: XORs the data with the
/// keystream of the key and the initial block, from that position on. A position of 128 bits
/// leaves more of the keystream than any slice is long, so the call never reaches its end.
#[verifier::external_body]
fn apply_aes128_ctr(key: &[u8; 16], iv: &[u8; 16], position: u128, data: &mut [u8])
    ensures
        final(data)@.len() == old(data)@.len(),
        forall|i: int|
            0 <= i < old(data)@.len() ==> #[trigger] final(data)@[i] == old(data)@[i]
                ^ aes128_ctr_keystream(key@, iv@, position + i),
{
    let mut cipher = ctr::Ctr128BE::<aes::Aes128>::new(key.into(), iv.into());
    cipher.seek(position);
    cipher.apply_keystream(data);
}

/// A SHA-256 computation in progress, held by `sha2::Sha256`. That is an alias of a generic type
/// whose parameters have no declaration here, so it stands in a private field.
#[verifier::external_body]
pub struct Sha256State {
    hasher: sha2::Sha256,
}

/// The bytes that a SHA-256 computation has taken in.
pub uninterp spec fn sha256_absorbed(state: Sha256State) -> Seq<u8>;

/// The SHA-256 hash of a byte string.
pub uninterp spec fn sha256_hash(data: Seq<u8>) -> Seq<u8>;

/// `Sha256::new`: a computation that has taken in nothing.
#[verifier::external_body]
fn sha256_start() -> (state: Sha256State)
    ensures
        sha256_absorbed(state) == Seq::<u8>::empty(),
{
    Sha256State { hasher: sha2::Sha256::new() }
}

/// `Sha256::update`: takes in the data behind what was taken in before.
#[verifier::external_body]
fn sha256_absorb(state: &mut Sha256State, data: &[u8])
    ensures
        sha256_absorbed(*final(state)) == sha256_absorbed(*old(state)) + data@,
{
    state.hasher.update(data);
}

/// `Sha256::finalize` on a copy: the hash of what was taken in so far.
#[verifier::external_body]
fn sha256_snapshot(state: &Sha256State) -> (hash: [u8; 32])
    ensures
        hash@ == sha256_hash(sha256_absorbed(*state)),
{
    state.hasher.clone().finalize().into()
}

/// The HMAC-SHA256 tag of a message under a key.
pub uninterp spec fn hmac_sha256_tag(key: Seq<u8>, data: Seq<u8>) -> Seq<u8>;

/// `Hmac::<Sha256>`: the tag of `data` under `key`, which may have any length.
#[verifier::external_body]
pub(crate) fn hmac_sha256(key: &[u8], data: &[u8]) -> (tag: [u8; 32])
    ensures
        tag@ == hmac_sha256_tag(key@, data@),
{
    let mut mac = <hmac::Hmac<sha2::Sha256> as Mac>::new_from_slice(key).expect("any length");
    mac.update(data);
    mac.finalize().into_bytes().into()
}

/// The X25519 shared secret of a secret key and a public key.
pub uninterp spec fn x25519_shared(secret: Seq<u8>, public: Seq<u8>) -> Seq<u8>;

/// The X25519 public key of a secret key.
pub uninterp spec fn x25519_public(secret: Seq<u8>) -> Seq<u8>;

/// `StaticSecret::diffie_hellman`: the shared secret, without any hashing.
#[verifier::external_body]
pub(crate) fn raw_dh_static(secret_bytes: &[u8; 32], their_public: &[u8; 32]) -> (shared: [u8; 32])
    ensures
        shared@ == x25519_shared(secret_bytes@, their_public@),
{
    let secret = tor_llcrypto::pk::curve25519::StaticSecret::from(*secret_bytes);
    let public = tor_llcrypto::pk::curve25519::PublicKey::from(*their_public);
    *secret.diffie_hellman(&public).as_bytes()
}

/// `PublicKey::from(&StaticSecret)`: the public key of a secret key. Two parties that have
/// exchanged public keys compute the same shared secret, each with its own secret key.
#[verifier::external_body]
pub(crate) fn public_of(secret_bytes: &[u8; 32]) -> (public: [u8; 32])
    ensures
        public@ == x25519_public(secret_bytes@),
        forall|other: Seq<u8>|
            other.len() == 32 ==> #[trigger] x25519_shared(other, public@) == x25519_shared(
                secret_bytes@,
                x25519_public(other),
            ),
{
    let secret = tor_llcrypto::pk::curve25519::StaticSecret::from(*secret_bytes);
    tor_llcrypto::pk::curve25519::PublicKey::from(&secret).to_bytes()
}

/// `StaticSecret::random_from_rng` with the system's random source: any secret key may come.
#[verifier::external_body]
pub(crate) fn random_secret() -> (secret: [u8; 32])
{
    let rng = rand::rngs::OsRng.unwrap_err();
    tor_llcrypto::pk::curve25519::StaticSecret::random_from_rng(rng).to_bytes()
}

/// `rand::rng().fill`: any block may come.
#[verifier::external_body]
fn random_block() -> (block: [u8; 16])
{
    let mut block = [0u8; 16];
    rand::rng().fill(&mut block);
    block
}

// ---------------------------------------------------------------------------------------------
// Session keys.
// ---------------------------------------------------------------------------------------------

/// The two AES-128 keys of one hop: one for each direction.
#[derive(Debug, Clone, Copy, PartialEq, Eq)]
pub struct SessionKey {
    pub forward: [u8; 16],
    pub backward: [u8; 16],
}

/// The bytes of a session key.
#[verifier::ext_equal]
pub struct SessionKeyView {
    pub forward: Seq<u8>,
    pub backward: Seq<u8>,
}

impl View for SessionKey {
    type V = SessionKeyView;

    open spec fn view(&self) -> SessionKeyView {
        SessionKeyView { forward: self.forward@, backward: self.backward@ }
    }
}

impl SessionKeyView {
    /// The key whose forward half is the first 16 bytes, and whose backward half the last 16.
    pub open spec fn split(bytes: Seq<u8>) -> SessionKeyView {
        SessionKeyView { forward: bytes.subrange(0, 16), backward: bytes.subrange(16, 32) }
    }
}

impl SessionKey {
    /// The key with these halves.
    pub fn new(forward: [u8; 16], backward: [u8; 16]) -> (r: Self)
        ensures
            r.forward == forward,
            r.backward == backward,
    {
        Self { forward, backward }
    }

    /// The key made of the two halves of a shared secret.
    pub fn from_shared(shared: &[u8; 32]) -> (r: Self)
        ensures
            r@ == SessionKeyView::split(shared@),
    {
        let forward = array16_at(shared.as_slice(), 0);
        let backward = array16_at(shared.as_slice(), 16);
        Self { forward, backward }
    }

    /// The forward half followed by the backward half.
    pub fn to_bytes(&self) -> (r: [u8; 32])
        ensures
            r@ == self@.forward + self@.backward,
    {
        let mut bytes = [0u8; 32];
        let mut i: usize = 0;
        while i < 16
            invariant
                i <= 16,
                forall|j: int| 0 <= j < i ==> bytes@[j] == self.forward@[j],
                forall|j: int| 0 <= j < i ==> bytes@[16 + j] == self.backward@[j],
            decreases 16 - i,
        {
            bytes[i] = self.forward[i];
            bytes[16 + i] = self.backward[i];
            i += 1;
        }
        proof {
            assert forall|j: int| 0 <= j < 32 implies bytes@[j] == (self@.forward
                + self@.backward)[j] by {
                if j >= 16 {
                    assert(bytes@[16 + (j - 16)] == self.backward@[j - 16]);
                }
            }
            assert(bytes@ =~= self@.forward + self@.backward);
        }
        bytes
    }

    /// The key that `to_bytes` wrote.
    pub fn from_bytes(bytes: &[u8; 32]) -> (r: Self)
        ensures
            r@ == SessionKeyView::split(bytes@),
    {
        Self::from_shared(bytes)
    }

    /// The key of zeros.
    pub fn zero() -> (r: Self)
        ensures
            r@.forward == Seq::new(16, |i: int| 0u8),
            r@.backward == Seq::new(16, |i: int| 0u8),
    {
        let r = Self { forward: [0u8; 16], backward: [0u8; 16] };
        proof {
            assert(r.forward@ =~= Seq::new(16, |i: int| 0u8));
            assert(r.backward@ =~= Seq::new(16, |i: int| 0u8));
        }
        r
    }
}

impl Default for SessionKey {
    fn default() -> (r: Self)
        ensures
            r@.forward == Seq::new(16, |i: int| 0u8),
            r@.backward == Seq::new(16, |i: int| 0u8),
    {
        Self::zero()
    }
}

/// The session key of a shared secret.
pub fn derive_session_key(shared_secret: &[u8; 32]) -> (r: SessionKey)
    ensures
        r@ == SessionKeyView::split(shared_secret@),
{
    SessionKey::from_shared(shared_secret)
}

/// The bytes of a session key read back as that key, and the bytes of a key read from 32 bytes
/// are those 32 bytes.
pub proof fn session_key_bytes_read_back(key: SessionKeyView, bytes: Seq<u8>)
    requires
        key.forward.len() == 16,
        key.backward.len() == 16,
        bytes.len() == 32,
    ensures
        SessionKeyView::split(key.forward + key.backward) == key,
        SessionKeyView::split(bytes).forward + SessionKeyView::split(bytes).backward == bytes,
{
    assert(SessionKeyView::split(key.forward + key.backward).forward =~= key.forward);
    assert(SessionKeyView::split(key.forward + key.backward).backward =~= key.backward);
    assert(SessionKeyView::split(bytes).forward + SessionKeyView::split(bytes).backward =~= bytes);
}

// ---------------------------------------------------------------------------------------------
// Stream ciphers.
// ---------------------------------------------------------------------------------------------

/// `data` XORed with the keystream from `position` on.
pub open spec fn ctr_xor(key: Seq<u8>, iv: Seq<u8>, position: int, data: Seq<u8>) -> Seq<u8> {
    Seq::new(data.len(), |i: int| data[i] ^ aes128_ctr_keystream(key, iv, position + i))
}

/// XORing twice with the same stretch of keystream gives the data back.
pub proof fn ctr_xor_twice(key: Seq<u8>, iv: Seq<u8>, position: int, data: Seq<u8>)
    ensures
        ctr_xor(key, iv, position, ctr_xor(key, iv, position, data)) == data,
{
    let once = ctr_xor(key, iv, position, data);
    assert forall|i: int| 0 <= i < data.len() implies ctr_xor(key, iv, position, once)[i]
        == data[i] by {
        let d = data[i];
        let k = aes128_ctr_keystream(key, iv, position + i);
        assert((d ^ k) ^ k == d) by (bit_vector);
    }
    assert(ctr_xor(key, iv, position, once) =~= data);
}

/// Data may be passed through the keystream in one piece or in two.
pub proof fn ctr_xor_in_pieces(key: Seq<u8>, iv: Seq<u8>, position: int, a: Seq<u8>, b: Seq<u8>)
    ensures
        ctr_xor(key, iv, position, a + b) == ctr_xor(key, iv, position, a) + ctr_xor(
            key,
            iv,
            position + a.len(),
            b,
        ),
{
    assert(ctr_xor(key, iv, position, a + b) =~= ctr_xor(key, iv, position, a) + ctr_xor(
        key,
        iv,
        position + a.len(),
        b,
    ));
}

/// The initial block of a circuit's ciphers: zeros.
pub open spec fn zero_iv() -> Seq<u8> {
    Seq::new(16, |i: int| 0u8)
}

/// The keys of a cipher pair, and how much of each keystream it has used.
#[verifier::ext_equal]
pub struct CipherView {
    pub key: SessionKeyView,
    pub forward_pos: nat,
    pub backward_pos: nat,
}

impl CipherView {
    /// The pair of a session key, with nothing used.
    pub open spec fn fresh(key: SessionKeyView) -> CipherView {
        CipherView { key, forward_pos: 0, backward_pos: 0 }
    }

    /// What `data` becomes in the forward direction.
    pub open spec fn forward(self, data: Seq<u8>) -> Seq<u8> {
        ctr_xor(self.key.forward, zero_iv(), self.forward_pos as int, data)
    }

    /// What `data` becomes in the backward direction.
    pub open spec fn backward(self, data: Seq<u8>) -> Seq<u8> {
        ctr_xor(self.key.backward, zero_iv(), self.backward_pos as int, data)
    }

    /// The pair after `n` more bytes in the forward direction.
    pub open spec fn forwarded(self, n: nat) -> CipherView {
        CipherView { forward_pos: self.forward_pos + n, ..self }
    }

    /// The pair after `n` more bytes in the backward direction.
    pub open spec fn returned(self, n: nat) -> CipherView {
        CipherView { backward_pos: self.backward_pos + n, ..self }
    }

    /// Whether `n` more bytes can be counted in the forward direction.
    pub open spec fn forward_room(self, n: nat) -> bool {
        self.forward_pos + n <= u128::MAX
    }

    /// Whether `n` more bytes can be counted in the backward direction.
    pub open spec fn backward_room(self, n: nat) -> bool {
        self.backward_pos + n <= u128::MAX
    }
}

/// A stateful cipher: each call goes on in the keystream where the last one stopped.
pub trait StatefulCipher {
    /// The keys and positions of the cipher.
    spec fn state(&self) -> CipherView;

    /// Applies the forward keystream in place.
    fn apply_forward(&mut self, data: &mut [u8])
        requires
            old(self).state().forward_room(old(data)@.len()),
        ensures
            final(data)@ == old(self).state().forward(old(data)@),
            final(self).state() == old(self).state().forwarded(old(data)@.len()),
    ;

    /// Applies the backward keystream in place.
    fn apply_backward(&mut self, data: &mut [u8])
        requires
            old(self).state().backward_room(old(data)@.len()),
        ensures
            final(data)@ == old(self).state().backward(old(data)@),
            final(self).state() == old(self).state().returned(old(data)@.len()),
    ;
}

/// The AES-128-CTR ciphers of one hop, one for each direction.
pub struct CipherPair {
    key: SessionKey,
    forward_pos: u128,
    backward_pos: u128,
}

impl View for CipherPair {
    type V = CipherView;

    closed spec fn view(&self) -> CipherView {
        CipherView {
            key: self.key@,
            forward_pos: self.forward_pos as nat,
            backward_pos: self.backward_pos as nat,
        }
    }
}

fn zero_block() -> (r: [u8; 16])
    ensures
        r@ == zero_iv(),
{
    let r = [0u8; 16];
    proof {
        assert(r@ =~= zero_iv());
    }
    r
}

impl CipherPair {
    /// The cipher pair of a session key.
    pub fn new(key: &SessionKey) -> (r: Self)
        ensures
            r@ == CipherView::fresh(key@),
    {
        Self { key: *key, forward_pos: 0, backward_pos: 0 }
    }

    /// Applies the forward keystream in place.
    pub fn apply_forward(&mut self, data: &mut [u8])
        requires
            old(self)@.forward_room(old(data)@.len()),
        ensures
            final(data)@ == old(self)@.forward(old(data)@),
            final(self)@ == old(self)@.forwarded(old(data)@.len()),
    {
        let ghost before = data@;
        apply_aes128_ctr(&self.key.forward, &zero_block(), self.forward_pos, data);
        proof {
            assert(data@ =~= self@.forward(before));
        }
        self.forward_pos = self.forward_pos + data.len() as u128;
    }

    /// Applies the backward keystream in place.
    pub fn apply_backward(&mut self, data: &mut [u8])
        requires
            old(self)@.backward_room(old(data)@.len()),
        ensures
            final(data)@ == old(self)@.backward(old(data)@),
            final(self)@ == old(self)@.returned(old(data)@.len()),
    {
        let ghost before = data@;
        apply_aes128_ctr(&self.key.backward, &zero_block(), self.backward_pos, data);
        proof {
            assert(data@ =~= self@.backward(before));
        }
        self.backward_pos = self.backward_pos + data.len() as u128;
    }

    /// Whether `n` more bytes can be counted in both directions.
    pub fn has_room(&self, n: usize) -> (r: bool)
        ensures
            r == (self@.forward_room(n as nat) && self@.backward_room(n as nat)),
    {
        self.forward_pos <= u128::MAX - n as u128 && self.backward_pos <= u128::MAX - n as u128
    }

    /// The data as it leaves in the forward direction.
    pub fn forward_vec(&mut self, data: &[u8]) -> (r: Vec<u8>)
        requires
            old(self)@.forward_room(data@.len()),
        ensures
            r@ == old(self)@.forward(data@),
            final(self)@ == old(self)@.forwarded(data@.len()),
    {
        let mut r = slice_vec(data, 0, data.len());
        proof {
            assert(r@ =~= data@);
        }
        self.apply_forward(r.as_mut_slice());
        r
    }

    /// The data as it leaves in the backward direction.
    pub fn backward_vec(&mut self, data: &[u8]) -> (r: Vec<u8>)
        requires
            old(self)@.backward_room(data@.len()),
        ensures
            r@ == old(self)@.backward(data@),
            final(self)@ == old(self)@.returned(data@.len()),
    {
        let mut r = slice_vec(data, 0, data.len());
        proof {
            assert(r@ =~= data@);
        }
        self.apply_backward(r.as_mut_slice());
        r
    }
}

impl StatefulCipher for CipherPair {
    open spec fn state(&self) -> CipherView {
        self@
    }

    fn apply_forward(&mut self, data: &mut [u8]) {
        CipherPair::apply_forward(self, data);
    }

    fn apply_backward(&mut self, data: &mut [u8]) {
        CipherPair::apply_backward(self, data);
    }
}

/// There is always room for nothing.
pub proof fn cipher_room_for_nothing(pair: CipherPair)
    ensures
        pair@.forward_room(0),
        pair@.backward_room(0),
{
}

/// Two cipher pairs in the same state undo each other in either direction, and stay in the same
/// state.
pub proof fn cipher_pairs_undo_each_other(c: CipherView, data: Seq<u8>)
    ensures
        c.forward(c.forward(data)) == data,
        c.backward(c.backward(data)) == data,
        c.forward(data).len() == data.len(),
        c.backward(data).len() == data.len(),
        c.forwarded(data.len()) == c.forwarded(c.forward(data).len()),
        c.returned(data.len()) == c.returned(c.backward(data).len()),
{
    ctr_xor_twice(c.key.forward, zero_iv(), c.forward_pos as int, data);
    ctr_xor_twice(c.key.backward, zero_iv(), c.backward_pos as int, data);
}

/// A cipher pair goes on where it stopped: two pieces one after the other come out as the whole.
pub proof fn cipher_pairs_continue(c: CipherView, a: Seq<u8>, b: Seq<u8>)
    ensures
        c.forward(a + b) == c.forward(a) + c.forwarded(a.len()).forward(b),
        c.backward(a + b) == c.backward(a) + c.returned(a.len()).backward(b),
{
    ctr_xor_in_pieces(c.key.forward, zero_iv(), c.forward_pos as int, a, b);
    ctr_xor_in_pieces(c.key.backward, zero_iv(), c.backward_pos as int, a, b);
}

// ---------------------------------------------------------------------------------------------
// Sealed messages with their own initial block.
// ---------------------------------------------------------------------------------------------

/// `data` encrypted with the initial block `iv`, which stands in front.
pub open spec fn aes_sealed(data: Seq<u8>, key: Seq<u8>, iv: Seq<u8>) -> Seq<u8> {
    iv + ctr_xor(key, iv, 0, data)
}

/// What decrypting gives, or why it cannot be done.
pub open spec fn aes_opened(data: Seq<u8>, key: Seq<u8>) -> Result<Seq<u8>, Seq<char>> {
    if data.len() < 16 {
        Err("Invalid ciphertext: length "@ + dec_text(data.len()) + " is too short (min 16)"@)
    } else {
        Ok(ctr_xor(key, data.take(16), 0, data.skip(16)))
    }
}

/// Encrypts `data` with the given initial block.
pub fn aes_encrypt_with(data: &[u8], key: &[u8; 16], iv: &[u8; 16]) -> (r: Vec<u8>)
    ensures
        r@ == aes_sealed(data@, key@, iv@),
{
    let mut text = slice_vec(data, 0, data.len());
    proof {
        assert(text@ =~= data@);
    }
    apply_aes128_ctr(key, iv, 0, text.as_mut_slice());
    let mut r: Vec<u8> = Vec::new();
    push_bytes(&mut r, iv.as_slice());
    push_bytes(&mut r, text.as_slice());
    proof {
        assert(text@ =~= ctr_xor(key@, iv@, 0, data@));
        assert(r@ =~= aes_sealed(data@, key@, iv@));
    }
    r
}

/// Encrypts `data` with a random initial block, which stands in front.
pub fn aes_encrypt(data: &[u8], key: &[u8; 16]) -> (r: Vec<u8>)
    ensures
        r@.len() == 16 + data@.len(),
        r@ == aes_sealed(data@, key@, r@.take(16)),
        aes_opened(r@, key@) == Ok::<Seq<u8>, Seq<char>>(data@),
{
    let iv = random_block();
    let r = aes_encrypt_with(data, key, &iv);
    proof {
        assert(r@.take(16) =~= iv@);
        aes_opens_what_it_sealed(data@, key@, iv@);
    }
    r
}

/// Decrypts what `aes_encrypt` made. Data without room for an initial block is refused.
pub fn aes_decrypt(data: &[u8], key: &[u8; 16]) -> (r: Result<Vec<u8>, String>)
    ensures
        match r {
            Ok(text) => aes_opened(data@, key@) == Ok::<Seq<u8>, Seq<char>>(text@),
            Err(e) => aes_opened(data@, key@) == Err::<Seq<u8>, Seq<char>>(e@),
        },
{
    if data.len() < 16 {
        let mut e = "Invalid ciphertext: length ".to_owned();
        push_dec(&mut e, data.len() as u64);
        e.append(" is too short (min 16)");
        return Err(e);
    }
    let iv = array16_at(data, 0);
    let mut text = slice_vec(data, 16, data.len());
    proof {
        assert(iv@ =~= data@.take(16));
        assert(text@ =~= data@.skip(16));
    }
    apply_aes128_ctr(key, &iv, 0, text.as_mut_slice());
    proof {
        assert(text@ =~= ctr_xor(key@, data@.take(16), 0, data@.skip(16)));
    }
    Ok(text)
}

/// Decrypting gives back what was encrypted, whatever the initial block.
pub proof fn aes_opens_what_it_sealed(data: Seq<u8>, key: Seq<u8>, iv: Seq<u8>)
    requires
        iv.len() == 16,
    ensures
        aes_opened(aes_sealed(data, key, iv), key) == Ok::<Seq<u8>, Seq<char>>(data),
        aes_sealed(data, key, iv).len() == 16 + data.len(),
{
    let sealed = aes_sealed(data, key, iv);
    assert(sealed.take(16) =~= iv);
    assert(sealed.skip(16) =~= ctr_xor(key, iv, 0, data));
    ctr_xor_twice(key, iv, 0, data);
}

// ---------------------------------------------------------------------------------------------
// Digests.
// ---------------------------------------------------------------------------------------------

/// The SHA-256 hash of `data`.
pub fn sha256(data: &[u8]) -> (hash: [u8; 32])
    ensures
        hash@ == sha256_hash(data@),
{
    let mut state = sha256_start();
    sha256_absorb(&mut state, data);
    proof {
        assert(Seq::<u8>::empty() + data@ =~= data@);
    }
    sha256_snapshot(&state)
}

/// What a cell adds to a running digest: its stream, its command and its data.
pub open spec fn digest_input(stream_id: u16, command: u8, data: Seq<u8>) -> Seq<u8> {
    be_bytes(stream_id as nat, 2) + seq![command] + data
}

/// The tag of a running digest: the first four bytes of the hash of all it has taken in.
pub open spec fn digest_tag(absorbed: Seq<u8>) -> Seq<u8> {
    sha256_hash(absorbed).subrange(0, 4)
}

/// A running SHA-256 digest over the cells of one direction of a circuit.
pub struct RunningDigest {
    state: Sha256State,
}

impl View for RunningDigest {
    type V = Seq<u8>;

    closed spec fn view(&self) -> Seq<u8> {
        sha256_absorbed(self.state)
    }
}

impl RunningDigest {
    /// A digest over no cells.
    pub fn new() -> (r: Self)
        ensures
            r@ == Seq::<u8>::empty(),
    {
        Self { state: sha256_start() }
    }

    /// Takes in a cell and gives the tag of the digest after it.
    pub fn update(&mut self, stream_id: u16, command: u8, data: &[u8]) -> (tag: [u8; 4])
        ensures
            final(self)@ == old(self)@ + digest_input(stream_id, command, data@),
            tag@ == digest_tag(final(self)@),
    {
        let ghost before = self@;
        let mut head: Vec<u8> = Vec::new();
        push_be(&mut head, stream_id as u128, 2);
        sha256_absorb(&mut self.state, head.as_slice());
        let command_byte = [command];
        sha256_absorb(&mut self.state, command_byte.as_slice());
        sha256_absorb(&mut self.state, data);
        proof {
            assert(head@ =~= be_bytes(stream_id as nat, 2));
            assert(command_byte@ =~= seq![command]);
            assert(self@ =~= before + digest_input(stream_id, command, data@));
        }
        let hash = sha256_snapshot(&self.state);
        array4_at(hash.as_slice(), 0)
    }

    /// Takes in a cell and tells whether `expected` is the tag of the digest after it.
    pub fn verify(&mut self, stream_id: u16, command: u8, data: &[u8], expected: [u8; 4]) -> (r:
        bool)
        ensures
            final(self)@ == old(self)@ + digest_input(stream_id, command, data@),
            r == (expected@ == digest_tag(final(self)@)),
    {
        let computed = self.update(stream_id, command, data);
        same_bytes(computed.as_slice(), expected.as_slice())
    }
}

impl Default for RunningDigest {
    fn default() -> (r: Self)
        ensures
            r@ == Seq::<u8>::empty(),
    {
        Self::new()
    }
}

/// The fields of a cell that a running digest takes in.
pub struct DigestedCell {
    pub stream_id: u16,
    pub command: u8,
    pub data: Seq<u8>,
}

/// What a running digest has taken in after some more cells.
pub open spec fn absorbed_after(absorbed: Seq<u8>, cells: Seq<DigestedCell>) -> Seq<u8>
    decreases cells.len(),
{
    if cells.len() == 0 {
        absorbed
    } else {
        let last = cells.last();
        absorbed_after(absorbed, cells.drop_last()) + digest_input(
            last.stream_id,
            last.command,
            last.data,
        )
    }
}

/// Two running digests that start alike stay alike as long as they take in the same cells: after
/// any number of them the receiver finds the tag that the sender put on the next one.
pub proof fn running_digests_stay_in_step(
    sender: Seq<u8>,
    receiver: Seq<u8>,
    cells: Seq<DigestedCell>,
    next: DigestedCell,
)
    requires
        sender == receiver,
    ensures
        absorbed_after(sender, cells) == absorbed_after(receiver, cells),
        digest_tag(absorbed_after(sender, cells.push(next))) == digest_tag(
            absorbed_after(receiver, cells) + digest_input(next.stream_id, next.command, next.data),
        ),
{
    assert(cells.push(next).drop_last() =~= cells);
}

// ---------------------------------------------------------------------------------------------
// Key pairs.
// ---------------------------------------------------------------------------------------------

/// Whether the two are the secret and the public half of one X25519 key pair: whoever knows
/// another secret key and the public half reaches the same shared secret as whoever knows the
/// secret half and the other public key.
pub open spec fn is_key_pair(secret: Seq<u8>, public: Seq<u8>) -> bool {
    &&& secret.len() == 32
    &&& public == x25519_public(secret)
    &&& forall|other: Seq<u8>|
        other.len() == 32 ==> #[trigger] x25519_shared(other, public) == x25519_shared(
            secret,
            x25519_public(other),
        )
}

/// A key pair for one Diffie-Hellman exchange.
pub struct EphemeralKeyPair {
    pub public: PublicKey,
    secret: [u8; 32],
}

impl EphemeralKeyPair {
    /// The secret half.
    pub closed spec fn secret_key(&self) -> Seq<u8> {
        self.secret@
    }

    /// The public half.
    pub closed spec fn public_key(&self) -> Seq<u8> {
        self.public@
    }

    /// The two halves belong together.
    pub open spec fn wf(&self) -> bool {
        is_key_pair(self.secret_key(), self.public_key())
    }

    /// The key pair of a secret key.
    pub fn from_secret(secret: [u8; 32]) -> (r: Self)
        ensures
            r.wf(),
            r.secret_key() == secret@,
    {
        let public = PublicKey { bytes: public_of(&secret) };
        Self { public, secret }
    }

    /// A random key pair.
    pub fn generate() -> (r: Self)
        ensures
            r.wf(),
    {
        Self::from_secret(random_secret())
    }

    /// The SHA-256 hash of the secret shared with the owner of `their_public`.
    pub fn diffie_hellman(self, their_public: &[u8; 32]) -> (r: [u8; 32])
        ensures
            r@ == sha256_hash(x25519_shared(self.secret_key(), their_public@)),
    {
        let shared = raw_dh_static(&self.secret, their_public);
        sha256(shared.as_slice())
    }
}

/// Two owners of key pairs who exchange public keys reach the same hashed secret.
pub proof fn diffie_hellman_agrees(a: EphemeralKeyPair, b: EphemeralKeyPair)
    requires
        a.wf(),
        b.wf(),
    ensures
        sha256_hash(x25519_shared(a.secret_key(), b.public_key())) == sha256_hash(
            x25519_shared(b.secret_key(), a.public_key()),
        ),
{
    assert(x25519_shared(a.secret_key(), b.public_key()) == x25519_shared(
        b.secret_key(),
        x25519_public(a.secret_key()),
    ));
}

/// A running digest tells cells apart: two cells that add the same to it have the same stream, the
/// same command and the same data.
pub proof fn digests_cover_the_whole_cell(a: DigestedCell, b: DigestedCell)
    requires
        digest_input(a.stream_id, a.command, a.data) == digest_input(
            b.stream_id,
            b.command,
            b.data,
        ),
    ensures
        a.stream_id == b.stream_id,
        a.command == b.command,
        a.data == b.data,
{
    let x = digest_input(a.stream_id, a.command, a.data);
    let y = digest_input(b.stream_id, b.command, b.data);
    be_bytes_len(a.stream_id as nat, 2);
    be_bytes_len(b.stream_id as nat, 2);
    be_value_of_bytes(a.stream_id as nat, 2);
    be_value_of_bytes(b.stream_id as nat, 2);
    assert(x.subrange(0, 2) =~= be_bytes(a.stream_id as nat, 2));
    assert(y.subrange(0, 2) =~= be_bytes(b.stream_id as nat, 2));
    assert(x[2] == a.command && y[2] == b.command);
    assert(x.skip(3) =~= a.data);
    assert(y.skip(3) =~= b.data);
}

/// A cipher keeps its two directions apart: what passes in one direction moves its own keystream
/// on by as many bytes, and leaves the key and the other keystream where they are. Nothing is lost
/// and nothing is added on the way.
pub proof fn directions_do_not_meet(c: CipherView, data: Seq<u8>)
    ensures
        c.forward(data).len() == data.len(),
        c.backward(data).len() == data.len(),
        c.forwarded(data.len()).key == c.key,
        c.forwarded(data.len()).forward_pos == c.forward_pos + data.len(),
        c.forwarded(data.len()).backward_pos == c.backward_pos,
        c.returned(data.len()).key == c.key,
        c.returned(data.len()).forward_pos == c.forward_pos,
        c.returned(data.len()).backward_pos == c.backward_pos + data.len(),
        c.returned(data.len()).forward(data) == c.forward(data),
        c.forwarded(data.len()).backward(data) == c.backward(data),
{
}

/// A session key is made of all of the shared secret, the first half of it for one direction and
/// the second half for the other: two secrets with the same key are the same.
pub proof fn session_keys_hold_the_secret(a: Seq<u8>, b: Seq<u8>)
    requires
        a.len() == 32,
        b.len() == 32,
        SessionKeyView::split(a) == SessionKeyView::split(b),
    ensures
        a == b,
        forall|i: int| 0 <= i < 16 ==> SessionKeyView::split(a).forward[i] == #[trigger] a[i],
        forall|i: int|
            16 <= i < 32 ==> SessionKeyView::split(a).backward[i - 16] == #[trigger] a[i],
        SessionKeyView::split(a).forward.len() == 16,
        SessionKeyView::split(a).backward.len() == 16,
{
    session_key_bytes_read_back(SessionKeyView::split(a), a);
    session_key_bytes_read_back(SessionKeyView::split(b), b);
}

/// The tag of a cell is the start of the hash of everything that came before it and of the cell
/// itself: where these hashes start differently, so do the tags.
pub proof fn tags_start_the_hash(absorbed: Seq<u8>, i: int)
    requires
        sha256_hash(absorbed).len() == 32,
        0 <= i < 4,
    ensures
        digest_tag(absorbed).len() == 4,
        digest_tag(absorbed)[i] == sha256_hash(absorbed)[i],
{
}

/// Fresh ciphers start at the start of their keystreams, each of them under its own half of the
/// session key, from an initial block of zeros.
pub proof fn fresh_ciphers_start_at_the_start(key: SessionKeyView, data: Seq<u8>, i: int)
    requires
        0 <= i < data.len(),
    ensures
        ({
            let zeros = Seq::new(16, |j: int| 0u8);
            let c = CipherView::fresh(key);
            &&& c.forward(data)[i] == data[i] ^ aes128_ctr_keystream(key.forward, zeros, i)
            &&& c.backward(data)[i] == data[i] ^ aes128_ctr_keystream(key.backward, zeros, i)
        }),
{
    assert(zero_iv() =~= Seq::new(16, |j: int| 0u8));
}

/// What is sealed has its initial block in front, and behind it the data under the keystream that
/// starts from that block.
pub proof fn sealed_data_follows_its_initial_block(
    data: Seq<u8>,
    key: Seq<u8>,
    iv: Seq<u8>,
    i: int,
)
    requires
        iv.len() == 16,
        0 <= i < data.len(),
    ensures
        aes_sealed(data, key, iv).take(16) == iv,
        aes_sealed(data, key, iv)[16 + i] == data[i] ^ aes128_ctr_keystream(key, iv, i),
        aes_opened(iv, key) == Ok::<Seq<u8>, Seq<char>>(Seq::empty()),
        aes_opened(iv.take(15), key) is Err,
{
    assert(aes_sealed(data, key, iv).take(16) =~= iv);
    assert(aes_opened(iv, key)->Ok_0 =~= Seq::<u8>::empty());
}

}
