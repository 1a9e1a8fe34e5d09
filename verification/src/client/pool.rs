//! The circuits that a client keeps ready, and what happens when one fails.

use crate::client::circuit::Circuit;
use crate::client::circuit::CircuitState;
use crate::client::circuit::CircuitView;
use crate::client::metrics::EventContent;
use crate::client::metrics::EventKind;
use crate::metrics::Elapsed;
use crate::protocol::CircuitId;
use crate::text::dec_text;
use crate::text::push_dec;
use std::collections::hash_map::Entry;
use std::collections::HashMap;
use std::collections::HashSet;
use vstd::arithmetic::power2::lemma2_to64;
use vstd::arithmetic::power2::lemma_pow2_strictly_increases;
use vstd::arithmetic::power2::pow2;
use vstd::prelude::*;
use vstd::std_specs::iter::IteratorSpec;
use vstd::string::*;

verus! {

/// The circuits of a client.
pub struct CircuitPool {
    circuits: HashMap<CircuitId, Circuit>,
    next_circuit_id: CircuitId,
    pool_size: usize,
    hop_count: usize,
    max_rebuild_attempts: usize,
    rebuild_failure_counts: HashMap<CircuitId, usize>,
    abandoned_slots: HashSet<CircuitId>,
}

/// The state of a pool: its circuits, the next number to give out, its settings, how often in a
/// row the replacement of a circuit failed, and the circuits that are not replaced any more.
#[verifier::ext_equal]
pub struct PoolView {
    pub circuits: Map<CircuitId, CircuitView>,
    pub next_circuit_id: CircuitId,
    pub pool_size: usize,
    pub hop_count: usize,
    pub max_rebuild_attempts: usize,
    pub failures: Map<CircuitId, usize>,
    pub abandoned: Set<CircuitId>,
}

/// The states of some circuits.
pub open spec fn circuits_of(m: Map<CircuitId, Circuit>) -> Map<CircuitId, CircuitView> {
    m.map_values(|c: Circuit| c@)
}

impl View for CircuitPool {
    type V = PoolView;

    closed spec fn view(&self) -> PoolView {
        PoolView {
            circuits: circuits_of(self.circuits@),
            next_circuit_id: self.next_circuit_id,
            pool_size: self.pool_size,
            hop_count: self.hop_count,
            max_rebuild_attempts: self.max_rebuild_attempts,
            failures: self.rebuild_failure_counts@,
            abandoned: self.abandoned_slots@,
        }
    }
}

impl PoolView {
    /// How often in a row the replacement of a circuit failed.
    pub open spec fn failure_count(self, id: CircuitId) -> usize {
        if self.failures.contains_key(id) {
            self.failures[id]
        } else {
            0
        }
    }

    /// Whether a circuit can take a new stream.
    pub open spec fn is_ready(self, id: CircuitId) -> bool {
        self.circuits.contains_key(id) && self.circuits[id].state == CircuitState::Ready
    }

    /// The pool with one more circuit, in place of the one with its number.
    pub open spec fn with_circuit(self, circuit: CircuitView) -> PoolView {
        PoolView { circuits: self.circuits.insert(circuit.circuit_id, circuit), ..self }
    }

    /// The pool without a circuit.
    pub open spec fn without_circuit(self, id: CircuitId) -> PoolView {
        PoolView { circuits: self.circuits.remove(id), ..self }
    }

    /// The pool after it has given out the number of a new circuit.
    pub open spec fn after_allocating(self) -> PoolView {
        PoolView { next_circuit_id: self.next_circuit_id.wrapping_add(1), ..self }
    }

    /// Whether `choice` is a ready circuit with the fewest streams, or none if none is ready.
    pub open spec fn may_select(self, choice: Option<CircuitId>) -> bool {
        match choice {
            Some(id) => {
                &&& self.is_ready(id)
                &&& forall|other: CircuitId|
                    #[trigger] self.is_ready(other) ==> self.circuits[id].streams.len()
                        <= self.circuits[other].streams.len()
            },
            None => forall|other: CircuitId| !#[trigger] self.is_ready(other),
        }
    }

    /// The pool after the replacement of a circuit failed once more.
    pub open spec fn after_failure(self, id: CircuitId) -> PoolView {
        let count = (self.failure_count(id) + 1) as usize;
        PoolView {
            failures: self.failures.insert(id, count),
            abandoned: if count >= self.max_rebuild_attempts {
                self.abandoned.insert(id)
            } else {
                self.abandoned
            },
            ..self
        }
    }

    /// The pool after a circuit was replaced.
    pub open spec fn after_success(self, id: CircuitId) -> PoolView {
        PoolView { failures: self.failures.remove(id), ..self }
    }
}

/// How many seconds to wait before a circuit is replaced whose replacement failed this often: 5,
/// doubled with each failure, but no more than 60.
pub open spec fn backoff(failures: nat) -> nat {
    if 5 * pow2(failures) < 60 {
        5 * pow2(failures)
    } else {
        60
    }
}

/// How many nanoseconds are left to wait before a circuit is replaced whose replacement failed this
/// often, when `waited` has passed already.
pub open spec fn left_to_wait(failures: nat, waited: Elapsed) -> int {
    if backoff(failures) * 1_000_000_000 > waited.total() {
        backoff(failures) * 1_000_000_000 - waited.total()
    } else {
        0
    }
}

/// How many seconds to wait before a circuit is replaced whose replacement failed this often.
pub fn backoff_secs(failures: usize) -> (secs: u64)
    ensures
        secs == backoff(failures as nat),
{
    proof {
        lemma2_to64();
        if failures > 4 {
            lemma_pow2_strictly_increases(4, failures as nat);
        }
    }
    if failures == 0 {
        5
    } else if failures == 1 {
        10
    } else if failures == 2 {
        20
    } else if failures == 3 {
        40
    } else {
        60
    }
}

impl CircuitPool {
    /// No circuits, with these settings.
    pub fn new(pool_size: usize, hop_count: usize, max_rebuild_attempts: usize) -> (r: Self)
        ensures
            r@ == (PoolView {
                circuits: Map::empty(),
                next_circuit_id: 1,
                pool_size,
                hop_count,
                max_rebuild_attempts,
                failures: Map::empty(),
                abandoned: Set::empty(),
            }),
    {
        let r = Self {
            circuits: HashMap::new(),
            next_circuit_id: 1,
            pool_size,
            hop_count,
            max_rebuild_attempts,
            rebuild_failure_counts: HashMap::new(),
            abandoned_slots: HashSet::new(),
        };
        proof {
            assert(circuits_of(r.circuits@) =~= Map::empty());
        }
        r
    }

    /// How many circuits the client keeps ready.
    pub fn pool_size(&self) -> (r: usize)
        ensures
            r == self@.pool_size,
    {
        self.pool_size
    }

    /// How many relays a circuit has.
    pub fn hop_count(&self) -> (r: usize)
        ensures
            r == self@.hop_count,
    {
        self.hop_count
    }

    /// The number of circuits.
    pub fn circuit_count(&self) -> (n: usize)
        ensures
            n == self@.circuits.len(),
    {
        broadcast use vstd::std_specs::hash::group_hash_axioms;

        proof {
            assert(circuits_of(self.circuits@).dom() =~= self.circuits@.dom());
        }
        self.circuits.len()
    }

    /// Gives out the number of a new circuit. The numbers start over after the largest one.
    pub fn allocate_circuit_id(&mut self) -> (id: CircuitId)
        ensures
            id == old(self)@.next_circuit_id,
            final(self)@ == (PoolView {
                next_circuit_id: old(self)@.next_circuit_id.wrapping_add(1),
                ..old(self)@
            }),
            final(self)@ == old(self)@.after_allocating(),
    {
        let id = self.next_circuit_id;
        self.next_circuit_id = self.next_circuit_id.wrapping_add(1);
        id
    }

    /// Takes in a circuit that was built.
    pub fn add_circuit(&mut self, circuit: Circuit) -> (event: EventKind)
        ensures
            final(self)@ == (PoolView {
                circuits: old(self)@.circuits.insert(circuit@.circuit_id, circuit@),
                ..old(self)@
            }),
            final(self)@ == old(self)@.with_circuit(circuit@),
            event@ == (EventContent::CircuitBuilt {
                circuit_id: circuit@.circuit_id,
                path: match circuit@.path_display {
                    Some(p) => p,
                    None => Seq::empty(),
                },
            }),
    {
        broadcast use vstd::std_specs::hash::group_hash_axioms;

        let circuit_id = circuit.circuit_id;
        let path = match &circuit.path_display {
            Some(p) => p.clone(),
            None => String::new(),
        };
        let ghost before = self.circuits@;
        self.circuits.insert(circuit_id, circuit);
        proof {
            assert(circuits_of(self.circuits@) =~= circuits_of(before).insert(
                circuit_id,
                circuit@,
            ));
        }
        EventKind::CircuitBuilt { circuit_id, path }
    }

    /// The circuit with this number.
    pub fn get_circuit(&self, circuit_id: CircuitId) -> (r: Option<&Circuit>)
        ensures
            match r {
                Some(c) => {
                    &&& self@.circuits.contains_key(circuit_id)
                    &&& c@ == self@.circuits[circuit_id]
                },
                None => !self@.circuits.contains_key(circuit_id),
            },
    {
        broadcast use vstd::std_specs::hash::group_hash_axioms;

        self.circuits.get(&circuit_id)
    }

    /// The circuit with this number, to be changed.
    pub fn get_circuit_mut(&mut self, circuit_id: CircuitId) -> (r: Option<&mut Circuit>)
        ensures
            match r {
                Some(c) => {
                    &&& old(self)@.circuits.contains_key(circuit_id)
                    &&& c@ == old(self)@.circuits[circuit_id]
                    &&& final(self)@ == (PoolView {
                        circuits: old(self)@.circuits.insert(circuit_id, final(c)@),
                        ..old(self)@
                    })
                },
                None => {
                    &&& !old(self)@.circuits.contains_key(circuit_id)
                    &&& final(self)@ == old(self)@
                },
            },
    {
        broadcast use vstd::std_specs::hash::group_hash_axioms;

        match self.circuits.entry(circuit_id) {
            Entry::Occupied(entry) => Some(entry.into_mut()),
            Entry::Vacant(_) => None,
        }
    }

    /// The ready circuit with the fewest streams. If several have as few, any of them; if none is
    /// ready, there is none, and a new one has to be built.
    pub fn select_circuit(&self) -> (r: Option<CircuitId>)
        ensures
            match r {
                Some(id) => {
                    &&& self@.is_ready(id)
                    &&& forall|other: CircuitId|
                        #[trigger] self@.is_ready(other) ==> self@.circuits[id].streams.len()
                            <= self@.circuits[other].streams.len()
                },
                None => forall|other: CircuitId| !#[trigger] self@.is_ready(other),
            },
            self@.may_select(r),
    {
        broadcast use vstd::std_specs::hash::group_hash_axioms;

        let ghost all = vstd::std_specs::hash::spec_hash_map_iter(&self.circuits).remaining();
        let mut best: Option<(CircuitId, usize)> = None;
        for (id, circuit) in it: self.circuits.iter()
            invariant
                it.seq() == all,
                forall|j: int| 0 <= j < all.len() ==> self.circuits@.contains_key(
                    *(#[trigger] all[j]).0,
                ) && self.circuits@[*all[j].0] == *all[j].1,
                match best {
                    Some((id, count)) => {
                        &&& self@.is_ready(id)
                        &&& self@.circuits[id].streams.len() == count
                        &&& forall|j: int|
                            0 <= j < it.index() && (#[trigger] all[j]).1.state
                                == CircuitState::Ready ==> count <= all[j].1@.streams.len()
                    },
                    None => forall|j: int|
                        0 <= j < it.index() ==> (#[trigger] all[j]).1.state
                            != CircuitState::Ready,
                },
        {
            proof {
                assert(all[it.index() as int] == (id, circuit));
            }
            if circuit.state == CircuitState::Ready {
                let count = circuit.active_stream_count();
                match best {
                    Some((_, best_count)) => {
                        if count < best_count {
                            best = Some((*id, count));
                        }
                    },
                    None => {
                        best = Some((*id, count));
                    },
                }
            }
        }
        proof {
            assert forall|other: CircuitId| #[trigger] self@.is_ready(other) implies {
                exists|j: int|
                    0 <= j < all.len() && *(#[trigger] all[j]).0 == other && *all[j].1
                        == self.circuits@[other]
            } by {
                assert(self.circuits@.contains_key(other));
                assert(all.contains((&other, &self.circuits@[other])));
            }
        }
        match best {
            Some((id, _)) => Some(id),
            None => None,
        }
    }

    /// The circuits that are closed, each once, in any order.
    pub fn closed_circuits(&self) -> (r: Vec<CircuitId>)
        ensures
            r@.no_duplicates(),
            forall|id: CircuitId|
                #[trigger] r@.contains(id) <==> self@.circuits.contains_key(id)
                    && self@.circuits[id].state == CircuitState::Closed,
    {
        broadcast use vstd::std_specs::hash::group_hash_axioms;

        let ghost all = vstd::std_specs::hash::spec_hash_map_iter(&self.circuits).remaining();
        let mut r: Vec<CircuitId> = Vec::new();
        for (id, circuit) in it: self.circuits.iter()
            invariant
                it.seq() == all,
                forall|j: int| 0 <= j < all.len() ==> self.circuits@.contains_key(
                    *(#[trigger] all[j]).0,
                ) && self.circuits@[*all[j].0] == *all[j].1,
                all.no_duplicates(),
                r@.no_duplicates(),
                forall|j: int|
                    it.index() <= j < all.len() ==> !r@.contains(*(#[trigger] all[j]).0),
                forall|i: int|
                    0 <= i < r@.len() ==> self.circuits@.contains_key(#[trigger] r@[i])
                        && self.circuits@[r@[i]].state == CircuitState::Closed,
                forall|j: int|
                    0 <= j < it.index() && (#[trigger] all[j]).1.state == CircuitState::Closed
                        ==> r@.contains(*all[j].0),
        {
            let ghost before = r@;
            proof {
                assert(all[it.index() as int] == (id, circuit));
            }
            if circuit.state == CircuitState::Closed {
                r.push(*id);
                proof {
                    assert(r@[before.len() as int] == *id);
                    assert(!before.contains(*id));
                    assert forall|j: int| it.index() < j < all.len() implies !r@.contains(
                        *(#[trigger] all[j]).0,
                    ) by {
                        if *all[j].0 == *id {
                            assert(all[j] == all[it.index() as int]);
                        }
                        assert(!before.contains(*all[j].0));
                    }
                    assert forall|x: CircuitId| before.contains(x) implies r@.contains(x) by {
                        let i = choose|i: int| 0 <= i < before.len() && before[i] == x;
                        assert(r@[i] == x);
                    }
                }
            }
        }
        proof {
            assert forall|id: CircuitId| #[trigger] r@.contains(id) <==> self@.circuits.contains_key(
                id,
            ) && self@.circuits[id].state == CircuitState::Closed by {
                if self@.circuits.contains_key(id) && self@.circuits[id].state
                    == CircuitState::Closed {
                    assert(self.circuits@.contains_key(id));
                    assert(all.contains((&id, &self.circuits@[id])));
                }
            }
        }
        r
    }

    /// The circuits of the pool, each once, in any order.
    pub fn circuit_ids(&self) -> (r: Vec<CircuitId>)
        ensures
            r@.no_duplicates(),
            forall|id: CircuitId|
                #[trigger] r@.contains(id) <==> self@.circuits.contains_key(id),
    {
        broadcast use vstd::std_specs::hash::group_hash_axioms;

        let ghost all = vstd::std_specs::hash::spec_hash_map_iter(&self.circuits).remaining();
        let mut r: Vec<CircuitId> = Vec::new();
        for (id, circuit) in it: self.circuits.iter()
            invariant
                it.seq() == all,
                forall|j: int| 0 <= j < all.len() ==> self.circuits@.contains_key(
                    *(#[trigger] all[j]).0,
                ) && self.circuits@[*all[j].0] == *all[j].1,
                r@.len() == it.index(),
                forall|j: int| 0 <= j < it.index() ==> r@[j] == *(#[trigger] all[j]).0,
        {
            proof {
                assert(all[it.index() as int] == (id, circuit));
            }
            r.push(*id);
        }
        proof {
            assert forall|id: CircuitId|
                #[trigger] r@.contains(id) <==> self@.circuits.contains_key(id) by {
                if r@.contains(id) {
                    let j = choose|j: int| 0 <= j < r@.len() && r@[j] == id;
                    assert(self.circuits@.contains_key(*all[j].0));
                }
                if self@.circuits.contains_key(id) {
                    assert(self.circuits@.contains_key(id));
                    assert(all.contains((&id, &self.circuits@[id])));
                    let j = choose|j: int|
                        0 <= j < all.len() && all[j] == (&id, &self.circuits@[id]);
                    assert(r@[j] == id);
                }
            }
            assert forall|i: int, j: int| 0 <= i < j < r@.len() implies r@[i] != r@[j] by {
                if r@[i] == r@[j] {
                    assert(all[i] == all[j]);
                }
            }
        }
        r
    }

    /// Whether a circuit is not replaced any more.
    pub fn is_abandoned(&self, circuit_id: CircuitId) -> (r: bool)
        ensures
            r == self@.abandoned.contains(circuit_id),
    {
        broadcast use vstd::std_specs::hash::group_hash_axioms;

        self.abandoned_slots.contains(&circuit_id)
    }

    /// How often in a row the replacement of a circuit failed.
    pub fn rebuild_failures(&self, circuit_id: CircuitId) -> (n: usize)
        ensures
            n == self@.failure_count(circuit_id),
    {
        broadcast use vstd::std_specs::hash::group_hash_axioms;

        match self.rebuild_failure_counts.get(&circuit_id) {
            Some(n) => *n,
            None => 0,
        }
    }

    /// How much longer to wait before a circuit is replaced, when `waited` has passed already.
    pub fn replacement_delay(&self, circuit_id: CircuitId, waited: Elapsed) -> (r: Elapsed)
        requires
            waited.wf(),
        ensures
            r.wf(),
            r.total() == left_to_wait(self@.failure_count(circuit_id) as nat, waited),
            ({
                let whole = backoff(self@.failure_count(circuit_id) as nat) * 1_000_000_000;
                r.total() == (if whole > waited.total() {
                    whole - waited.total()
                } else {
                    0
                })
            }),
    {
        Elapsed::from_secs(backoff_secs(self.rebuild_failures(circuit_id))).since(waited)
    }

    /// Removes a circuit that is to be replaced.
    pub fn remove_circuit(&mut self, circuit_id: CircuitId)
        ensures
            final(self)@ == (PoolView {
                circuits: old(self)@.circuits.remove(circuit_id),
                ..old(self)@
            }),
            final(self)@ == old(self)@.without_circuit(circuit_id),
    {
        broadcast use vstd::std_specs::hash::group_hash_axioms;

        let ghost before = self.circuits@;
        self.circuits.remove(&circuit_id);
        proof {
            assert(circuits_of(self.circuits@) =~= circuits_of(before).remove(circuit_id));
        }
    }

    /// Notes that a circuit was replaced: its failures are forgotten.
    pub fn replaced(&mut self, failed_id: CircuitId, new_id: CircuitId) -> (event: EventKind)
        ensures
            final(self)@ == old(self)@.after_success(failed_id),
            event@ == (EventContent::CircuitReplaced { old_id: failed_id, new_id }),
    {
        broadcast use vstd::std_specs::hash::group_hash_axioms;

        self.rebuild_failure_counts.remove(&failed_id);
        EventKind::CircuitReplaced { old_id: failed_id, new_id }
    }

    /// Notes that the replacement of a circuit failed. After too many failures in a row it is not
    /// tried again, which is worth a note.
    pub fn replacement_failed(&mut self, failed_id: CircuitId) -> (event: Option<EventKind>)
        requires
            old(self)@.failure_count(failed_id) < usize::MAX,
        ensures
            final(self)@ == old(self)@.after_failure(failed_id),
            match event {
                Some(e) => {
                    &&& old(self)@.failure_count(failed_id) + 1 >= old(self)@.max_rebuild_attempts
                    &&& e@ == (EventContent::Error {
                        message: "Circuit slot "@ + dec_text(failed_id as nat)
                            + " abandoned after "@ + dec_text(
                            old(self)@.max_rebuild_attempts as nat,
                        ) + " rebuild attempt(s)"@,
                    })
                },
                None => old(self)@.failure_count(failed_id) + 1 < old(
                    self,
                )@.max_rebuild_attempts,
            },
    {
        broadcast use vstd::std_specs::hash::group_hash_axioms;

        let count = self.rebuild_failures(failed_id) + 1;
        self.rebuild_failure_counts.insert(failed_id, count);
        if count >= self.max_rebuild_attempts {
            self.abandoned_slots.insert(failed_id);
            let mut message = "Circuit slot ".to_owned();
            push_dec(&mut message, failed_id as u64);
            message.append(" abandoned after ");
            push_dec(&mut message, self.max_rebuild_attempts as u64);
            message.append(" rebuild attempt(s)");
            Some(EventKind::Error { message })
        } else {
            None
        }
    }

    /// The complaint when the directory has no path for the client.
    pub fn path_complaint(&self) -> (s: String)
        ensures
            s@ == "Failed to get a "@ + dec_text(self@.hop_count as nat)
                + "-hop path from the directory service (requires: 1 entry + "@ + dec_text(
                (if self@.hop_count >= 2 {
                    self@.hop_count - 2
                } else {
                    0
                }) as nat,
            ) + " middle + 1 exit relay node(s) registered)"@,
    {
        let mut s = "Failed to get a ".to_owned();
        push_dec(&mut s, self.hop_count as u64);
        s.append("-hop path from the directory service (requires: 1 entry + ");
        let middles = if self.hop_count >= 2 {
            self.hop_count - 2
        } else {
            0
        };
        push_dec(&mut s, middles as u64);
        s.append(" middle + 1 exit relay node(s) registered)");
        s
    }
}

/// The pool after the replacement of a circuit failed `n` times.
pub open spec fn after_failures(pool: PoolView, id: CircuitId, n: nat) -> PoolView
    decreases n,
{
    if n == 0 {
        pool
    } else {
        after_failures(pool, id, (n - 1) as nat).after_failure(id)
    }
}

/// A circuit is abandoned when its replacement has failed as often in a row as the settings allow,
/// and not before.
pub proof fn abandoned_after_enough_failures(pool: PoolView, id: CircuitId, n: nat)
    requires
        pool.failure_count(id) == 0,
        !pool.abandoned.contains(id),
        n <= usize::MAX,
    ensures
        after_failures(pool, id, n).failure_count(id) == n,
        after_failures(pool, id, n).max_rebuild_attempts == pool.max_rebuild_attempts,
        after_failures(pool, id, n).abandoned.contains(id) <==> n >= 1 && n
            >= pool.max_rebuild_attempts,
    decreases n,
{
    if n > 0 {
        abandoned_after_enough_failures(pool, id, (n - 1) as nat);
    }
}

/// A replacement that succeeds starts the count of failures anew.
pub proof fn success_forgets_failures(pool: PoolView, id: CircuitId)
    ensures
        pool.after_success(id).failure_count(id) == 0,
{
}

/// The wait before a replacement grows with the failures, and stays between 5 and 60 seconds.
pub proof fn backoff_grows_to_its_cap(a: nat, b: nat)
    requires
        a <= b,
    ensures
        5 <= backoff(a) <= backoff(b) <= 60,
{
    lemma2_to64();
    if a < b {
        lemma_pow2_strictly_increases(a, b);
    }
    if a > 0 {
        lemma_pow2_strictly_increases(0, a);
    }
}

/// A circuit that is chosen for a new stream is one of the pool's, it is ready, and no ready circuit
/// has fewer streams; none is chosen only where every circuit of the pool is something else than
/// ready.
pub proof fn the_least_loaded_circuit_is_chosen(
    pool: PoolView,
    choice: Option<CircuitId>,
    other: CircuitId,
)
    requires
        pool.may_select(choice),
        pool.circuits.contains_key(other),
        pool.circuits[other].state == CircuitState::Ready,
    ensures
        choice is Some,
        pool.circuits.contains_key(choice->0),
        pool.circuits[choice->0].state == CircuitState::Ready,
        pool.circuits[choice->0].streams.len() <= pool.circuits[other].streams.len(),
{
    assert(pool.is_ready(other));
}

/// A failure or a success concerns one circuit: the counts and the standing of the others, the
/// circuits themselves and the settings stay what they are. A failure adds one to the count of its
/// circuit, and nothing that was abandoned comes back.
pub proof fn replacements_concern_one_circuit(pool: PoolView, id: CircuitId, other: CircuitId)
    requires
        pool.failure_count(id) < usize::MAX,
    ensures
        ({
            let failed = pool.after_failure(id);
            let replaced = pool.after_success(id);
            &&& failed.circuits == pool.circuits && replaced.circuits == pool.circuits
            &&& failed.pool_size == pool.pool_size && replaced.pool_size == pool.pool_size
            &&& failed.hop_count == pool.hop_count && replaced.hop_count == pool.hop_count
            &&& failed.max_rebuild_attempts == pool.max_rebuild_attempts
            &&& replaced.max_rebuild_attempts == pool.max_rebuild_attempts
            &&& failed.failure_count(id) == pool.failure_count(id) + 1
            &&& replaced.failure_count(id) == 0
            &&& replaced.abandoned == pool.abandoned
            &&& pool.abandoned.contains(other) ==> failed.abandoned.contains(other)
            &&& failed.abandoned.contains(id) <==> pool.abandoned.contains(id)
                || pool.failure_count(id) + 1 >= pool.max_rebuild_attempts
            &&& other != id ==> {
                &&& failed.failure_count(other) == pool.failure_count(other)
                &&& replaced.failure_count(other) == pool.failure_count(other)
                &&& failed.abandoned.contains(other) == pool.abandoned.contains(other)
            }
        }),
{
}

/// The wait starts at five seconds and doubles with each failure, up to one minute.
pub proof fn backoff_doubles(failures: nat)
    ensures
        backoff(0) == 5,
        backoff(failures + 1) == (if 2 * backoff(failures) < 60 {
            2 * backoff(failures)
        } else {
            60
        }),
{
    lemma2_to64();
    vstd::arithmetic::power2::lemma_pow2_unfold(failures + 1);
    vstd::arithmetic::power2::lemma_pow2_pos(failures);
}

/// A circuit that is taken in is in the pool under its own number, one that is removed is not, and no
/// other circuit is touched; a removed circuit is chosen for no stream. Numbers that are given out one
/// after the other differ.
pub proof fn circuits_come_and_go_one_by_one(
    pool: PoolView,
    circuit: CircuitView,
    id: CircuitId,
    other: CircuitId,
    choice: Option<CircuitId>,
)
    ensures
        ({
            let more = pool.with_circuit(circuit);
            &&& more.circuits.contains_key(circuit.circuit_id)
            &&& more.circuits[circuit.circuit_id] == circuit
            &&& other != circuit.circuit_id ==> more.circuits.contains_key(other)
                == pool.circuits.contains_key(other)
            &&& other != circuit.circuit_id && pool.circuits.contains_key(other)
                ==> more.circuits[other] == pool.circuits[other]
            &&& more.failures == pool.failures && more.abandoned == pool.abandoned
        }),
        ({
            let less = pool.without_circuit(id);
            &&& !less.circuits.contains_key(id)
            &&& other != id ==> less.circuits.contains_key(other) == pool.circuits.contains_key(
                other,
            )
            &&& other != id && pool.circuits.contains_key(other) ==> less.circuits[other]
                == pool.circuits[other]
            &&& less.may_select(choice) ==> choice != Some(id)
            &&& less.failures == pool.failures && less.abandoned == pool.abandoned
        }),
        pool.after_allocating().next_circuit_id != pool.next_circuit_id,
        pool.after_allocating().circuits == pool.circuits,
        pool.next_circuit_id < u32::MAX ==> pool.after_allocating().next_circuit_id
            == pool.next_circuit_id + 1,
{
}

/// What has been waited and what is left make up the wait, until nothing is left; the wait is never
/// longer than a minute, and with nothing waited it is at least five seconds.
pub proof fn waits_add_up(failures: nat, waited: Elapsed)
    ensures
        left_to_wait(failures, waited) >= 0,
        left_to_wait(failures, waited) <= 60_000_000_000,
        left_to_wait(failures, waited) > 0 ==> left_to_wait(failures, waited) + waited.secs
            * 1_000_000_000 + waited.nanos == backoff(failures) * 1_000_000_000,
        left_to_wait(failures, waited) == 0 <==> waited.secs * 1_000_000_000 + waited.nanos
            >= backoff(failures) * 1_000_000_000,
        waited.secs == 0 && waited.nanos == 0 ==> left_to_wait(failures, waited) >= 5_000_000_000,
{
    backoff_grows_to_its_cap(failures, failures);
}

}
