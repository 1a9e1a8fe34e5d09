//! What the client makes of the directory's answers.

use crate::metrics::Elapsed;
use crate::text::dec_text;
use crate::text::push_dec;
use crate::types::descriptors;
use crate::types::NodeDescriptor;
use crate::types::NodeDescriptorView;
use vstd::prelude::*;
use vstd::string::*;

verus! {

/// For how many seconds a list of nodes is kept.
pub const CACHE_TTL_SECS: u64 = 300;

/// What the client knows of the directory's nodes.
pub struct DirectoryClient {
    /// The nodes that the directory listed last.
    pub cached_nodes: Vec<NodeDescriptor>,
    /// Until when that list is used.
    pub cache_expiry: Option<Elapsed>,
}

/// What the client knows of the directory's nodes.
#[verifier::ext_equal]
pub struct DirectoryView {
    pub cached_nodes: Seq<NodeDescriptorView>,
    pub cache_expiry: Option<Elapsed>,
}

impl View for DirectoryClient {
    type V = DirectoryView;

    open spec fn view(&self) -> DirectoryView {
        DirectoryView {
            cached_nodes: descriptors(self.cached_nodes@),
            cache_expiry: self.cache_expiry,
        }
    }
}

impl DirectoryView {
    /// Whether the list of nodes is still used when the clock shows `now`.
    pub open spec fn fresh(self, now: Elapsed) -> bool {
        match self.cache_expiry {
            Some(expiry) => now.total() < expiry.total(),
            None => false,
        }
    }

    /// The state after an answer that came when the clock showed `now`.
    pub open spec fn after_answer(
        self,
        now: Elapsed,
        answer: Result<Seq<NodeDescriptorView>, Seq<char>>,
    ) -> DirectoryView {
        match answer {
            Ok(nodes) => DirectoryView {
                cached_nodes: nodes,
                cache_expiry: Some(Elapsed { secs: (now.secs + 300) as u64, nanos: now.nanos }),
            },
            Err(_) => self,
        }
    }
}

/// The views of a list of nodes, or of a complaint.
pub open spec fn answer_view(
    answer: Result<Vec<NodeDescriptor>, String>,
) -> Result<Seq<NodeDescriptorView>, Seq<char>> {
    match answer {
        Ok(nodes) => Ok(descriptors(nodes@)),
        Err(e) => Err(e@),
    }
}

/// The path that the directory's answer holds: one of the wrong length is refused.
pub open spec fn usable_path(
    answer: Result<Seq<NodeDescriptorView>, Seq<char>>,
    hop_count: usize,
) -> Result<Seq<NodeDescriptorView>, Seq<char>> {
    match answer {
        Ok(nodes) => if nodes.len() == hop_count {
            Ok(nodes)
        } else {
            Err(
                "Expected "@ + dec_text(hop_count as nat) + " nodes from directory, got "@
                    + dec_text(nodes.len()),
            )
        },
        Err(e) => Err(e),
    }
}

/// A copy of a list of nodes.
fn copy_nodes(nodes: &Vec<NodeDescriptor>) -> (r: Vec<NodeDescriptor>)
    ensures
        descriptors(r@) == descriptors(nodes@),
{
    let mut r: Vec<NodeDescriptor> = Vec::new();
    let mut i: usize = 0;
    while i < nodes.len()
        invariant
            i <= nodes@.len(),
            r@.len() == i,
            forall|j: int| 0 <= j < i ==> (#[trigger] r@[j])@ == nodes@[j]@,
        decreases nodes@.len() - i,
    {
        r.push(nodes[i].clone());
        i += 1;
    }
    proof {
        assert(descriptors(r@) =~= descriptors(nodes@));
    }
    r
}

impl DirectoryClient {
    /// Nothing is known yet.
    pub fn new() -> (r: Self)
        ensures
            r@ == (DirectoryView { cached_nodes: Seq::empty(), cache_expiry: None }),
    {
        let r = Self { cached_nodes: Vec::new(), cache_expiry: None };
        proof {
            assert(r@.cached_nodes =~= Seq::<NodeDescriptorView>::empty());
        }
        r
    }

    /// Whether the list of nodes is still used when the clock shows `now`.
    pub fn is_cache_valid(&self, now: Elapsed) -> (r: bool)
        requires
            now.wf(),
            self.cache_expiry is Some ==> self.cache_expiry->0.wf(),
        ensures
            r == self@.fresh(now),
    {
        match self.cache_expiry {
            Some(expiry) => now.earlier_than(expiry),
            None => false,
        }
    }

    /// The nodes if they are still known when the clock shows `now`. Otherwise the directory has
    /// to be asked.
    pub fn known_nodes(&self, now: Elapsed) -> (r: Option<Vec<NodeDescriptor>>)
        requires
            now.wf(),
            self.cache_expiry is Some ==> self.cache_expiry->0.wf(),
        ensures
            match r {
                Some(nodes) => self@.fresh(now) && descriptors(nodes@) == self@.cached_nodes,
                None => !self@.fresh(now),
            },
    {
        if self.is_cache_valid(now) {
            Some(copy_nodes(&self.cached_nodes))
        } else {
            None
        }
    }

    /// Takes the directory's list of nodes when the clock shows `now`, and keeps it for a while.
    pub fn get_all_nodes(&mut self, now: Elapsed, answer: Result<Vec<NodeDescriptor>, String>) -> (r:
        Result<Vec<NodeDescriptor>, String>)
        requires
            now.wf(),
            now.secs + CACHE_TTL_SECS <= u64::MAX,
        ensures
            final(self)@ == old(self)@.after_answer(now, answer_view(answer)),
            answer_view(r) == answer_view(answer),
    {
        match answer {
            Ok(nodes) => {
                self.cached_nodes = copy_nodes(&nodes);
                self.cache_expiry = Some(
                    Elapsed { secs: now.secs + CACHE_TTL_SECS, nanos: now.nanos },
                );
                Ok(nodes)
            },
            Err(e) => Err(e),
        }
    }

    /// The path that the directory's answer holds: one of the wrong length is refused.
    pub fn get_random_path(&self, answer: Result<Vec<NodeDescriptor>, String>, hop_count: usize) -> (r:
        Result<Vec<NodeDescriptor>, String>)
        ensures
            answer_view(r) == usable_path(answer_view(answer), hop_count),
    {
        match answer {
            Ok(nodes) => {
                proof {
                    assert(nodes.len() <= u64::MAX);
                }
                if nodes.len() != hop_count {
                    let mut e = "Expected ".to_owned();
                    push_dec(&mut e, hop_count as u64);
                    e.append(" nodes from directory, got ");
                    push_dec(&mut e, nodes.len() as u64);
                    Err(e)
                } else {
                    Ok(nodes)
                }
            },
            Err(e) => Err(e),
        }
    }
}

/// A directory that hands out paths made beforehand, the first one first.
pub struct MockDirectory {
    pub paths: Vec<Vec<NodeDescriptor>>,
}

impl MockDirectory {
    /// A directory that hands out these paths.
    pub fn new(paths: Vec<Vec<NodeDescriptor>>) -> (r: Self)
        ensures
            r.paths@ == paths@,
    {
        Self { paths }
    }

    /// Hands out the next path. One of the wrong length is used up and refused.
    pub fn get_random_path(&mut self, hop_count: usize) -> (r: Result<Vec<NodeDescriptor>, String>)
        ensures
            old(self).paths@.len() == 0 ==> {
                &&& final(self).paths@ == old(self).paths@
                &&& r is Err
                &&& r->Err_0@ == "MockDirectory: no paths remaining"@
            },
            old(self).paths@.len() > 0 ==> {
                let path = old(self).paths@[0];
                &&& final(self).paths@ == old(self).paths@.skip(1)
                &&& match r {
                    Ok(nodes) => path@.len() == hop_count && nodes == path,
                    Err(e) => {
                        &&& path@.len() != hop_count
                        &&& e@ == "MockDirectory: expected "@ + dec_text(hop_count as nat)
                            + " nodes, got "@ + dec_text(path@.len())
                    },
                }
            },
    {
        if self.paths.len() == 0 {
            return Err("MockDirectory: no paths remaining".to_owned());
        }
        let path = self.paths.remove(0);
        proof {
            assert(self.paths@ =~= old(self).paths@.skip(1));
            assert(path.len() <= u64::MAX);
        }
        if path.len() != hop_count {
            let mut e = "MockDirectory: expected ".to_owned();
            push_dec(&mut e, hop_count as u64);
            e.append(" nodes, got ");
            push_dec(&mut e, path.len() as u64);
            return Err(e);
        }
        Ok(path)
    }
}

/// A list of nodes is used for as long as it is kept, and no longer. A failed request changes
/// nothing.
pub proof fn lists_are_kept_for_a_while(
    directory: DirectoryView,
    now: Elapsed,
    later: Elapsed,
    nodes: Seq<NodeDescriptorView>,
    complaint: Seq<char>,
)
    requires
        now.wf(),
        later.wf(),
        now.total() <= later.total(),
        now.secs + CACHE_TTL_SECS <= u64::MAX,
    ensures
        ({
            let after = directory.after_answer(now, Ok(nodes));
            &&& after.cached_nodes == nodes
            &&& after.fresh(later) <==> later.total() - now.total() < CACHE_TTL_SECS
                * 1_000_000_000
        }),
        directory.after_answer(now, Err(complaint)) == directory,
{
}

/// A path is used exactly if the directory sent one of the length that was asked for, and it is used
/// as it was sent; a complaint of the directory is passed on.
pub proof fn paths_are_used_as_they_come(
    nodes: Seq<NodeDescriptorView>,
    complaint: Seq<char>,
    hop_count: usize,
)
    ensures
        usable_path(Ok(nodes), hop_count) is Ok <==> nodes.len() == hop_count,
        nodes.len() == hop_count ==> usable_path(Ok(nodes), hop_count)->Ok_0 == nodes,
        usable_path(Err(complaint), hop_count) == Err::<Seq<NodeDescriptorView>, Seq<char>>(
            complaint,
        ),
{
}

/// A list is used until five minutes after it came, counted in seconds and nanoseconds, and not from
/// then on; without a list nothing is used.
pub proof fn lists_are_used_for_five_minutes(
    directory: DirectoryView,
    now: Elapsed,
    later: Elapsed,
    nodes: Seq<NodeDescriptorView>,
)
    requires
        now.secs + 300 <= u64::MAX,
    ensures
        directory.after_answer(now, Ok(nodes)).cached_nodes == nodes,
        directory.after_answer(now, Ok(nodes)).fresh(later) <==> (later.secs * 1_000_000_000
            + later.nanos) - (now.secs * 1_000_000_000 + now.nanos) < 300_000_000_000,
        directory.cache_expiry is None ==> !directory.fresh(later),
{
}

}
