//! Choosing a path: bandwidth-weighted draws among the nodes that may still stand in it.

use crate::discovery::error::RegistryError;
use crate::net::IpAddr;
use crate::text::dec_text;
use crate::text::push_dec;
use crate::text::same;
use crate::types::descriptors;
use crate::types::NodeDescriptor;
use crate::types::NodeDescriptorView;
use rand::Rng;
use vstd::prelude::*;
use vstd::string::*;

verus! {

/// `rand::rng().random_range(0..n)`: some number below `n`. The call panics on an empty range.
#[verifier::external_body]
fn random_below(n: u128) -> (r: u128)
    requires
        n > 0,
    ensures
        r < n,
{
    rand::rng().random_range(0..n)
}

/// A source of numbers to decide by: first the numbers of a script, as far as they fit, then
/// random ones. It keeps the numbers that it gave.
#[derive(Debug)]
pub struct Draws {
    script: Vec<u128>,
    next: usize,
    taken: Vec<u128>,
}

impl Draws {
    /// The numbers given so far.
    pub closed spec fn taken(&self) -> Seq<u128> {
        self.taken@
    }

    /// What is left of the script.
    pub closed spec fn pending(&self) -> Seq<u128> {
        self.script@.skip(self.next as int)
    }

    /// The script has not been read beyond its end.
    pub closed spec fn wf(&self) -> bool {
        self.next <= self.script@.len()
    }

    /// A source of random numbers.
    pub fn random() -> (r: Draws)
        ensures
            r.wf(),
            r.taken() == Seq::<u128>::empty(),
            r.pending() == Seq::<u128>::empty(),
    {
        Draws { script: Vec::new(), next: 0, taken: Vec::new() }
    }

    /// A source that gives the numbers of a script first.
    pub fn scripted(script: Vec<u128>) -> (r: Draws)
        ensures
            r.wf(),
            r.taken() == Seq::<u128>::empty(),
            r.pending() == script@,
    {
        let r = Draws { script, next: 0, taken: Vec::new() };
        proof {
            assert(r.pending() =~= script@);
        }
        r
    }

    /// Gives a number below `n`: the next one of the script, if it fits, else a random one.
    pub fn below(&mut self, n: u128) -> (r: u128)
        requires
            old(self).wf(),
            n > 0,
        ensures
            final(self).wf(),
            r < n,
            final(self).taken() == old(self).taken().push(r),
            old(self).pending().len() > 0 && old(self).pending()[0] < n ==> r == old(
                self,
            ).pending()[0],
            final(self).pending() == (if old(self).pending().len() > 0 {
                old(self).pending().skip(1)
            } else {
                old(self).pending()
            }),
    {
        let mut r: u128 = random_below(n);
        let ghost before = self.pending();
        if self.next < self.script.len() {
            let wanted = self.script[self.next];
            proof {
                assert(before[0] == wanted);
            }
            if wanted < n {
                r = wanted;
            }
            self.next = self.next + 1;
            proof {
                assert(self.pending() =~= before.skip(1));
            }
        }
        self.taken.push(r);
        r
    }
}

// ---------------------------------------------------------------------------------------------
// Weighted draws.
// ---------------------------------------------------------------------------------------------

/// The sum of the bandwidths.
pub open spec fn total_bandwidth(nodes: Seq<NodeDescriptorView>) -> nat
    decreases nodes.len(),
{
    if nodes.len() == 0 {
        0
    } else {
        total_bandwidth(nodes.drop_last()) + nodes.last().bandwidth as nat
    }
}

/// How many numbers there are to draw from: one for each unit of bandwidth, or one for each node
/// where no node has any.
pub open spec fn draw_range(nodes: Seq<NodeDescriptorView>) -> nat {
    if total_bandwidth(nodes) == 0 {
        nodes.len()
    } else {
        total_bandwidth(nodes)
    }
}

/// The node whose stretch of bandwidth holds the number, where the stretches lie one behind the
/// other.
pub open spec fn stretch_index(nodes: Seq<NodeDescriptorView>, draw: int) -> int
    decreases nodes.len(),
{
    if nodes.len() == 0 {
        0
    } else if draw < nodes[0].bandwidth {
        0
    } else {
        1 + stretch_index(nodes.skip(1), draw - nodes[0].bandwidth)
    }
}

/// The index of the node that a number selects.
pub open spec fn weighted_index(nodes: Seq<NodeDescriptorView>, draw: int) -> int {
    if total_bandwidth(nodes) == 0 {
        draw
    } else {
        stretch_index(nodes, draw)
    }
}

proof fn total_bandwidth_front(nodes: Seq<NodeDescriptorView>)
    requires
        nodes.len() > 0,
    ensures
        total_bandwidth(nodes) == nodes[0].bandwidth + total_bandwidth(nodes.skip(1)),
    decreases nodes.len(),
{
    if nodes.len() > 1 {
        total_bandwidth_front(nodes.drop_last());
        assert(nodes.drop_last().skip(1) =~= nodes.skip(1).drop_last());
    } else {
        assert(nodes.drop_last() =~= Seq::empty());
        assert(nodes.skip(1) =~= Seq::empty());
    }
}

/// A number in range selects a node, and each node is selected by as many numbers as it has
/// bandwidth: those of its stretch, which begins behind the bandwidth of the nodes before it.
pub proof fn weighted_choice_is_proportional(nodes: Seq<NodeDescriptorView>, draw: int)
    requires
        0 <= draw < draw_range(nodes),
    ensures
        0 <= weighted_index(nodes, draw) < nodes.len(),
        total_bandwidth(nodes) > 0 ==> ({
            let i = weighted_index(nodes, draw);
            total_bandwidth(nodes.take(i)) <= draw < total_bandwidth(nodes.take(i))
                + nodes[i].bandwidth
        }),
{
    if total_bandwidth(nodes) > 0 {
        stretch_holds_draw(nodes, draw);
    }
}

proof fn stretch_holds_draw(nodes: Seq<NodeDescriptorView>, draw: int)
    requires
        0 <= draw < total_bandwidth(nodes),
    ensures
        ({
            let i = stretch_index(nodes, draw);
            &&& 0 <= i < nodes.len()
            &&& total_bandwidth(nodes.take(i)) <= draw < total_bandwidth(nodes.take(i))
                + nodes[i].bandwidth
        }),
    decreases nodes.len(),
{
    total_bandwidth_front(nodes);
    if draw < nodes[0].bandwidth {
        assert(nodes.take(0) =~= Seq::empty());
    } else {
        let rest = nodes.skip(1);
        stretch_holds_draw(rest, draw - nodes[0].bandwidth);
        let j = stretch_index(rest, draw - nodes[0].bandwidth);
        let i = stretch_index(nodes, draw);
        assert(i == j + 1);
        total_bandwidth_front(nodes.take(i));
        assert(nodes.take(i).skip(1) =~= rest.take(j));
        assert(nodes.take(i)[0] == nodes[0]);
    }
}

proof fn removed_bandwidth(nodes: Seq<NodeDescriptorView>, i: int)
    requires
        0 <= i < nodes.len(),
    ensures
        total_bandwidth(nodes.remove(i)) + nodes[i].bandwidth == total_bandwidth(nodes),
    decreases nodes.len(),
{
    if i == nodes.len() - 1 {
        assert(nodes.remove(i) =~= nodes.drop_last());
    } else {
        removed_bandwidth(nodes.drop_last(), i);
        assert(nodes.remove(i).drop_last() =~= nodes.drop_last().remove(i));
    }
}

/// Bandwidths add up: the sum over two lists is the sum of their sums, and the sum over one node
/// is its bandwidth.
pub proof fn bandwidths_add_up(
    a: Seq<NodeDescriptorView>,
    b: Seq<NodeDescriptorView>,
    node: NodeDescriptorView,
)
    ensures
        total_bandwidth(a + b) == total_bandwidth(a) + total_bandwidth(b),
        total_bandwidth(seq![node]) == node.bandwidth,
    decreases b.len(),
{
    reveal_with_fuel(total_bandwidth, 2);
    assert(seq![node].drop_last() =~= Seq::empty());
    if b.len() > 0 {
        bandwidths_add_up(a, b.drop_last(), node);
        assert((a + b).drop_last() =~= a + b.drop_last());
    } else {
        assert(a + b =~= a);
    }
}

/// Each number of a node's stretch selects that node, so that a node with bandwidth is selected
/// by exactly as many numbers as it has bandwidth; where no node has any, each number selects the
/// node at that place.
pub proof fn stretches_select_their_node(nodes: Seq<NodeDescriptorView>, i: int, draw: int)
    requires
        0 <= i < nodes.len(),
    ensures
        total_bandwidth(nodes.take(i)) <= draw < total_bandwidth(nodes.take(i))
            + nodes[i].bandwidth ==> weighted_index(nodes, draw) == i,
        (forall|j: int| 0 <= j < nodes.len() ==> (#[trigger] nodes[j]).bandwidth == 0)
            ==> weighted_index(nodes, i) == i,
    decreases nodes.len(),
{
    if forall|j: int| 0 <= j < nodes.len() ==> (#[trigger] nodes[j]).bandwidth == 0 {
        idle_nodes_have_no_total(nodes);
    }
    if total_bandwidth(nodes.take(i)) <= draw < total_bandwidth(nodes.take(i))
        + nodes[i].bandwidth {
        removed_bandwidth(nodes, i);
        stretch_selects(nodes, i, draw);
    }
}

proof fn stretch_selects(nodes: Seq<NodeDescriptorView>, i: int, draw: int)
    requires
        0 <= i < nodes.len(),
        total_bandwidth(nodes.take(i)) <= draw < total_bandwidth(nodes.take(i))
            + nodes[i].bandwidth,
    ensures
        stretch_index(nodes, draw) == i,
    decreases nodes.len(),
{
    if i == 0 {
        assert(nodes.take(0) =~= Seq::empty());
    } else {
        let rest = nodes.skip(1);
        total_bandwidth_front(nodes.take(i));
        assert(nodes.take(i).skip(1) =~= rest.take(i - 1));
        assert(nodes.take(i)[0] == nodes[0]);
        stretch_selects(rest, i - 1, draw - nodes[0].bandwidth);
    }
}

proof fn idle_nodes_have_no_total(nodes: Seq<NodeDescriptorView>)
    requires
        forall|j: int| 0 <= j < nodes.len() ==> (#[trigger] nodes[j]).bandwidth == 0,
    ensures
        total_bandwidth(nodes) == 0,
    decreases nodes.len(),
{
    if nodes.len() > 0 {
        let rest = nodes.drop_last();
        assert forall|j: int| 0 <= j < rest.len() implies (#[trigger] rest[j]).bandwidth == 0 by {
            assert(rest[j] == nodes[j]);
        }
        idle_nodes_have_no_total(rest);
    }
}

/// The sum of the bandwidths. A list that fits in memory has too few nodes for the sum to leave
/// 128 bits.
fn sum_bandwidth(nodes: &Vec<NodeDescriptor>) -> (r: u128)
    ensures
        r == total_bandwidth(descriptors(nodes@)),
{
    let mut total: u128 = 0;
    let mut i: usize = 0;
    let ghost views = descriptors(nodes@);
    while i < nodes.len()
        invariant
            i <= nodes.len(),
            views == descriptors(nodes@),
            total == total_bandwidth(views.take(i as int)),
            total <= i * u64::MAX,
        decreases nodes.len() - i,
    {
        proof {
            assert(views.take(i as int + 1).drop_last() =~= views.take(i as int));
        }
        total = total + nodes[i].bandwidth as u128;
        i += 1;
    }
    proof {
        assert(views.take(i as int) =~= views);
    }
    total
}

/// The index of the node that the number `draw` selects.
pub fn select_index_at(nodes: &Vec<NodeDescriptor>, draw: u128) -> (r: usize)
    requires
        draw < draw_range(descriptors(nodes@)),
    ensures
        r == weighted_index(descriptors(nodes@), draw as int),
        r < nodes@.len(),
{
    let ghost views = descriptors(nodes@);
    proof {
        weighted_choice_is_proportional(views, draw as int);
    }
    if sum_bandwidth(nodes) == 0 {
        proof {
            assert(draw < nodes.len());
        }
        return draw as usize;
    }
    let mut rest: u128 = draw;
    let mut i: usize = 0;
    proof {
        assert(views.skip(0) =~= views);
    }
    while i < nodes.len()
        invariant
            i <= nodes.len(),
            views == descriptors(nodes@),
            rest < total_bandwidth(views.skip(i as int)),
            stretch_index(views, draw as int) == i + stretch_index(
                views.skip(i as int),
                rest as int,
            ),
            weighted_index(views, draw as int) == stretch_index(views, draw as int),
        decreases nodes.len() - i,
    {
        if rest < nodes[i].bandwidth as u128 {
            return i;
        }
        proof {
            total_bandwidth_front(views.skip(i as int));
            assert(views.skip(i as int).skip(1) =~= views.skip(i as int + 1));
            assert(views.skip(i as int)[0] == nodes[i as int]@);
        }
        rest = rest - nodes[i].bandwidth as u128;
        i += 1;
    }
    proof {
        assert(views.skip(i as int) =~= Seq::empty());
        assert(false);
    }
    0
}

/// Draws the index of a node, weighted by bandwidth: where some node has bandwidth, no node
/// without any is drawn.
pub fn select_weighted_index(nodes: &Vec<NodeDescriptor>, draws: &mut Draws) -> (r: Result<
    usize,
    RegistryError,
>)
    requires
        old(draws).wf(),
    ensures
        final(draws).wf(),
        match r {
            Ok(i) => {
                let draw = final(draws).taken().last();
                &&& final(draws).taken() == old(draws).taken().push(draw)
                &&& draw < draw_range(descriptors(nodes@))
                &&& i == weighted_index(descriptors(nodes@), draw as int)
                &&& i < nodes@.len()
                &&& forall|j: int|
                    0 <= j < nodes@.len() && (#[trigger] nodes@[j]).bandwidth > 0
                        ==> nodes@[i as int].bandwidth > 0
            },
            Err(e) => {
                &&& nodes@.len() == 0
                &&& final(draws).taken() == old(draws).taken()
                &&& e matches RegistryError::InsufficientNodes(m) && m@ == "Empty node list"@
            },
        },
        nodes@.len() == 0 ==> r is Err,
{
    if nodes.is_empty() {
        return Err(RegistryError::InsufficientNodes("Empty node list".to_owned()));
    }
    let total = sum_bandwidth(nodes);
    let range: u128 = if total == 0 {
        nodes.len() as u128
    } else {
        total
    };
    let draw = draws.below(range);
    proof {
        let views = descriptors(nodes@);
        weighted_choice_is_proportional(views, draw as int);
        assert forall|j: int| 0 <= j < nodes@.len() && (#[trigger] nodes@[j]).bandwidth
            > 0 implies total > 0 by {
            removed_bandwidth(views, j);
            assert(views[j] == nodes@[j]@);
        }
    }
    Ok(select_index_at(nodes, draw))
}

// ---------------------------------------------------------------------------------------------
// Which nodes may stand together.
// ---------------------------------------------------------------------------------------------

/// Two nodes that must not stand in one path: they share an address that is not a loopback
/// address (unless that is allowed), or they belong to the same operator.
pub open spec fn conflict(a: NodeDescriptorView, b: NodeDescriptorView, allow_same_ip: bool) -> bool {
    ||| same_address(a, b, allow_same_ip)
    ||| same_operator(a, b)
}

/// Two nodes share an address, where that matters.
pub open spec fn same_address(
    a: NodeDescriptorView,
    b: NodeDescriptorView,
    allow_same_ip: bool,
) -> bool {
    !allow_same_ip && !a.address.ip.loopback() && a.address.ip == b.address.ip
}

/// Two nodes belong to the same operator.
pub open spec fn same_operator(a: NodeDescriptorView, b: NodeDescriptorView) -> bool {
    a.operator_id is Some && a.operator_id == b.operator_id
}

/// Whether a node may join the chosen ones.
pub open spec fn compatible(
    node: NodeDescriptorView,
    chosen: Seq<NodeDescriptorView>,
    allow_same_ip: bool,
) -> bool {
    forall|i: int| 0 <= i < chosen.len() ==> !conflict(node, #[trigger] chosen[i], allow_same_ip)
}

/// The nodes that may join the chosen ones.
pub open spec fn open_nodes(
    nodes: Seq<NodeDescriptorView>,
    chosen: Seq<NodeDescriptorView>,
    allow_same_ip: bool,
) -> Seq<NodeDescriptorView> {
    nodes.filter(|n: NodeDescriptorView| compatible(n, chosen, allow_same_ip))
}

fn shares_address(a: &NodeDescriptor, b: &NodeDescriptor, allow_same_ip: bool) -> (r: bool)
    ensures
        r == same_address(a@, b@, allow_same_ip),
{
    !allow_same_ip && !a.address.ip.is_loopback() && a.address.ip == b.address.ip
}

fn shares_operator(a: &NodeDescriptor, b: &NodeDescriptor) -> (r: bool)
    ensures
        r == same_operator(a@, b@),
{
    match (&a.operator_id, &b.operator_id) {
        (Some(x), Some(y)) => same(x.as_str(), y.as_str()),
        _ => false,
    }
}

fn may_join(
    node: &NodeDescriptor,
    exit: &NodeDescriptor,
    path: &Vec<NodeDescriptor>,
    allow_same_ip: bool,
) -> (r: bool)
    ensures
        r == compatible(node@, seq![exit@] + descriptors(path@), allow_same_ip),
{
    let ghost chosen = seq![exit@] + descriptors(path@);
    if shares_address(node, exit, allow_same_ip) || shares_operator(node, exit) {
        proof {
            assert(chosen[0] == exit@);
        }
        return false;
    }
    let mut i: usize = 0;
    while i < path.len()
        invariant
            i <= path.len(),
            chosen == seq![exit@] + descriptors(path@),
            forall|j: int|
                0 <= j < i + 1 ==> !conflict(node@, #[trigger] chosen[j], allow_same_ip),
        decreases path.len() - i,
    {
        proof {
            assert(chosen[i as int + 1] == path@[i as int]@);
        }
        if shares_address(node, &path[i], allow_same_ip) || shares_operator(node, &path[i]) {
            return false;
        }
        i += 1;
    }
    true
}

/// Keeps the nodes that may join the chosen ones.
fn keep_open(
    nodes: &mut Vec<NodeDescriptor>,
    exit: &NodeDescriptor,
    path: &Vec<NodeDescriptor>,
    allow_same_ip: bool,
)
    ensures
        descriptors(final(nodes)@) == open_nodes(
            descriptors(old(nodes)@),
            seq![exit@] + descriptors(path@),
            allow_same_ip,
        ),
{
    let ghost chosen = seq![exit@] + descriptors(path@);
    let ghost all = descriptors(nodes@);
    let ghost mut seen: int = 0;
    let mut i: usize = 0;
    proof {
        reveal(Seq::filter);
        assert(all.take(0) =~= Seq::empty());
        assert(all.skip(0) =~= all);
        assert(open_nodes(all.take(0), chosen, allow_same_ip) + all.skip(0) =~= all);
    }
    while i < nodes.len()
        invariant
            chosen == seq![exit@] + descriptors(path@),
            0 <= seen <= all.len(),
            i <= nodes.len(),
            i == open_nodes(all.take(seen), chosen, allow_same_ip).len(),
            descriptors(nodes@) == open_nodes(all.take(seen), chosen, allow_same_ip) + all.skip(
                seen,
            ),
        decreases nodes.len() - i,
    {
        let ghost kept = open_nodes(all.take(seen), chosen, allow_same_ip);
        proof {
            reveal(Seq::filter);
            assert(descriptors(nodes@)[i as int] == all.skip(seen)[0]);
            assert(all.take(seen + 1).drop_last() =~= all.take(seen));
        }
        if may_join(&nodes[i], exit, path, allow_same_ip) {
            i += 1;
            proof {
                assert(kept.push(all[seen]) + all.skip(seen + 1) =~= kept + all.skip(seen));
            }
        } else {
            let ghost before = nodes@;
            let _removed = nodes.remove(i);
            proof {
                assert(descriptors(nodes@) =~= descriptors(before).remove(i as int));
                assert((kept + all.skip(seen)).remove(i as int) =~= kept + all.skip(seen + 1));
            }
        }
        proof {
            seen = seen + 1;
        }
    }
    proof {
        assert(seen == all.len());
        assert(all.take(seen) =~= all);
        assert(all.skip(seen) =~= Seq::empty());
        assert(descriptors(nodes@) =~= open_nodes(all, chosen, allow_same_ip));
    }
}

// ---------------------------------------------------------------------------------------------
// Paths.
// ---------------------------------------------------------------------------------------------

/// The two ends of a path, which are chosen first.
pub open spec fn ends(exit: NodeDescriptorView, entry: NodeDescriptorView) -> Seq<
    NodeDescriptorView,
> {
    seq![exit, entry]
}

/// The middle nodes that the numbers select, one after the other, each among those that may
/// still join; or the complaint that too few are left.
pub open spec fn pick_middles(
    available: Seq<NodeDescriptorView>,
    chosen: Seq<NodeDescriptorView>,
    allow_same_ip: bool,
    slots: nat,
    draws: Seq<u128>,
) -> Result<Seq<NodeDescriptorView>, Seq<char>>
    decreases slots,
{
    if slots == 0 {
        Ok(Seq::empty())
    } else {
        let left = open_nodes(available, chosen, allow_same_ip);
        if left.len() < slots {
            Err(
                "Not enough unique-IP/operator middle nodes: need "@ + dec_text(slots) + " more, "@
                    + dec_text(left.len()) + " remain"@,
            )
        } else {
            let i = weighted_index(left, draws[0] as int);
            match pick_middles(
                left.remove(i),
                chosen.push(left[i]),
                allow_same_ip,
                (slots - 1) as nat,
                draws.skip(1),
            ) {
                Ok(rest) => Ok(seq![left[i]] + rest),
                Err(e) => Err(e),
            }
        }
    }
}

/// The numbers are in range, each for the nodes that it is drawn for.
pub open spec fn middle_draws_fit(
    available: Seq<NodeDescriptorView>,
    chosen: Seq<NodeDescriptorView>,
    allow_same_ip: bool,
    slots: nat,
    draws: Seq<u128>,
) -> bool
    decreases slots,
{
    let left = open_nodes(available, chosen, allow_same_ip);
    slots > 0 && left.len() >= slots ==> {
        &&& draws.len() > 0
        &&& draws[0] < draw_range(left)
        &&& middle_draws_fit(
            left.remove(weighted_index(left, draws[0] as int)),
            chosen.push(left[weighted_index(left, draws[0] as int)]),
            allow_same_ip,
            (slots - 1) as nat,
            draws.skip(1),
        )
    }
}

/// Why no path of `count` nodes can be chosen, whatever is drawn.
pub open spec fn shortage(
    entries: Seq<NodeDescriptorView>,
    middles: Seq<NodeDescriptorView>,
    exits: Seq<NodeDescriptorView>,
    count: nat,
) -> Option<Seq<char>> {
    if count < 3 {
        Some("hop count must be >= 3, got "@ + dec_text(count))
    } else if entries.len() == 0 {
        Some("No entry nodes available"@)
    } else if middles.len() == 0 {
        Some("No middle nodes available"@)
    } else if middles.len() < count - 2 {
        Some(
            "Need "@ + dec_text((count - 2) as nat) + " unique middle nodes for a "@ + dec_text(
                count,
            ) + "-hop circuit, only "@ + dec_text(middles.len()) + " registered"@,
        )
    } else if exits.len() == 0 {
        Some("No exit nodes available"@)
    } else {
        None
    }
}

/// The path of `count` nodes that the numbers select, or why they select none: the exit is drawn
/// first, then the entry, then the middle nodes.
pub open spec fn path_for(
    entries: Seq<NodeDescriptorView>,
    middles: Seq<NodeDescriptorView>,
    exits: Seq<NodeDescriptorView>,
    allow_same_ip: bool,
    count: nat,
    draws: Seq<u128>,
) -> Result<Seq<NodeDescriptorView>, Seq<char>> {
    match shortage(entries, middles, exits, count) {
        Some(e) => Err(e),
        None => {
            let exit = exits[weighted_index(exits, draws[0] as int)];
            let entry = entries[weighted_index(entries, draws[1] as int)];
            if same_address(entry, exit, allow_same_ip) {
                Err("entry and exit share the same IP address"@)
            } else if same_operator(entry, exit) {
                Err("entry and exit share the same operator_id"@)
            } else {
                match pick_middles(
                    middles,
                    ends(exit, entry),
                    allow_same_ip,
                    (count - 2) as nat,
                    draws.skip(2),
                ) {
                    Ok(picked) => Ok(seq![entry] + picked + seq![exit]),
                    Err(e) => Err(e),
                }
            }
        },
    }
}

/// The numbers are in range, each for the nodes that it is drawn for.
pub open spec fn path_draws_fit(
    entries: Seq<NodeDescriptorView>,
    middles: Seq<NodeDescriptorView>,
    exits: Seq<NodeDescriptorView>,
    allow_same_ip: bool,
    count: nat,
    draws: Seq<u128>,
) -> bool {
    shortage(entries, middles, exits, count) is None ==> {
        let exit = exits[weighted_index(exits, draws[0] as int)];
        let entry = entries[weighted_index(entries, draws[1] as int)];
        &&& draws.len() >= 2
        &&& draws[0] < draw_range(exits)
        &&& draws[1] < draw_range(entries)
        &&& conflict(entry, exit, allow_same_ip) || middle_draws_fit(
            middles,
            ends(exit, entry),
            allow_same_ip,
            (count - 2) as nat,
            draws.skip(2),
        )
    }
}

/// What a choice of a path gave, in terms of the path or the complaint.
pub open spec fn path_outcome(r: Result<Vec<NodeDescriptor>, RegistryError>) -> Result<
    Seq<NodeDescriptorView>,
    Seq<char>,
> {
    match r {
        Ok(path) => Ok(descriptors(path@)),
        Err(e) => Err(e->InsufficientNodes_0@),
    }
}

fn insufficient(message: &str) -> (e: RegistryError)
    ensures
        e is InsufficientNodes,
        e->InsufficientNodes_0@ == message@,
{
    RegistryError::InsufficientNodes(message.to_owned())
}

/// Chooses the middle nodes one after the other, each among those that may still join, and puts
/// them behind the entry.
fn choose_middles(
    middles: Vec<NodeDescriptor>,
    entry: NodeDescriptor,
    exit: &NodeDescriptor,
    allow_same_ip: bool,
    slots: usize,
    draws: &mut Draws,
) -> (r: Result<Vec<NodeDescriptor>, RegistryError>)
    requires
        old(draws).wf(),
    ensures
        final(draws).wf(),
        exists|later: Seq<u128>|
            {
                &&& final(draws).taken() == old(draws).taken() + later
                &&& middle_draws_fit(
                    descriptors(middles@),
                    ends(exit@, entry@),
                    allow_same_ip,
                    slots as nat,
                    later,
                )
                &&& #[trigger] pick_middles(
                    descriptors(middles@),
                    ends(exit@, entry@),
                    allow_same_ip,
                    slots as nat,
                    later,
                ) == (match r {
                    Ok(path) => Ok(descriptors(path@).skip(1)),
                    Err(e) => Err(e->InsufficientNodes_0@),
                })
            },
        r matches Ok(path) ==> path@.len() > 0 && path@[0]@ == entry@,
        r matches Err(e) ==> e is InsufficientNodes,
{
    let ghost base = draws.taken();
    let ghost views = descriptors(middles@);
    let ghost start = ends(exit@, entry@);
    let ghost goal = |picks: Seq<u128>| pick_middles(views, start, allow_same_ip, slots as nat, picks);
    let ghost fits = |picks: Seq<u128>|
        middle_draws_fit(views, start, allow_same_ip, slots as nat, picks);
    let mut path: Vec<NodeDescriptor> = Vec::new();
    path.push(entry);
    let mut available = middles;
    let mut slot: usize = 0;
    let ghost mut later: Seq<u128> = Seq::empty();
    proof {
        assert(seq![exit@] + descriptors(path@) =~= start);
        assert(base + later =~= base);
        assert forall|next: Seq<u128>| later + next =~= next by {}
        assert forall|rest: Seq<NodeDescriptorView>| descriptors(path@).skip(1) + rest =~= rest by {}
    }
    while slot < slots
        invariant
            slot <= slots,
            draws.wf(),
            draws.taken() == base + later,
            path@.len() == slot + 1,
            path@[0]@ == entry@,
            // Whatever numbers come, they complete the picks made so far.
            forall|next: Seq<u128>|
                #[trigger] goal(later + next) == continued(
                    descriptors(path@).skip(1),
                    pick_middles(
                        descriptors(available@),
                        seq![exit@] + descriptors(path@),
                        allow_same_ip,
                        (slots - slot) as nat,
                        next,
                    ),
                ),
            forall|next: Seq<u128>|
                #[trigger] fits(later + next) == middle_draws_fit(
                    descriptors(available@),
                    seq![exit@] + descriptors(path@),
                    allow_same_ip,
                    (slots - slot) as nat,
                    next,
                ),
            goal == (|picks: Seq<u128>|
                pick_middles(views, start, allow_same_ip, slots as nat, picks)),
            fits == (|picks: Seq<u128>|
                middle_draws_fit(views, start, allow_same_ip, slots as nat, picks)),
            base == old(draws).taken(),
            views == descriptors(middles@),
            start == ends(exit@, entry@),
        decreases slots - slot,
    {
        let ghost chosen = seq![exit@] + descriptors(path@);
        let ghost offered = descriptors(available@);
        let ghost picked = descriptors(path@).skip(1);
        keep_open(&mut available, exit, &path, allow_same_ip);
        let ghost left = descriptors(available@);
        let ghost none = Seq::<u128>::empty();
        proof {
            assert(later + none =~= later);
        }
        let remaining = slots - slot;
        if available.len() < remaining {
            let mut m = "Not enough unique-IP/operator middle nodes: need ".to_owned();
            push_dec(&mut m, remaining as u64);
            m.append(" more, ");
            push_dec(&mut m, available.len() as u64);
            m.append(" remain");
            proof {
                assert(goal(later + none) is Err);
                assert(fits(later + none));
                assert(pick_middles(views, start, allow_same_ip, slots as nat, later) == goal(later));
            }
            return Err(RegistryError::InsufficientNodes(m));
        }
        let at = match select_weighted_index(&available, draws) {
            Ok(i) => i,
            Err(e) => {
                return Err(e);
            },
        };
        let ghost draw = draws.taken().last();
        let node = available.remove(at);
        let ghost joined = left[at as int];
        path.push(node);
        proof {
            assert(descriptors(available@) =~= left.remove(at as int));
            assert(seq![exit@] + descriptors(path@) =~= chosen.push(joined));
            assert(descriptors(path@).skip(1) =~= picked.push(joined));
            assert(base + later.push(draw) =~= (base + later).push(draw));
            let rest_slots = (remaining - 1) as nat;
            assert forall|next: Seq<u128>| #[trigger] goal(later.push(draw) + next) == continued(
                picked.push(joined),
                pick_middles(
                    left.remove(at as int),
                    chosen.push(joined),
                    allow_same_ip,
                    rest_slots,
                    next,
                ),
            ) by {
                let all = seq![draw] + next;
                assert(later.push(draw) + next =~= later + all);
                assert(all.skip(1) =~= next);
                assert(goal(later + all) == continued(
                    picked,
                    pick_middles(offered, chosen, allow_same_ip, remaining as nat, all),
                ));
                if let Ok(rest) = pick_middles(
                    left.remove(at as int),
                    chosen.push(joined),
                    allow_same_ip,
                    rest_slots,
                    next,
                ) {
                    assert(picked + (seq![joined] + rest) =~= picked.push(joined) + rest);
                }
            }
            assert forall|next: Seq<u128>| #[trigger] fits(later.push(draw) + next)
                == middle_draws_fit(
                left.remove(at as int),
                chosen.push(joined),
                allow_same_ip,
                rest_slots,
                next,
            ) by {
                let all = seq![draw] + next;
                assert(later.push(draw) + next =~= later + all);
                assert(all.skip(1) =~= next);
                assert(fits(later + all) == middle_draws_fit(
                    offered,
                    chosen,
                    allow_same_ip,
                    remaining as nat,
                    all,
                ));
            }
            later = later.push(draw);
        }
        slot += 1;
    }
    proof {
        let none = Seq::<u128>::empty();
        let picked = descriptors(path@).skip(1);
        assert(later + none =~= later);
        assert(picked + Seq::empty() =~= picked);
        assert(goal(later + none) == Ok::<Seq<NodeDescriptorView>, Seq<char>>(picked));
        assert(fits(later + none));
        assert(pick_middles(views, start, allow_same_ip, slots as nat, later) == goal(later));
    }
    Ok(path)
}

/// Picks made before a run of further picks.
spec fn continued(
    picked: Seq<NodeDescriptorView>,
    rest: Result<Seq<NodeDescriptorView>, Seq<char>>,
) -> Result<Seq<NodeDescriptorView>, Seq<char>> {
    match rest {
        Ok(more) => Ok(picked + more),
        Err(e) => Err(e),
    }
}

/// Chooses a path of `count` nodes among the given ones, by the numbers that `draws` gives.
pub fn choose_path(
    entries: Vec<NodeDescriptor>,
    middles: Vec<NodeDescriptor>,
    exits: Vec<NodeDescriptor>,
    allow_same_ip: bool,
    count: usize,
    draws: &mut Draws,
) -> (r: Result<Vec<NodeDescriptor>, RegistryError>)
    requires
        old(draws).wf(),
    ensures
        final(draws).wf(),
        r matches Err(e) ==> e is InsufficientNodes,
        exists|new: Seq<u128>|
            {
                &&& final(draws).taken() == old(draws).taken() + new
                &&& path_draws_fit(
                    descriptors(entries@),
                    descriptors(middles@),
                    descriptors(exits@),
                    allow_same_ip,
                    count as nat,
                    new,
                )
                &&& path_outcome(r) == #[trigger] path_for(
                    descriptors(entries@),
                    descriptors(middles@),
                    descriptors(exits@),
                    allow_same_ip,
                    count as nat,
                    new,
                )
            },
{
    let ghost before = draws.taken();
    let ghost entry_views = descriptors(entries@);
    let ghost middle_views = descriptors(middles@);
    let ghost exit_views = descriptors(exits@);
    proof {
        let none = Seq::<u128>::empty();
        assert(before + none =~= before);
        if shortage(entry_views, middle_views, exit_views, count as nat) is Some {
            assert(path_for(
                entry_views,
                middle_views,
                exit_views,
                allow_same_ip,
                count as nat,
                none,
            ) is Err);
        }
    }
    if count < 3 {
        let mut m = "hop count must be >= 3, got ".to_owned();
        push_dec(&mut m, count as u64);
        return Err(RegistryError::InsufficientNodes(m));
    }
    if entries.is_empty() {
        return Err(insufficient("No entry nodes available"));
    }
    let middle_count = count - 2;
    if middles.is_empty() {
        return Err(insufficient("No middle nodes available"));
    }
    if middles.len() < middle_count {
        let mut m = "Need ".to_owned();
        push_dec(&mut m, middle_count as u64);
        m.append(" unique middle nodes for a ");
        push_dec(&mut m, count as u64);
        m.append("-hop circuit, only ");
        push_dec(&mut m, middles.len() as u64);
        m.append(" registered");
        return Err(RegistryError::InsufficientNodes(m));
    }
    if exits.is_empty() {
        return Err(insufficient("No exit nodes available"));
    }
    // The exit comes first: it has the most constraints.
    let exit_at = match select_weighted_index(&exits, draws) {
        Ok(i) => i,
        Err(e) => {
            return Err(e);
        },
    };
    let exit = exits[exit_at].clone();
    let ghost exit_draw = draws.taken().last();
    let entry_at = match select_weighted_index(&entries, draws) {
        Ok(i) => i,
        Err(e) => {
            return Err(e);
        },
    };
    let entry = entries[entry_at].clone();
    let ghost entry_draw = draws.taken().last();
    let ghost two = seq![exit_draw, entry_draw];
    proof {
        assert(draws.taken() =~= before + two);
    }
    if shares_address(&entry, &exit, allow_same_ip) {
        proof {
            assert(path_for(entry_views, middle_views, exit_views, allow_same_ip, count as nat, two)
                is Err);
        }
        return Err(insufficient("entry and exit share the same IP address"));
    }
    if shares_operator(&entry, &exit) {
        proof {
            assert(path_for(entry_views, middle_views, exit_views, allow_same_ip, count as nat, two)
                is Err);
        }
        return Err(insufficient("entry and exit share the same operator_id"));
    }
    let ghost entry_view = entry@;
    let chosen = choose_middles(middles, entry, &exit, allow_same_ip, middle_count, draws);
    let ghost later = choose|later: Seq<u128>|
        {
            &&& draws.taken() == (before + two) + later
            &&& middle_draws_fit(
                middle_views,
                ends(exit@, entry_view),
                allow_same_ip,
                middle_count as nat,
                later,
            )
            &&& #[trigger] pick_middles(
                middle_views,
                ends(exit@, entry_view),
                allow_same_ip,
                middle_count as nat,
                later,
            ) == (match chosen {
                Ok(path) => Ok(descriptors(path@).skip(1)),
                Err(e) => Err(e->InsufficientNodes_0@),
            })
        };
    let ghost new = two + later;
    proof {
        assert((before + two) + later =~= before + new);
        assert(new.skip(2) =~= later);
        assert(path_draws_fit(
            entry_views,
            middle_views,
            exit_views,
            allow_same_ip,
            count as nat,
            new,
        ));
    }
    match chosen {
        Ok(mut path) => {
            proof {
                let picked = descriptors(path@).skip(1);
                assert(descriptors(path@.push(exit)) =~= seq![entry_view] + picked + seq![exit@]);
                assert(path_for(
                    entry_views,
                    middle_views,
                    exit_views,
                    allow_same_ip,
                    count as nat,
                    new,
                ) == Ok::<Seq<NodeDescriptorView>, Seq<char>>(descriptors(path@.push(exit))));
            }
            path.push(exit);
            Ok(path)
        },
        Err(e) => {
            proof {
                assert(path_for(
                    entry_views,
                    middle_views,
                    exit_views,
                    allow_same_ip,
                    count as nat,
                    new,
                ) is Err);
            }
            Err(e)
        },
    }
}

// ---------------------------------------------------------------------------------------------
// What holds of every chosen path.
// ---------------------------------------------------------------------------------------------

/// No two of the nodes have the same identifier.
pub open spec fn ids_distinct(nodes: Seq<NodeDescriptorView>) -> bool {
    forall|i: int, j: int|
        0 <= i < j < nodes.len() ==> #[trigger] nodes[i].node_id != #[trigger] nodes[j].node_id
}

/// No two of the nodes conflict.
pub open spec fn no_conflicts(nodes: Seq<NodeDescriptorView>, allow_same_ip: bool) -> bool {
    forall|i: int, j: int|
        0 <= i < nodes.len() && 0 <= j < nodes.len() && i != j ==> !conflict(
            #[trigger] nodes[i],
            #[trigger] nodes[j],
            allow_same_ip,
        )
}

/// No two of the nodes name the same operator, and unless that is allowed no two of them have the
/// same address, where it is not a loopback address (`127.0.0.0/8` or `::1`).
pub open spec fn kept_apart(nodes: Seq<NodeDescriptorView>, allow_same_ip: bool) -> bool {
    forall|i: int, j: int|
        0 <= i < nodes.len() && 0 <= j < nodes.len() && i != j ==> {
            let a = #[trigger] nodes[i];
            let b = #[trigger] nodes[j];
            &&& a.operator_id is Some && b.operator_id is Some ==> a.operator_id != b.operator_id
            &&& allow_same_ip || a.address.ip != b.address.ip || (match a.address.ip {
                IpAddr::V4(n) => n / 16777216 == 127,
                IpAddr::V6(n) => n == 1,
            })
        }
}

/// A sound path of `count` nodes: an entry node, then middle nodes, then an exit node, no two of
/// them with the same identifier, the same operator or the same address, and no two of them in
/// conflict.
pub open spec fn sound_path(
    entries: Seq<NodeDescriptorView>,
    middles: Seq<NodeDescriptorView>,
    exits: Seq<NodeDescriptorView>,
    allow_same_ip: bool,
    count: nat,
    path: Seq<NodeDescriptorView>,
) -> bool {
    &&& path.len() == count
    &&& count >= 3
    &&& entries.contains(path[0])
    &&& exits.contains(path.last())
    &&& forall|i: int| 0 < i < count - 1 ==> middles.contains(#[trigger] path[i])
    &&& ids_distinct(path)
    &&& no_conflicts(path, allow_same_ip)
    &&& kept_apart(path, allow_same_ip)
}

proof fn conflict_both_ways(a: NodeDescriptorView, b: NodeDescriptorView, allow_same_ip: bool)
    ensures
        conflict(a, b, allow_same_ip) == conflict(b, a, allow_same_ip),
{
}

proof fn open_nodes_are_sound(
    nodes: Seq<NodeDescriptorView>,
    chosen: Seq<NodeDescriptorView>,
    allow_same_ip: bool,
)
    requires
        ids_distinct(nodes),
    ensures
        ({
            let left = open_nodes(nodes, chosen, allow_same_ip);
            &&& ids_distinct(left)
            &&& forall|i: int| 0 <= i < left.len() ==> nodes.contains(#[trigger] left[i])
            &&& forall|i: int|
                0 <= i < left.len() ==> compatible(#[trigger] left[i], chosen, allow_same_ip)
        }),
    decreases nodes.len(),
{
    reveal(Seq::filter);
    if nodes.len() > 0 {
        let rest = nodes.drop_last();
        open_nodes_are_sound(rest, chosen, allow_same_ip);
        let before = open_nodes(rest, chosen, allow_same_ip);
        let left = open_nodes(nodes, chosen, allow_same_ip);
        assert forall|i: int| 0 <= i < left.len() implies nodes.contains(#[trigger] left[i]) by {
            if i < before.len() {
                assert(left[i] == before[i]);
                let k = choose|k: int| 0 <= k < rest.len() && rest[k] == before[i];
                assert(nodes[k] == left[i]);
            } else {
                assert(left[i] == nodes[nodes.len() - 1]);
            }
        }
        assert forall|i: int, j: int| 0 <= i < j < left.len() implies #[trigger] left[i].node_id
            != #[trigger] left[j].node_id by {
            if j == before.len() {
                assert(left[i] == before[i]);
                let k = choose|k: int| 0 <= k < rest.len() && rest[k] == before[i];
                assert(nodes[k].node_id != nodes[nodes.len() - 1].node_id);
            } else {
                assert(left[i] == before[i] && left[j] == before[j]);
            }
        }
    }
}

proof fn picks_are_sound(
    available: Seq<NodeDescriptorView>,
    chosen: Seq<NodeDescriptorView>,
    allow_same_ip: bool,
    slots: nat,
    draws: Seq<u128>,
)
    requires
        ids_distinct(available),
        middle_draws_fit(available, chosen, allow_same_ip, slots, draws),
        pick_middles(available, chosen, allow_same_ip, slots, draws) is Ok,
    ensures
        ({
            let picked = pick_middles(available, chosen, allow_same_ip, slots, draws)->Ok_0;
            &&& picked.len() == slots
            &&& forall|i: int| 0 <= i < slots ==> available.contains(#[trigger] picked[i])
            &&& forall|i: int|
                0 <= i < slots ==> compatible(#[trigger] picked[i], chosen, allow_same_ip)
            &&& ids_distinct(picked)
            &&& no_conflicts(picked, allow_same_ip)
        }),
    decreases slots,
{
    if slots > 0 {
        let left = open_nodes(available, chosen, allow_same_ip);
        open_nodes_are_sound(available, chosen, allow_same_ip);
        let at = weighted_index(left, draws[0] as int);
        weighted_choice_is_proportional(left, draws[0] as int);
        let joined = left[at];
        let less = left.remove(at);
        assert(ids_distinct(less));
        picks_are_sound(
            less,
            chosen.push(joined),
            allow_same_ip,
            (slots - 1) as nat,
            draws.skip(1),
        );
        let rest = pick_middles(
            less,
            chosen.push(joined),
            allow_same_ip,
            (slots - 1) as nat,
            draws.skip(1),
        )->Ok_0;
        let picked = seq![joined] + rest;
        assert forall|i: int| 0 <= i < rest.len() implies {
            &&& available.contains(#[trigger] rest[i])
            &&& compatible(rest[i], chosen, allow_same_ip)
            &&& rest[i].node_id != joined.node_id
            &&& !conflict(rest[i], joined, allow_same_ip)
        } by {
            let k = choose|k: int| 0 <= k < less.len() && less[k] == rest[i];
            let m = if k < at { k } else { k + 1 };
            assert(left[m] == rest[i]);
            assert(compatible(rest[i], chosen.push(joined), allow_same_ip));
            let all = chosen.push(joined);
            assert(all[chosen.len() as int] == joined);
            assert forall|c: int| 0 <= c < chosen.len() implies !conflict(
                rest[i],
                #[trigger] chosen[c],
                allow_same_ip,
            ) by {
                assert(all[c] == chosen[c]);
            }
        }
        assert forall|i: int| 0 <= i < slots implies available.contains(#[trigger] picked[i])
            && compatible(picked[i], chosen, allow_same_ip) by {
            if i > 0 {
                assert(picked[i] == rest[i - 1]);
            } else {
                assert(picked[i] == left[at]);
            }
        }
        assert forall|i: int, j: int| 0 <= i < j < picked.len() implies #[trigger] picked[i].node_id
            != #[trigger] picked[j].node_id by {
            assert(picked[j] == rest[j - 1]);
            if i > 0 {
                assert(picked[i] == rest[i - 1]);
            }
        }
        assert forall|i: int, j: int|
            0 <= i < picked.len() && 0 <= j < picked.len() && i != j implies !conflict(
            #[trigger] picked[i],
            #[trigger] picked[j],
            allow_same_ip,
        ) by {
            conflict_both_ways(picked[i], picked[j], allow_same_ip);
            if i > 0 {
                assert(picked[i] == rest[i - 1]);
            }
            if j > 0 {
                assert(picked[j] == rest[j - 1]);
            }
        }
    }
}

/// Every path that is chosen is sound, whatever numbers are drawn: it has the length that was
/// asked for, an entry, middle nodes, an exit, and no two of its nodes share an identifier, an
/// address or an operator.
pub proof fn chosen_paths_are_sound(
    entries: Seq<NodeDescriptorView>,
    middles: Seq<NodeDescriptorView>,
    exits: Seq<NodeDescriptorView>,
    allow_same_ip: bool,
    count: nat,
    draws: Seq<u128>,
)
    requires
        ids_distinct(entries + middles + exits),
        path_draws_fit(entries, middles, exits, allow_same_ip, count, draws),
        path_for(entries, middles, exits, allow_same_ip, count, draws) is Ok,
    ensures
        sound_path(
            entries,
            middles,
            exits,
            allow_same_ip,
            count,
            path_for(entries, middles, exits, allow_same_ip, count, draws)->Ok_0,
        ),
{
    weighted_choice_is_proportional(exits, draws[0] as int);
    weighted_choice_is_proportional(entries, draws[1] as int);
    let exit = exits[weighted_index(exits, draws[0] as int)];
    let entry = entries[weighted_index(entries, draws[1] as int)];
    let slots = (count - 2) as nat;
    let all = entries + middles + exits;
    assert forall|i: int, j: int| 0 <= i < j < middles.len() implies #[trigger] middles[i].node_id
        != #[trigger] middles[j].node_id by {
        assert(all[entries.len() + i] == middles[i] && all[entries.len() + j] == middles[j]);
    }
    picks_are_sound(middles, ends(exit, entry), allow_same_ip, slots, draws.skip(2));
    let picked = pick_middles(
        middles,
        ends(exit, entry),
        allow_same_ip,
        slots,
        draws.skip(2),
    )->Ok_0;
    let path = seq![entry] + picked + seq![exit];
    let entry_at = weighted_index(entries, draws[1] as int);
    let exit_at = entries.len() + middles.len() + weighted_index(exits, draws[0] as int);
    assert(all[entry_at] == entry && all[exit_at] == exit);
    assert forall|i: int, j: int| 0 <= i < j < path.len() implies #[trigger] path[i].node_id
        != #[trigger] path[j].node_id by {
        if 0 < i < path.len() - 1 {
            assert(path[i] == picked[i - 1]);
            let k = choose|k: int| 0 <= k < middles.len() && middles[k] == picked[i - 1];
            assert(all[entries.len() + k] == path[i]);
        }
        if 0 < j < path.len() - 1 {
            assert(path[j] == picked[j - 1]);
            let k = choose|k: int| 0 <= k < middles.len() && middles[k] == picked[j - 1];
            assert(all[entries.len() + k] == path[j]);
        }
    }
    assert forall|i: int| 0 < i < count - 1 implies middles.contains(#[trigger] path[i]) by {
        assert(path[i] == picked[i - 1]);
    }
    assert forall|i: int, j: int|
        0 <= i < path.len() && 0 <= j < path.len() && i != j implies !conflict(
        #[trigger] path[i],
        #[trigger] path[j],
        allow_same_ip,
    ) by {
        path_pair_is_open(entry, picked, exit, allow_same_ip, i, j);
    }
}

proof fn path_pair_is_open(
    entry: NodeDescriptorView,
    picked: Seq<NodeDescriptorView>,
    exit: NodeDescriptorView,
    allow_same_ip: bool,
    i: int,
    j: int,
)
    requires
        !conflict(entry, exit, allow_same_ip),
        forall|k: int|
            0 <= k < picked.len() ==> compatible(
                #[trigger] picked[k],
                ends(exit, entry),
                allow_same_ip,
            ),
        no_conflicts(picked, allow_same_ip),
        0 <= i < picked.len() + 2,
        0 <= j < picked.len() + 2,
        i != j,
    ensures
        ({
            let path = seq![entry] + picked + seq![exit];
            !conflict(path[i], path[j], allow_same_ip)
        }),
{
    let path = seq![entry] + picked + seq![exit];
    let last = picked.len() + 1;
    conflict_both_ways(path[i], path[j], allow_same_ip);
    let both = ends(exit, entry);
    assert(both[0] == exit && both[1] == entry);
    if 0 < i < last {
        assert(path[i] == picked[i - 1]);
        assert(compatible(picked[i - 1], both, allow_same_ip));
        assert(!conflict(picked[i - 1], both[0], allow_same_ip));
        assert(!conflict(picked[i - 1], both[1], allow_same_ip));
    }
    if 0 < j < last {
        assert(path[j] == picked[j - 1]);
        assert(compatible(picked[j - 1], both, allow_same_ip));
        assert(!conflict(picked[j - 1], both[0], allow_same_ip));
        assert(!conflict(picked[j - 1], both[1], allow_same_ip));
    }
}

proof fn all_stay_open(
    nodes: Seq<NodeDescriptorView>,
    chosen: Seq<NodeDescriptorView>,
    allow_same_ip: bool,
)
    requires
        forall|i: int|
            0 <= i < nodes.len() ==> compatible(#[trigger] nodes[i], chosen, allow_same_ip),
    ensures
        open_nodes(nodes, chosen, allow_same_ip) == nodes,
    decreases nodes.len(),
{
    reveal(Seq::filter);
    if nodes.len() > 0 {
        assert forall|i: int| 0 <= i < nodes.len() - 1 implies compatible(
            #[trigger] nodes.drop_last()[i],
            chosen,
            allow_same_ip,
        ) by {
            assert(nodes.drop_last()[i] == nodes[i]);
        }
        all_stay_open(nodes.drop_last(), chosen, allow_same_ip);
        assert(nodes.drop_last().push(nodes.last()) =~= nodes);
    } else {
        assert(open_nodes(nodes, chosen, allow_same_ip) =~= nodes);
    }
}

proof fn picks_succeed(
    available: Seq<NodeDescriptorView>,
    chosen: Seq<NodeDescriptorView>,
    allow_same_ip: bool,
    slots: nat,
    draws: Seq<u128>,
)
    requires
        available.len() >= slots,
        middle_draws_fit(available, chosen, allow_same_ip, slots, draws),
        no_conflicts(available, allow_same_ip),
        forall|i: int|
            0 <= i < available.len() ==> compatible(#[trigger] available[i], chosen, allow_same_ip),
    ensures
        pick_middles(available, chosen, allow_same_ip, slots, draws) is Ok,
    decreases slots,
{
    if slots > 0 {
        all_stay_open(available, chosen, allow_same_ip);
        let at = weighted_index(available, draws[0] as int);
        weighted_choice_is_proportional(available, draws[0] as int);
        let less = available.remove(at);
        let joined = available[at];
        assert forall|i: int| 0 <= i < less.len() implies compatible(
            #[trigger] less[i],
            chosen.push(joined),
            allow_same_ip,
        ) by {
            let k = if i < at { i } else { i + 1 };
            assert(less[i] == available[k]);
            assert(compatible(available[k], chosen, allow_same_ip));
        }
        picks_succeed(
            less,
            chosen.push(joined),
            allow_same_ip,
            (slots - 1) as nat,
            draws.skip(1),
        );
    }
}

/// Where no two nodes conflict and there are enough of each kind, a path is found whatever
/// numbers are drawn.
pub proof fn paths_are_found_without_conflicts(
    entries: Seq<NodeDescriptorView>,
    middles: Seq<NodeDescriptorView>,
    exits: Seq<NodeDescriptorView>,
    allow_same_ip: bool,
    count: nat,
    draws: Seq<u128>,
)
    requires
        shortage(entries, middles, exits, count) is None,
        path_draws_fit(entries, middles, exits, allow_same_ip, count, draws),
        no_conflicts(entries + middles + exits, allow_same_ip),
    ensures
        path_for(entries, middles, exits, allow_same_ip, count, draws) is Ok,
{
    let all = entries + middles + exits;
    weighted_choice_is_proportional(exits, draws[0] as int);
    weighted_choice_is_proportional(entries, draws[1] as int);
    let exit_at = weighted_index(exits, draws[0] as int);
    let entry_at = weighted_index(entries, draws[1] as int);
    let exit = exits[exit_at];
    let entry = entries[entry_at];
    let exit_in_all = entries.len() + middles.len() + exit_at;
    assert(all[entry_at] == entry);
    assert(all[exit_in_all] == exit);
    assert(!conflict(entry, exit, allow_same_ip));
    assert forall|i: int| 0 <= i < middles.len() implies compatible(
        #[trigger] middles[i],
        ends(exit, entry),
        allow_same_ip,
    ) by {
        assert(all[entries.len() + i] == middles[i]);
        assert(!conflict(all[entries.len() + i], all[entry_at], allow_same_ip));
        assert(!conflict(all[entries.len() + i], all[exit_in_all], allow_same_ip));
    }
    assert forall|i: int, j: int|
        0 <= i < middles.len() && 0 <= j < middles.len() && i != j implies !conflict(
        #[trigger] middles[i],
        #[trigger] middles[j],
        allow_same_ip,
    ) by {
        assert(all[entries.len() + i] == middles[i]);
        assert(all[entries.len() + j] == middles[j]);
    }
    picks_succeed(
        middles,
        ends(exit, entry),
        allow_same_ip,
        (count - 2) as nat,
        draws.skip(2),
    );
}

/// Whatever numbers are drawn, any two nodes of a path that is chosen are kept apart, wherever
/// they stand in it and whatever their types: if both name an operator they name different ones,
/// and unless nodes may share an address, or the address is in `127.0.0.0/8` or is `::1`, they
/// have different addresses.
pub proof fn path_nodes_are_kept_apart(
    entries: Seq<NodeDescriptorView>,
    middles: Seq<NodeDescriptorView>,
    exits: Seq<NodeDescriptorView>,
    allow_same_ip: bool,
    count: nat,
    draws: Seq<u128>,
    i: int,
    j: int,
)
    requires
        ids_distinct(entries + middles + exits),
        path_draws_fit(entries, middles, exits, allow_same_ip, count, draws),
        path_for(entries, middles, exits, allow_same_ip, count, draws) is Ok,
        0 <= i < path_for(entries, middles, exits, allow_same_ip, count, draws)->Ok_0.len(),
        0 <= j < path_for(entries, middles, exits, allow_same_ip, count, draws)->Ok_0.len(),
        i != j,
    ensures
        ({
            let path = path_for(entries, middles, exits, allow_same_ip, count, draws)->Ok_0;
            let own_host = match path[i].address.ip {
                IpAddr::V4(n) => n / 16777216 == 127,
                IpAddr::V6(n) => n == 1,
            };
            &&& path[i].operator_id is Some && path[j].operator_id is Some ==> path[i].operator_id
                != path[j].operator_id
            &&& !allow_same_ip && !own_host ==> path[i].address.ip != path[j].address.ip
            &&& path[i].node_id != path[j].node_id
        }),
{
    chosen_paths_are_sound(entries, middles, exits, allow_same_ip, count, draws);
    let path = path_for(entries, middles, exits, allow_same_ip, count, draws)->Ok_0;
    assert(path[i] == path[i] && path[j] == path[j]);
}

/// Nodes are turned away for nothing else: where there are three hops or more, an entry, an exit
/// and enough middle nodes, no two nodes name the same operator, and all have different addresses
/// (or may share them), a path is found whatever numbers are drawn.
pub proof fn unrelated_nodes_make_a_path(
    entries: Seq<NodeDescriptorView>,
    middles: Seq<NodeDescriptorView>,
    exits: Seq<NodeDescriptorView>,
    allow_same_ip: bool,
    count: nat,
    draws: Seq<u128>,
)
    requires
        count >= 3,
        entries.len() > 0,
        middles.len() >= count - 2,
        exits.len() > 0,
        path_draws_fit(entries, middles, exits, allow_same_ip, count, draws),
        kept_apart(entries + middles + exits, allow_same_ip),
    ensures
        path_for(entries, middles, exits, allow_same_ip, count, draws) is Ok,
{
    let all = entries + middles + exits;
    assert forall|i: int, j: int|
        0 <= i < all.len() && 0 <= j < all.len() && i != j implies !conflict(
        #[trigger] all[i],
        #[trigger] all[j],
        allow_same_ip,
    ) by {}
    paths_are_found_without_conflicts(entries, middles, exits, allow_same_ip, count, draws);
}

/// Too few nodes make no path: with fewer than three hops, no entry, no exit or fewer middle
/// nodes than there are hops between the two ends, none is chosen.
pub proof fn too_few_nodes_make_no_path(
    entries: Seq<NodeDescriptorView>,
    middles: Seq<NodeDescriptorView>,
    exits: Seq<NodeDescriptorView>,
    allow_same_ip: bool,
    count: nat,
    draws: Seq<u128>,
)
    requires
        count < 3 || entries.len() == 0 || exits.len() == 0 || middles.len() < count - 2,
    ensures
        path_for(entries, middles, exits, allow_same_ip, count, draws) is Err,
{
}

/// The numbers choose by bandwidth at every place: the first one that is drawn gives the exit in
/// whose stretch it lies, the second one the entry, and the third one the first middle node, among
/// those that share no operator and (unless that is allowed) no address with the two ends.
pub proof fn numbers_choose_by_bandwidth(
    entries: Seq<NodeDescriptorView>,
    middles: Seq<NodeDescriptorView>,
    exits: Seq<NodeDescriptorView>,
    allow_same_ip: bool,
    count: nat,
    draws: Seq<u128>,
    at: int,
)
    requires
        path_draws_fit(entries, middles, exits, allow_same_ip, count, draws),
        path_for(entries, middles, exits, allow_same_ip, count, draws) is Ok,
    ensures
        ({
            let path = path_for(entries, middles, exits, allow_same_ip, count, draws)->Ok_0;
            &&& 0 <= at < exits.len() && total_bandwidth(exits.take(at)) <= draws[0]
                < total_bandwidth(exits.take(at)) + exits[at].bandwidth ==> path.last()
                == exits[at]
            &&& 0 <= at < entries.len() && total_bandwidth(entries.take(at)) <= draws[1]
                < total_bandwidth(entries.take(at)) + entries[at].bandwidth ==> path[0]
                == entries[at]
            &&& ({
                let entry = path[0];
                let exit = path.last();
                let open = middles.filter(
                    |n: NodeDescriptorView|
                        {
                            &&& n.operator_id is Some ==> n.operator_id != entry.operator_id
                                && n.operator_id != exit.operator_id
                            &&& allow_same_ip || (n.address.ip != entry.address.ip
                                && n.address.ip != exit.address.ip) || (match n.address.ip {
                                IpAddr::V4(b) => b / 16777216 == 127,
                                IpAddr::V6(b) => b == 1,
                            })
                        },
                );
                0 <= at < open.len() && total_bandwidth(open.take(at)) <= draws[2]
                    < total_bandwidth(open.take(at)) + open[at].bandwidth ==> path[1] == open[at]
            })
        }),
{
    let path = path_for(entries, middles, exits, allow_same_ip, count, draws)->Ok_0;
    if 0 <= at < exits.len() {
        stretches_select_their_node(exits, at, draws[0] as int);
    }
    if 0 <= at < entries.len() {
        stretches_select_their_node(entries, at, draws[1] as int);
    }
    let exit = exits[weighted_index(exits, draws[0] as int)];
    let entry = entries[weighted_index(entries, draws[1] as int)];
    let open = middles.filter(
        |n: NodeDescriptorView|
            {
                &&& n.operator_id is Some ==> n.operator_id != entry.operator_id && n.operator_id
                    != exit.operator_id
                &&& allow_same_ip || (n.address.ip != entry.address.ip && n.address.ip
                    != exit.address.ip) || (match n.address.ip {
                    IpAddr::V4(b) => b / 16777216 == 127,
                    IpAddr::V6(b) => b == 1,
                })
            },
    );
    assert(draws.skip(2).len() > 0);
    assert(draws.skip(2)[0] == draws[2]);
    let both = ends(exit, entry);
    assert forall|n: NodeDescriptorView| compatible(n, both, allow_same_ip) == ({
        &&& n.operator_id is Some ==> n.operator_id != entry.operator_id && n.operator_id
            != exit.operator_id
        &&& allow_same_ip || (n.address.ip != entry.address.ip && n.address.ip
            != exit.address.ip) || (match n.address.ip {
            IpAddr::V4(b) => b / 16777216 == 127,
            IpAddr::V6(b) => b == 1,
        })
    }) by {
        assert(both[0] == exit && both[1] == entry);
        if compatible(n, both, allow_same_ip) {
            assert(!conflict(n, both[0], allow_same_ip) && !conflict(n, both[1], allow_same_ip));
        }
    }
    assert((|n: NodeDescriptorView| compatible(n, both, allow_same_ip)) =~= (|
        n: NodeDescriptorView,
    |
        {
            &&& n.operator_id is Some ==> n.operator_id != entry.operator_id && n.operator_id
                != exit.operator_id
            &&& allow_same_ip || (n.address.ip != entry.address.ip && n.address.ip
                != exit.address.ip) || (match n.address.ip {
                IpAddr::V4(b) => b / 16777216 == 127,
                IpAddr::V6(b) => b == 1,
            })
        }));
    assert(open == open_nodes(middles, both, allow_same_ip));
    if 0 <= at < open.len() {
        stretches_select_their_node(open, at, draws[2] as int);
    }
}

/// Every middle node is chosen as the first one is: the next number gives the node in whose stretch
/// it lies among those that share no operator and (unless that is allowed) no address with any node
/// chosen so far, and the later ones are chosen in the same way among what is left.
pub proof fn middles_are_chosen_one_by_one(
    available: Seq<NodeDescriptorView>,
    chosen: Seq<NodeDescriptorView>,
    allow_same_ip: bool,
    slots: nat,
    draws: Seq<u128>,
    at: int,
)
    requires
        slots > 0,
        pick_middles(available, chosen, allow_same_ip, slots, draws) is Ok,
    ensures
        ({
            let open = available.filter(
                |n: NodeDescriptorView|
                    forall|i: int|
                        0 <= i < chosen.len() ==> {
                            let c = #[trigger] chosen[i];
                            &&& n.operator_id is Some ==> n.operator_id != c.operator_id
                            &&& allow_same_ip || n.address.ip != c.address.ip || (
                            match n.address.ip {
                                IpAddr::V4(b) => b / 16777216 == 127,
                                IpAddr::V6(b) => b == 1,
                            })
                        },
            );
            let picked = pick_middles(available, chosen, allow_same_ip, slots, draws)->Ok_0;
            &&& open.len() >= slots
            &&& 0 <= at < open.len() && total_bandwidth(open.take(at)) <= draws[0]
                < total_bandwidth(open.take(at)) + open[at].bandwidth ==> {
                &&& picked[0] == open[at]
                &&& pick_middles(
                    open.remove(at),
                    chosen.push(open[at]),
                    allow_same_ip,
                    (slots - 1) as nat,
                    draws.skip(1),
                ) == Ok::<Seq<NodeDescriptorView>, Seq<char>>(picked.skip(1))
            }
        }),
{
    let apart = |n: NodeDescriptorView|
        forall|i: int|
            0 <= i < chosen.len() ==> {
                let c = #[trigger] chosen[i];
                &&& n.operator_id is Some ==> n.operator_id != c.operator_id
                &&& allow_same_ip || n.address.ip != c.address.ip || (match n.address.ip {
                    IpAddr::V4(b) => b / 16777216 == 127,
                    IpAddr::V6(b) => b == 1,
                })
            };
    let open = available.filter(apart);
    assert forall|n: NodeDescriptorView| compatible(n, chosen, allow_same_ip) == apart(n) by {
        if compatible(n, chosen, allow_same_ip) {
            assert forall|i: int| 0 <= i < chosen.len() implies {
                let c = #[trigger] chosen[i];
                &&& n.operator_id is Some ==> n.operator_id != c.operator_id
                &&& allow_same_ip || n.address.ip != c.address.ip || (match n.address.ip {
                    IpAddr::V4(b) => b / 16777216 == 127,
                    IpAddr::V6(b) => b == 1,
                })
            } by {
                assert(!conflict(n, chosen[i], allow_same_ip));
            }
        }
        if apart(n) {
            assert forall|i: int| 0 <= i < chosen.len() implies !conflict(
                n,
                #[trigger] chosen[i],
                allow_same_ip,
            ) by {}
        }
    }
    assert((|n: NodeDescriptorView| compatible(n, chosen, allow_same_ip)) =~= apart);
    assert(open == open_nodes(available, chosen, allow_same_ip));
    if 0 <= at < open.len() && total_bandwidth(open.take(at)) <= draws[0] < total_bandwidth(
        open.take(at),
    ) + open[at].bandwidth {
        stretches_select_their_node(open, at, draws[0] as int);
        let picked = pick_middles(available, chosen, allow_same_ip, slots, draws)->Ok_0;
        let rest = pick_middles(
            open.remove(at),
            chosen.push(open[at]),
            allow_same_ip,
            (slots - 1) as nat,
            draws.skip(1),
        );
        assert(rest is Ok);
        assert(picked.skip(1) =~= rest->Ok_0);
    }
}

}
