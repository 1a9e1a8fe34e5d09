//! Orders, and sorting by them.

use crate::text::chars_of;
use vstd::prelude::*;

verus! {

/// An order of values in which different values may be on a level.
pub trait Order<T>: Sized {
    /// Whether `a` belongs before `b`.
    spec fn before(self, a: T, b: T) -> bool;

    /// Whether `a` belongs before `b`.
    fn comes_first(&self, a: &T, b: &T) -> (r: bool)
        ensures
            r == self.before(*a, *b),
    ;

    /// No two values belong before each other.
    proof fn asymmetric(self, a: T, b: T)
        requires
            self.before(a, b),
        ensures
            !self.before(b, a),
    ;

    /// What does not belong after what does not belong after `c` does not belong after `c`.
    proof fn transitive(self, a: T, b: T, c: T)
        requires
            !self.before(b, a),
            !self.before(c, b),
        ensures
            !self.before(c, a),
    ;
}

/// Whether `after` holds the values of `before` in order, those on a level as they stood: the
/// value at `i` is the one that stood at `places[i]`.
pub open spec fn stably_sorted<T, O: Order<T>>(
    order: O,
    before: Seq<T>,
    after: Seq<T>,
    places: Seq<int>,
) -> bool {
    &&& after.len() == before.len()
    &&& places.len() == before.len()
    &&& places.no_duplicates()
    &&& forall|i: int|
        0 <= i < places.len() ==> 0 <= #[trigger] places[i] < before.len() && after[i]
            == before[places[i]]
    &&& forall|i: int, j: int|
        #![trigger after[i], after[j]]
        0 <= i < j < after.len() ==> !order.before(after[j], after[i]) && (order.before(
            after[i],
            after[j],
        ) || places[i] < places[j])
}

/// Puts `x`, which stood last, where it belongs.
fn insert_sorted<T, O: Order<T>>(
    order: &O,
    sorted: &mut Vec<T>,
    x: T,
    Ghost(before): Ghost<Seq<T>>,
    Ghost(places): Ghost<Seq<int>>,
) -> (new_places: Ghost<Seq<int>>)
    requires
        stably_sorted(*order, before, old(sorted)@, places),
    ensures
        stably_sorted(*order, before.push(x), final(sorted)@, new_places@),
{
    let n = sorted.len();
    let ghost s = sorted@;
    let mut at: usize = n;
    while at > 0 && order.comes_first(&x, &sorted[at - 1])
        invariant
            sorted@ == s,
            at <= n,
            n == s.len(),
            forall|j: int| at <= j < n ==> order.before(x, #[trigger] s[j]),
        decreases at,
    {
        at -= 1;
    }
    sorted.insert(at, x);
    let ghost p = places.insert(at as int, n as int);
    proof {
        let all = before.push(x);
        let a = sorted@;
        assert forall|i: int| 0 <= i < at implies !order.before(x, #[trigger] s[i]) by {
            if i < at - 1 {
                assert(!order.before(s[at - 1], s[i]));
                order.transitive(s[i], s[at - 1], x);
            }
        }
        assert forall|j: int| at <= j < n implies !order.before(#[trigger] s[j], x) by {
            if order.before(s[j], x) {
                order.asymmetric(x, s[j]);
            }
        }
        assert forall|i: int| 0 <= i < p.len() implies 0 <= #[trigger] p[i] < all.len() && a[i]
            == all[p[i]] by {
            if i < at {
                assert(p[i] == places[i]);
            } else if i > at {
                assert(p[i] == places[i - 1]);
            }
        }
        assert(p.no_duplicates()) by {
            assert forall|i: int, j: int| 0 <= i < j < p.len() implies p[i] != p[j] by {
                let i0 = if i < at {
                    i
                } else {
                    i - 1
                };
                let j0 = if j < at {
                    j
                } else {
                    j - 1
                };
                if i != at && j != at {
                    assert(places[i0] != places[j0]);
                } else if i == at {
                    assert(places[j0] < n);
                } else {
                    assert(places[i0] < n);
                }
            }
        }
        assert forall|i: int, j: int|
            #![trigger a[i], a[j]]
            0 <= i < j < a.len() implies !order.before(a[j], a[i]) && (order.before(a[i], a[j])
            || p[i] < p[j]) by {
            if j < at {
                assert(a[i] == s[i] && a[j] == s[j]);
            } else if j == at {
                assert(a[i] == s[i] && a[j] == x);
                assert(places[i] < n);
            } else if i == at {
                assert(a[i] == x && a[j] == s[j - 1]);
            } else if i < at {
                assert(a[i] == s[i] && a[j] == s[j - 1]);
            } else {
                assert(a[i] == s[i - 1] && a[j] == s[j - 1]);
            }
        }
    }
    Ghost(p)
}

/// The values in order, those on a level as they stood.
pub fn stable_sort<T, O: Order<T>>(order: &O, items: Vec<T>) -> (r: Vec<T>)
    ensures
        exists|places: Seq<int>| stably_sorted(*order, items@, r@, places),
{
    let ghost all = items@;
    let mut rest = items;
    let mut sorted: Vec<T> = Vec::new();
    let mut places: Ghost<Seq<int>> = Ghost(Seq::empty());
    proof {
        assert(all.skip(0) =~= all);
        assert(all.take(0) =~= Seq::<T>::empty());
    }
    while rest.len() > 0
        invariant
            sorted@.len() <= all.len(),
            rest@ == all.skip(sorted@.len() as int),
            stably_sorted(*order, all.take(sorted@.len() as int), sorted@, places@),
        decreases rest@.len(),
    {
        let ghost n = sorted@.len() as int;
        let x = rest.remove(0);
        proof {
            assert(all.take(n + 1) =~= all.take(n).push(x));
            assert(rest@ =~= all.skip(n + 1));
        }
        places = insert_sorted(order, &mut sorted, x, Ghost(all.take(n)), places);
    }
    proof {
        assert(all.take(all.len() as int) =~= all);
        assert(stably_sorted(*order, all, sorted@, places@));
    }
    sorted
}

/// Sorting keeps the values: each is there as often as before.
pub proof fn sorting_keeps_the_values<T, O: Order<T>>(
    order: O,
    before: Seq<T>,
    after: Seq<T>,
    places: Seq<int>,
)
    requires
        stably_sorted(order, before, after, places),
    ensures
        after.to_multiset() == before.to_multiset(),
{
    rearranging_keeps_the_values(before, after, places);
}

/// What is moved to different places is still there as often as before.
proof fn rearranging_keeps_the_values<T>(before: Seq<T>, after: Seq<T>, places: Seq<int>)
    requires
        after.len() == before.len(),
        places.len() == before.len(),
        places.no_duplicates(),
        forall|i: int|
            0 <= i < places.len() ==> 0 <= #[trigger] places[i] < before.len() && after[i]
                == before[places[i]],
    ensures
        after.to_multiset() == before.to_multiset(),
    decreases before.len(),
{
    broadcast use vstd::seq_lib::group_to_multiset_ensures;

    let n = before.len();
    if n == 0 {
        assert(after =~= before);
    } else {
        let p = places.last();
        let fewer = before.remove(p);
        let front = after.drop_last();
        let moved = Seq::new(
            (n - 1) as nat,
            |i: int| if places[i] < p {
                places[i]
            } else {
                places[i] - 1
            },
        );
        assert forall|i: int, j: int| 0 <= i < j < moved.len() implies moved[i] != moved[j] by {
            assert(places[i] != places[j] && places[i] != p && places[j] != p);
        }
        assert forall|i: int| 0 <= i < moved.len() implies 0 <= #[trigger] moved[i] < fewer.len()
            && front[i] == fewer[moved[i]] by {
            assert(places[i] != p);
            assert(after[i] == before[places[i]]);
        }
        rearranging_keeps_the_values(fewer, front, moved);
        assert(after =~= front.push(after.last()));
        assert(after.last() == before[p]);
        assert(before.to_multiset() =~= fewer.to_multiset().insert(before[p]));
    }
}

/// The order of texts: by the code point at which they first differ, and a text before those
/// that it begins.
pub open spec fn text_before(a: Seq<char>, b: Seq<char>) -> bool
    decreases a.len(),
{
    if b.len() == 0 {
        false
    } else if a.len() == 0 {
        true
    } else if a[0] != b[0] {
        a[0] < b[0]
    } else {
        text_before(a.skip(1), b.skip(1))
    }
}

/// The order of texts.
pub fn text_first(a: &str, b: &str) -> (r: bool)
    ensures
        r == text_before(a@, b@),
{
    let x = chars_of(a);
    let y = chars_of(b);
    let mut i: usize = 0;
    proof {
        assert(x@.skip(0) =~= x@);
        assert(y@.skip(0) =~= y@);
    }
    while i < x.len() && i < y.len() && x[i] == y[i]
        invariant
            x@ == a@,
            y@ == b@,
            i <= x.len(),
            i <= y.len(),
            text_before(a@, b@) == text_before(x@.skip(i as int), y@.skip(i as int)),
        decreases x.len() - i,
    {
        proof {
            assert(x@.skip(i as int).skip(1) =~= x@.skip(i as int + 1));
            assert(y@.skip(i as int).skip(1) =~= y@.skip(i as int + 1));
        }
        i += 1;
    }
    if i == y.len() {
        false
    } else if i == x.len() {
        true
    } else {
        x[i] < y[i]
    }
}

/// The order of texts is one: no two texts belong before each other, and of two different texts
/// one belongs before the other.
pub proof fn text_order_is_total(a: Seq<char>, b: Seq<char>)
    ensures
        !(text_before(a, b) && text_before(b, a)),
        a != b ==> text_before(a, b) || text_before(b, a),
    decreases a.len(),
{
    if a.len() > 0 && b.len() > 0 && a[0] == b[0] {
        text_order_is_total(a.skip(1), b.skip(1));
        if a.skip(1) == b.skip(1) {
            assert(a =~= seq![a[0]] + a.skip(1));
            assert(b =~= seq![b[0]] + b.skip(1));
        }
    }
    if a.len() == 0 && b.len() == 0 {
        assert(a =~= b);
    }
}

/// The order of texts is transitive.
pub proof fn text_order_is_transitive(a: Seq<char>, b: Seq<char>, c: Seq<char>)
    requires
        !text_before(b, a),
        !text_before(c, b),
    ensures
        !text_before(c, a),
    decreases a.len(),
{
    if a.len() > 0 && b.len() > 0 && c.len() > 0 && a[0] == b[0] && b[0] == c[0] {
        text_order_is_transitive(a.skip(1), b.skip(1), c.skip(1));
    }
}

/// Which of two texts comes first is settled where they first differ: the one with the smaller
/// character there, or the one that ends there.
pub proof fn texts_are_ordered_where_they_differ(a: Seq<char>, b: Seq<char>, k: int)
    requires
        0 <= k <= a.len(),
        k <= b.len(),
        a.take(k) == b.take(k),
        k < a.len() && k < b.len() ==> a[k] != b[k],
    ensures
        text_before(a, b) <==> k < b.len() && (k == a.len() || a[k] < b[k]),
    decreases k,
{
    if k > 0 {
        assert(a[0] == a.take(k)[0] && b[0] == b.take(k)[0]);
        assert(a.skip(1).take(k - 1) =~= a.take(k).skip(1));
        assert(b.skip(1).take(k - 1) =~= b.take(k).skip(1));
        texts_are_ordered_where_they_differ(a.skip(1), b.skip(1), k - 1);
    }
}

/// After sorting, no value stands in front of one that belongs before it, and of two values on a
/// level the one that stood first still stands first.
pub proof fn sorted_values_stand_in_order<T, O: Order<T>>(
    order: O,
    before: Seq<T>,
    after: Seq<T>,
    places: Seq<int>,
    i: int,
    j: int,
)
    requires
        stably_sorted(order, before, after, places),
        0 <= i < j < after.len(),
    ensures
        after.len() == before.len(),
        !order.before(after[j], after[i]),
        before[places[i]] == after[i],
        before[places[j]] == after[j],
        !order.before(after[i], after[j]) ==> places[i] < places[j],
{
    assert(after[i] == after[i] && after[j] == after[j]);
}

}
