//! Sorting that keeps the order of equals.

use vstd::prelude::*;

verus! {

/// Things that have a place in an order.
pub trait Ranked: Sized {
    /// This one belongs before the other.
    spec fn before(self, other: Self) -> bool;

    fn is_before(&self, other: &Self) -> (res: bool)
        ensures
            res == self.before(*other),
    ;

    proof fn before_is_one_way(a: Self, b: Self)
        ensures
            a.before(b) ==> !b.before(a),
    ;

    /// What does not belong before a thing does not belong before what follows it.
    proof fn not_before_is_transitive(a: Self, b: Self, c: Self)
        ensures
            !b.before(a) && !c.before(b) ==> !c.before(a),
    ;
}

/// A sorted list with one more thing in its place, behind its equals.
pub open spec fn inserted<T: Ranked>(list: Seq<T>, x: T) -> Seq<T>
    decreases list.len(),
{
    if list.len() > 0 && x.before(list.last()) {
        inserted(list.drop_last(), x).push(list.last())
    } else {
        list.push(x)
    }
}

/// The list in order; equals stay in the order they came in.
pub open spec fn arranged<T: Ranked>(list: Seq<T>) -> Seq<T>
    decreases list.len(),
{
    if list.len() == 0 {
        list
    } else {
        inserted(arranged(list.drop_last()), list.last())
    }
}

proof fn inserted_at<T: Ranked>(list: Seq<T>, x: T, k: int)
    requires
        0 <= k <= list.len(),
        k == 0 || !x.before(list[k - 1]),
        forall|j: int| k <= j < list.len() ==> x.before(#[trigger] list[j]),
    ensures
        inserted(list, x) == list.insert(k, x),
    decreases list.len(),
{
    if k == list.len() {
        assert(list.push(x) =~= list.insert(k, x));
    } else {
        let front = list.drop_last();
        assert forall|j: int| k <= j < front.len() implies x.before(#[trigger] front[j]) by {
            assert(front[j] == list[j]);
        }
        assert(x.before(list[list.len() - 1]));
        inserted_at(front, x, k);
        assert(front.insert(k, x).push(list.last()) =~= list.insert(k, x));
    }
}

fn insert_ranked<T: Ranked>(list: &mut Vec<T>, x: T)
    ensures
        final(list)@ == inserted(old(list)@, x),
{
    let mut k: usize = list.len();
    while k > 0 && x.is_before(&list[k - 1])
        invariant
            k <= list@.len(),
            list@ == old(list)@,
            forall|j: int| k <= j < list@.len() ==> x.before(#[trigger] list@[j]),
        decreases k,
    {
        k -= 1;
    }
    proof {
        inserted_at(list@, x, k as int);
    }
    list.insert(k, x);
}

/// Puts a list in order.
pub fn arrange<T: Ranked>(list: Vec<T>) -> (res: Vec<T>)
    ensures
        res@ == arranged(list@),
{
    let ghost all = list@;
    let mut rest = list;
    let mut turned: Vec<T> = Vec::new();
    while rest.len() > 0
        invariant
            rest@.len() + turned@.len() == all.len(),
            rest@ == all.take(rest@.len() as int),
            forall|j: int| 0 <= j < turned@.len() ==> #[trigger] turned@[j] == all[all.len() - 1 - j],
        decreases rest@.len(),
    {
        if let Some(x) = rest.pop() {
            turned.push(x);
        }
        assert(rest@ =~= all.take(rest@.len() as int));
    }
    let mut sorted: Vec<T> = Vec::new();
    assert(all.take(0) =~= Seq::empty());
    while turned.len() > 0
        invariant
            turned@.len() <= all.len(),
            forall|j: int| 0 <= j < turned@.len() ==> #[trigger] turned@[j] == all[all.len() - 1 - j],
            sorted@ == arranged(all.take(all.len() - turned@.len())),
        decreases turned@.len(),
    {
        let ghost done = all.len() - turned@.len();
        if let Some(x) = turned.pop() {
            assert(x == all[done]);
            assert(all.take(done + 1).drop_last() =~= all.take(done));
            insert_ranked(&mut sorted, x);
        }
    }
    assert(all.take(all.len() as int) =~= all);
    sorted
}

/// The first things of a list.
pub open spec fn first_of<T>(list: Seq<T>, n: nat) -> Seq<T> {
    if list.len() <= n {
        list
    } else {
        list.take(n as int)
    }
}

/// Cuts a list down to its first things.
pub fn limit<T>(list: Vec<T>, n: usize) -> (res: Vec<T>)
    ensures
        res@ == first_of(list@, n as nat),
{
    let mut list = list;
    if list.len() > n {
        list.truncate(n);
    }
    list
}

// ---------------------------------------------------------------------------
// What holds of sorted lists
// ---------------------------------------------------------------------------

/// No thing comes before one that belongs before it.
pub open spec fn in_order<T: Ranked>(list: Seq<T>) -> bool {
    forall|i: int, j: int|
        0 <= i < j < list.len() ==> !(#[trigger] list[j]).before(#[trigger] list[i])
}

proof fn inserting_keeps_order<T: Ranked>(list: Seq<T>, x: T)
    requires
        in_order(list),
    ensures
        in_order(inserted(list, x)),
        inserted(list, x).to_multiset() == list.to_multiset().insert(x),
        inserted(list, x).len() == list.len() + 1,
        forall|i: int|
            0 <= i < inserted(list, x).len() ==> (#[trigger] inserted(list, x)[i] == x || exists|k: int|
                0 <= k < list.len() && list[k] == inserted(list, x)[i]),
    decreases list.len(),
{
    broadcast use vstd::seq_lib::group_to_multiset_ensures;

    let all = inserted(list, x);
    if list.len() > 0 && x.before(list.last()) {
        let front = list.drop_last();
        inserting_keeps_order(front, x);
        let rest = inserted(front, x);
        assert(list =~= front.push(list.last()));
        assert forall|i: int| 0 <= i < all.len() implies (#[trigger] all[i] == x || exists|k: int|
            0 <= k < list.len() && list[k] == all[i]) by {
            if i < rest.len() {
                assert(rest[i] == all[i]);
                if rest[i] != x {
                    let k = choose|k: int| 0 <= k < front.len() && front[k] == rest[i];
                    assert(list[k] == all[i]);
                }
            } else {
                assert(list[list.len() - 1] == all[i]);
            }
        }
        assert forall|i: int, j: int| 0 <= i < j < all.len() implies !(#[trigger] all[j]).before(
            #[trigger] all[i],
        ) by {
            assert(rest[i] == all[i]);
            if j < rest.len() {
                assert(rest[j] == all[j]);
            } else {
                T::before_is_one_way(x, list.last());
                if rest[i] != x {
                    let k = choose|k: int| 0 <= k < front.len() && front[k] == rest[i];
                    assert(list[k] == all[i]);
                    assert(!list[list.len() - 1].before(list[k]));
                }
            }
        }
    } else {
        assert forall|i: int, j: int| 0 <= i < j < all.len() implies !(#[trigger] all[j]).before(
            #[trigger] all[i],
        ) by {
            if j == list.len() {
                assert(all[i] == list[i]);
                if i < list.len() - 1 {
                    assert(!list[list.len() - 1].before(list[i]));
                    T::not_before_is_transitive(list[i], list.last(), x);
                }
            } else {
                assert(all[i] == list[i] && all[j] == list[j]);
            }
        }
    }
}

/// A sorted list is in order and holds what the list held.
pub proof fn arranged_lists_are_in_order<T: Ranked>(list: Seq<T>)
    ensures
        in_order(arranged(list)),
        arranged(list).to_multiset() == list.to_multiset(),
        arranged(list).len() == list.len(),
    decreases list.len(),
{
    broadcast use vstd::seq_lib::group_to_multiset_ensures;

    if list.len() > 0 {
        arranged_lists_are_in_order(list.drop_last());
        inserting_keeps_order(arranged(list.drop_last()), list.last());
        assert(list =~= list.drop_last().push(list.last()));
    }
}

/// A list that is in order stays as it is.
pub proof fn ordered_lists_stay<T: Ranked>(list: Seq<T>)
    requires
        in_order(list),
    ensures
        arranged(list) == list,
    decreases list.len(),
{
    if list.len() > 0 {
        let front = list.drop_last();
        assert forall|i: int, j: int| 0 <= i < j < front.len() implies !(#[trigger] front[j]).before(
            #[trigger] front[i],
        ) by {
            assert(!list[j].before(list[i]));
        }
        ordered_lists_stay(front);
        if front.len() > 0 {
            assert(!list[list.len() - 1].before(list[front.len() - 1]));
        }
        assert(front.push(list.last()) =~= list);
    }
}

/// What joins an arranged list comes behind everything that it does not belong
/// before, so that equals keep the order in which they came.
pub proof fn newcomers_come_behind_their_equals<T: Ranked>(list: Seq<T>, x: T)
    ensures
        exists|k: int|
            0 <= k <= arranged(list).len() && arranged(list.push(x)) == #[trigger] arranged(
                list,
            ).insert(k, x) && (k > 0 ==> !x.before(arranged(list)[k - 1])) && forall|j: int|
                k <= j < arranged(list).len() ==> x.before(#[trigger] arranged(list)[j]),
        arranged(Seq::<T>::empty()).len() == 0,
{
    assert(list.push(x).drop_last() =~= list);
    let all = arranged(list);
    let k = newcomers_place(all, x);
    inserted_at(all, x, k);
    assert(arranged(list.push(x)) == all.insert(k, x));
}

proof fn newcomers_place<T: Ranked>(list: Seq<T>, x: T) -> (k: int)
    ensures
        0 <= k <= list.len(),
        k > 0 ==> !x.before(list[k - 1]),
        forall|j: int| k <= j < list.len() ==> x.before(#[trigger] list[j]),
    decreases list.len(),
{
    if list.len() > 0 && x.before(list.last()) {
        let front = list.drop_last();
        let k = newcomers_place(front, x);
        assert forall|j: int| k <= j < list.len() implies x.before(#[trigger] list[j]) by {
            if j < front.len() {
                assert(front[j] == list[j]);
            }
        }
        k
    } else {
        list.len() as int
    }
}

/// The first of a list are its beginning, and all of it where it is short enough.
pub proof fn the_first_are_the_beginning<T>(list: Seq<T>, n: nat, i: int)
    ensures
        first_of(list, n).len() == if list.len() < n {
            list.len()
        } else {
            n
        },
        0 <= i < first_of(list, n).len() ==> first_of(list, n)[i] == list[i],
{
}

} // verus!
