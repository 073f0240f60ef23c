//! Behavioural interfaces for the containers: a sequential list and the
//! double-ended queue, queue and stack views derived from it, plus the
//! unordered- and sorted-set contracts a future backing store must satisfy.

use vstd::prelude::*;

verus! {

/// A finite sequence of elements with random access by position.
///
/// An implementor exposes its abstract state through `list_view` (the
/// sequence of elements currently held) guarded by `list_wf` (the
/// implementor's internal invariant). Out-of-range positions are reported
/// as an absent result, never a fault.
pub trait List<T>: Sized {
    /// The implementor's internal invariant; every operation preserves it.
    spec fn list_wf(&self) -> bool;

    /// The abstract contents: the elements in positional order.
    spec fn list_view(&self) -> Seq<T>;

    /// How many elements the list currently holds.
    fn size(&self) -> (n: usize)
        requires
            self.list_wf(),
        ensures
            n == self.list_view().len(),
    ;

    /// The element at position `i`, or absent when `i` is out of range.
    fn get(&self, i: usize) -> (r: Option<&T>)
        requires
            self.list_wf(),
        ensures
            (match r {
                Some(v) => i < self.list_view().len() && *v == self.list_view()[i as int],
                None => i >= self.list_view().len(),
            }),
    ;

    /// Replaces the element at position `i` with `v` and returns the previous
    /// element; absent (and no change) when `i` is out of range. Never shifts.
    fn set(&mut self, i: usize, v: T) -> (r: Option<T>)
        requires
            old(self).list_wf(),
        ensures
            final(self).list_wf(),
            (match r {
                Some(w) => {
                    &&& i < old(self).list_view().len()
                    &&& w == old(self).list_view()[i as int]
                    &&& final(self).list_view() == old(self).list_view().update(i as int, v)
                },
                None => {
                    &&& i >= old(self).list_view().len()
                    &&& final(self).list_view() == old(self).list_view()
                },
            }),
    ;

    /// Inserts `v` at position `i`, shifting the elements from position `i`
    /// on one place to the right.
    fn add(&mut self, i: usize, v: T)
        requires
            old(self).list_wf(),
            i <= old(self).list_view().len(),
            old(self).list_view().len() < usize::MAX,
        ensures
            final(self).list_wf(),
            final(self).list_view() == old(self).list_view().insert(i as int, v),
    ;

    /// Removes and returns the element at position `i`, shifting the elements
    /// after it one place to the left; absent (and no change) when `i` is out
    /// of range — in particular, absent for every `i` on an empty list.
    fn remove(&mut self, i: usize) -> (r: Option<T>)
        requires
            old(self).list_wf(),
        ensures
            final(self).list_wf(),
            (match r {
                Some(w) => {
                    &&& i < old(self).list_view().len()
                    &&& w == old(self).list_view()[i as int]
                    &&& final(self).list_view() == old(self).list_view().remove(i as int)
                },
                None => {
                    &&& i >= old(self).list_view().len()
                    &&& final(self).list_view() == old(self).list_view()
                },
            }),
    ;
}

/// A double-ended queue: every list supports it through the default
/// compositions below, which work purely through the `List` contract.
pub trait Deque<T>: List<T> {
    /// Inserts `v` before the first element.
    fn add_first(&mut self, v: T)
        requires
            old(self).list_wf(),
            old(self).list_view().len() < usize::MAX,
        ensures
            final(self).list_wf(),
            final(self).list_view() == old(self).list_view().insert(0, v),
    {
        self.add(0, v)
    }

    /// Removes and returns the first element; absent on an empty list.
    fn remove_first(&mut self) -> (r: Option<T>)
        requires
            old(self).list_wf(),
        ensures
            final(self).list_wf(),
            (match r {
                Some(w) => {
                    &&& old(self).list_view().len() > 0
                    &&& w == old(self).list_view()[0]
                    &&& final(self).list_view() == old(self).list_view().remove(0)
                },
                None => {
                    &&& old(self).list_view().len() == 0
                    &&& final(self).list_view() == old(self).list_view()
                },
            }),
    {
        self.remove(0)
    }

    /// Appends `v` after the last element; no element shifts.
    fn add_last(&mut self, v: T)
        requires
            old(self).list_wf(),
            old(self).list_view().len() < usize::MAX,
        ensures
            final(self).list_wf(),
            final(self).list_view() == old(self).list_view().push(v),
    {
        let n: usize = self.size();
        self.add(n, v);
        proof {
            assert(old(self).list_view().insert(old(self).list_view().len() as int, v)
                =~= old(self).list_view().push(v));
        }
    }

    /// Removes and returns the last element; absent on an empty list rather
    /// than underflowing.
    fn remove_last(&mut self) -> (r: Option<T>)
        requires
            old(self).list_wf(),
        ensures
            final(self).list_wf(),
            (match r {
                Some(w) => {
                    &&& old(self).list_view().len() > 0
                    &&& w == old(self).list_view().last()
                    &&& final(self).list_view() == old(self).list_view().drop_last()
                },
                None => {
                    &&& old(self).list_view().len() == 0
                    &&& final(self).list_view() == old(self).list_view()
                },
            }),
    {
        let n: usize = self.size();
        if n == 0 {
            None
        } else {
            let r = self.remove(n - 1);
            proof {
                assert(old(self).list_view().remove(old(self).list_view().len() - 1)
                    =~= old(self).list_view().drop_last());
            }
            r
        }
    }
}

/// A first-in first-out queue over any double-ended queue.
pub trait Queue<T>: Deque<T> {
    /// Adds `v` at the back of the queue.
    fn enqueue(&mut self, v: T)
        requires
            old(self).list_wf(),
            old(self).list_view().len() < usize::MAX,
        ensures
            final(self).list_wf(),
            final(self).list_view() == old(self).list_view().push(v),
    {
        self.add_last(v)
    }

    /// Removes and returns the element at the front; absent when empty.
    fn dequeue(&mut self) -> (r: Option<T>)
        requires
            old(self).list_wf(),
        ensures
            final(self).list_wf(),
            (match r {
                Some(w) => {
                    &&& old(self).list_view().len() > 0
                    &&& w == old(self).list_view()[0]
                    &&& final(self).list_view() == old(self).list_view().remove(0)
                },
                None => {
                    &&& old(self).list_view().len() == 0
                    &&& final(self).list_view() == old(self).list_view()
                },
            }),
    {
        self.remove_first()
    }
}

/// A last-in first-out stack over any double-ended queue.
pub trait Stack<T>: Deque<T> {
    /// Pushes `v` on top of the stack.
    fn push(&mut self, v: T)
        requires
            old(self).list_wf(),
            old(self).list_view().len() < usize::MAX,
        ensures
            final(self).list_wf(),
            final(self).list_view() == old(self).list_view().push(v),
    {
        self.add_last(v)
    }

    /// Removes and returns the top of the stack; absent when empty.
    fn pop(&mut self) -> (r: Option<T>)
        requires
            old(self).list_wf(),
        ensures
            final(self).list_wf(),
            (match r {
                Some(w) => {
                    &&& old(self).list_view().len() > 0
                    &&& w == old(self).list_view().last()
                    &&& final(self).list_view() == old(self).list_view().drop_last()
                },
                None => {
                    &&& old(self).list_view().len() == 0
                    &&& final(self).list_view() == old(self).list_view()
                },
            }),
    {
        self.remove_last()
    }
}

/// An unordered set: no duplicates, no order. Declared here as the contract
/// a backing store must satisfy; the array-backed list does not implement it.
pub trait USet<T>: Sized {
    /// The implementor's internal invariant.
    spec fn uset_wf(&self) -> bool;

    /// The abstract contents.
    spec fn uset_view(&self) -> Set<T>;

    /// A well-formed set holds finitely many elements.
    proof fn uset_finite(&self)
        requires
            self.uset_wf(),
        ensures
            self.uset_view().finite(),
    ;

    /// How many elements the set currently holds.
    fn size(&self) -> (n: usize)
        requires
            self.uset_wf(),
        ensures
            n == self.uset_view().len(),
    ;

    /// Adds `v` unless an equal element is already present; true exactly when
    /// `v` was newly inserted.
    fn add(&mut self, v: T) -> (added: bool)
        requires
            old(self).uset_wf(),
        ensures
            final(self).uset_wf(),
            added == !old(self).uset_view().contains(v),
            final(self).uset_view() == old(self).uset_view().insert(v),
    ;

    /// Removes and returns the element equal to `v`; absent when none is.
    fn remove(&mut self, v: &T) -> (r: Option<T>)
        requires
            old(self).uset_wf(),
        ensures
            final(self).uset_wf(),
            final(self).uset_view() == old(self).uset_view().remove(*v),
            (match r {
                Some(w) => old(self).uset_view().contains(*v) && w == *v,
                None => !old(self).uset_view().contains(*v),
            }),
    ;

    /// Looks up the element equal to `v`; absent when none is.
    fn find(&self, v: &T) -> (r: Option<&T>)
        requires
            self.uset_wf(),
        ensures
            (match r {
                Some(w) => self.uset_view().contains(*v) && *w == *v,
                None => !self.uset_view().contains(*v),
            }),
    ;
}

/// A sorted set: no duplicates, ordered by the implementor's total order
/// `below`. Declared here as the contract a backing store must satisfy; the
/// array-backed list does not implement it.
pub trait SSet<T>: Sized {
    /// The implementor's internal invariant.
    spec fn sset_wf(&self) -> bool;

    /// The abstract contents.
    spec fn sset_view(&self) -> Set<T>;

    /// The order the set maintains: `below(a, b)` means `a` is at or before
    /// `b`. The implementor must make it a total order.
    spec fn below(a: T, b: T) -> bool;

    /// A well-formed set holds finitely many elements.
    proof fn sset_finite(&self)
        requires
            self.sset_wf(),
        ensures
            self.sset_view().finite(),
    ;

    /// `below` is reflexive, transitive, antisymmetric and total.
    proof fn below_total_order(a: T, b: T, c: T)
        ensures
            Self::below(a, a),
            Self::below(a, b) && Self::below(b, c) ==> Self::below(a, c),
            Self::below(a, b) && Self::below(b, a) ==> a == b,
            Self::below(a, b) || Self::below(b, a),
    ;

    /// How many elements the set currently holds.
    fn size(&self) -> (n: usize)
        requires
            self.sset_wf(),
        ensures
            n == self.sset_view().len(),
    ;

    /// Adds `v` unless an equal element is already present; true exactly when
    /// `v` was newly inserted.
    fn add(&mut self, v: T) -> (added: bool)
        requires
            old(self).sset_wf(),
        ensures
            final(self).sset_wf(),
            added == !old(self).sset_view().contains(v),
            final(self).sset_view() == old(self).sset_view().insert(v),
    ;

    /// Removes and returns the element equal to `v`; absent when none is.
    fn remove(&mut self, v: &T) -> (r: Option<T>)
        requires
            old(self).sset_wf(),
        ensures
            final(self).sset_wf(),
            final(self).sset_view() == old(self).sset_view().remove(*v),
            (match r {
                Some(w) => old(self).sset_view().contains(*v) && w == *v,
                None => !old(self).sset_view().contains(*v),
            }),
    ;

    /// The smallest element `w` with `below(v, w)`; absent when no element
    /// is at or above `v`.
    fn find(&self, v: &T) -> (r: Option<&T>)
        requires
            self.sset_wf(),
        ensures
            (match r {
                Some(w) => {
                    &&& self.sset_view().contains(*w)
                    &&& Self::below(*v, *w)
                    &&& forall|u: T|
                        #[trigger] self.sset_view().contains(u) && Self::below(*v, u)
                            ==> Self::below(*w, u)
                },
                None => forall|u: T|
                    #[trigger] self.sset_view().contains(u) ==> !Self::below(*v, u),
            }),
    ;
}

} // verus!
