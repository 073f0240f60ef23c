//! The fixed-capacity slot buffer and the array-backed sequential list.

use crate::traits::{Deque, List, Queue, Stack};
use vstd::prelude::*;

verus! {

/// The capacity a grow step allocates: doubling, from a floor of one slot,
/// saturating at the machine limit.
pub open spec fn grow_cap(c: nat) -> nat {
    if c == 0 {
        1
    } else if c > (usize::MAX as nat) / 2 {
        usize::MAX as nat
    } else {
        2 * c
    }
}

/// The capacity after `g` further grow steps from capacity `c`.
pub open spec fn grown_cap(c: nat, g: nat) -> nat
    decreases g,
{
    if g == 0 {
        c
    } else {
        grow_cap(grown_cap(c, (g - 1) as nat))
    }
}

/// The capacity a shrink step allocates: half, with a floor of one slot.
pub open spec fn shrink_cap(c: nat) -> nat {
    if c / 2 == 0 {
        1
    } else {
        c / 2
    }
}

/// When a list of size `n` over capacity `c` shrinks: at a quarter load or
/// below, and only when halving actually reduces the capacity — a threshold
/// strictly below the grow trigger, so the two never oscillate.
pub open spec fn should_shrink(n: nat, c: nat) -> bool {
    n <= c / 4 && shrink_cap(c) < c
}

/// The whole resizing policy for a list of size `n` over capacity `c`:
/// grow when full, shrink when grossly underused, otherwise leave alone.
pub open spec fn resized_cap(n: nat, c: nat) -> nat {
    if n >= c {
        grow_cap(c)
    } else if should_shrink(n, c) {
        shrink_cap(c)
    } else {
        c
    }
}

/// A fixed-length block of slots, each either empty (`None`) or occupied
/// (`Some`). The buffer never shifts or reorders its contents: it only
/// stores, retrieves and hands its whole contents over. Capacity is fixed
/// at construction; a list that outgrows it builds a new buffer and moves
/// the slots across.
pub struct Array<T> {
    vec: Vec<Option<T>>,
    len: usize,
}

impl<T> View for Array<T> {
    type V = Seq<Option<T>>;

    closed spec fn view(&self) -> Seq<Option<T>> {
        self.vec@
    }
}

impl<T> Array<T> {
    /// The recorded length always matches the slot vector.
    pub closed spec fn wf(&self) -> bool {
        self.vec@.len() == self.len
    }

    /// A fresh buffer of `len` empty slots. `len` may be 0.
    pub fn new(len: usize) -> (a: Self)
        ensures
            a.wf(),
            a@.len() == len,
            forall|i: int| 0 <= i < len ==> a@[i] is None,
    {
        let mut vec: Vec<Option<T>> = Vec::new();
        while vec.len() < len
            invariant
                vec@.len() <= len,
                forall|i: int| 0 <= i < vec@.len() ==> vec@[i] is None,
            decreases len - vec@.len(),
        {
            vec.push(None);
        }
        Self { vec, len }
    }

    /// The fixed capacity: how many slots there are, not how many are occupied.
    pub fn len(&self) -> (n: usize)
        requires
            self.wf(),
        ensures
            n == self@.len(),
    {
        self.len
    }

    /// Read-only access to slot `i`.
    pub fn slot(&self, i: usize) -> (s: &Option<T>)
        requires
            i < self@.len(),
        ensures
            *s == self@[i as int],
    {
        &self.vec[i]
    }

    /// Swaps the content of slot `i` with `new_slot` and returns the slot's
    /// previous content, which may itself be empty. This one primitive serves
    /// both to write a value (`new_slot` occupied) and to extract one,
    /// leaving the slot empty (`new_slot` empty).
    pub fn replace(&mut self, i: usize, new_slot: Option<T>) -> (old_slot: Option<T>)
        requires
            i < old(self)@.len(),
        ensures
            final(self).wf() == old(self).wf(),
            final(self)@ == old(self)@.update(i as int, new_slot),
            old_slot == old(self)@[i as int],
    {
        let mut slot = new_slot;
        std::mem::swap(&mut self.vec[i], &mut slot);
        slot
    }

    /// Moves every slot of `self` into `other`, consuming `self`; `other`'s
    /// prior contents are discarded wholesale, and `other` takes over
    /// `self`'s length as well.
    pub fn move_contents_to(self, other: &mut Self)
        ensures
            final(other).wf() == self.wf(),
            final(other)@ == self@,
    {
        let ghost orig = self;
        let mut this = self;
        other.vec.clear();
        other.vec.append(&mut this.vec);
        other.len = this.len;
        proof {
            assert(other.vec@ =~= orig.vec@);
        }
    }
}

/// The array-backed sequential list: a slot buffer plus a logical size `n`.
/// Slots `[0, n)` are occupied and slots `[n, capacity)` are empty after
/// every operation; inserts and deletes open or close a gap by walking a
/// single in-flight carry along the suffix, and the buffer is reallocated
/// when it runs full or grossly underused.
pub struct ArrayStack<T> {
    array: Array<T>,
    n: usize,
}

impl<T> View for ArrayStack<T> {
    type V = Seq<T>;

    closed spec fn view(&self) -> Seq<T> {
        Seq::new(self.n as nat, |i: int| self.array@[i].unwrap())
    }
}

impl<T> ArrayStack<T> {
    /// The buffer is exactly as long as recorded, the first `n` slots are
    /// occupied, and the rest are empty.
    pub closed spec fn wf(&self) -> bool {
        &&& self.array.wf()
        &&& self.n <= self.array@.len()
        &&& forall|i: int| 0 <= i < self.n ==> self.array@[i] is Some
        &&& forall|i: int| self.n <= i < self.array@.len() ==> self.array@[i] is None
    }

    /// The current capacity of the backing buffer.
    pub closed spec fn cap(&self) -> nat {
        self.array@.len()
    }

    /// The capacity invariant: a well-formed list never holds more elements
    /// than its buffer has slots, so no operation ever reads past the
    /// occupied prefix.
    pub proof fn lemma_size_le_cap(&self)
        requires
            self.wf(),
        ensures
            self@.len() <= self.cap(),
    {
    }

    /// An empty list over a buffer of `len` slots.
    pub fn with_initial_alloc(len: usize) -> (s: Self)
        ensures
            s.wf(),
            s@ == Seq::<T>::empty(),
            s.cap() == len,
    {
        let array = Array::<T>::new(len);
        let s = Self { array, n: 0 };
        proof {
            assert(s@ =~= Seq::<T>::empty());
        }
        s
    }

    /// The capacity of the backing buffer, as a value a caller can branch on.
    pub fn capacity(&self) -> (c: usize)
        requires
            self.wf(),
        ensures
            c == self.cap(),
    {
        self.array.len()
    }

    /// Applies the resizing policy once: moves the elements into a buffer of
    /// capacity `resized_cap(size, capacity)` — doubled when the list is
    /// full, halved when at most a quarter loaded, untouched otherwise. The
    /// contents never change; only the capacity does.
    pub fn resize(&mut self)
        requires
            old(self).wf(),
        ensures
            final(self).wf(),
            final(self)@ == old(self)@,
            final(self).cap() == resized_cap(old(self)@.len(), old(self).cap()),
    {
        let n: usize = self.n;
        let c: usize = self.array.len();
        let new_cap: usize = if n >= c {
            if c == 0 {
                1
            } else if c > usize::MAX / 2 {
                usize::MAX
            } else {
                2 * c
            }
        } else if n <= c / 4 && c / 2 >= 1 {
            c / 2
        } else {
            c
        };
        proof {
            assert(new_cap as nat == resized_cap(self.n as nat, self.array@.len()));
            assert(self.n <= new_cap);
        }
        if new_cap != c {
            let ghost v0 = self@;
            let mut new_array = Array::<T>::new(new_cap);
            let mut j: usize = 0;
            while j < n
                invariant
                    j <= n,
                    n == self.n,
                    self.array.wf(),
                    new_array.wf(),
                    self.array@.len() == c,
                    new_array@.len() == new_cap,
                    n <= c,
                    n <= new_cap,
                    v0.len() == n,
                    forall|k: int| 0 <= k < j ==> self.array@[k] is None,
                    forall|k: int| j <= k < n ==> self.array@[k] == Some(v0[k]),
                    forall|k: int| n <= k < c ==> self.array@[k] is None,
                    forall|k: int| 0 <= k < j ==> new_array@[k] == Some(v0[k]),
                    forall|k: int| j <= k < new_cap ==> new_array@[k] is None,
                decreases n - j,
            {
                let slot = self.array.replace(j, None);
                let _ = new_array.replace(j, slot);
                j += 1;
            }
            new_array.move_contents_to(&mut self.array);
            proof {
                assert(self@ =~= v0);
            }
        }
    }
}

impl<T> List<T> for ArrayStack<T> {
    open spec fn list_wf(&self) -> bool {
        self.wf()
    }

    open spec fn list_view(&self) -> Seq<T> {
        self@
    }

    fn size(&self) -> (n: usize) {
        self.n
    }

    fn get(&self, i: usize) -> (r: Option<&T>) {
        if i < self.n {
            self.array.slot(i).as_ref()
        } else {
            None
        }
    }

    fn set(&mut self, i: usize, v: T) -> (r: Option<T>)
        ensures
            final(self).cap() == old(self).cap(),
    {
        if i < self.n {
            let old_slot = self.array.replace(i, Some(v));
            proof {
                assert(self@ =~= old(self)@.update(i as int, v));
            }
            old_slot
        } else {
            None
        }
    }

    fn add(&mut self, i: usize, v: T)
        ensures
            final(self).cap() == (if old(self)@.len() < old(self).cap() {
                old(self).cap()
            } else {
                grow_cap(old(self).cap())
            }),
    {
        if self.n >= self.array.len() {
            self.resize();
        }
        let ghost v0 = old(self)@;
        let ghost a0 = self.array@;
        let ghost c = self.array@.len();
        let mut carry = self.array.replace(i, Some(v));
        self.n = self.n + 1;
        let ghost n1 = self.n as int;
        let mut j: usize = i + 1;
        while j < self.n
            invariant
                i < j <= n1,
                n1 == self.n,
                self.array.wf(),
                self.array@.len() == c,
                n1 <= c,
                v0.len() == n1 - 1,
                i <= v0.len(),
                forall|k: int| 0 <= k < v0.len() ==> a0[k] == Some(v0[k]),
                forall|k: int| v0.len() <= k < c ==> a0[k] is None,
                forall|k: int| 0 <= k < i ==> self.array@[k] == a0[k],
                self.array@[i as int] == Some(v),
                forall|k: int| i < k < j ==> self.array@[k] == a0[k - 1],
                forall|k: int| j <= k < c ==> self.array@[k] == a0[k],
                carry == a0[j - 1],
            decreases n1 - j,
        {
            carry = self.array.replace(j, carry);
            j += 1;
        }
        proof {
            assert forall|k: int| 0 <= k < self.n implies self.array@[k] is Some by {
                if k < i {
                    assert(self.array@[k] == a0[k]);
                    assert(a0[k] == Some(v0[k]));
                } else if i < k {
                    assert(self.array@[k] == a0[k - 1]);
                    assert(a0[k - 1] == Some(v0[k - 1]));
                }
            }
            assert forall|k: int| self.n <= k < self.array@.len() implies self.array@[k]
                is None by {
                assert(self.array@[k] == a0[k]);
            }
            assert forall|k: int| 0 <= k < n1 implies self@[k] == v0.insert(i as int, v)[k] by {
                v0.insert_ensures(i as int, v);
                if k < i {
                    assert(self.array@[k] == a0[k]);
                    assert(v0.insert(i as int, v)[k] == v0[k]);
                } else if i < k {
                    assert(self.array@[k] == a0[k - 1]);
                    assert(v0.insert(i as int, v)[k] == v0[k - 1]);
                }
            }
            assert(self@ =~= v0.insert(i as int, v));
        }
    }

    fn remove(&mut self, i: usize) -> (r: Option<T>)
        ensures
            final(self).cap() == (if i < old(self)@.len() {
                resized_cap((old(self)@.len() - 1) as nat, old(self).cap())
            } else {
                old(self).cap()
            }),
    {
        if i >= self.n {
            return None;
        }
        let ghost v0 = old(self)@;
        let ghost a0 = self.array@;
        let ghost c = self.array@.len();
        let ghost n0 = self.n as int;
        let old_slot = self.array.replace(i, None);
        let mut next: Option<T> = None;
        let mut j: usize = self.n;
        while j > i
            invariant
                i <= j <= n0,
                n0 == self.n,
                i < n0,
                self.array.wf(),
                self.array@.len() == c,
                n0 <= c,
                v0.len() == n0,
                forall|k: int| 0 <= k < v0.len() ==> a0[k] == Some(v0[k]),
                forall|k: int| v0.len() <= k < c ==> a0[k] is None,
                forall|k: int| 0 <= k < j && k != i ==> self.array@[k] == a0[k],
                forall|k: int| n0 <= k < c ==> self.array@[k] == a0[k],
                j > i ==> self.array@[i as int] is None,
                forall|k: int| j <= k < n0 - 1 ==> self.array@[k] == a0[k + 1],
                j < n0 ==> self.array@[n0 - 1] is None,
                next == (if i < j < n0 { a0[j as int] } else { None::<T> }),
            decreases j,
        {
            j = j - 1;
            next = self.array.replace(j, next);
        }
        self.n = self.n - 1;
        proof {
            assert forall|k: int| 0 <= k < self.n implies self.array@[k] is Some by {
                if k < i {
                    assert(self.array@[k] == a0[k]);
                    assert(a0[k] == Some(v0[k]));
                } else {
                    assert(self.array@[k] == a0[k + 1]);
                    assert(a0[k + 1] == Some(v0[k + 1]));
                }
            }
            assert forall|k: int| self.n <= k < self.array@.len() implies self.array@[k]
                is None by {
                if n0 <= k {
                    assert(self.array@[k] == a0[k]);
                }
            }
            assert forall|k: int| 0 <= k < n0 - 1 implies self@[k] == v0.remove(i as int)[k] by {
                v0.remove_ensures(i as int);
                if i <= k {
                    assert(self.array@[k] == a0[k + 1]);
                    assert(v0.remove(i as int)[k] == v0[k + 1]);
                }
            }
            assert(self@ =~= v0.remove(i as int));
        }
        self.resize();
        old_slot
    }
}

impl<T> Deque<T> for ArrayStack<T> {
}

impl<T> Queue<T> for ArrayStack<T> {
}

impl<T> Stack<T> for ArrayStack<T> {
}

} // verus!
