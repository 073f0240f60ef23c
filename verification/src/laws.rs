//! The general laws of the list operations, stated over the sequence model
//! that the operation contracts speak of, and the growth behaviour of the
//! resizing policy.

use crate::array::{grow_cap, grown_cap, should_shrink, shrink_cap};
use vstd::arithmetic::power2::{lemma2_to64, lemma_pow2_unfold, pow2};
use vstd::prelude::*;

verus! {

/// Writing position `i` stores exactly the new value there, keeps the
/// length, and leaves every other position unchanged — so a `get` at `i`
/// right after a `set` of `v` at `i` returns `v`, and `size` is unchanged.
pub proof fn lemma_set_get<T>(s: Seq<T>, i: int, v: T)
    requires
        0 <= i < s.len(),
    ensures
        s.update(i, v)[i] == v,
        s.update(i, v).len() == s.len(),
        forall|j: int| 0 <= j < s.len() && j != i ==> s.update(i, v)[j] == s[j],
{
}

/// Inserting `v` at position `i` lengthens the list by one, puts `v` at
/// `i`, leaves every position before `i` unchanged, and moves each element
/// that was at a position `j >= i` to `j + 1`, in order.
pub proof fn lemma_add_shifts_right<T>(s: Seq<T>, i: int, v: T)
    requires
        0 <= i <= s.len(),
    ensures
        s.insert(i, v).len() == s.len() + 1,
        s.insert(i, v)[i] == v,
        forall|j: int| 0 <= j < i ==> s.insert(i, v)[j] == s[j],
        forall|j: int| i <= j < s.len() ==> s.insert(i, v)[j + 1] == s[j],
{
    s.insert_ensures(i, v);
}

/// Removing position `i` shortens the list by one, leaves every position
/// before `i` unchanged, and moves each element that was at a position
/// `j > i` to `j - 1`, preserving relative order.
pub proof fn lemma_remove_shifts_left<T>(s: Seq<T>, i: int)
    requires
        0 <= i < s.len(),
    ensures
        s.remove(i).len() == s.len() - 1,
        forall|j: int| 0 <= j < i ==> s.remove(i)[j] == s[j],
        forall|j: int| i <= j < s.len() - 1 ==> s.remove(i)[j] == s[j + 1],
{
    s.remove_ensures(i);
}

/// Round trip: inserting `v` at position `i` and removing position `i`
/// right after leaves the list — its size and every element — unchanged.
pub proof fn lemma_add_remove_round_trip<T>(s: Seq<T>, i: int, v: T)
    requires
        0 <= i <= s.len(),
    ensures
        s.insert(i, v).remove(i) == s,
{
    s.insert_ensures(i, v);
    s.insert(i, v).remove_ensures(i);
    assert(s.insert(i, v).remove(i) =~= s);
}

/// Appending at position `size()` never shifts an element: it is exactly a
/// push at the back.
pub proof fn lemma_append_is_push<T>(s: Seq<T>, v: T)
    ensures
        s.insert(s.len() as int, v) == s.push(v),
{
    assert(s.insert(s.len() as int, v) =~= s.push(v));
}

/// A grow step at least doubles a nonzero capacity (exactly, until the
/// doubling would pass the machine limit) and always yields room for one
/// more element than a full buffer of capacity `c` holds.
pub proof fn lemma_grow_doubles(c: nat)
    ensures
        c > 0 && 2 * c <= usize::MAX ==> grow_cap(c) == 2 * c,
        c < usize::MAX ==> grow_cap(c) >= c + 1,
{
}

/// The shrink threshold sits strictly below the grow trigger: whenever a
/// shrink fires, the halved buffer is still at most half full, so the next
/// resize — in either direction — is many operations away and the two
/// never oscillate.
pub proof fn lemma_no_oscillation(n: nat, c: nat)
    requires
        should_shrink(n, c),
    ensures
        2 * n <= shrink_cap(c),
{
}

/// Amortized growth: the capacity after `g` grow steps is at least
/// `2^(g - 1)`, as long as the machine limit is not reached. A run of `k`
/// consecutive appends on an empty list therefore reallocates the buffer
/// only about `log2(k)` times — never once per append — since `add`
/// reallocates exactly when the list is full.
pub proof fn lemma_growth_geometric(c: nat, g: nat)
    requires
        g >= 1,
        grown_cap(c, g) < usize::MAX,
    ensures
        grown_cap(c, g) >= pow2((g - 1) as nat),
    decreases g,
{
    if g == 1 {
        assert(pow2(0) == 1) by {
            lemma2_to64();
        }
    } else {
        let prev = grown_cap(c, (g - 1) as nat);
        assert(grown_cap(c, g) == grow_cap(prev));
        assert(prev < usize::MAX) by {
            if prev > (usize::MAX as nat) / 2 {
                assert(grow_cap(prev) == usize::MAX || prev == 0);
            }
        }
        lemma_growth_geometric(c, (g - 1) as nat);
        lemma_pow2_unfold((g - 1) as nat);
        assert(prev <= (usize::MAX as nat) / 2);
    }
}

} // verus!
