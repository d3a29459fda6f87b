//! Small operations on lists: finding an element, and swapping neighbours.
use vstd::prelude::*;

verus! {

/// The position of the first `x` in `s` at or after `i`, if any.
pub open spec fn position_from(s: Seq<usize>, x: usize, i: int) -> Option<int>
    decreases s.len() - i,
{
    if i < 0 || i >= s.len() {
        None
    } else if s[i] == x {
        Some(i)
    } else {
        position_from(s, x, i + 1)
    }
}

/// The position of the first `x` in `s`, if any.
pub open spec fn position_of(s: Seq<usize>, x: usize) -> Option<int> {
    position_from(s, x, 0)
}

/// `position_from` finds the first occurrence at or after `i`.
pub proof fn lemma_position_from(s: Seq<usize>, x: usize, i: int)
    requires
        0 <= i <= s.len(),
    ensures
        position_from(s, x, i) matches Some(p) ==> i <= p < s.len() && s[p] == x,
        position_from(s, x, i) is None ==> forall|k: int| i <= k < s.len() ==> #[trigger] s[k] != x,
    decreases s.len() - i,
{
    if i < s.len() && s[i] != x {
        lemma_position_from(s, x, i + 1);
    }
}

/// The position of the first `x` in `v`, if any.
pub fn position(v: &Vec<usize>, x: usize) -> (p: Option<usize>)
    ensures
        p matches Some(i) ==> position_of(v@, x) == Some(i as int) && i < v@.len() && v@[i as int] == x,
        p is None ==> position_of(v@, x) is None,
{
    proof {
        lemma_position_from(v@, x, 0);
    }
    let mut i: usize = 0;
    while i < v.len()
        invariant
            i <= v@.len(),
            position_of(v@, x) == position_from(v@, x, i as int),
        decreases v@.len() - i,
    {
        if v[i] == x {
            return Some(i);
        }
        i = i + 1;
    }
    None
}

/// Whether `x` occurs in `v`.
pub fn contains_index(v: &Vec<usize>, x: usize) -> (found: bool)
    ensures
        found == v@.contains(x),
{
    let mut i: usize = 0;
    while i < v.len()
        invariant
            i <= v@.len(),
            forall|k: int| 0 <= k < i ==> v@[k] != x,
        decreases v@.len() - i,
    {
        if v[i] == x {
            return true;
        }
        i = i + 1;
    }
    false
}

/// `s` with the elements at `i` and `i + 1` exchanged.
pub open spec fn swapped<T>(s: Seq<T>, i: int) -> Seq<T> {
    s.update(i, s[i + 1]).update(i + 1, s[i])
}

/// Exchanges the element at `i` with the one after it.
pub fn swap_adjacent<T>(v: &mut Vec<T>, i: usize)
    requires
        i + 1 < old(v).len(),
    ensures
        final(v)@ == swapped(old(v)@, i as int),
{
    let x = v.remove(i + 1);
    v.insert(i, x);
    assert(v@ =~= swapped(old(v)@, i as int));
}

} // verus!
