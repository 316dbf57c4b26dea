//! Removing elements of a vector by position, one or many at a time.

use vstd::prelude::*;

verus! {

/// The elements of `s` from position `lo` on whose positions are not in
/// `drop`, in their order.
pub open spec fn kept_from<T>(s: Seq<T>, drop: Set<int>, lo: int) -> Seq<T>
    decreases s.len() - lo,
{
    if lo < 0 || lo >= s.len() {
        Seq::empty()
    } else if drop.contains(lo) {
        kept_from(s, drop, lo + 1)
    } else {
        seq![s[lo]] + kept_from(s, drop, lo + 1)
    }
}

/// The elements of `s` whose positions are not in `drop`, in their order.
pub open spec fn kept<T>(s: Seq<T>, drop: Set<int>) -> Seq<T> {
    kept_from(s, drop, 0)
}

/// The positions that a vector of indices names.
pub open spec fn index_set(indices: Seq<usize>) -> Set<int> {
    Set::new(|i: int| exists|k: int| 0 <= k < indices.len() && indices[k] as int == i)
}

/// Keeping positions commutes with mapping the elements.
pub proof fn lemma_kept_from_map<A, B>(s: Seq<A>, f: spec_fn(A) -> B, drop: Set<int>, lo: int)
    requires
        0 <= lo,
    ensures
        kept_from(s.map_values(f), drop, lo) == kept_from(s, drop, lo).map_values(f),
    decreases s.len() - lo,
{
    if lo < s.len() {
        lemma_kept_from_map(s, f, drop, lo + 1);
        if !drop.contains(lo) {
            assert(kept_from(s.map_values(f), drop, lo) =~= kept_from(s, drop, lo).map_values(f));
        }
    } else {
        assert(kept_from(s, drop, lo).map_values(f) =~= Seq::empty());
    }
}

/// What holds of every element of `s` holds of every element kept.
pub proof fn lemma_kept_from_all<T>(s: Seq<T>, drop: Set<int>, lo: int, p: spec_fn(T) -> bool)
    requires
        0 <= lo,
        forall|j: int| 0 <= j < s.len() ==> #[trigger] p(s[j]),
    ensures
        forall|k: int|
            0 <= k < kept_from(s, drop, lo).len() ==> #[trigger] p(kept_from(s, drop, lo)[k]),
    decreases s.len() - lo,
{
    if lo < s.len() {
        lemma_kept_from_all(s, drop, lo + 1, p);
        if drop.contains(lo) {
            assert(kept_from(s, drop, lo) == kept_from(s, drop, lo + 1));
        } else {
            let rest = kept_from(s, drop, lo + 1);
            assert forall|k: int| 0 <= k < kept_from(s, drop, lo).len() implies #[trigger] p(
                kept_from(s, drop, lo)[k],
            ) by {
                if k > 0 {
                    assert(kept_from(s, drop, lo)[k] == rest[k - 1]);
                } else {
                    assert(p(s[lo]));
                }
            }
        }
    }
}

/// Removing one position commutes with mapping the elements.
pub proof fn lemma_remove_map<A, B>(s: Seq<A>, f: spec_fn(A) -> B, i: int)
    requires
        0 <= i < s.len(),
    ensures
        s.remove(i).map_values(f) == s.map_values(f).remove(i),
{
    assert(s.remove(i).map_values(f) =~= s.map_values(f).remove(i));
}

/// Whether `i` is one of `indices`.
fn names_position(indices: &Vec<usize>, i: usize) -> (r: bool)
    ensures
        r == index_set(indices@).contains(i as int),
{
    let mut k: usize = 0;
    while k < indices.len()
        invariant
            k <= indices.len(),
            forall|m: int| 0 <= m < k ==> indices@[m] != i,
        decreases indices.len() - k,
    {
        if indices[k] == i {
            return true;
        }
        k = k + 1;
    }
    false
}

/// Removes the element at `index`, if there is one. Returns whether it did.
pub fn remove_at<T>(v: &mut Vec<T>, index: usize) -> (r: bool)
    ensures
        r == (index < old(v)@.len()),
        r ==> final(v)@ == old(v)@.remove(index as int),
        !r ==> final(v)@ == old(v)@,
{
    if index < v.len() {
        v.remove(index);
        true
    } else {
        false
    }
}

/// Removes every element whose position is among `indices`, in whatever
/// order and with whatever repetitions they are given; indices past the end
/// are ignored. Positions are taken from the highest to the lowest, so each
/// index refers to the vector as it was before the call, and the remaining
/// elements keep their order.
pub fn remove_positions<T>(v: &mut Vec<T>, indices: &Vec<usize>)
    ensures
        final(v)@ == kept(old(v)@, index_set(indices@)),
{
    let ghost s = v@;
    let ghost drop = index_set(indices@);
    let mut i: usize = v.len();
    assert(v@ =~= s.subrange(0, i as int) + kept_from(s, drop, i as int));
    while i > 0
        invariant
            i <= s.len(),
            s == old(v)@,
            drop == index_set(indices@),
            v@ == s.subrange(0, i as int) + kept_from(s, drop, i as int),
        decreases i,
    {
        let j: usize = i - 1;
        let gone = names_position(indices, j);
        assert(kept_from(s, drop, j as int) == if drop.contains(j as int) {
            kept_from(s, drop, i as int)
        } else {
            seq![s[j as int]] + kept_from(s, drop, i as int)
        });
        let ghost pre = v@;
        let ghost rest = kept_from(s, drop, i as int);
        assert(s.subrange(0, i as int) =~= s.subrange(0, j as int).push(s[j as int]));
        assert(pre =~= s.subrange(0, j as int) + (seq![s[j as int]] + rest));
        if gone {
            v.remove(j);
            assert(v@ =~= pre.remove(j as int));
            assert(v@ =~= s.subrange(0, j as int) + rest);
            assert(kept_from(s, drop, j as int) == rest);
        } else {
            assert(v@ =~= s.subrange(0, j as int) + (seq![s[j as int]] + rest));
            assert(kept_from(s, drop, j as int) == seq![s[j as int]] + rest);
        }
        i = j;
    }
    assert(v@ =~= kept_from(s, drop, 0));
}

} // verus!
