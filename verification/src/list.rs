//! Uniform shuffling of a queue, with the random draws behind a trusted
//! wrapper.

use vstd::prelude::*;
use vstd::multiset::Multiset;
use std::collections::VecDeque;

verus! {

/// Relies on rand's `Rng::gen_range` over `lo..hi`: returns a uniformly
/// distributed value of the range. The range is non-empty by `requires`, so
/// the call does not panic.
#[verifier::external_body]
fn rand_index(lo: usize, hi: usize) -> (r: usize)
    requires
        lo < hi,
    ensures
        lo <= r < hi,
{
    rand::Rng::gen_range(&mut rand::thread_rng(), lo..hi)
}

/// A collection whose contents can be randomly permuted in place.
pub trait Shuffleable<T> {
    /// The multiset of elements held.
    spec fn contents(&self) -> Multiset<T>;

    /// Randomly permutes the elements; which order comes out is left open,
    /// but every element stays, and nothing else comes in.
    fn shuffle(&mut self)
        ensures
            final(self).contents() == old(self).contents();
}

impl<T> Shuffleable<T> for VecDeque<T> {
    open spec fn contents(&self) -> Multiset<T> {
        self@.to_multiset()
    }

    /// Draws the next element uniformly from what is left, so every
    /// permutation of the queue comes out equally likely.
    fn shuffle(&mut self) {
        broadcast use vstd::seq_lib::group_to_multiset_ensures;

        let ghost all = self@.to_multiset();
        let mut drawn: VecDeque<T> = VecDeque::new();
        proof {
            assert(drawn@.to_multiset() =~= Multiset::<T>::empty());
            assert(drawn@.to_multiset().add(self@.to_multiset()) =~= self@.to_multiset());
        }
        while self.len() > 0
            invariant
                drawn@.to_multiset().add(self@.to_multiset()) == all,
            decreases self.len(),
        {
            let at = rand_index(0, self.len());
            let ghost drawn_before = drawn@;
            let ghost left_before = self@;
            let picked = self.remove(at);
            match picked {
                Some(element) => {
                    let ghost moved = element;
                    drawn.push_back(element);
                    proof {
                        vstd::seq_lib::to_multiset_remove(left_before, at as int);
                        vstd::seq_lib::to_multiset_build(drawn_before, moved);
                        left_before.to_multiset_ensures();
                        assert(left_before.contains(moved));
                        assert(self@ == left_before.remove(at as int));
                        assert(self@.to_multiset() == left_before.to_multiset().remove(moved));
                        assert(drawn@ == drawn_before.push(moved));
                        assert(drawn@.to_multiset() == drawn_before.to_multiset().insert(moved));
                        assert(left_before.to_multiset().count(moved) > 0);
                        assert(drawn@.to_multiset().add(self@.to_multiset())
                            =~= drawn_before.to_multiset().add(left_before.to_multiset()));
                    }
                },
                None => {},
            }
        }
        proof {
            assert(self@.to_multiset() =~= Multiset::<T>::empty());
            assert(drawn@.to_multiset() =~= all);
        }
        core::mem::swap(self, &mut drawn);
    }
}

} // verus!
