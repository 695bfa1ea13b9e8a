//! The order in which the words of a list are asked.

use rand::rngs::ThreadRng;
use rand::seq::SliceRandom;
use vstd::prelude::*;

verus! {

/// The places `0, 1, .., n - 1`, each in its own place.
pub open spec fn in_turn(n: nat) -> Seq<usize> {
    Seq::new(n, |i: int| i as usize)
}

/// Whether `order` names each of the places `0, 1, .., n - 1` exactly once.
pub open spec fn is_permutation(order: Seq<usize>, n: nat) -> bool {
    &&& order.len() == n
    &&& forall|i: int| 0 <= i < order.len() ==> order[i] < n
    &&& order.no_duplicates()
}

/// Whether `order` is a way to ask a list of `n` words: each word once, and,
/// unless the words are shuffled, in the order of the list.
pub open spec fn is_word_order(order: Seq<usize>, n: nat, shuffle: bool) -> bool {
    &&& is_permutation(order, n)
    &&& !shuffle ==> order == in_turn(n)
}

/// A rearrangement of the places in turn is a permutation: it has as many
/// entries, each names a place, and no place is named twice.
pub proof fn lemma_rearranged_is_permutation(order: Seq<usize>, n: nat)
    requires
        n <= usize::MAX,
        order.to_multiset() == in_turn(n).to_multiset(),
    ensures
        is_permutation(order, n),
{
    let places = in_turn(n);
    order.to_multiset_ensures();
    places.to_multiset_ensures();
    assert forall|i: int| 0 <= i < order.len() implies order[i] < n by {
        assert(order.contains(order[i]));
        assert(order.to_multiset().count(order[i]) > 0);
        assert(places.to_multiset().count(order[i]) > 0);
        assert(places.contains(order[i]));
    }
    places.lemma_multiset_has_no_duplicates();
    order.lemma_multiset_has_no_duplicates_conv();
}

/// `rand::rngs::ThreadRng`, the handle that [`thread_rng`] gives: a value to
/// pass on, of which nothing is known.
#[verifier::external_type_specification]
#[verifier::external_body]
pub struct ExThreadRng(ThreadRng);

/// `rand::thread_rng`: a handle to the calling thread's random number
/// generator, which the system seeds on first use; the call fails only where
/// the system has no seed to give. Nothing is claimed of the handle.
#[verifier::external_body]
pub(crate) fn thread_rng() -> ThreadRng {
    rand::thread_rng()
}

/// `rand::seq::SliceRandom::shuffle` on the slice of a vector: it swaps entries
/// among themselves, as the generator directs, and does nothing else. So the
/// vector ends up holding what it held, each entry as often as before; in what
/// order is left open.
#[verifier::external_body]
pub(crate) fn shuffle(order: &mut Vec<usize>, rng: &mut ThreadRng)
    ensures
        final(order)@.to_multiset() == old(order)@.to_multiset(),
{
    order.shuffle(rng);
}

/// The places `0, 1, .., n - 1` in turn: the order of the list itself.
pub fn places(n: usize) -> (order: Vec<usize>)
    ensures
        order@ == in_turn(n as nat),
{
    let mut order: Vec<usize> = Vec::new();
    let mut next: usize = 0;
    while next < n
        invariant
            next <= n,
            order@ == in_turn(next as nat),
        decreases n - next,
    {
        order.push(next);
        next += 1;
        assert(order@ =~= in_turn(next as nat));
    }
    order
}

} // verus!
