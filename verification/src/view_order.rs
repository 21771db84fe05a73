//! The order in which training views are visited: epoch by epoch, each
//! epoch a fresh random permutation of all views, drawn from a seeded
//! generator.

use vstd::prelude::*;
use rand::seq::SliceRandom;
use rand::SeedableRng;
use rand::rngs::StdRng;

verus! {

#[verifier::external_type_specification]
#[verifier::external_body]
pub struct ExStdRng(StdRng);

/// Calls `StdRng::seed_from_u64`. The generator's state is opaque here.
#[verifier::external_body]
fn seeded_rng(seed: u64) -> (rng: StdRng) {
    StdRng::seed_from_u64(seed)
}

/// Calls `SliceRandom::shuffle` on the vector's slice, which permutes it by
/// swapping elements: the same elements stay, in an order the generator
/// picks.
#[verifier::external_body]
fn shuffle_with(v: &mut Vec<usize>, rng: &mut StdRng)
    ensures
        final(v)@.len() == old(v)@.len(),
        final(v)@.to_multiset() == old(v)@.to_multiset(),
{
    v.as_mut_slice().shuffle(rng);
}

/// The indices `0..n`, in order.
pub open spec fn all_views(n: nat) -> Seq<usize> {
    Seq::new(n, |i: int| i as usize)
}

/// Hands out view indices: each epoch visits every view once, in an order
/// drawn from the generator.
pub struct ViewOrder {
    view_count: usize,
    pending: Vec<usize>,
    rng: StdRng,
}

impl ViewOrder {
    /// The number of views.
    pub closed spec fn count(&self) -> usize {
        self.view_count
    }

    /// The views not yet visited in this epoch; the last is visited next.
    pub closed spec fn remaining(&self) -> Seq<usize> {
        self.pending@
    }

    /// No view waits twice, and every waiting view exists.
    pub open spec fn wf(&self) -> bool {
        &&& self.remaining().no_duplicates()
        &&& forall|k: int| 0 <= k < self.remaining().len() ==> #[trigger] self.remaining()[k]
            < self.count()
    }

    /// An order over `view_count` views, drawn from a generator seeded with
    /// `seed`; the first epoch starts with the first request.
    pub fn new(view_count: usize, seed: u64) -> (o: Self)
        ensures
            o.count() == view_count,
            o.remaining().len() == 0,
            o.wf(),
    {
        ViewOrder { view_count, pending: Vec::new(), rng: seeded_rng(seed) }
    }

    /// The next view to visit. When the epoch is over, a new one starts
    /// with all views in a freshly shuffled order.
    pub fn next_view(&mut self) -> (view: usize)
        requires
            old(self).count() > 0,
            old(self).wf(),
        ensures
            final(self).wf(),
            final(self).count() == old(self).count(),
            view < old(self).count(),
            old(self).remaining().len() > 0 ==> view == old(self).remaining().last()
                && final(self).remaining() == old(self).remaining().drop_last(),
            old(self).remaining().len() == 0 ==> final(self).remaining().push(view).to_multiset()
                == all_views(old(self).count() as nat).to_multiset(),
    {
        if self.pending.len() == 0 {
            let mut fresh: Vec<usize> = Vec::new();
            let mut i: usize = 0;
            while i < self.view_count
                invariant
                    i <= self.view_count,
                    fresh@ == all_views(i as nat),
                decreases self.view_count - i,
            {
                fresh.push(i);
                i = i + 1;
                assert(fresh@ =~= all_views(i as nat));
            }
            let ghost ordered = fresh@;
            shuffle_with(&mut fresh, &mut self.rng);
            proof {
                lemma_all_views_distinct(self.view_count as nat);
                lemma_permutation_keeps(ordered, fresh@, self.view_count as nat);
            }
            let ghost shuffled = fresh@;
            let view = fresh.pop().unwrap();
            proof {
                assert(fresh@.push(view) =~= shuffled);
                lemma_drop_last_keeps(shuffled, self.view_count as nat);
            }
            self.pending = fresh;
            view
        } else {
            let view = self.pending.pop().unwrap();
            proof {
                lemma_drop_last_keeps(old(self).remaining(), self.view_count as nat);
            }
            view
        }
    }
}

/// The indices `0..n` are distinct.
proof fn lemma_all_views_distinct(n: nat)
    requires
        n <= usize::MAX,
    ensures
        all_views(n).no_duplicates(),
{
    assert forall|i: int, j: int|
        0 <= i < all_views(n).len() && 0 <= j < all_views(n).len() && i != j implies all_views(
        n,
    )[i] != all_views(n)[j] by {
        assert(all_views(n)[i] == i && all_views(n)[j] == j);
    }
}

/// A permutation of `0..n` holds `n` distinct indices below `n`.
proof fn lemma_permutation_keeps(ordered: Seq<usize>, shuffled: Seq<usize>, n: nat)
    requires
        ordered == all_views(n),
        ordered.no_duplicates(),
        shuffled.len() == ordered.len(),
        shuffled.to_multiset() == ordered.to_multiset(),
    ensures
        shuffled.no_duplicates(),
        forall|k: int| 0 <= k < shuffled.len() ==> #[trigger] shuffled[k] < n,
{
    broadcast use vstd::seq_lib::group_to_multiset_ensures;
    ordered.lemma_multiset_has_no_duplicates();
    assert forall|x: usize| shuffled.to_multiset().contains(x) implies shuffled.to_multiset().count(
        x,
    ) == 1 by {}
    shuffled.lemma_multiset_has_no_duplicates_conv();
    assert forall|k: int| 0 <= k < shuffled.len() implies #[trigger] shuffled[k] < n by {
        let x = shuffled[k];
        assert(shuffled.contains(x));
        assert(shuffled.to_multiset().count(x) > 0);
        assert(ordered.to_multiset().count(x) > 0);
        assert(ordered.contains(x));
        let i = choose|i: int| 0 <= i < ordered.len() && ordered[i] == x;
        assert(ordered[i] == i as usize);
    }
}

/// Dropping the last element keeps a sequence of distinct indices below `n`
/// so.
proof fn lemma_drop_last_keeps(s: Seq<usize>, n: nat)
    requires
        s.len() > 0,
        s.no_duplicates(),
        forall|k: int| 0 <= k < s.len() ==> #[trigger] s[k] < n,
    ensures
        s.drop_last().no_duplicates(),
        forall|k: int| 0 <= k < s.drop_last().len() ==> #[trigger] s.drop_last()[k] < n,
        s.last() < n,
{
    assert forall|k: int| 0 <= k < s.drop_last().len() implies #[trigger] s.drop_last()[k] < n by {
        assert(s.drop_last()[k] == s[k]);
    }
    assert forall|i: int, j: int|
        0 <= i < s.drop_last().len() && 0 <= j < s.drop_last().len() && i != j implies s.drop_last()[i]
        != s.drop_last()[j] by {
        assert(s.drop_last()[i] == s[i] && s.drop_last()[j] == s[j]);
    }
}

} // verus!
