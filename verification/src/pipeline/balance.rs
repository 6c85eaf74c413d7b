//! Weighted selection of a backend.

use vstd::prelude::*;

use crate::config::Backend;
use crate::pipeline::chance::Chance;

verus! {

/// The weights of some backends together.
pub open spec fn total_weight(backends: Seq<Backend>) -> nat
    decreases backends.len(),
{
    if backends.len() == 0 {
        0
    } else {
        total_weight(backends.drop_last()) + backends.last().weight as nat
    }
}

/// The weights of the backends before number `i` together.
pub open spec fn weight_before(backends: Seq<Backend>, i: int) -> nat {
    total_weight(backends.take(i))
}

/// Whether the number `pick` selects backend `i`: the backends divide the
/// numbers from 0 up among them in order, each as many as its weight.
pub open spec fn selects(backends: Seq<Backend>, pick: nat, i: int) -> bool {
    &&& 0 <= i < backends.len()
    &&& weight_before(backends, i) <= pick < weight_before(backends, i) + backends[i].weight
}

/// `rand::random_range` draws a number from 0 up, below `n`. Which one is
/// left to chance. It panics where there is none. The draw goes on the record
/// of the source.
#[verifier::external_body]
pub(crate) fn random_below(n: u128, source: &mut Chance) -> (r: u128)
    requires
        n > 0,
    ensures
        r < n,
        final(source).draws() == old(source).draws().push((n, r)),
{
    rand::random_range(0..n)
}

proof fn lemma_weight_step(backends: Seq<Backend>, i: int)
    requires
        0 <= i < backends.len(),
    ensures
        weight_before(backends, i + 1) == weight_before(backends, i) + backends[i].weight,
        weight_before(backends, i + 1) <= total_weight(backends),
    decreases backends.len() - i,
{
    assert(backends.take(i + 1).drop_last() =~= backends.take(i));
    if i + 1 < backends.len() {
        lemma_weight_step(backends, i + 1);
    } else {
        assert(backends.take(i + 1) =~= backends);
    }
}

proof fn lemma_weight_bound(backends: Seq<Backend>)
    ensures
        total_weight(backends) <= backends.len() * u32::MAX,
    decreases backends.len(),
{
    if backends.len() > 0 {
        lemma_weight_bound(backends.drop_last());
    }
}

/// The weights of the backends together.
pub fn sum_of_weights(backends: &[Backend]) -> (r: u128)
    ensures
        r == total_weight(backends@),
{
    let mut total: u128 = 0;
    let mut i: usize = 0;
    let n: usize = backends.len();
    proof {
        lemma_weight_bound(backends@);
        assert(n <= u64::MAX);
    }
    while i < n
        invariant
            i <= n == backends@.len(),
            total == weight_before(backends@, i as int),
            total_weight(backends@) <= u128::MAX,
        decreases n - i,
    {
        proof {
            lemma_weight_step(backends@, i as int);
        }
        total = total + backends[i].weight as u128;
        i += 1;
    }
    assert(backends@.take(i as int) =~= backends@);
    total
}

/// The backend that the number selects.
pub fn pick_backend(backends: &[Backend], pick: u128) -> (r: &Backend)
    requires
        pick < total_weight(backends@),
    ensures
        exists|i: int| selects(backends@, pick as nat, i) && *r == backends@[i],
{
    let mut left: u128 = pick;
    let mut i: usize = 0;
    while i < backends.len()
        invariant
            i <= backends@.len(),
            pick < total_weight(backends@),
            left == pick - weight_before(backends@, i as int),
        decreases backends.len() - i,
    {
        proof {
            lemma_weight_step(backends@, i as int);
        }
        if left < backends[i].weight as u128 {
            assert(selects(backends@, pick as nat, i as int));
            return &backends[i];
        }
        left = left - backends[i].weight as u128;
        i += 1;
    }
    assert(backends@.take(i as int) =~= backends@);
    assert(false);
    &backends[0]
}

/// Whether `b` is the backend that a draw selected: one number was drawn, below
/// the total weight, and that number selects it.
pub open spec fn drawn_from(backends: Seq<Backend>, b: Backend) -> bool {
    exists|source: Chance, pick: u128, i: int|
        #![trigger source.draws(), selects(backends, pick as nat, i)]
        source.draws() == seq![(total_weight(backends) as u128, pick)] && pick < total_weight(
            backends,
        ) && selects(backends, pick as nat, i) && b == backends[i]
}

/// A backend chosen at random, each as often as its weight says. Backends of
/// weight 0 are never chosen; where there are no others the result is `None`.
pub fn select_backend(backends: &[Backend]) -> (r: Option<&Backend>)
    ensures
        match r {
            Some(b) => total_weight(backends@) > 0 && exists|pick: nat, i: int|
                pick < total_weight(backends@) && selects(backends@, pick, i) && *b == backends@[i],
            None => total_weight(backends@) == 0,
        },
        r is None <==> forall|i: int|
            0 <= i < backends@.len() ==> (#[trigger] backends@[i]).weight == 0,
        r matches Some(b) ==> drawn_from(backends@, *b),
        r matches Some(b) ==> b.weight > 0 && backends@.contains(*b),
{
    proof {
        law_selection_needs_weight(backends@);
    }
    let total = sum_of_weights(backends);
    if total == 0 {
        return None;
    }
    let mut source = Chance::new();
    let pick = random_below(total, &mut source);
    let r = pick_backend(backends, pick);
    proof {
        assert(source.draws() =~= seq![(total, pick)]);
        let i = choose|i: int| selects(backends@, pick as nat, i) && *r == backends@[i];
        assert(selects(backends@, pick as nat, i));
    }
    Some(r)
}

// ---------------------------------------------------------------------------
// Laws
// ---------------------------------------------------------------------------

/// Every number below the total weight selects exactly one backend.
pub proof fn law_every_number_selects_one(backends: Seq<Backend>, pick: nat)
    requires
        pick < total_weight(backends),
    ensures
        exists|i: int| selects(backends, pick, i),
        forall|i: int, j: int| selects(backends, pick, i) && selects(backends, pick, j) ==> i == j,
{
    lemma_some_backend(backends, pick, backends.len() as int);
    assert forall|i: int, j: int| selects(backends, pick, i) && selects(backends, pick, j) implies i
        == j by {
        if i < j {
            lemma_weight_grows(backends, i + 1, j);
            lemma_weight_step(backends, i);
        } else if j < i {
            lemma_weight_grows(backends, j + 1, i);
            lemma_weight_step(backends, j);
        }
    }
}

/// A backend of weight 0 is never selected.
pub proof fn law_weightless_backends_are_never_selected(backends: Seq<Backend>, pick: nat, i: int)
    requires
        selects(backends, pick, i),
    ensures
        backends[i].weight > 0,
{
}

/// Of the numbers below the total weight, a backend takes as many as its
/// weight: those from the weight before it on.
pub proof fn law_share_is_the_weight(backends: Seq<Backend>, i: int, k: nat)
    requires
        0 <= i < backends.len(),
        k < backends[i].weight,
    ensures
        selects(backends, weight_before(backends, i) + k, i),
        weight_before(backends, i) + k < total_weight(backends),
{
    lemma_weight_step(backends, i);
}

/// A selection is possible where, and only where, some backend has weight.
pub proof fn law_selection_needs_weight(backends: Seq<Backend>)
    ensures
        total_weight(backends) > 0 <==> exists|i: int|
            0 <= i < backends.len() && (#[trigger] backends[i]).weight > 0,
    decreases backends.len(),
{
    if backends.len() > 0 {
        let front = backends.drop_last();
        law_selection_needs_weight(front);
        assert forall|i: int| 0 <= i < front.len() implies front[i] == backends[i] by {}
        if total_weight(front) > 0 {
            let i = choose|i: int| 0 <= i < front.len() && (#[trigger] front[i]).weight > 0;
            assert(backends[i].weight > 0);
        }
        if backends.last().weight > 0 {
            assert(backends[backends.len() - 1].weight > 0);
        }
        if exists|i: int| 0 <= i < backends.len() && (#[trigger] backends[i]).weight > 0 {
            let i = choose|i: int| 0 <= i < backends.len() && (#[trigger] backends[i]).weight > 0;
            if i < front.len() {
                assert(front[i].weight > 0);
            }
        }
    }
}

proof fn lemma_weight_grows(backends: Seq<Backend>, i: int, j: int)
    requires
        0 <= i <= j <= backends.len(),
    ensures
        weight_before(backends, i) <= weight_before(backends, j),
    decreases j - i,
{
    if i < j {
        lemma_weight_step(backends, i);
        lemma_weight_grows(backends, i + 1, j);
    }
}

proof fn lemma_some_backend(backends: Seq<Backend>, pick: nat, n: int)
    requires
        0 <= n <= backends.len(),
        pick < weight_before(backends, n) || n == backends.len() && pick < total_weight(backends),
    ensures
        exists|i: int| selects(backends, pick, i),
    decreases n,
{
    if n == backends.len() {
        assert(backends.take(n) =~= backends);
    }
    if n > 0 {
        lemma_weight_step(backends, n - 1);
        if weight_before(backends, n - 1) <= pick {
            assert(selects(backends, pick, n - 1));
        } else {
            lemma_some_backend(backends, pick, n - 1);
        }
    }
}

/// A backend that a draw selects has weight and is one of the backends; the
/// number drawn decides which, and no other number plays a part.
pub proof fn law_the_draw_decides(
    backends: Seq<Backend>,
    source: Chance,
    total: u128,
    pick: u128,
    i: int,
    j: int,
)
    requires
        source.draws() == seq![(total, pick)],
        selects(backends, pick as nat, i),
        selects(backends, pick as nat, j),
    ensures
        i == j,
        backends[i].weight > 0,
        backends.contains(backends[i]),
{
    lemma_weight_step(backends, i);
    law_every_number_selects_one(backends, pick as nat);
}

/// The weights add up one by one, and each backend takes the numbers behind
/// those of the backends before it.
pub proof fn law_weights_add_up(backends: Seq<Backend>, b: Backend)
    ensures
        total_weight(Seq::empty()) == 0,
        total_weight(backends.push(b)) == total_weight(backends) + b.weight,
        forall|pick: nat|
            #![trigger selects(backends.push(b), pick, backends.len() as int)]
            selects(backends.push(b), pick, backends.len() as int) <==> total_weight(backends)
                <= pick < total_weight(backends) + b.weight,
{
    assert(backends.push(b).drop_last() =~= backends);
    assert(backends.push(b).take(backends.len() as int) =~= backends);
}

} // verus!
