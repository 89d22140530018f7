use vstd::prelude::*;

use crate::chance::shuffle_in_place;

verus! {

/// The keypad's digits in reading order before any reordering.
pub fn initial_grid() -> (r: Vec<u8>)
    ensures
        r@ == seq![1u8, 2, 3, 4, 5, 6, 7, 8, 9],
{
    vec![1u8, 2, 3, 4, 5, 6, 7, 8, 9]
}

/// Shuffles that may come back unchanged before the fallback swap.
pub const SHUFFLE_ATTEMPTS: u32 = 16;

/// Swapping the first two entries of `g` keeps its entries.
proof fn lemma_swap_front_permutes(g: Seq<u8>)
    requires
        g.len() >= 2,
    ensures
        g.update(0, g[1]).update(1, g[0]).to_multiset() == g.to_multiset(),
{
    broadcast use vstd::seq_lib::to_multiset_update, vstd::multiset::group_multiset_axioms;

    let g1 = g.update(0, g[1]);
    assert(g1[1] == g[1]);
    assert(g1.to_multiset() == g.to_multiset().insert(g[1]).remove(g[0]));
    let g2 = g1.update(1, g[0]);
    assert(g2.to_multiset() == g1.to_multiset().insert(g[0]).remove(g[1]));
    let m = g.to_multiset();
    g.to_multiset_ensures();
    assert(g.contains(g[0]) && g.contains(g[1]));
    assert(m.count(g[0]) > 0 && m.count(g[1]) > 0);
    assert forall|x: u8| #[trigger] g2.to_multiset().count(x) == m.count(x) by {}
    assert(g2.to_multiset() =~= m);
}

/// A random reordering of the keypad that differs from `grid`.
pub fn shuffle_pad(grid: &Vec<u8>) -> (r: Vec<u8>)
    requires
        grid@.len() >= 2,
        grid@.no_duplicates(),
    ensures
        r@.to_multiset() == grid@.to_multiset(),
        r@ != grid@,
{
    let mut attempt: u32 = 0;
    while attempt < SHUFFLE_ATTEMPTS
        decreases SHUFFLE_ATTEMPTS - attempt,
    {
        let mut v = grid.clone();
        shuffle_in_place(&mut v);
        let mut same = v.len() == grid.len();
        let mut k: usize = 0;
        while same && k < v.len()
            invariant
                same ==> v@.len() == grid@.len(),
                !same ==> v@ != grid@,
                same ==> forall|j: int| 0 <= j < k ==> v@[j] == grid@[j],
                k <= v@.len(),
            decreases v@.len() - k,
        {
            if v[k] != grid[k] {
                same = false;
                assert(v@[k as int] != grid@[k as int]);
            }
            k = k + 1;
        }
        if !same {
            return v;
        }
        attempt = attempt + 1;
    }
    let mut v = grid.clone();
    let a = v[0];
    let b = v[1];
    v.set(0, b);
    v.set(1, a);
    proof {
        lemma_swap_front_permutes(grid@);
        assert(v@ =~= grid@.update(0, grid@[1]).update(1, grid@[0]));
        assert(v@[0] != grid@[0]);
    }
    v
}

} // verus!
