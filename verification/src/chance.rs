//! The random draws of the library, made by the `rand` crate.

use crate::grid::Position;
use rand::seq::SliceRandom;
use rand::Rng;
use vstd::prelude::*;

verus! {

/// `Rng::gen_range` of the thread's generator, on the range `0..bound`. The
/// call returns a number of the range; it panics on an empty range, which
/// the precondition rules out. Which number it returns is left open.
#[verifier::external_body]
pub(crate) fn random_below(bound: usize) -> (r: usize)
    requires
        bound > 0,
    ensures
        r < bound,
{
    rand::thread_rng().gen_range(0..bound)
}

/// `SliceRandom::choose` of the thread's generator: nothing for an empty
/// list, else one of its elements. Which element it returns is left open.
#[verifier::external_body]
pub(crate) fn pick_one<T>(items: &Vec<T>) -> (r: Option<&T>)
    ensures
        r is Some <==> items.len() > 0,
        r matches Some(x) ==> items@.contains(*x),
{
    items.choose(&mut rand::thread_rng())
}

/// The elements of `picks` stand in `cells` at places of which no two are
/// the same.
pub open spec fn drawn_from(cells: Seq<Position>, picks: Seq<Position>) -> bool {
    exists|at: Seq<int>|
        {
            &&& at.len() == picks.len()
            &&& at.no_duplicates()
            &&& forall|k: int|
                0 <= k < at.len() ==> 0 <= #[trigger] at[k] < cells.len() && picks[k]
                    == cells[at[k]]
        }
}

/// `SliceRandom::choose_multiple` of the thread's generator: `amount`
/// elements of the list, or all of them where the list is shorter, taken
/// from places of which no two are the same. Which places, and in which
/// order, is left open.
#[verifier::external_body]
pub(crate) fn pick_several(cells: &Vec<Position>, amount: usize) -> (r: Vec<Position>)
    ensures
        r.len() == if amount <= cells.len() {
            amount
        } else {
            cells.len()
        },
        drawn_from(cells@, r@),
{
    cells.choose_multiple(&mut rand::thread_rng(), amount).copied().collect()
}

/// A draw from a list without repetitions has no repetitions, and holds
/// elements of the list only.
pub proof fn lemma_drawn_distinct(cells: Seq<Position>, picks: Seq<Position>)
    requires
        drawn_from(cells, picks),
    ensures
        forall|k: int| 0 <= k < picks.len() ==> cells.contains(#[trigger] picks[k]),
        cells.no_duplicates() ==> picks.no_duplicates(),
{
    let at = choose|at: Seq<int>|
        {
            &&& at.len() == picks.len()
            &&& at.no_duplicates()
            &&& forall|k: int|
                0 <= k < at.len() ==> 0 <= #[trigger] at[k] < cells.len() && picks[k]
                    == cells[at[k]]
        };
    assert forall|k: int| 0 <= k < picks.len() implies cells.contains(#[trigger] picks[k]) by {
        assert(cells[at[k]] == picks[k]);
    }
    if cells.no_duplicates() {
        assert forall|k: int, l: int| 0 <= k < picks.len() && 0 <= l < picks.len() && k
            != l implies picks[k] != picks[l] by {
            assert(cells[at[k]] == picks[k]);
            assert(cells[at[l]] == picks[l]);
        }
    }
}

} // verus!
