//! Facts about sequences that the proofs of the library share.

use vstd::prelude::*;

verus! {

/// Filtering one element more of a sequence keeps the element or drops it.
pub proof fn lemma_filter_next<T>(s: Seq<T>, f: spec_fn(T) -> bool, i: int)
    requires
        0 <= i < s.len(),
    ensures
        s.take(i + 1).filter(f) == if f(s[i]) {
            s.take(i).filter(f).push(s[i])
        } else {
            s.take(i).filter(f)
        },
        s.take(s.len() as int) == s,
{
    assert(s.take(i + 1) =~= s.take(i).push(s[i]));
    s.take(i).lemma_filter_push(s[i], f);
}

/// Two lists that agree on `f`, place by place, have equally many
/// elements that meet `f`.
pub proof fn lemma_filter_agree<T>(a: Seq<T>, b: Seq<T>, f: spec_fn(T) -> bool)
    requires
        a.len() == b.len(),
        forall|i: int| 0 <= i < a.len() ==> f(#[trigger] a[i]) == f(#[trigger] b[i]),
    ensures
        a.filter(f).len() == b.filter(f).len(),
    decreases a.len(),
{
    reveal(Seq::filter);
    if a.len() > 0 {
        lemma_filter_agree(a.drop_last(), b.drop_last(), f);
    }
}

/// Where every element that meets `f` meets `g`, no more elements meet `f`
/// than `g`.
pub proof fn lemma_filter_fewer<T>(
    list: Seq<T>,
    f: spec_fn(T) -> bool,
    g: spec_fn(T) -> bool,
)
    requires
        forall|i: int| 0 <= i < list.len() && f(#[trigger] list[i]) ==> g(list[i]),
    ensures
        list.filter(f).len() <= list.filter(g).len(),
    decreases list.len(),
{
    reveal(Seq::filter);
    if list.len() > 0 {
        let rest = list.drop_last();
        lemma_filter_fewer(rest, f, g);
    }
}

/// What is left of a list after filtering stands in the list, in the same
/// order.
pub proof fn lemma_filter_order<T>(s: Seq<T>, f: spec_fn(T) -> bool)
    ensures
        forall|i: int|
            0 <= i < s.filter(f).len() ==> exists|a: int|
                0 <= a < s.len() && #[trigger] s[a] == #[trigger] s.filter(f)[i],
        forall|i: int, j: int|
            0 <= i < j < s.filter(f).len() ==> exists|a: int, b: int|
                0 <= a < b < s.len() && #[trigger] s[a] == #[trigger] s.filter(f)[i]
                    && #[trigger] s[b] == #[trigger] s.filter(f)[j],
    decreases s.len(),
{
    reveal(Seq::filter);
    if s.len() > 0 {
        let rest = s.drop_last();
        lemma_filter_order(rest, f);
        let kept = rest.filter(f);
    }
}

/// What a list holds after an insertion.
pub proof fn lemma_insert(s: Seq<i32>, at: int, x: i32)
    requires
        0 <= at <= s.len(),
    ensures
        s.insert(at, x).len() == s.len() + 1,
        s.insert(at, x)[at] == x,
        forall|j: int| 0 <= j < at ==> #[trigger] s.insert(at, x)[j] == s[j],
        forall|j: int| at < j <= s.len() ==> #[trigger] s.insert(at, x)[j] == s[j - 1],
        forall|y: i32| s.insert(at, x).contains(y) <==> s.contains(y) || y == x,
        s.no_duplicates() && !s.contains(x) ==> s.insert(at, x).no_duplicates(),
{
    let t = s.insert(at, x);
    assert forall|y: i32| t.contains(y) <==> s.contains(y) || y == x by {
        if t.contains(y) {
            let w = choose|k: int| 0 <= k < t.len() && t[k] == y;
        }
        if s.contains(y) {
            let w = choose|k: int| 0 <= k < s.len() && s[k] == y;
            if w < at {
                assert(t[w] == y);
            } else {
                assert(t[w + 1] == y);
            }
        }
        if y == x {
            assert(t[at] == y);
        }
    }
}

} // verus!
