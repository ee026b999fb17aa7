//! Small general lemmas about filtered sequences, used to verify the loops
//! that rebuild or page through the catalog tables.

use vstd::prelude::*;

verus! {

/// Extending a prefix by one element extends its filtered image by that
/// element exactly when the element satisfies the predicate.
pub proof fn lemma_filter_take_step<A>(s: Seq<A>, pred: spec_fn(A) -> bool, i: int)
    requires
        0 <= i < s.len(),
    ensures
        s.take(i + 1).filter(pred) == if pred(s[i]) {
            s.take(i).filter(pred).push(s[i])
        } else {
            s.take(i).filter(pred)
        },
{
    reveal(Seq::filter);
    assert(s.take(i + 1).drop_last() =~= s.take(i));
    assert(s.take(i + 1).last() == s[i]);
}

/// The whole sequence is its own prefix of full length.
pub proof fn lemma_take_all<A>(s: Seq<A>)
    ensures
        s.take(s.len() as int) == s,
{
    assert(s.take(s.len() as int) =~= s);
}

/// Every element of a filtered sequence satisfies the predicate and occurs
/// in the original sequence.
pub proof fn lemma_filter_elements<A>(s: Seq<A>, pred: spec_fn(A) -> bool)
    ensures
        forall|k: int|
            0 <= k < s.filter(pred).len() ==> pred(#[trigger] s.filter(pred)[k]) && s.contains(
                s.filter(pred)[k],
            ),
    decreases s.len(),
{
    reveal(Seq::filter);
    if s.len() > 0 {
        lemma_filter_elements(s.drop_last(), pred);
        let f = s.filter(pred);
        let fd = s.drop_last().filter(pred);
        assert forall|k: int| 0 <= k < f.len() implies pred(#[trigger] f[k]) && s.contains(
            f[k],
        ) by {
            if k < fd.len() {
                assert(fd[k] == f[k]);
                assert(s.drop_last().contains(fd[k]));
                let j = choose|j: int|
                    0 <= j < s.drop_last().len() && s.drop_last()[j] == fd[k];
                assert(s[j] == fd[k]);
            } else {
                assert(f[k] == s.last());
                assert(s[s.len() - 1] == s.last());
            }
        }
    }
}

/// Filtering keeps a sequence strictly ascending under a key function.
pub proof fn lemma_filter_ascending<A>(s: Seq<A>, pred: spec_fn(A) -> bool, key: spec_fn(A) -> int)
    requires
        forall|i: int, j: int| 0 <= i < j < s.len() ==> key(s[i]) < key(s[j]),
    ensures
        forall|i: int, j: int|
            0 <= i < j < s.filter(pred).len() ==> key(#[trigger] s.filter(pred)[i]) < key(
                #[trigger] s.filter(pred)[j],
            ),
    decreases s.len(),
{
    reveal(Seq::filter);
    if s.len() > 0 {
        let d = s.drop_last();
        assert(forall|i: int, j: int| 0 <= i < j < d.len() ==> key(#[trigger] d[i]) < key(
            #[trigger] d[j],
        ));
        lemma_filter_ascending(d, pred, key);
        lemma_filter_elements(d, pred);
        let f = s.filter(pred);
        let fd = d.filter(pred);
        assert forall|i: int, j: int| 0 <= i < j < f.len() implies key(#[trigger] f[i]) < key(
            #[trigger] f[j],
        ) by {
            if j < fd.len() {
            } else if pred(s.last()) {
                assert(f[j] == s.last());
                assert(d.contains(fd[i]));
                let m = choose|m: int| 0 <= m < d.len() && d[m] == fd[i];
                assert(key(s[m]) < key(s[s.len() - 1]));
            }
        }
    }
}

/// Filtering keeps a pairwise relation that held between all distinct
/// elements, provided the sequence was strictly ascending under some key.
pub proof fn lemma_filter_preserves_distinct<A>(
    s: Seq<A>,
    pred: spec_fn(A) -> bool,
    key: spec_fn(A) -> int,
    rel: spec_fn(A, A) -> bool,
)
    requires
        forall|i: int, j: int| 0 <= i < j < s.len() ==> key(s[i]) < key(s[j]),
        forall|i: int, j: int|
            0 <= i < s.len() && 0 <= j < s.len() && i != j ==> rel(s[i], s[j]),
    ensures
        forall|i: int, j: int|
            0 <= i < j < s.filter(pred).len() ==> rel(
                #[trigger] s.filter(pred)[i],
                #[trigger] s.filter(pred)[j],
            ),
{
    lemma_filter_ascending(s, pred, key);
    lemma_filter_elements(s, pred);
    let f = s.filter(pred);
    assert forall|i: int, j: int| 0 <= i < j < f.len() implies rel(
        #[trigger] f[i],
        #[trigger] f[j],
    ) by {
        assert(key(f[i]) < key(f[j]));
        assert(s.contains(f[i]) && s.contains(f[j]));
        let mi = choose|m: int| 0 <= m < s.len() && s[m] == f[i];
        let mj = choose|m: int| 0 <= m < s.len() && s[m] == f[j];
        assert(mi != mj);
    }
}

} // verus!
