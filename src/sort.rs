use vstd::prelude::*;
use crate::model::SizeKeyed;

verus! {

/// Entries of `s` whose key equals `k`.
pub open spec fn key_is<T: SizeKeyed>(k: u64) -> spec_fn(T) -> bool {
    |t: T| t.key() == k
}

/// Keys never increase along `s`.
pub open spec fn sorted_by_size_desc<T: SizeKeyed>(s: Seq<T>) -> bool {
    forall|i: int, j: int| 0 <= i < j < s.len() ==> s[i].key() >= s[j].key()
}

/// `r` is the stable descending sort of `s` by key: keys never increase, and
/// the entries that share a key keep their relative order from `s`.
pub open spec fn is_stable_size_sort<T: SizeKeyed>(r: Seq<T>, s: Seq<T>) -> bool {
    &&& sorted_by_size_desc(r)
    &&& forall|k: u64| #[trigger] r.filter(key_is::<T>(k)) == s.filter(key_is::<T>(k))
    &&& r.len() == s.len()
    &&& r.to_multiset() == s.to_multiset()
}

proof fn lemma_filter_insert<T>(s: Seq<T>, p: int, x: T, pred: spec_fn(T) -> bool)
    requires
        0 <= p <= s.len(),
    ensures
        s.insert(p, x).filter(pred) == s.take(p).filter(pred) + seq![x].filter(pred) + s.skip(
            p,
        ).filter(pred),
        s.filter(pred) == s.take(p).filter(pred) + s.skip(p).filter(pred),
{
    assert(s.insert(p, x) =~= s.take(p) + seq![x] + s.skip(p));
    assert(s =~= s.take(p) + s.skip(p));
    Seq::filter_distributes_over_add(s.take(p) + seq![x], s.skip(p), pred);
    Seq::filter_distributes_over_add(s.take(p), seq![x], pred);
    Seq::filter_distributes_over_add(s.take(p), s.skip(p), pred);
}

proof fn lemma_filter_none<T>(s: Seq<T>, pred: spec_fn(T) -> bool)
    requires
        forall|i: int| 0 <= i < s.len() ==> !pred(s[i]),
    ensures
        s.filter(pred) =~= Seq::<T>::empty(),
{
    s.lemma_all_neg_filter_empty(pred);
}

proof fn lemma_filter_single<T>(x: T, pred: spec_fn(T) -> bool)
    ensures
        seq![x].filter(pred) == (if pred(x) {
            seq![x]
        } else {
            Seq::<T>::empty()
        }),
{
    Seq::<T>::empty().lemma_filter_push(x, pred);
    assert(Seq::<T>::empty().push(x) =~= seq![x]);
    reveal(Seq::filter);
    assert(Seq::<T>::empty().filter(pred) =~= Seq::<T>::empty());
}

/// Sorts entries by size, largest first; entries of equal size keep their order.
pub fn sort_by_size_desc<T: SizeKeyed>(v: Vec<T>) -> (r: Vec<T>)
    ensures
        is_stable_size_sort(r@, v@),
{
    let ghost orig = v@;
    let n = v.len();
    let mut rest = v;
    let mut out: Vec<T> = Vec::new();
    let mut i: usize = 0;
    assert(out@ =~= orig.take(0));
    while i < n
        invariant
            n == orig.len(),
            i <= n,
            rest@ == orig.skip(i as int),
            out@.len() == i,
            sorted_by_size_desc(out@),
            forall|k: u64| #[trigger]
                out@.filter(key_is::<T>(k)) == orig.take(i as int).filter(key_is::<T>(k)),
            out@.to_multiset() == orig.take(i as int).to_multiset(),
        decreases n - i,
    {
        let x = rest.remove(0);
        assert(x == orig[i as int]);
        assert(orig.take(i as int + 1) == orig.take(i as int).push(x));
        let kx = x.size_key();
        let mut p: usize = 0;
        while p < out.len() && out[p].size_key() >= kx
            invariant
                p <= out@.len(),
                forall|j: int| 0 <= j < p ==> out@[j].key() >= kx,
            decreases out@.len() - p,
        {
            p = p + 1;
        }
        proof {
            let old_out = out@;
            assert forall|j: int| p <= j < old_out.len() implies old_out[j].key() < kx by {
                if p < old_out.len() {
                    assert(old_out[p as int].key() < kx);
                }
            }
            assert forall|k: u64| #[trigger]
                old_out.insert(p as int, x).filter(key_is::<T>(k)) == orig.take(i as int + 1).filter(
                    key_is::<T>(k),
                ) by {
                let pred = key_is::<T>(k);
                lemma_filter_insert(old_out, p as int, x, pred);
                lemma_filter_single(x, pred);
                orig.take(i as int).lemma_filter_push(x, pred);
                if k == kx {
                    lemma_filter_none(old_out.skip(p as int), pred);
                    assert(old_out.take(p as int).filter(pred) + seq![x] =~= old_out.take(
                        p as int,
                    ).filter(pred).push(x));
                } else {
                }
            }
            vstd::seq_lib::to_multiset_insert(old_out, p as int, x);
            vstd::seq_lib::to_multiset_build(orig.take(i as int), x);
        }
        out.insert(p, x);
        assert(rest@ =~= orig.skip(i as int + 1));
        i = i + 1;
    }
    assert(orig.take(n as int) =~= orig);
    out
}

} // verus!
