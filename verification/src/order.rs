//! Stable ordering of records by a key.

use vstd::prelude::*;

verus! {

/// A record type with a strict order on its views.
pub trait SortKey: DeepView + Sized {
    spec fn key_less(a: <Self as DeepView>::V, b: <Self as DeepView>::V) -> bool;

    fn less(&self, other: &Self) -> (r: bool)
        ensures
            r == Self::key_less(self.deep_view(), other.deep_view()),
    ;

    proof fn lemma_less_asymmetric(a: <Self as DeepView>::V, b: <Self as DeepView>::V)
        ensures
            Self::key_less(a, b) ==> !Self::key_less(b, a),
    ;

    proof fn lemma_less_transitive(
        a: <Self as DeepView>::V,
        b: <Self as DeepView>::V,
        c: <Self as DeepView>::V,
    )
        ensures
            Self::key_less(a, b) && Self::key_less(b, c) ==> Self::key_less(a, c),
    ;
}

/// No element is less than one before it.
pub open spec fn sorted_by<T: SortKey>(s: Seq<<T as DeepView>::V>) -> bool {
    forall|i: int, j: int| 0 <= i < j < s.len() ==> !T::key_less(#[trigger] s[j], #[trigger] s[i])
}

proof fn lemma_insert_pos_facts<T: SortKey>(
    s: Seq<<T as DeepView>::V>,
    x: <T as DeepView>::V,
    j: int,
)
    requires
        0 <= j <= s.len(),
    ensures
        forall|k: int| j <= k < insert_pos::<T>(s, x, j) ==> !T::key_less(x, #[trigger] s[k]),
        insert_pos::<T>(s, x, j) < s.len() ==> T::key_less(x, s[insert_pos::<T>(s, x, j)]),
    decreases s.len() - j,
{
    if j < s.len() && !T::key_less(x, s[j]) {
        lemma_insert_pos_facts::<T>(s, x, j + 1);
    }
}

proof fn lemma_insert_keeps_sorted<T: SortKey>(s: Seq<<T as DeepView>::V>, x: <T as DeepView>::V)
    requires
        sorted_by::<T>(s),
    ensures
        sorted_by::<T>(s.insert(insert_pos::<T>(s, x, 0), x)),
{
    let p = insert_pos::<T>(s, x, 0);
    lemma_insert_pos_bounds::<T>(s, x, 0);
    lemma_insert_pos_facts::<T>(s, x, 0);
    let r = s.insert(p, x);
    assert forall|i: int, j: int| 0 <= i < j < r.len() implies !T::key_less(
        #[trigger] r[j],
        #[trigger] r[i],
    ) by {
        if i < p && j < p {
            assert(r[i] == s[i] && r[j] == s[j]);
        } else if i < p && j == p {
            assert(r[i] == s[i] && r[j] == x);
        } else if i < p && j > p {
            assert(r[i] == s[i] && r[j] == s[j - 1]);
        } else if i == p {
            assert(r[i] == x && r[j] == s[j - 1]);
            T::lemma_less_asymmetric(x, s[p]);
            T::lemma_less_transitive(s[j - 1], x, s[p]);
            if j - 1 > p {
                assert(!T::key_less(s[j - 1], s[p]));
            }
        } else {
            assert(r[i] == s[i - 1] && r[j] == s[j - 1]);
        }
    }
}

/// A stable sort is sorted.
pub proof fn lemma_stable_sort_sorted<T: SortKey>(s: Seq<<T as DeepView>::V>)
    ensures
        sorted_by::<T>(stable_sort::<T>(s)),
    decreases s.len(),
{
    if s.len() > 0 {
        lemma_stable_sort_sorted::<T>(s.drop_last());
        lemma_insert_keeps_sorted::<T>(stable_sort::<T>(s.drop_last()), s.last());
    }
}

/// Where `x` goes into `s` when it follows everything in `s`: before the
/// first element from `j` on that is greater than `x`.
pub open spec fn insert_pos<T: SortKey>(s: Seq<<T as DeepView>::V>, x: <T as DeepView>::V, j: int) -> int
    decreases s.len() - j,
{
    if 0 <= j < s.len() && !T::key_less(x, s[j]) {
        insert_pos::<T>(s, x, j + 1)
    } else {
        j
    }
}

pub proof fn lemma_insert_pos_bounds<T: SortKey>(
    s: Seq<<T as DeepView>::V>,
    x: <T as DeepView>::V,
    j: int,
)
    requires
        0 <= j <= s.len(),
    ensures
        j <= insert_pos::<T>(s, x, j) <= s.len(),
    decreases s.len() - j,
{
    if j < s.len() && !T::key_less(x, s[j]) {
        lemma_insert_pos_bounds::<T>(s, x, j + 1);
    }
}

/// The stable sort of `s`: the elements ordered by key, equal keys in the
/// order they came in.
pub open spec fn stable_sort<T: SortKey>(s: Seq<<T as DeepView>::V>) -> Seq<<T as DeepView>::V>
    decreases s.len(),
{
    if s.len() == 0 {
        s
    } else {
        let r = stable_sort::<T>(s.drop_last());
        r.insert(insert_pos::<T>(r, s.last(), 0), s.last())
    }
}

/// A stable sort keeps every element.
pub proof fn lemma_stable_sort_keeps<T: SortKey>(s: Seq<<T as DeepView>::V>, x: <T as DeepView>::V)
    requires
        s.contains(x),
    ensures
        stable_sort::<T>(s).contains(x),
    decreases s.len(),
{
    let d = s.drop_last();
    let r = stable_sort::<T>(d);
    lemma_insert_pos_bounds::<T>(r, s.last(), 0);
    let p = insert_pos::<T>(r, s.last(), 0);
    let out = r.insert(p, s.last());
    if x == s.last() {
        assert(out[p] == x);
    } else {
        let m = choose|m: int| 0 <= m < s.len() && s[m] == x;
        assert(m < d.len() && d[m] == x);
        lemma_stable_sort_keeps::<T>(d, x);
        let q = choose|q: int| 0 <= q < r.len() && r[q] == x;
        if q < p {
            assert(out[q] == x);
        } else {
            assert(out[q + 1] == x);
        }
    }
}

pub proof fn lemma_stable_sort_len<T: SortKey>(s: Seq<<T as DeepView>::V>)
    ensures
        stable_sort::<T>(s).len() == s.len(),
    decreases s.len(),
{
    if s.len() > 0 {
        lemma_stable_sort_len::<T>(s.drop_last());
        let r = stable_sort::<T>(s.drop_last());
        lemma_insert_pos_bounds::<T>(r, s.last(), 0);
    }
}

/// `sort_by` with the key's order: a stable sort.
pub fn sort_stable<T: SortKey>(v: Vec<T>) -> (r: Vec<T>)
    ensures
        r.deep_view() == stable_sort::<T>(v.deep_view()),
{
    let ghost orig = v.deep_view();
    let n = v.len();
    let mut rest = v;
    let mut out: Vec<T> = Vec::new();
    let mut i: usize = 0;
    assert(orig.take(0) =~= Seq::<<T as DeepView>::V>::empty());
    assert(orig.skip(0) =~= orig);
    while i < n
        invariant
            n == orig.len(),
            i <= n,
            rest.deep_view() == orig.skip(i as int),
            rest@.len() == n - i,
            out.deep_view() == stable_sort::<T>(orig.take(i as int)),
        decreases n - i,
    {
        proof {
            lemma_stable_sort_len::<T>(orig.take(i as int));
        }
        let ghost rv = rest.deep_view();
        let ghost old_rest = rest@;
        let x = rest.remove(0);
        assert(x.deep_view() == rv[0]);
        assert(rest@ == old_rest.remove(0));
        assert forall|k: int| 0 <= k < rest@.len() implies #[trigger] rest.deep_view()[k]
            == orig.skip(i + 1)[k] by {
            assert(rest@[k] == old_rest[k + 1]);
            assert(rv[k + 1] == old_rest[k + 1].deep_view());
            assert(orig.skip(i as int)[k + 1] == orig.skip(i + 1)[k]);
        }
        assert(rest.deep_view() =~= orig.skip(i + 1));
        let ghost ov = out.deep_view();
        let mut j: usize = 0;
        while j < out.len() && !x.less(&out[j])
            invariant
                ov == out.deep_view(),
                j <= out@.len(),
                insert_pos::<T>(ov, x.deep_view(), 0) == insert_pos::<T>(
                    ov,
                    x.deep_view(),
                    j as int,
                ),
            decreases out@.len() - j,
        {
            j = j + 1;
        }
        out.insert(j, x);
        assert(out.deep_view() =~= ov.insert(j as int, x.deep_view()));
        assert(orig.take(i + 1).drop_last() =~= orig.take(i as int));
        assert(orig.take(i + 1).last() == x.deep_view());
        i = i + 1;
    }
    assert(orig.take(n as int) =~= orig);
    out
}


/// What holds of every element holds of every element of its stable sort.
pub proof fn lemma_stable_sort_all<T: SortKey>(
    s: Seq<<T as DeepView>::V>,
    pred: spec_fn(<T as DeepView>::V) -> bool,
)
    requires
        forall|k: int| 0 <= k < s.len() ==> pred(#[trigger] s[k]),
    ensures
        forall|k: int|
            0 <= k < stable_sort::<T>(s).len() ==> pred(#[trigger] stable_sort::<T>(s)[k]),
    decreases s.len(),
{
    if s.len() > 0 {
        let d = s.drop_last();
        assert forall|k: int| 0 <= k < d.len() implies pred(#[trigger] d[k]) by {
            assert(d[k] == s[k]);
        }
        lemma_stable_sort_all::<T>(d, pred);
        let r = stable_sort::<T>(d);
        let p = insert_pos::<T>(r, s.last(), 0);
        lemma_insert_pos_bounds::<T>(r, s.last(), 0);
        assert(pred(s[s.len() - 1]));
        assert forall|k: int| 0 <= k < r.insert(p, s.last()).len() implies pred(
            #[trigger] r.insert(p, s.last())[k],
        ) by {
            if k < p {
                assert(r.insert(p, s.last())[k] == r[k]);
            } else if k > p {
                assert(r.insert(p, s.last())[k] == r[k - 1]);
            }
        }
    }
}

} // verus!
