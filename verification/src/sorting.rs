//! Stable insertion sort, the order in which results are shown.
use vstd::prelude::*;

verus! {

/// An order on values: `goes_before` is the strict "comes first" relation.
pub trait SortKey: Sized {
    spec fn goes_before(&self, other: &Self) -> bool;

    fn exec_goes_before(&self, other: &Self) -> (r: bool)
        ensures
            r == self.goes_before(other),
    ;
}

/// The first index at or after `k` whose element `x` goes before, or the
/// length of `s`.
pub open spec fn insert_pos<T: SortKey>(s: Seq<T>, x: T, k: int) -> int
    decreases s.len() - k,
{
    if k < 0 || k >= s.len() {
        s.len() as int
    } else if x.goes_before(&s[k]) {
        k
    } else {
        insert_pos(s, x, k + 1)
    }
}

/// `x` inserted into `s` after every element it does not go before.
pub open spec fn sorted_insert<T: SortKey>(s: Seq<T>, x: T) -> Seq<T> {
    s.insert(insert_pos(s, x, 0), x)
}

/// The stable sort of `s`: each element, in input order, inserted after
/// the elements already placed that it does not go before.
pub open spec fn stable_sorted<T: SortKey>(s: Seq<T>) -> Seq<T>
    decreases s.len(),
{
    if s.len() == 0 {
        s
    } else {
        sorted_insert(stable_sorted(s.drop_last()), s.last())
    }
}

proof fn lemma_insert_pos_bounds<T: SortKey>(s: Seq<T>, x: T, k: int)
    requires
        0 <= k <= s.len(),
    ensures
        k <= insert_pos(s, x, k) <= s.len(),
    decreases s.len() - k,
{
    if k < s.len() && !x.goes_before(&s[k]) {
        lemma_insert_pos_bounds(s, x, k + 1);
    }
}

/// Sorting keeps the length and takes every element from the input.
pub proof fn lemma_stable_sorted_members<T: SortKey>(s: Seq<T>, i: int)
    ensures
        stable_sorted(s).len() == s.len(),
        0 <= i < s.len() ==> exists|j: int| 0 <= j < s.len() && stable_sorted(s)[i] == s[j],
    decreases s.len(),
{
    if s.len() > 0 {
        let t = stable_sorted(s.drop_last());
        let x = s.last();
        lemma_stable_sorted_members(s.drop_last(), 0);
        lemma_insert_pos_bounds(t, x, 0);
        let p = insert_pos(t, x, 0);
        if 0 <= i < s.len() {
            if i < p {
                lemma_stable_sorted_members(s.drop_last(), i);
                let j = choose|j: int| 0 <= j < s.len() - 1 && t[i] == s.drop_last()[j];
                assert(stable_sorted(s)[i] == s[j]);
            } else if i == p {
                assert(stable_sorted(s)[i] == s[s.len() - 1]);
            } else {
                lemma_stable_sorted_members(s.drop_last(), i - 1);
                let j = choose|j: int| 0 <= j < s.len() - 1 && t[i - 1] == s.drop_last()[j];
                assert(stable_sorted(s)[i] == s[j]);
            }
        }
    }
}

/// `goes_before` is a strict order: irreflexive and transitive.
pub open spec fn strict_order<T: SortKey>() -> bool {
    &&& forall|a: T| !#[trigger] a.goes_before(&a)
    &&& forall|a: T, b: T, c: T|
        #![trigger a.goes_before(&b), b.goes_before(&c)]
        a.goes_before(&b) && b.goes_before(&c) ==> a.goes_before(&c)
}

/// No element goes before an element placed ahead of it.
pub open spec fn in_order<T: SortKey>(s: Seq<T>) -> bool {
    forall|i: int, j: int| 0 <= i < j < s.len() ==> !#[trigger] s[j].goes_before(&#[trigger] s[i])
}

proof fn lemma_insert_pos_props<T: SortKey>(s: Seq<T>, x: T, k: int)
    requires
        0 <= k <= s.len(),
    ensures
        forall|i: int| k <= i < insert_pos(s, x, k) ==> !x.goes_before(&#[trigger] s[i]),
        insert_pos(s, x, k) < s.len() ==> x.goes_before(&s[insert_pos(s, x, k)]),
    decreases s.len() - k,
{
    if k < s.len() && !x.goes_before(&s[k]) {
        lemma_insert_pos_props(s, x, k + 1);
    }
}

/// A stable sort by a strict order puts no element after one that it goes
/// before.
pub proof fn lemma_stable_sorted_in_order<T: SortKey>(s: Seq<T>)
    requires
        strict_order::<T>(),
    ensures
        in_order(stable_sorted(s)),
    decreases s.len(),
{
    if s.len() > 0 {
        lemma_stable_sorted_in_order(s.drop_last());
        let t = stable_sorted(s.drop_last());
        let x = s.last();
        lemma_insert_pos_bounds(t, x, 0);
        lemma_insert_pos_props(t, x, 0);
        let p = insert_pos(t, x, 0);
        let u = t.insert(p, x);
        assert(stable_sorted(s) == u);
        assert forall|i: int, j: int| 0 <= i < j < u.len() implies !#[trigger] u[j].goes_before(
            &#[trigger] u[i],
        ) by {
            if j < p {
                assert(u[i] == t[i] && u[j] == t[j]);
            } else if j == p {
                assert(u[i] == t[i]);
            } else if i > p {
                assert(u[i] == t[i - 1] && u[j] == t[j - 1]);
            } else if i == p {
                assert(u[j] == t[j - 1]);
                if t[j - 1].goes_before(&x) {
                    assert(x.goes_before(&t[p]));
                    assert(t[j - 1].goes_before(&t[p]));
                    if j - 1 > p {
                        assert(!t[j - 1].goes_before(&t[p]));
                    }
                }
            } else {
                assert(u[i] == t[i] && u[j] == t[j - 1]);
            }
        }
    }
}

/// Sorts `v` stably by `T::goes_before`.
pub fn stable_sort<T: SortKey>(v: Vec<T>) -> (r: Vec<T>)
    ensures
        r@ == stable_sorted(v@),
{
    let ghost orig = v@;
    let mut input = v;
    let mut out: Vec<T> = Vec::new();
    let mut n: usize = 0;
    let total = input.len();
    while input.len() > 0
        invariant
            n + input@.len() == total,
            total == orig.len(),
            input@ == orig.skip(n as int),
            out@ == stable_sorted(orig.take(n as int)),
        decreases input@.len(),
    {
        let x = input.remove(0);
        proof {
            assert(orig[n as int] == x);
            crate::text::lemma_take_step(orig, n as int);
            assert(input@ =~= orig.skip(n + 1));
            lemma_insert_pos_bounds(out@, x, 0);
        }
        let mut pos: usize = 0;
        while pos < out.len() && !x.exec_goes_before(&out[pos])
            invariant
                pos <= out@.len(),
                insert_pos(out@, x, 0) == insert_pos(out@, x, pos as int),
            decreases out@.len() - pos,
        {
            pos += 1;
        }
        proof {
            assert(insert_pos(out@, x, pos as int) == pos);
        }
        out.insert(pos, x);
        n += 1;
    }
    assert(orig.take(total as int) =~= orig);
    out
}

} // verus!
