//! Linear search over sequences: the first position where a predicate holds.
use vstd::prelude::*;

verus! {

/// Some element of `s` satisfies `pred`.
pub open spec fn any_index<A>(s: Seq<A>, pred: spec_fn(A) -> bool) -> bool {
    exists|i: int| 0 <= i < s.len() && #[trigger] pred(s[i])
}

/// `i` is the first position of `s` whose element satisfies `pred`.
pub open spec fn is_first_index<A>(s: Seq<A>, pred: spec_fn(A) -> bool, i: int) -> bool {
    &&& 0 <= i < s.len()
    &&& pred(s[i])
    &&& forall|j: int| 0 <= j < i ==> !#[trigger] pred(s[j])
}

/// The first position of `s` whose element satisfies `pred`, or -1 when there is none.
pub open spec fn first_index<A>(s: Seq<A>, pred: spec_fn(A) -> bool) -> int {
    if any_index(s, pred) {
        choose|i: int| is_first_index(s, pred, i)
    } else {
        -1
    }
}

/// When some element satisfies `pred`, `first_index` is the first such position.
pub proof fn lemma_first_index_found<A>(s: Seq<A>, pred: spec_fn(A) -> bool, i: int)
    requires
        is_first_index(s, pred, i),
    ensures
        first_index(s, pred) == i,
{
    assert(any_index(s, pred));
    let k = choose|k: int| is_first_index(s, pred, k);
    assert(is_first_index(s, pred, k));
    if k < i {
        assert(!pred(s[k]));
    } else if k > i {
        assert(!pred(s[i]));
    }
}

/// When no element satisfies `pred`, `first_index` is -1.
pub proof fn lemma_first_index_absent<A>(s: Seq<A>, pred: spec_fn(A) -> bool)
    requires
        forall|j: int| 0 <= j < s.len() ==> !#[trigger] pred(s[j]),
    ensures
        first_index(s, pred) == -1,
{
}

/// The result of `first_index` is either -1 or a first position.
pub proof fn lemma_first_index_spec<A>(s: Seq<A>, pred: spec_fn(A) -> bool)
    ensures
        first_index(s, pred) == -1 || is_first_index(s, pred, first_index(s, pred)),
        first_index(s, pred) == -1 <==> !any_index(s, pred),
{
    if any_index(s, pred) {
        let w = choose|w: int| 0 <= w < s.len() && #[trigger] pred(s[w]);
        lemma_least_witness(s, pred, w);
    }
}

/// A satisfying position implies a first satisfying position.
proof fn lemma_least_witness<A>(s: Seq<A>, pred: spec_fn(A) -> bool, w: int)
    requires
        0 <= w < s.len(),
        pred(s[w]),
    ensures
        exists|i: int| is_first_index(s, pred, i),
    decreases w,
{
    if forall|j: int| 0 <= j < w ==> !#[trigger] pred(s[j]) {
        assert(is_first_index(s, pred, w));
    } else {
        let v = choose|j: int| 0 <= j < w && #[trigger] pred(s[j]);
        lemma_least_witness(s, pred, v);
    }
}

/// Two sequences whose elements satisfy their predicates at the same
/// positions have the same first satisfying position.
pub proof fn lemma_first_index_same<A, B>(
    s1: Seq<A>,
    p1: spec_fn(A) -> bool,
    s2: Seq<B>,
    p2: spec_fn(B) -> bool,
)
    requires
        s1.len() == s2.len(),
        forall|j: int| 0 <= j < s1.len() ==> (p1(s1[j]) <==> p2(s2[j])),
    ensures
        first_index(s1, p1) == first_index(s2, p2),
{
    lemma_first_index_spec(s1, p1);
    lemma_first_index_spec(s2, p2);
    let i1 = first_index(s1, p1);
    if i1 >= 0 {
        assert(p2(s2[i1]));
        assert forall|j: int| 0 <= j < i1 implies !#[trigger] p2(s2[j]) by {
            assert(!p1(s1[j]));
        }
        lemma_first_index_found(s2, p2, i1);
    } else {
        assert forall|j: int| 0 <= j < s2.len() implies !#[trigger] p2(s2[j]) by {
            if p2(s2[j]) {
                assert(p1(s1[j]));
                assert(any_index(s1, p1));
            }
        }
        lemma_first_index_absent(s2, p2);
    }
}

/// The first position satisfying `pred` in `s` with `a` appended.
pub proof fn lemma_first_index_push<A>(s: Seq<A>, pred: spec_fn(A) -> bool, a: A)
    ensures
        first_index(s.push(a), pred) == if first_index(s, pred) >= 0 {
            first_index(s, pred)
        } else if pred(a) {
            s.len() as int
        } else {
            -1
        },
{
    let t = s.push(a);
    lemma_first_index_spec(s, pred);
    let i = first_index(s, pred);
    if i >= 0 {
        assert forall|j: int| 0 <= j < i implies !#[trigger] pred(t[j]) by {
            assert(t[j] == s[j]);
            assert(!pred(s[j]));
        }
        assert(t[i] == s[i]);
        lemma_first_index_found(t, pred, i);
    } else {
        assert forall|j: int| 0 <= j < s.len() implies !#[trigger] pred(t[j]) by {
            assert(t[j] == s[j]);
            if pred(s[j]) {
                assert(any_index(s, pred));
            }
        }
        if pred(a) {
            assert(t[s.len() as int] == a);
            lemma_first_index_found(t, pred, s.len() as int);
        } else {
            lemma_first_index_absent(t, pred);
        }
    }
}

/// Searching the elements that satisfy `p` for one satisfying `q` finds
/// the first element of the whole sequence satisfying both (`pq`).
pub proof fn lemma_first_index_filter<A>(
    s: Seq<A>,
    p: spec_fn(A) -> bool,
    q: spec_fn(A) -> bool,
    pq: spec_fn(A) -> bool,
)
    requires
        forall|x: A| #[trigger] pq(x) == (p(x) && q(x)),
    ensures
        (first_index(s.filter(p), q) >= 0) == (first_index(s, pq) >= 0),
        first_index(s, pq) >= 0 ==> s.filter(p)[first_index(s.filter(p), q)] == s[first_index(s, pq)],
    decreases s.len(),
{
    if s.len() == 0 {
        lemma_first_index_absent(s, pq);
        assert(s.filter(p) =~= Seq::<A>::empty());
        lemma_first_index_absent(s.filter(p), q);
    } else {
        let t = s.drop_last();
        let a = s.last();
        assert(t.push(a) =~= s);
        lemma_first_index_filter(t, p, q, pq);
        t.lemma_filter_push(a, p);
        lemma_first_index_push(t, pq, a);
        lemma_first_index_push(t.filter(p), q, a);
        lemma_first_index_spec(t, pq);
        lemma_first_index_spec(t.filter(p), q);
        if first_index(t, pq) >= 0 {
            assert(s[first_index(t, pq)] == t[first_index(t, pq)]);
            if p(a) {
                assert(t.filter(p).push(a)[first_index(t.filter(p), q)] == t.filter(p)[first_index(
                    t.filter(p),
                    q,
                )]);
            }
        } else if p(a) {
            assert(s[t.len() as int] == a);
            assert(t.filter(p).push(a)[t.filter(p).len() as int] == a);
        }
    }
}

} // verus!
