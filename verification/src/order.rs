//! The order of names: character by character, by code point, a prefix
//! before anything longer. This is the order of `str`'s `Ord`, since UTF-8
//! keeps the order of code points.
use vstd::prelude::*;

verus! {

/// `a` comes no later than `b`.
pub open spec fn chars_le(a: Seq<char>, b: Seq<char>) -> bool
    decreases a.len(),
{
    if a.len() == 0 {
        true
    } else if b.len() == 0 {
        false
    } else if a[0] != b[0] {
        (a[0] as int) < (b[0] as int)
    } else {
        chars_le(a.drop_first(), b.drop_first())
    }
}

/// Every name comes no later than the ones after it.
pub open spec fn sorted(s: Seq<Seq<char>>) -> bool {
    forall|i: int, j: int| 0 <= i < j < s.len() ==> chars_le(#[trigger] s[i], #[trigger] s[j])
}

/// Any two names are ordered one way or the other.
pub proof fn lemma_le_total(a: Seq<char>, b: Seq<char>)
    ensures
        chars_le(a, b) || chars_le(b, a),
    decreases a.len(),
{
    if a.len() > 0 && b.len() > 0 {
        if a[0] == b[0] {
            lemma_le_total(a.drop_first(), b.drop_first());
        }
    }
}

/// The order is transitive.
pub proof fn lemma_le_trans(a: Seq<char>, b: Seq<char>, c: Seq<char>)
    requires
        chars_le(a, b),
        chars_le(b, c),
    ensures
        chars_le(a, c),
    decreases a.len(),
{
    if a.len() > 0 && b.len() > 0 && c.len() > 0 && a[0] == b[0] && b[0] == c[0] {
        lemma_le_trans(a.drop_first(), b.drop_first(), c.drop_first());
    }
}

/// Names ordered both ways are equal.
pub proof fn lemma_le_antisym(a: Seq<char>, b: Seq<char>)
    requires
        chars_le(a, b),
        chars_le(b, a),
    ensures
        a == b,
    decreases a.len(),
{
    if a.len() > 0 && b.len() > 0 {
        lemma_le_antisym(a.drop_first(), b.drop_first());
        assert(a =~= seq![a[0]] + a.drop_first());
        assert(b =~= seq![b[0]] + b.drop_first());
    }
}

/// Whether `a` comes no later than `b`.
pub fn le(a: &Vec<char>, b: &Vec<char>) -> (r: bool)
    ensures
        r == chars_le(a@, b@),
{
    let mut i: usize = 0;
    assert(a@.skip(0) =~= a@);
    assert(b@.skip(0) =~= b@);
    while i < a.len() && i < b.len() && a[i] == b[i]
        invariant
            i <= a@.len(),
            i <= b@.len(),
            chars_le(a@, b@) == chars_le(a@.skip(i as int), b@.skip(i as int)),
        decreases a@.len() - i,
    {
        assert(a@.skip(i as int).drop_first() =~= a@.skip(i + 1));
        assert(b@.skip(i as int).drop_first() =~= b@.skip(i + 1));
        i = i + 1;
    }
    if i == a.len() {
        true
    } else if i == b.len() {
        false
    } else {
        a[i] < b[i]
    }
}

/// The names of `v`, in an order that `sorted` accepts.
pub fn sort_names(v: Vec<Vec<char>>) -> (r: Vec<Vec<char>>)
    ensures
        sorted(r@.map_values(|x: Vec<char>| x@)),
        r@.map_values(|x: Vec<char>| x@).to_multiset() == v@.map_values(|x: Vec<char>| x@).to_multiset(),
{
    broadcast use vstd::seq_lib::group_to_multiset_ensures;

    let ghost vs = v@.map_values(|x: Vec<char>| x@);
    let mut out: Vec<Vec<char>> = Vec::new();
    let n = v.len();
    let mut rest = v;
    // `rest` is consumed from the back, so the names are taken last first.
    while rest.len() > 0
        invariant
            n == vs.len(),
            rest@.len() <= n,
            rest@.map_values(|x: Vec<char>| x@) == vs.subrange(0, rest@.len() as int),
            sorted(out@.map_values(|x: Vec<char>| x@)),
            out@.map_values(|x: Vec<char>| x@).to_multiset() == vs.subrange(
                rest@.len() as int,
                n as int,
            ).to_multiset(),
        decreases rest@.len(),
    {
        let ghost os = out@.map_values(|x: Vec<char>| x@);
        let ghost k = rest@.len();
        let ghost old_rest = rest@;
        let x = rest.pop().unwrap();
        assert(old_rest.map_values(|y: Vec<char>| y@)[k - 1] == old_rest[k - 1]@);
        assert(x@ == vs[k - 1]);
        let mut p: usize = 0;
        while p < out.len() && le(&out[p], &x)
            invariant
                p <= out@.len(),
                os == out@.map_values(|y: Vec<char>| y@),
                forall|q: int| 0 <= q < p ==> chars_le(#[trigger] os[q], x@),
            decreases out@.len() - p,
        {
            p = p + 1;
        }
        proof {
            if p < os.len() {
                lemma_le_total(os[p as int], x@);
            }
        }
        let ghost ns = os.insert(p as int, x@);
        out.insert(p, x);
        assert(out@.map_values(|y: Vec<char>| y@) =~= ns);
        assert forall|a: int, b: int| 0 <= a < b < ns.len() implies chars_le(
            #[trigger] ns[a],
            #[trigger] ns[b],
        ) by {
            if b < p {
                assert(ns[a] == os[a] && ns[b] == os[b]);
            } else if b == p {
                assert(ns[a] == os[a]);
            } else if a == p {
                assert(ns[b] == os[b - 1]);
                if b - 1 > p {
                    lemma_le_trans(x@, os[p as int], os[b - 1]);
                }
            } else if a < p {
                assert(ns[a] == os[a] && ns[b] == os[b - 1]);
            } else {
                assert(ns[a] == os[a - 1] && ns[b] == os[b - 1]);
            }
        }
        assert(vs.subrange(k - 1, n as int) =~= vs.subrange(k as int, n as int).insert(0, x@));
        proof {
            vstd::seq_lib::to_multiset_insert(os, p as int, x@);
            vstd::seq_lib::to_multiset_insert(vs.subrange(k as int, n as int), 0, x@);
        }
        assert(ns.to_multiset() == os.to_multiset().insert(x@));
        assert(vs.subrange(k - 1, n as int).to_multiset() == vs.subrange(k as int, n as int).to_multiset().insert(x@));
        assert(rest@.map_values(|y: Vec<char>| y@) =~= vs.subrange(0, k - 1));
    }
    assert(vs.subrange(0, n as int) =~= vs);
    out
}

} // verus!
