//! Counting texts in a list: the distinct texts in order of first
//! appearance, how often each occurs, and a ranking of counts.

use vstd::prelude::*;

verus! {

/// How many times `x` occurs in `xs`.
pub open spec fn count_in(xs: Seq<Seq<char>>, x: Seq<char>) -> nat
    decreases xs.len(),
{
    if xs.len() == 0 {
        0
    } else {
        count_in(xs.drop_last(), x) + if xs.last() == x {
            1nat
        } else {
            0nat
        }
    }
}

/// The distinct texts of `xs`, in the order of their first occurrence.
pub open spec fn distinct_first(xs: Seq<Seq<char>>) -> Seq<Seq<char>>
    decreases xs.len(),
{
    if xs.len() == 0 {
        Seq::empty()
    } else {
        let d = distinct_first(xs.drop_last());
        if d.contains(xs.last()) {
            d
        } else {
            d.push(xs.last())
        }
    }
}

/// No text occurs twice.
pub open spec fn no_repeats(xs: Seq<Seq<char>>) -> bool {
    forall|a: int, b: int| 0 <= a < b < xs.len() ==> xs[a] != xs[b]
}

pub proof fn lemma_count_bound(xs: Seq<Seq<char>>, x: Seq<char>)
    ensures
        count_in(xs, x) <= xs.len(),
    decreases xs.len(),
{
    if xs.len() > 0 {
        lemma_count_bound(xs.drop_last(), x);
    }
}

pub proof fn lemma_count_push(xs: Seq<Seq<char>>, y: Seq<char>, x: Seq<char>)
    ensures
        count_in(xs.push(y), x) == count_in(xs, x) + if y == x {
            1nat
        } else {
            0nat
        },
{
    assert(xs.push(y).drop_last() =~= xs);
}

pub proof fn lemma_count_concat(xs: Seq<Seq<char>>, ys: Seq<Seq<char>>, x: Seq<char>)
    ensures
        count_in(xs + ys, x) == count_in(xs, x) + count_in(ys, x),
    decreases ys.len(),
{
    if ys.len() > 0 {
        assert((xs + ys).drop_last() =~= xs + ys.drop_last());
        lemma_count_concat(xs, ys.drop_last(), x);
    } else {
        assert(xs + ys =~= xs);
    }
}

pub proof fn lemma_count_absent(xs: Seq<Seq<char>>, x: Seq<char>)
    requires
        !xs.contains(x),
    ensures
        count_in(xs, x) == 0,
    decreases xs.len(),
{
    if xs.len() > 0 {
        assert(!xs.drop_last().contains(x)) by {
            if xs.drop_last().contains(x) {
                let i = choose|i: int| 0 <= i < xs.drop_last().len() && xs.drop_last()[i] == x;
                assert(xs[i] == x);
            }
        }
        assert(xs.last() != x) by {
            if xs.last() == x {
                assert(xs[xs.len() - 1] == x);
            }
        }
        lemma_count_absent(xs.drop_last(), x);
    }
}

pub proof fn lemma_count_no_repeats(xs: Seq<Seq<char>>, x: Seq<char>)
    requires
        no_repeats(xs),
    ensures
        count_in(xs, x) <= 1,
    decreases xs.len(),
{
    if xs.len() > 0 {
        let p = xs.drop_last();
        assert(no_repeats(p));
        lemma_count_no_repeats(p, x);
        if xs.last() == x {
            assert(!p.contains(x)) by {
                if p.contains(x) {
                    let i = choose|i: int| 0 <= i < p.len() && p[i] == x;
                    assert(xs[i] == xs[xs.len() - 1]);
                }
            }
            lemma_count_absent(p, x);
        }
    }
}

/// A text occurs among the distinct texts exactly when it occurs at all,
/// and the distinct texts never repeat.
pub proof fn lemma_distinct_first(xs: Seq<Seq<char>>)
    ensures
        no_repeats(distinct_first(xs)),
        forall|x: Seq<char>| #[trigger] distinct_first(xs).contains(x) <==> xs.contains(x),
    decreases xs.len(),
{
    if xs.len() > 0 {
        let p = xs.drop_last();
        lemma_distinct_first(p);
        let d = distinct_first(p);
        assert forall|x: Seq<char>| #[trigger] distinct_first(xs).contains(x) <==> xs.contains(
            x,
        ) by {
            if xs.contains(x) {
                let i = choose|i: int| 0 <= i < xs.len() && xs[i] == x;
                if i < xs.len() - 1 {
                    assert(p[i] == x);
                    assert(p.contains(x));
                    assert(d.contains(x));
                    if !d.contains(xs.last()) {
                        let j = choose|j: int| 0 <= j < d.len() && d[j] == x;
                        assert(d.push(xs.last())[j] == x);
                    }
                } else {
                    if !d.contains(xs.last()) {
                        assert(d.push(xs.last())[d.len() as int] == x);
                    }
                }
            }
            if distinct_first(xs).contains(x) {
                if d.contains(x) {
                    assert(p.contains(x));
                    let i = choose|i: int| 0 <= i < p.len() && p[i] == x;
                    assert(xs[i] == x);
                } else {
                    let j = choose|j: int|
                        0 <= j < distinct_first(xs).len() && distinct_first(xs)[j] == x;
                    assert(j == d.len());
                    assert(xs[xs.len() - 1] == x);
                }
            }
        }
    }
}

/// A ranking of positions by count: higher counts first, and among equal
/// counts the earlier position first.
pub open spec fn ranks_before(counts: Seq<usize>, a: int, b: int) -> bool {
    counts[a] > counts[b] || (counts[a] == counts[b] && a < b)
}

/// `sel` lists the `min(m, counts.len())` best-ranked positions, best
/// first.
pub open spec fn is_top_selection(counts: Seq<usize>, sel: Seq<usize>, m: nat) -> bool {
    &&& sel.len() == if counts.len() < m {
        counts.len()
    } else {
        m
    }
    &&& forall|t: int| 0 <= t < sel.len() ==> #[trigger] sel[t] < counts.len()
    &&& forall|t: int, u: int|
        0 <= t < u < sel.len() ==> ranks_before(counts, #[trigger] sel[t] as int, #[trigger] sel[u] as int)
    &&& forall|q: int, t: int|
        0 <= q < counts.len() && !sel.contains(q as usize) && 0 <= t < sel.len()
            ==> #[trigger] ranks_before(counts, sel[t] as int, q)
}

/// `v` lists each position below `k` exactly once.
pub open spec fn lists_positions(v: Seq<usize>, k: nat) -> bool {
    &&& v.len() == k
    &&& forall|i: int| 0 <= i < v.len() ==> #[trigger] v[i] < k
    &&& forall|i: int, j: int| 0 <= i < j < v.len() ==> #[trigger] v[i] != #[trigger] v[j]
    &&& forall|q: usize| q < k ==> #[trigger] v.contains(q)
}

/// The positions of `counts` with the `m` highest counts, highest first;
/// ties go to the earlier position.
pub fn select_top(counts: &Vec<usize>, m: usize) -> (sel: Vec<usize>)
    ensures
        is_top_selection(counts@, sel@, m as nat),
{
    let k = counts.len();
    let mut v: Vec<usize> = Vec::new();
    let mut i: usize = 0;
    while i < k
        invariant
            i <= k == counts@.len(),
            v@.len() == i,
            forall|j: int| 0 <= j < i ==> #[trigger] v@[j] == j,
        decreases k - i,
    {
        v.push(i);
        i = i + 1;
    }
    assert(lists_positions(v@, k as nat)) by {
        assert forall|q: usize| q < k implies #[trigger] v@.contains(q) by {
            assert(v@[q as int] == q);
        }
    }
    let limit = if k < m {
        k
    } else {
        m
    };
    let mut t: usize = 0;
    while t < limit
        invariant
            limit <= k == counts@.len(),
            t <= limit,
            lists_positions(v@, k as nat),
            forall|a: int, b: int|
                0 <= a < b < t ==> ranks_before(counts@, #[trigger] v@[a] as int, #[trigger] v@[b] as int),
            forall|a: int, b: int|
                0 <= a < t <= b < k ==> ranks_before(counts@, #[trigger] v@[a] as int, #[trigger] v@[b] as int),
        decreases limit - t,
    {
        let mut best = t;
        let mut j = t + 1;
        while j < k
            invariant
                t < k == counts@.len() == v@.len(),
                t <= best < j <= k,
                lists_positions(v@, k as nat),
                forall|b: int|
                    t <= b < j && b != best ==> ranks_before(counts@, v@[best as int] as int, #[trigger] v@[b] as int),
            decreases k - j,
        {
            let cb = counts[v[best]];
            let cj = counts[v[j]];
            if cj > cb || (cj == cb && v[j] < v[best]) {
                best = j;
            }
            j = j + 1;
        }
        let ghost old_v = v@;
        let vt = v[t];
        let vb = v[best];
        v.set(t, vb);
        v.set(best, vt);
        proof {
            assert(forall|i: int| 0 <= i < k && i != t && i != best ==> v@[i] == old_v[i]);
            assert(v@[t as int] == old_v[best as int]);
            assert(v@[best as int] == old_v[t as int]);
            assert forall|q: usize| q < k implies #[trigger] v@.contains(q) by {
                assert(old_v.contains(q));
                let i0 = choose|i: int| 0 <= i < old_v.len() && old_v[i] == q;
                if i0 == t {
                    assert(v@[best as int] == q);
                } else if i0 == best {
                    assert(v@[t as int] == q);
                } else {
                    assert(v@[i0] == q);
                }
            }
            assert forall|a: int, b: int| 0 <= a < b < v@.len() implies #[trigger] v@[a]
                != #[trigger] v@[b] by {
                let oa = if a == t {
                    best as int
                } else if a == best {
                    t as int
                } else {
                    a
                };
                let ob = if b == t {
                    best as int
                } else if b == best {
                    t as int
                } else {
                    b
                };
                assert(v@[a] == old_v[oa]);
                assert(v@[b] == old_v[ob]);
                assert(oa != ob);
            }
            assert forall|a: int, b: int| 0 <= a < b < t + 1 implies ranks_before(
                counts@,
                #[trigger] v@[a] as int,
                #[trigger] v@[b] as int,
            ) by {
                if b < t {
                    assert(v@[a] == old_v[a] && v@[b] == old_v[b]);
                } else {
                    assert(v@[a] == old_v[a]);
                    assert(v@[b] == old_v[best as int]);
                }
            }
            assert forall|a: int, b: int| 0 <= a < t + 1 <= b < k implies ranks_before(
                counts@,
                #[trigger] v@[a] as int,
                #[trigger] v@[b] as int,
            ) by {
                let ob = if b == best {
                    t as int
                } else {
                    b
                };
                assert(v@[b] == old_v[ob]);
                if a < t {
                    assert(v@[a] == old_v[a]);
                } else {
                    assert(v@[a] == old_v[best as int]);
                    assert(ob != best);
                    assert(ranks_before(counts@, old_v[best as int] as int, old_v[ob] as int));
                }
            }
        }
        t = t + 1;
    }
    let ghost full = v@;
    v.truncate(limit);
    proof {
        assert(v@ =~= full.subrange(0, limit as int));
        assert forall|q: int, s: int|
            0 <= q < counts@.len() && !v@.contains(q as usize) && 0 <= s < v@.len()
            implies #[trigger] ranks_before(counts@, v@[s] as int, q) by {
            assert(full.contains(q as usize));
            let i0 = choose|i: int| 0 <= i < full.len() && full[i] == q as usize;
            if i0 < limit {
                assert(v@[i0] == q);
            }
            assert(ranks_before(counts@, full[s] as int, full[i0] as int));
        }
    }
    v
}

} // verus!
