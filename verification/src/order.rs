//! Orderings the library ranks and sorts by: the lexicographic order of text
//! (the order of `String`'s `Ord`, which follows code points), and a ranking
//! of items by a weight (descending), then a text (ascending), then their
//! original position, which is what a stable sort on those keys produces.
use vstd::prelude::*;
use vstd::relations::*;

verus! {

/// Lexicographic order of text by code point (`a <= b` for `String`).
pub open spec fn text_le(a: Seq<char>, b: Seq<char>) -> bool
    decreases a.len(),
{
    if a.len() == 0 {
        true
    } else if b.len() == 0 {
        false
    } else if a[0] != b[0] {
        a[0] < b[0]
    } else {
        text_le(a.drop_first(), b.drop_first())
    }
}

pub proof fn lemma_text_le_reflexive(a: Seq<char>)
    ensures
        text_le(a, a),
    decreases a.len(),
{
    if a.len() > 0 {
        lemma_text_le_reflexive(a.drop_first());
    }
}

pub proof fn lemma_text_le_antisymmetric(a: Seq<char>, b: Seq<char>)
    requires
        text_le(a, b),
        text_le(b, a),
    ensures
        a == b,
    decreases a.len(),
{
    if a.len() == 0 {
        assert(b.len() == 0);
        assert(a =~= b);
    } else {
        assert(b.len() > 0);
        assert(a[0] == b[0]);
        lemma_text_le_antisymmetric(a.drop_first(), b.drop_first());
        assert(a =~= seq![a[0]] + a.drop_first());
        assert(b =~= seq![b[0]] + b.drop_first());
    }
}

pub proof fn lemma_text_le_transitive(a: Seq<char>, b: Seq<char>, c: Seq<char>)
    requires
        text_le(a, b),
        text_le(b, c),
    ensures
        text_le(a, c),
    decreases a.len(),
{
    if a.len() > 0 && b.len() > 0 && c.len() > 0 && a[0] == b[0] && b[0] == c[0] {
        lemma_text_le_transitive(a.drop_first(), b.drop_first(), c.drop_first());
    }
}

pub proof fn lemma_text_le_total(a: Seq<char>, b: Seq<char>)
    ensures
        text_le(a, b) || text_le(b, a),
    decreases a.len(),
{
    if a.len() > 0 && b.len() > 0 {
        if a[0] == b[0] {
            lemma_text_le_total(a.drop_first(), b.drop_first());
        }
    }
}

/// Exec form of [`text_le`].
pub fn text_le_vec(a: &Vec<char>, b: &Vec<char>) -> (r: bool)
    ensures
        r == text_le(a@, b@),
{
    let mut i: usize = 0;
    assert(a@.skip(0) =~= a@);
    assert(b@.skip(0) =~= b@);
    while i < a.len() && i < b.len() && a[i] == b[i]
        invariant
            i <= a.len(),
            i <= b.len(),
            text_le(a@, b@) == text_le(a@.skip(i as int), b@.skip(i as int)),
        decreases a.len() - i,
    {
        assert(a@.skip(i as int).drop_first() =~= a@.skip(i + 1));
        assert(b@.skip(i as int).drop_first() =~= b@.skip(i + 1));
        i = i + 1;
    }
    if i == a.len() {
        true
    } else if i == b.len() {
        false
    } else {
        assert(a@.skip(i as int)[0] == a@[i as int]);
        assert(b@.skip(i as int)[0] == b@[i as int]);
        a[i] < b[i]
    }
}

/// Ranking of item `i` before item `j`: higher weight first, then smaller
/// text, then earlier position.
pub open spec fn rank_le(keys: Seq<(nat, Seq<char>)>, i: int, j: int) -> bool {
    if keys[i].0 != keys[j].0 {
        keys[i].0 > keys[j].0
    } else if keys[i].1 != keys[j].1 {
        text_le(keys[i].1, keys[j].1)
    } else {
        i <= j
    }
}

/// The ranking relation over positions, as a closure.
pub open spec fn rank_order(keys: Seq<(nat, Seq<char>)>) -> spec_fn(int, int) -> bool {
    |i: int, j: int| rank_le(keys, i, j)
}

pub proof fn lemma_rank_total(keys: Seq<(nat, Seq<char>)>)
    ensures
        total_ordering(rank_order(keys)),
{
    let r = rank_order(keys);
    assert forall|x: int| #[trigger] r(x, x) by {
        lemma_text_le_reflexive(keys[x].1);
    }
    assert forall|x: int, y: int| #[trigger] r(x, y) && #[trigger] r(y, x) implies x == y by {
        if keys[x].0 == keys[y].0 && keys[x].1 != keys[y].1 {
            lemma_text_le_antisymmetric(keys[x].1, keys[y].1);
        }
    }
    assert forall|x: int, y: int, z: int| #[trigger] r(x, y) && #[trigger] r(y, z) implies r(
        x,
        z,
    ) by {
        if keys[x].0 == keys[y].0 && keys[y].0 == keys[z].0 {
            if keys[x].1 != keys[y].1 && keys[y].1 != keys[z].1 {
                lemma_text_le_transitive(keys[x].1, keys[y].1, keys[z].1);
                if keys[x].1 == keys[z].1 {
                    lemma_text_le_antisymmetric(keys[x].1, keys[y].1);
                }
            }
        }
    }
    assert forall|x: int, y: int| #[trigger] r(x, y) || #[trigger] r(y, x) by {
        lemma_text_le_total(keys[x].1, keys[y].1);
    }
}

/// The positions `0..n` in ranking order: what a stable sort by (weight
/// descending, text ascending) leaves.
pub open spec fn ranking(keys: Seq<(nat, Seq<char>)>) -> Seq<int> {
    positions(keys.len()).sort_by(rank_order(keys))
}

/// The positions `0..n` in order.
pub open spec fn positions(n: nat) -> Seq<int> {
    Seq::new(n, |i: int| i)
}

/// The ranking is a permutation of the positions, sorted by the ranking order.
pub proof fn lemma_ranking(keys: Seq<(nat, Seq<char>)>)
    ensures
        ranking(keys).len() == keys.len(),
        sorted_by(ranking(keys), rank_order(keys)),
        forall|k: int| 0 <= k < ranking(keys).len() ==> 0 <= #[trigger] ranking(keys)[k] < keys.len(),
        forall|m: int| 0 <= m < keys.len() ==> #[trigger] ranking(keys).contains(m),
{
    let leq = rank_order(keys);
    lemma_rank_total(keys);
    let idx = positions(keys.len());
    idx.lemma_sort_by_ensures(leq);
    let ord = ranking(keys);
    vstd::seq_lib::to_multiset_len(ord);
    vstd::seq_lib::to_multiset_len(idx);
    assert forall|k: int| 0 <= k < ord.len() implies 0 <= #[trigger] ord[k] < keys.len() by {
        assert(ord.contains(ord[k]));
        assert(idx.contains(ord[k]));
    }
    assert forall|m: int| 0 <= m < keys.len() implies #[trigger] ord.contains(m) by {
        assert(idx[m] == m);
        assert(idx.contains(m));
        vstd::seq_lib::to_multiset_contains(idx, m);
        vstd::seq_lib::to_multiset_contains(ord, m);
    }
}

/// The view of exec keys.
pub open spec fn keys_view(keys: Seq<(u64, Vec<char>)>) -> Seq<(nat, Seq<char>)> {
    keys.map_values(|k: (u64, Vec<char>)| (k.0 as nat, k.1@))
}

fn rank_le_exec(keys: &Vec<(u64, Vec<char>)>, i: usize, j: usize) -> (r: bool)
    requires
        i < keys.len(),
        j < keys.len(),
    ensures
        r == rank_le(keys_view(keys@), i as int, j as int),
{
    let ghost kv = keys_view(keys@);
    assert(kv[i as int] == (keys@[i as int].0 as nat, keys@[i as int].1@));
    assert(kv[j as int] == (keys@[j as int].0 as nat, keys@[j as int].1@));
    if keys[i].0 != keys[j].0 {
        keys[i].0 > keys[j].0
    } else if !crate::text::eq_vec(&keys[i].1, &keys[j].1) {
        text_le_vec(&keys[i].1, &keys[j].1)
    } else {
        i <= j
    }
}

/// The positions of `keys` in ranking order (a stable insertion sort).
pub fn rank(keys: &Vec<(u64, Vec<char>)>) -> (r: Vec<usize>)
    ensures
        r@.len() == keys@.len(),
        r@.map_values(|x: usize| x as int) == ranking(keys_view(keys@)),
        forall|k: int| 0 <= k < r@.len() ==> r@[k] < keys@.len(),
{
    let ghost kv = keys_view(keys@);
    let ghost leq = rank_order(kv);
    proof {
        lemma_rank_total(kv);
    }
    let mut out: Vec<usize> = Vec::new();
    let mut i: usize = 0;
    assert(out@.map_values(|x: usize| x as int) =~= Seq::new(0nat, |k: int| k));
    while i < keys.len()
        invariant
            i <= keys.len(),
            kv == keys_view(keys@),
            leq == rank_order(kv),
            total_ordering(leq),
            out@.len() == i,
            forall|k: int| 0 <= k < out@.len() ==> out@[k] < i,
            sorted_by(out@.map_values(|x: usize| x as int), leq),
            out@.map_values(|x: usize| x as int).to_multiset() == Seq::new(
                i as nat,
                |k: int| k,
            ).to_multiset(),
        decreases keys.len() - i,
    {
        let ghost before = out@.map_values(|x: usize| x as int);
        let mut p: usize = 0;
        while p < out.len() && !rank_le_exec(keys, i, out[p])
            invariant
                p <= out.len(),
                i < keys.len(),
                kv == keys_view(keys@),
                out@.map_values(|x: usize| x as int) == before,
                forall|k: int| 0 <= k < out@.len() ==> out@[k] < i,
                forall|k: int| 0 <= k < p ==> !rank_le(kv, i as int, #[trigger] before[k]),
            decreases out.len() - p,
        {
            p = p + 1;
        }
        out.insert(p, i);
        let ghost after = out@.map_values(|x: usize| x as int);
        proof {
            assert(after =~= before.insert(p as int, i as int));
            assert(forall|k: int| 0 <= k < before.len() ==> before[k] == out@[if k < p {
                k
            } else {
                k + 1
            }] as int);
            if p < before.len() {
                assert(leq(i as int, before[p as int]));
            }
            assert forall|a: int, b: int| 0 <= a < b < after.len() implies #[trigger] leq(
                after[a],
                after[b],
            ) by {
                if b < p {
                    assert(leq(before[a], before[b]));
                } else if b == p {
                    assert(!leq(i as int, before[a]));
                    assert(leq(i as int, before[a]) || leq(before[a], i as int));
                } else if a == p {
                    if b - 1 > p {
                        assert(leq(before[p as int], before[b - 1]));
                    }
                } else if a < p {
                    assert(leq(before[a], before[b - 1]));
                } else {
                    assert(leq(before[a - 1], before[b - 1]));
                }
            }
            vstd::seq_lib::to_multiset_insert(before, p as int, i as int);
            vstd::seq_lib::to_multiset_build(Seq::new(i as nat, |k: int| k), i as int);
            assert(Seq::new(i as nat, |k: int| k).push(i as int) =~= Seq::new(
                (i + 1) as nat,
                |k: int| k,
            ));
        }
        i = i + 1;
    }
    proof {
        let s = positions(keys.len() as nat);
        assert(s =~= Seq::new(keys.len() as nat, |k: int| k));
        s.lemma_sort_by_ensures(leq);
        vstd::seq_lib::lemma_sorted_unique(out@.map_values(|x: usize| x as int), s.sort_by(leq), leq);
    }
    out
}

} // verus!
