//! Ranking by a numeric key: the arrangement that a stable sort in
//! descending order produces.

use vstd::prelude::*;

verus! {

/// The place where an element with key `k` enters the arrangement `o` of
/// elements of `keys`: in front of the first element whose key is less
/// than `k`, or at the end.
pub open spec fn entry_pos(keys: Seq<u64>, o: Seq<int>, k: u64) -> int
    decreases o.len(),
{
    if o.len() == 0 {
        0
    } else if keys[o[0]] < k {
        0
    } else {
        1 + entry_pos(keys, o.drop_first(), k)
    }
}

/// The first `n` positions of `keys`, arranged by descending key, positions
/// with equal keys in ascending order.
pub open spec fn ranked_prefix(keys: Seq<u64>, n: nat) -> Seq<int>
    decreases n,
{
    if n == 0 {
        Seq::empty()
    } else {
        let o = ranked_prefix(keys, (n - 1) as nat);
        o.insert(entry_pos(keys, o, keys[n - 1]), n - 1)
    }
}

/// The positions of `keys`, arranged by descending key, positions with
/// equal keys in ascending order: what a stable sort makes of them.
pub open spec fn ranked(keys: Seq<u64>) -> Seq<int> {
    ranked_prefix(keys, keys.len())
}

/// Whether `o` arranges the positions below `n` by descending key and
/// keeps positions with equal keys in ascending order.
pub open spec fn is_stable_desc(keys: Seq<u64>, o: Seq<int>, n: nat) -> bool {
    &&& o.len() == n
    &&& forall|p: int| 0 <= p < o.len() ==> 0 <= #[trigger] o[p] < n
    &&& forall|p: int, q: int| 0 <= p < q < o.len() ==> #[trigger] o[p] != #[trigger] o[q]
    &&& forall|p: int, q: int|
        0 <= p < q < o.len() ==> keys[#[trigger] o[p]] >= keys[#[trigger] o[q]]
    &&& forall|p: int, q: int|
        0 <= p < q < o.len() && keys[#[trigger] o[p]] == keys[#[trigger] o[q]] ==> o[p] < o[q]
}

/// In an arrangement by descending key, the entry place of `k` parts the
/// keys that are at least `k` from those that are less.
pub proof fn lemma_entry_pos(keys: Seq<u64>, o: Seq<int>, k: u64)
    requires
        forall|p: int, q: int|
            0 <= p < q < o.len() ==> keys[#[trigger] o[p]] >= keys[#[trigger] o[q]],
    ensures
        0 <= entry_pos(keys, o, k) <= o.len(),
        forall|p: int| 0 <= p < entry_pos(keys, o, k) ==> keys[#[trigger] o[p]] >= k,
        forall|p: int| entry_pos(keys, o, k) <= p < o.len() ==> keys[#[trigger] o[p]] < k,
    decreases o.len(),
{
    if o.len() == 0 {
    } else if keys[o[0]] < k {
        assert forall|p: int| 0 <= p < o.len() implies keys[#[trigger] o[p]] < k by {
            if p > 0 {
                assert(keys[o[0]] >= keys[o[p]]);
            }
        }
    } else {
        let rest = o.drop_first();
        assert forall|p: int, q: int| 0 <= p < q < rest.len() implies keys[#[trigger] rest[p]]
            >= keys[#[trigger] rest[q]] by {
            assert(rest[p] == o[p + 1] && rest[q] == o[q + 1]);
        }
        lemma_entry_pos(keys, rest, k);
        let pos = entry_pos(keys, o, k);
        assert forall|p: int| 0 <= p < pos implies keys[#[trigger] o[p]] >= k by {
            if p > 0 {
                assert(o[p] == rest[p - 1]);
            }
        }
        assert forall|p: int| pos <= p < o.len() implies keys[#[trigger] o[p]] < k by {
            assert(o[p] == rest[p - 1]);
        }
    }
}

/// The ranking of the first `n` positions is a stable arrangement by
/// descending key: it holds each position once, keys never rise along it,
/// and equal keys stay in the order in which they were given.
pub proof fn lemma_ranked_prefix(keys: Seq<u64>, n: nat)
    requires
        n <= keys.len(),
    ensures
        is_stable_desc(keys, ranked_prefix(keys, n), n),
    decreases n,
{
    if n > 0 {
        let o = ranked_prefix(keys, (n - 1) as nat);
        lemma_ranked_prefix(keys, (n - 1) as nat);
        let k = keys[n - 1];
        lemma_entry_pos(keys, o, k);
        let pos = entry_pos(keys, o, k);
        let r = o.insert(pos, n - 1);
        assert(r == ranked_prefix(keys, n));
        assert forall|p: int| 0 <= p < r.len() implies 0 <= #[trigger] r[p] < n by {
            if p < pos {
                assert(r[p] == o[p]);
            } else if p > pos {
                assert(r[p] == o[p - 1]);
            }
        }
        assert forall|p: int, q: int| 0 <= p < q < r.len() implies #[trigger] r[p]
            != #[trigger] r[q] && keys[r[p]] >= keys[r[q]] && (keys[r[p]] == keys[r[q]] ==> r[p]
            < r[q]) by {
            let a = if p < pos {
                p
            } else {
                p - 1
            };
            let b = if q < pos {
                q
            } else {
                q - 1
            };
            if p != pos {
                assert(r[p] == o[a]);
            }
            if q != pos {
                assert(r[q] == o[b]);
            }
            if p != pos && q != pos {
                assert(a < b);
            }
        }
    }
}

/// The ranking of all positions is a stable arrangement by descending key.
pub proof fn lemma_ranked(keys: Seq<u64>)
    ensures
        is_stable_desc(keys, ranked(keys), keys.len()),
{
    lemma_ranked_prefix(keys, keys.len());
}

/// A sequence of positions as mathematical integers.
pub open spec fn positions(o: Seq<usize>) -> Seq<int> {
    o.map_values(|i: usize| i as int)
}

/// Ranks the positions of `keys` by descending key, positions with equal
/// keys in ascending order.
pub fn rank_desc(keys: &Vec<u64>) -> (o: Vec<usize>)
    ensures
        positions(o@) == ranked(keys@),
        is_stable_desc(keys@, positions(o@), keys@.len()),
{
    let n: usize = keys.len();
    let mut o: Vec<usize> = Vec::new();
    let mut i: usize = 0;
    assert(positions(o@) =~= ranked_prefix(keys@, 0));
    while i < n
        invariant
            i <= n,
            n == keys@.len(),
            positions(o@) == ranked_prefix(keys@, i as nat),
        decreases n - i,
    {
        proof {
            lemma_ranked_prefix(keys@, i as nat);
        }
        let k: u64 = keys[i];
        let mut pos: usize = 0;
        assert(positions(o@).skip(0) =~= positions(o@));
        while pos < o.len() && keys[o[pos]] >= k
            invariant
                pos <= o.len(),
                o@.len() == i,
                i < n,
                n == keys@.len(),
                is_stable_desc(keys@, positions(o@), i as nat),
                entry_pos(keys@, positions(o@), k) == pos + entry_pos(
                    keys@,
                    positions(o@).skip(pos as int),
                    k,
                ),
            decreases o.len() - pos,
        {
            assert(positions(o@).skip(pos as int).drop_first() =~= positions(o@).skip(pos + 1));
            assert(positions(o@).skip(pos as int)[0] == o@[pos as int]);
            pos += 1;
        }
        proof {
            let rest = positions(o@).skip(pos as int);
            if pos < o.len() {
                assert(rest[0] == o@[pos as int]);
            }
            assert(entry_pos(keys@, rest, k) == 0);
        }
        let ghost before = positions(o@);
        o.insert(pos, i);
        assert(positions(o@) =~= before.insert(pos as int, i as int));
        i += 1;
    }
    proof {
        lemma_ranked(keys@);
    }
    o
}

/// Arranging a sequence along a permutation of its positions keeps its
/// elements, each as often.
pub proof fn lemma_arranged_multiset<T>(s: Seq<T>, order: Seq<int>)
    requires
        order.len() == s.len(),
        forall|p: int| 0 <= p < order.len() ==> 0 <= #[trigger] order[p] < s.len(),
        forall|p: int, q: int| 0 <= p < q < order.len() ==> #[trigger] order[p] != #[trigger] order[q],
    ensures
        order.map_values(|i: int| s[i]).to_multiset() == s.to_multiset(),
    decreases s.len(),
{
    let out = order.map_values(|i: int| s[i]);
    if s.len() == 0 {
        assert(out =~= s);
    } else {
        // Take the last element of `s` out of both sides.
        let last = s.len() - 1;
        lemma_position_of(order, last);
        let at = choose|at: int| 0 <= at < order.len() && #[trigger] order[at] == last;
        let front = s.drop_last();
        let rest = order.remove(at);
        assert forall|p: int| 0 <= p < rest.len() implies 0 <= #[trigger] rest[p] < front.len() by {
            let pa = if p < at {
                p
            } else {
                p + 1
            };
            assert(rest[p] == order[pa]);
            if pa < at {
                assert(order[pa] != order[at]);
            } else {
                assert(order[at] != order[pa]);
            }
        }
        assert forall|p: int, q: int| 0 <= p < q < rest.len() implies #[trigger] rest[p]
            != #[trigger] rest[q] by {
            let pa = if p < at {
                p
            } else {
                p + 1
            };
            let qa = if q < at {
                q
            } else {
                q + 1
            };
            assert(rest[p] == order[pa] && rest[q] == order[qa]);
        }
        lemma_arranged_multiset(front, rest);
        let out_rest = rest.map_values(|i: int| front[i]);
        assert(out.remove(at) =~= out_rest) by {
            assert forall|p: int| 0 <= p < out_rest.len() implies out.remove(at)[p]
                == out_rest[p] by {
                let pa = if p < at {
                    p
                } else {
                    p + 1
                };
                assert(rest[p] == order[pa]);
            }
        }
        broadcast use vstd::multiset::group_multiset_axioms;

        assert(out[at] == s[last]);
        vstd::seq_lib::to_multiset_remove(out, at);
        vstd::seq_lib::to_multiset_contains(out, out[at]);
        assert(out.contains(out[at]));
        assert(out.to_multiset() =~= out.remove(at).to_multiset().insert(out[at]));
        assert(s =~= front.push(s[last]));
        vstd::seq_lib::to_multiset_build(front, s[last]);
    }
}

/// A sequence that holds every position once holds a given position
/// somewhere.
proof fn lemma_position_of(order: Seq<int>, wanted: int)
    requires
        0 <= wanted < order.len(),
        forall|p: int| 0 <= p < order.len() ==> 0 <= #[trigger] order[p] < order.len(),
        forall|p: int, q: int| 0 <= p < q < order.len() ==> #[trigger] order[p] != #[trigger] order[q],
    ensures
        exists|at: int| 0 <= at < order.len() && #[trigger] order[at] == wanted,
{
    // The positions are pairwise different numbers below their count: as a
    // set they are all the numbers below the count.
    let n = order.len() as int;
    let found = Set::new(|v: int| exists|at: int| 0 <= at < n && #[trigger] order[at] == v);
    let all = Set::new(|v: int| 0 <= v < n);
    assert(found.subset_of(all));
    lemma_injective_image_size(order, n);
    vstd::set_lib::lemma_int_range(0, n);
    assert(all =~= vstd::set_lib::set_int_range(0, n));
    vstd::set_lib::lemma_subset_equality(found, all);
    assert(found.contains(wanted));
}

/// The first `k` of pairwise different values are `k` values.
proof fn lemma_injective_image_size(order: Seq<int>, k: int)
    requires
        0 <= k <= order.len(),
        forall|p: int, q: int| 0 <= p < q < order.len() ==> #[trigger] order[p] != #[trigger] order[q],
    ensures
        Set::new(|v: int| exists|at: int| 0 <= at < k && #[trigger] order[at] == v).finite(),
        Set::new(|v: int| exists|at: int| 0 <= at < k && #[trigger] order[at] == v).len() == k,
    decreases k,
{
    let image = Set::new(|v: int| exists|at: int| 0 <= at < k && #[trigger] order[at] == v);
    if k == 0 {
        assert(image =~= Set::<int>::empty());
    } else {
        lemma_injective_image_size(order, k - 1);
        let before = Set::new(|v: int| exists|at: int| 0 <= at < k - 1 && #[trigger] order[at] == v);
        assert(!before.contains(order[k - 1])) by {
            if before.contains(order[k - 1]) {
                let at = choose|at: int| 0 <= at < k - 1 && #[trigger] order[at] == order[k - 1];
                assert(order[at] != order[k - 1]);
            }
        }
        assert(image =~= before.insert(order[k - 1])) by {
            assert forall|v: int| image.contains(v) implies before.insert(order[k - 1]).contains(
                v,
            ) by {
                let at = choose|at: int| 0 <= at < k && #[trigger] order[at] == v;
                if at < k - 1 {
                    assert(before.contains(v));
                }
            }
            assert forall|v: int| before.insert(order[k - 1]).contains(v) implies image.contains(
                v,
            ) by {
                if v == order[k - 1] {
                    assert(0 <= k - 1 < k && order[k - 1] == v);
                } else {
                    let at = choose|at: int| 0 <= at < k - 1 && #[trigger] order[at] == v;
                    assert(0 <= at < k && order[at] == v);
                }
            }
        }
    }
}

/// Ranking keeps the elements: what is arranged along the ranking of its
/// keys holds the same elements, each as often.
pub proof fn lemma_ranked_multiset<T>(s: Seq<T>, keys: Seq<u64>)
    requires
        keys.len() == s.len(),
    ensures
        ranked(keys).map_values(|i: int| s[i]).to_multiset() == s.to_multiset(),
{
    lemma_ranked(keys);
    lemma_arranged_multiset(s, ranked(keys));
}

} // verus!
