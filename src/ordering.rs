//! Ranking of intents: descending priority key, then older first, then by id.
use vstd::prelude::*;
use vstd::utf8::encode_utf8;
use crate::types::Intent;

verus! {

broadcast use {vstd::seq_lib::group_to_multiset_ensures, vstd::multiset::group_multiset_axioms};

/// `a` comes strictly before `b` in lexicographic byte order.
pub open spec fn bytes_lt(a: Seq<u8>, b: Seq<u8>) -> bool
    decreases a.len(),
{
    if a.len() == 0 {
        b.len() > 0
    } else if b.len() == 0 {
        false
    } else if a[0] != b[0] {
        a[0] < b[0]
    } else {
        bytes_lt(a.drop_first(), b.drop_first())
    }
}

proof fn lemma_bytes_lt_asym(a: Seq<u8>, b: Seq<u8>)
    ensures
        !(bytes_lt(a, b) && bytes_lt(b, a)),
    decreases a.len(),
{
    if a.len() > 0 && b.len() > 0 && a[0] == b[0] {
        lemma_bytes_lt_asym(a.drop_first(), b.drop_first());
    }
}

proof fn lemma_bytes_lt_trans(a: Seq<u8>, b: Seq<u8>, c: Seq<u8>)
    requires
        bytes_lt(a, b),
        bytes_lt(b, c),
    ensures
        bytes_lt(a, c),
    decreases a.len(),
{
    if a.len() > 0 && b.len() > 0 && c.len() > 0 && a[0] == b[0] && b[0] == c[0] {
        lemma_bytes_lt_trans(a.drop_first(), b.drop_first(), c.drop_first());
    }
}

proof fn lemma_bytes_lt_total(a: Seq<u8>, b: Seq<u8>)
    ensures
        a != b ==> bytes_lt(a, b) || bytes_lt(b, a),
    decreases a.len(),
{
    if a.len() > 0 && b.len() > 0 && a[0] == b[0] {
        lemma_bytes_lt_total(a.drop_first(), b.drop_first());
        if a.drop_first() == b.drop_first() {
            assert(a =~= seq![a[0]] + a.drop_first());
            assert(b =~= seq![b[0]] + b.drop_first());
        }
    } else if a.len() == 0 && b.len() == 0 {
        assert(a =~= b);
    }
}

/// The bytes of an intent's id.
pub open spec fn id_bytes(i: Intent) -> Seq<u8> {
    encode_utf8(i.id@)
}

/// Item `a` ranks strictly before item `b`: a higher key, or an equal key and an
/// earlier timestamp, or both equal and a lexicographically smaller id.
pub open spec fn rank_lt(a: (u64, Intent), b: (u64, Intent)) -> bool {
    a.0 > b.0 || (a.0 == b.0 && (a.1.timestamp < b.1.timestamp || (a.1.timestamp == b.1.timestamp
        && bytes_lt(id_bytes(a.1), id_bytes(b.1)))))
}

/// No item ranks strictly before an item ahead of it.
pub open spec fn sorted_by_rank(s: Seq<(u64, Intent)>) -> bool {
    forall|i: int, j: int| 0 <= i < j < s.len() ==> !rank_lt(#[trigger] s[j], #[trigger] s[i])
}

proof fn lemma_rank_not_before_trans(a: (u64, Intent), b: (u64, Intent), c: (u64, Intent))
    requires
        !rank_lt(a, b),
        !rank_lt(b, c),
    ensures
        !rank_lt(a, c),
{
    lemma_bytes_lt_total(id_bytes(a.1), id_bytes(b.1));
    lemma_bytes_lt_asym(id_bytes(a.1), id_bytes(b.1));
    lemma_bytes_lt_asym(id_bytes(a.1), id_bytes(c.1));
    lemma_bytes_lt_asym(id_bytes(b.1), id_bytes(c.1));
    if rank_lt(a, c) {
        if bytes_lt(id_bytes(b.1), id_bytes(a.1)) && bytes_lt(id_bytes(a.1), id_bytes(c.1)) {
            lemma_bytes_lt_trans(id_bytes(b.1), id_bytes(a.1), id_bytes(c.1));
        }
    }
}

proof fn lemma_rank_asym(a: (u64, Intent), b: (u64, Intent))
    ensures
        !(rank_lt(a, b) && rank_lt(b, a)),
{
    lemma_bytes_lt_asym(id_bytes(a.1), id_bytes(b.1));
}

/// Whether `a` comes strictly before `b` in lexicographic byte order.
fn bytes_less(a: &[u8], b: &[u8]) -> (r: bool)
    ensures
        r == bytes_lt(a@, b@),
{
    let mut i: usize = 0;
    assert(a@.skip(0) =~= a@ && b@.skip(0) =~= b@);
    while i < a.len() && i < b.len()
        invariant
            i <= a@.len(),
            i <= b@.len(),
            bytes_lt(a@, b@) == bytes_lt(a@.skip(i as int), b@.skip(i as int)),
        decreases a@.len() - i,
    {
        assert(a@.skip(i as int).drop_first() =~= a@.skip(i + 1));
        assert(b@.skip(i as int).drop_first() =~= b@.skip(i + 1));
        if a[i] != b[i] {
            return a[i] < b[i];
        }
        i = i + 1;
    }
    i == a.len() && i < b.len()
}

/// Whether item `a` ranks strictly before item `b`.
pub fn rank_less(a: &(u64, Intent), b: &(u64, Intent)) -> (r: bool)
    ensures
        r == rank_lt(*a, *b),
{
    if a.0 != b.0 {
        return a.0 > b.0;
    }
    if a.1.timestamp != b.1.timestamp {
        return a.1.timestamp < b.1.timestamp;
    }
    bytes_less(a.1.id.as_str().as_bytes(), b.1.id.as_str().as_bytes())
}

/// Items `a` and `b` rank equal: same key, same timestamp, same id.
pub open spec fn same_rank(a: (u64, Intent), b: (u64, Intent)) -> bool {
    a.0 == b.0 && a.1.timestamp == b.1.timestamp && id_bytes(a.1) == id_bytes(b.1)
}

/// `r` holds the items of `items` rearranged by `perm` (`r[i] == items[perm[i]]`,
/// each position used once), and items of equal rank keep their given order.
pub open spec fn stable_rearrangement(r: Seq<(u64, Intent)>, items: Seq<(u64, Intent)>, perm: Seq<int>) -> bool {
    &&& perm.len() == r.len()
    &&& r.len() == items.len()
    &&& forall|i: int| 0 <= i < r.len() ==> 0 <= #[trigger] perm[i] < items.len() && r[i] == items[perm[i]]
    &&& forall|i: int, j: int| 0 <= i < j < r.len() ==> #[trigger] perm[i] != #[trigger] perm[j]
    &&& forall|i: int, j: int|
        0 <= i < j < r.len() && same_rank(#[trigger] r[i], #[trigger] r[j]) ==> perm[i] < perm[j]
}

proof fn lemma_rank_lt_not_same(a: (u64, Intent), b: (u64, Intent))
    requires
        rank_lt(a, b),
    ensures
        !same_rank(a, b),
{
    lemma_bytes_lt_asym(id_bytes(a.1), id_bytes(b.1));
}

/// Orders items by rank: descending key, then ascending timestamp, then ascending
/// id. The sort is stable: items of equal rank keep their relative order. The
/// result holds exactly the items given.
pub fn order_by_rank(items: Vec<(u64, Intent)>) -> (r: Vec<(u64, Intent)>)
    ensures
        r@.to_multiset() == items@.to_multiset(),
        sorted_by_rank(r@),
        exists|perm: Seq<int>| stable_rearrangement(r@, items@, perm),
{
    let ghost all = items@;
    let mut rest = items;
    let mut out: Vec<(u64, Intent)> = Vec::new();
    let ghost mut perm: Seq<int> = Seq::empty();
    // Items are taken from the back and each goes in front of every item of
    // equal rank already placed, which keeps equal items in their given order.
    while rest.len() > 0
        invariant
            out@.to_multiset().add(rest@.to_multiset()) == all.to_multiset(),
            sorted_by_rank(out@),
            rest@ == all.take(rest@.len() as int),
            out@.len() + rest@.len() == all.len(),
            perm.len() == out@.len(),
            forall|i: int|
                0 <= i < out@.len() ==> rest@.len() <= #[trigger] perm[i] < all.len() && out@[i] == all[perm[i]],
            forall|i: int, j: int| 0 <= i < j < out@.len() ==> #[trigger] perm[i] != #[trigger] perm[j],
            forall|i: int, j: int|
                0 <= i < j < out@.len() && same_rank(#[trigger] out@[i], #[trigger] out@[j]) ==> perm[i] < perm[j],
        decreases rest@.len(),
    {
        let ghost before = rest@;
        let x = rest.pop().unwrap();
        let ghost k = rest@.len() as int;
        proof {
            assert(before =~= rest@.push(x));
            assert(rest@ =~= all.take(k));
            assert(x == all[k]);
        }
        let mut p: usize = 0;
        while p < out.len() && rank_less(&out[p], &x)
            invariant
                p <= out@.len(),
                forall|m: int| 0 <= m < p ==> rank_lt(#[trigger] out@[m], x),
            decreases out@.len() - p,
        {
            p = p + 1;
        }
        let ghost old_out = out@;
        let ghost old_perm = perm;
        out.insert(p, x);
        proof {
            perm = old_perm.insert(p as int, k);
            assert forall|i: int, j: int| 0 <= i < j < out@.len() implies !rank_lt(
                #[trigger] out@[j],
                #[trigger] out@[i],
            ) by {
                if j < p {
                    assert(out@[i] == old_out[i] && out@[j] == old_out[j]);
                } else if j == p {
                    lemma_rank_asym(old_out[i], x);
                } else if i == p {
                    // x is not after old_out[p], which is not after old_out[j - 1]
                    assert(out@[j] == old_out[j - 1]);
                    assert(!rank_lt(old_out[p as int], x));
                    if j - 1 > p {
                        assert(!rank_lt(old_out[j - 1], old_out[p as int]));
                        lemma_rank_not_before_trans(old_out[j - 1], old_out[p as int], x);
                    }
                } else if i < p {
                    assert(out@[i] == old_out[i] && out@[j] == old_out[j - 1]);
                } else {
                    assert(out@[i] == old_out[i - 1] && out@[j] == old_out[j - 1]);
                }
            }
            assert forall|i: int| 0 <= i < out@.len() implies rest@.len() <= #[trigger] perm[i] < all.len()
                && out@[i] == all[perm[i]] by {
                if i < p {
                    assert(perm[i] == old_perm[i] && out@[i] == old_out[i]);
                } else if i > p {
                    assert(perm[i] == old_perm[i - 1] && out@[i] == old_out[i - 1]);
                }
            }
            assert forall|i: int, j: int| 0 <= i < j < out@.len() implies #[trigger] perm[i] != #[trigger] perm[j] by {
                if i < p && j < p {
                    assert(perm[i] == old_perm[i] && perm[j] == old_perm[j]);
                } else if i < p && j == p {
                    assert(perm[i] == old_perm[i]);
                } else if i < p {
                    assert(perm[i] == old_perm[i] && perm[j] == old_perm[j - 1]);
                } else if i == p {
                    assert(perm[j] == old_perm[j - 1]);
                } else {
                    assert(perm[i] == old_perm[i - 1] && perm[j] == old_perm[j - 1]);
                }
            }
            assert forall|i: int, j: int|
                0 <= i < j < out@.len() && same_rank(#[trigger] out@[i], #[trigger] out@[j]) implies perm[i]
                < perm[j] by {
                if i < p && j < p {
                    assert(perm[i] == old_perm[i] && perm[j] == old_perm[j]);
                    assert(out@[i] == old_out[i] && out@[j] == old_out[j]);
                } else if i < p && j == p {
                    assert(out@[i] == old_out[i]);
                    lemma_rank_lt_not_same(old_out[i], x);
                } else if i < p {
                    assert(perm[i] == old_perm[i] && perm[j] == old_perm[j - 1]);
                    assert(out@[i] == old_out[i] && out@[j] == old_out[j - 1]);
                } else if i == p {
                    assert(perm[j] == old_perm[j - 1]);
                } else {
                    assert(perm[i] == old_perm[i - 1] && perm[j] == old_perm[j - 1]);
                    assert(out@[i] == old_out[i - 1] && out@[j] == old_out[j - 1]);
                }
            }
        }
    }
    assert(stable_rearrangement(out@, all, perm));
    out
}

} // verus!
