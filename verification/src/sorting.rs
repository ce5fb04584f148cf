//! Stable ordering by name, as `sort_by(|a, b| a.name.cmp(&b.name))` orders
//! `String`s: lexicographically by character.

use vstd::prelude::*;

verus! {

/// `a` sorts strictly before `b`.
pub open spec fn str_lt(a: Seq<char>, b: Seq<char>) -> bool
    decreases a.len(),
{
    if a.len() == 0 {
        b.len() > 0
    } else if b.len() == 0 {
        false
    } else if a[0] != b[0] {
        (a[0] as u32) < (b[0] as u32)
    } else {
        str_lt(a.drop_first(), b.drop_first())
    }
}

/// Whether `a` sorts strictly before `b`.
pub fn str_less(a: &String, b: &String) -> (r: bool)
    ensures
        r == str_lt(a@, b@),
{
    let va = crate::text::chars_of(a.as_str());
    let vb = crate::text::chars_of(b.as_str());
    let mut i: usize = 0;
    assert(va@.skip(0) =~= va@);
    assert(vb@.skip(0) =~= vb@);
    while i < va.len() && i < vb.len() && va[i] == vb[i]
        invariant
            i <= va@.len(),
            i <= vb@.len(),
            str_lt(a@, b@) == str_lt(va@.skip(i as int), vb@.skip(i as int)),
            va@ == a@,
            vb@ == b@,
        decreases va.len() - i,
    {
        assert(va@.skip(i as int).drop_first() =~= va@.skip(i + 1));
        assert(vb@.skip(i as int).drop_first() =~= vb@.skip(i + 1));
        i += 1;
    }
    if i == va.len() {
        i < vb.len()
    } else if i == vb.len() {
        false
    } else {
        (va[i] as u32) < (vb[i] as u32)
    }
}

/// Where a stable insertion puts an element of key `k` among `sorted`
/// (indices into `keys`): before the first element that sorts after it.
pub open spec fn insert_pos(keys: Seq<Seq<char>>, sorted: Seq<int>, k: Seq<char>) -> int
    decreases sorted.len(),
{
    if sorted.len() == 0 {
        0
    } else if str_lt(k, keys[sorted[0]]) {
        0
    } else {
        1 + insert_pos(keys, sorted.drop_first(), k)
    }
}

/// The indices of `keys` in stable sorted order.
pub open spec fn sorted_indices(keys: Seq<Seq<char>>) -> Seq<int>
    decreases keys.len(),
{
    if keys.len() == 0 {
        seq![]
    } else {
        let s = sorted_indices(keys.drop_last());
        s.insert(insert_pos(keys, s, keys.last()), keys.len() - 1)
    }
}

proof fn lemma_insert_pos_bound(keys: Seq<Seq<char>>, sorted: Seq<int>, k: Seq<char>)
    ensures
        0 <= insert_pos(keys, sorted, k) <= sorted.len(),
    decreases sorted.len(),
{
    if sorted.len() > 0 && !str_lt(k, keys[sorted[0]]) {
        lemma_insert_pos_bound(keys, sorted.drop_first(), k);
    }
}

pub proof fn lemma_sorted_indices(keys: Seq<Seq<char>>)
    ensures
        sorted_indices(keys).len() == keys.len(),
        forall|i: int| 0 <= i < keys.len() ==> 0 <= #[trigger] sorted_indices(keys)[i] < keys.len(),
    decreases keys.len(),
{
    if keys.len() > 0 {
        let d = keys.drop_last();
        lemma_sorted_indices(d);
        let s = sorted_indices(d);
        assert(sorted_indices(d) == sorted_indices(keys.drop_last()));
        lemma_insert_pos_bound(keys, s, keys.last());
        let p = insert_pos(keys, s, keys.last());
        assert forall|i: int| 0 <= i < keys.len() implies 0 <= #[trigger] sorted_indices(keys)[i] < keys.len() by {
            if i < p {
                assert(sorted_indices(keys)[i] == s[i]);
            } else if i > p {
                assert(sorted_indices(keys)[i] == s[i - 1]);
            }
        }
    }
}

/// The stable sorted order of the given keys, as indices.
pub fn sort_indices(keys: &Vec<String>) -> (r: Vec<usize>)
    ensures
        r@.len() == keys@.len(),
        forall|i: int| 0 <= i < r@.len() ==> (r@[i] as int) == sorted_indices(keys@.map_values(|s: String| s@))[i],
        forall|i: int| 0 <= i < r@.len() ==> r@[i] < keys@.len(),
{
    let ghost kv = keys@.map_values(|s: String| s@);
    let mut r: Vec<usize> = Vec::new();
    let mut n: usize = 0;
    while n < keys.len()
        invariant
            n <= keys@.len(),
            kv == keys@.map_values(|s: String| s@),
            r@.len() == n,
            forall|i: int| 0 <= i < n ==> (r@[i] as int) == sorted_indices(kv.take(n as int))[i],
            forall|i: int| 0 <= i < n ==> r@[i] < n,
        decreases keys.len() - n,
    {
        let ghost kn = kv.take(n as int);
        let ghost k1 = kv.take(n + 1);
        let ghost s = sorted_indices(kn);
        proof {
            assert(k1.drop_last() =~= kn);
            lemma_sorted_indices(kn);
            lemma_insert_pos_bound(k1, s, k1.last());
        }
        // find the insertion point
        let mut p: usize = 0;
        assert(s.skip(0) =~= s);
        while p < r.len() && !str_less(&keys[n], &keys[r[p]])
            invariant
                p <= r@.len() == n < keys@.len(),
                kv == keys@.map_values(|s: String| s@),
                kn == kv.take(n as int),
                k1 == kv.take(n + 1),
                s == sorted_indices(kn),
                s.len() == n,
                forall|i: int| 0 <= i < n ==> (r@[i] as int) == s[i],
                forall|i: int| 0 <= i < n ==> r@[i] < n,
                insert_pos(k1, s, k1.last()) == p + insert_pos(k1, s.skip(p as int), k1.last()),
            decreases n - p,
        {
            proof {
                let t = s.skip(p as int);
                assert(t[0] == s[p as int]);
                assert(t.drop_first() =~= s.skip(p + 1));
                assert(k1[s[p as int]] == keys@[r@[p as int] as int]@);
                assert(k1.last() == keys@[n as int]@);
            }
            p += 1;
        }
        proof {
            let t = s.skip(p as int);
            if p < n {
                assert(t[0] == s[p as int]);
                assert(k1[s[p as int]] == keys@[r@[p as int] as int]@);
                assert(k1.last() == keys@[n as int]@);
            } else {
                assert(t.len() == 0);
            }
            assert(insert_pos(k1, s, k1.last()) == p);
            assert(sorted_indices(k1) == s.insert(p as int, n as int));
        }
        r.insert(p, n);
        n += 1;
    }
    assert(kv.take(keys@.len() as int) =~= kv);
    r
}


pub proof fn lemma_str_lt_irreflexive(a: Seq<char>)
    ensures
        !str_lt(a, a),
    decreases a.len(),
{
    if a.len() > 0 {
        lemma_str_lt_irreflexive(a.drop_first());
    }
}

pub proof fn lemma_str_lt_transitive(a: Seq<char>, b: Seq<char>, c: Seq<char>)
    requires
        str_lt(a, b),
        str_lt(b, c),
    ensures
        str_lt(a, c),
    decreases a.len(),
{
    if a.len() > 0 && b.len() > 0 && c.len() > 0 && a[0] == b[0] && b[0] == c[0] {
        lemma_str_lt_transitive(a.drop_first(), b.drop_first(), c.drop_first());
    }
}

/// `idx` lists indices below `n` in an order where the keys never
/// decrease, and equal keys keep their order in the input.
pub open spec fn sorted_stable(keys: Seq<Seq<char>>, idx: Seq<int>) -> bool {
    forall|i: int, j: int| 0 <= i < j < idx.len() ==> {
        &&& !str_lt(keys[#[trigger] idx[j]], keys[#[trigger] idx[i]])
        &&& (keys[idx[i]] == keys[idx[j]] ==> idx[i] < idx[j])
    }
}

/// Every index below `n` occurs in `idx` exactly once.
pub open spec fn permutation_of(idx: Seq<int>, n: nat) -> bool {
    &&& idx.len() == n
    &&& forall|i: int| 0 <= i < idx.len() ==> 0 <= #[trigger] idx[i] < n
    &&& forall|i: int, j: int| 0 <= i < j < idx.len() ==> #[trigger] idx[i] != #[trigger] idx[j]
    &&& forall|k: int| 0 <= k < n ==> #[trigger] index_listed(idx, k)
}

/// `k` occurs in `idx`.
pub open spec fn index_listed(idx: Seq<int>, k: int) -> bool {
    exists|i: int| 0 <= i < idx.len() && idx[i] == k
}

proof fn lemma_insert_pos_facts(keys: Seq<Seq<char>>, sorted: Seq<int>, k: Seq<char>)
    ensures
        forall|i: int| 0 <= i < insert_pos(keys, sorted, k) ==> !str_lt(k, #[trigger] keys[sorted[i]]),
        insert_pos(keys, sorted, k) < sorted.len() ==> str_lt(k, keys[sorted[insert_pos(keys, sorted, k)]]),
    decreases sorted.len(),
{
    lemma_insert_pos_bound(keys, sorted, k);
    if sorted.len() > 0 && !str_lt(k, keys[sorted[0]]) {
        lemma_insert_pos_facts(keys, sorted.drop_first(), k);
        lemma_insert_pos_bound(keys, sorted.drop_first(), k);
        let q = insert_pos(keys, sorted.drop_first(), k);
        if q < sorted.drop_first().len() {
            assert(sorted[q + 1] == sorted.drop_first()[q]);
        }
        assert forall|i: int| 0 <= i < insert_pos(keys, sorted, k) implies !str_lt(k, #[trigger] keys[sorted[i]]) by {
            if i > 0 {
                assert(sorted[i] == sorted.drop_first()[i - 1]);
            }
        }
    }
}

/// The stable insertion order sorts the keys, stably, and is a permutation
/// of their indices.
pub proof fn law_sorted_indices(keys: Seq<Seq<char>>)
    ensures
        permutation_of(sorted_indices(keys), keys.len()),
        sorted_stable(keys, sorted_indices(keys)),
    decreases keys.len(),
{
    lemma_sorted_indices(keys);
    if keys.len() > 0 {
        let d = keys.drop_last();
        let n = keys.len() - 1;
        let k = keys.last();
        law_sorted_indices(d);
        let s = sorted_indices(d);
        lemma_insert_pos_bound(keys, s, k);
        lemma_insert_pos_facts(keys, s, k);
        let p = insert_pos(keys, s, k);
        let r = sorted_indices(keys);
        assert(r == s.insert(p, n));
        assert forall|i: int| 0 <= i < s.len() implies #[trigger] keys[s[i]] == d[s[i]] by {}
        // positions of r in terms of s
        assert forall|i: int| 0 <= i < r.len() implies #[trigger] r[i] == (if i < p { s[i] } else if i == p { n } else { s[i - 1] }) by {}
        assert forall|i: int, j: int| 0 <= i < j < r.len() implies #[trigger] r[i] != #[trigger] r[j] by {
            if i != p && j != p {
                let a = if i < p { i } else { i - 1 };
                let b = if j < p { j } else { j - 1 };
                assert(s[a] != s[b]);
            }
        }
        assert forall|x: int| 0 <= x < keys.len() implies #[trigger] index_listed(r, x) by {
            if x == n {
                assert(r[p] == x);
            } else {
                assert(index_listed(s, x));
                let i = choose|i: int| 0 <= i < s.len() && s[i] == x;
                if i < p {
                    assert(r[i] == x);
                } else {
                    assert(r[i + 1] == x);
                }
            }
        }
        assert forall|i: int, j: int| 0 <= i < j < r.len() implies {
            &&& !str_lt(keys[#[trigger] r[j]], keys[#[trigger] r[i]])
            &&& (keys[r[i]] == keys[r[j]] ==> r[i] < r[j])
        } by {
            if i == p {
                // the new element before an old one at j - 1 >= p
                let b = j - 1;
                let xb = keys[s[b]];
                let xp = keys[s[p]];
                assert(str_lt(k, xp));
                if b > p {
                    assert(!str_lt(d[s[b]], d[s[p]]));
                }
                if str_lt(xb, k) {
                    lemma_str_lt_transitive(xb, k, xp);
                    if b == p {
                        lemma_str_lt_irreflexive(xp);
                    }
                }
                if xb == k {
                    if b == p {
                        lemma_str_lt_irreflexive(k);
                    } else {
                        lemma_str_lt_transitive(xb, xp, xb);
                        lemma_str_lt_irreflexive(xb);
                    }
                }
            } else if j == p {
                // an old element before the new one
                assert(!str_lt(k, keys[s[i]]));
                assert(s[i] < n);
            } else {
                let a = if i < p { i } else { i - 1 };
                let b = if j < p { j } else { j - 1 };
                assert(a < b);
                assert(!str_lt(d[s[b]], d[s[a]]));
                assert(d[s[a]] == d[s[b]] ==> s[a] < s[b]);
            }
        }
    }
}

} // verus!
