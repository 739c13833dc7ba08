//! Per-merchant forwarding rules, kept as a list with at most one entry per
//! merchant and read as a map from merchant to rule.

use vstd::prelude::*;

verus! {

/// A forwarding rule: `forward_bps` basis points of what `merchant` receives
/// go on to `forward_to`.
pub struct ForwardRecord {
    pub merchant: Seq<u8>,
    pub forward_to: Seq<u8>,
    pub forward_bps: u32,
    pub active: bool,
}

/// No merchant has two entries.
pub open spec fn distinct_merchants(s: Seq<ForwardRecord>) -> bool {
    forall|i: int, j: int|
        0 <= i < s.len() && 0 <= j < s.len() && i != j ==> #[trigger] s[i].merchant != #[trigger] s[j].merchant
}

/// Whether merchant `k` has an entry in `s`.
pub open spec fn has_entry(s: Seq<ForwardRecord>, k: Seq<u8>) -> bool {
    exists|i: int| 0 <= i < s.len() && #[trigger] s[i].merchant == k
}

/// The rules of `s`, by merchant.
pub open spec fn forward_map(s: Seq<ForwardRecord>) -> Map<Seq<u8>, ForwardRecord> {
    Map::new(
        |k: Seq<u8>| has_entry(s, k),
        |k: Seq<u8>| s[choose|i: int| 0 <= i < s.len() && #[trigger] s[i].merchant == k],
    )
}

/// The entry at `i` is what the map holds for its merchant.
pub proof fn lemma_entry(s: Seq<ForwardRecord>, i: int)
    requires
        distinct_merchants(s),
        0 <= i < s.len(),
    ensures
        forward_map(s).contains_key(s[i].merchant),
        forward_map(s)[s[i].merchant] == s[i],
{
    let k = s[i].merchant;
    assert(has_entry(s, k));
    let j = choose|j: int| 0 <= j < s.len() && #[trigger] s[j].merchant == k;
    assert(s[j].merchant == k);
    assert(j == i);
}

/// A merchant with no entry is not in the map.
pub proof fn lemma_no_entry(s: Seq<ForwardRecord>, k: Seq<u8>)
    requires
        forall|i: int| 0 <= i < s.len() ==> s[i].merchant != k,
    ensures
        !forward_map(s).contains_key(k),
{
}

/// Appending a rule for a merchant without one inserts it into the map.
pub proof fn lemma_push(s: Seq<ForwardRecord>, c: ForwardRecord)
    requires
        distinct_merchants(s),
        !has_entry(s, c.merchant),
    ensures
        distinct_merchants(s.push(c)),
        forward_map(s.push(c)) =~= forward_map(s).insert(c.merchant, c),
{
    let t = s.push(c);
    assert(distinct_merchants(t)) by {
        assert forall|i: int, j: int|
            0 <= i < t.len() && 0 <= j < t.len() && i != j implies #[trigger] t[i].merchant
            != #[trigger] t[j].merchant by {
            if i == s.len() {
                assert(t[j] == s[j]);
            } else if j == s.len() {
                assert(t[i] == s[i]);
            } else {
                assert(t[i] == s[i] && t[j] == s[j]);
            }
        }
    }
    let m = forward_map(s).insert(c.merchant, c);
    assert forall|k: Seq<u8>| #[trigger] forward_map(t).contains_key(k) <==> m.contains_key(k) by {
        if has_entry(s, k) {
            let i = choose|i: int| 0 <= i < s.len() && #[trigger] s[i].merchant == k;
            assert(t[i] == s[i]);
        }
        if has_entry(t, k) && k != c.merchant {
            let i = choose|i: int| 0 <= i < t.len() && #[trigger] t[i].merchant == k;
            assert(t[i] == s[i]);
        }
        if k == c.merchant {
            assert(t[s.len() as int] == c);
        }
    }
    assert forall|k: Seq<u8>| #[trigger] forward_map(t).contains_key(k) implies forward_map(t)[k] == m[k] by {
        if k == c.merchant {
            assert(t[s.len() as int] == c);
            lemma_entry(t, s.len() as int);
        } else {
            let i = choose|i: int| 0 <= i < t.len() && #[trigger] t[i].merchant == k;
            assert(t[i] == s[i]);
            lemma_entry(t, i);
            lemma_entry(s, i);
        }
    }
}

/// Replacing the entry of a merchant replaces its rule in the map.
pub proof fn lemma_replace(s: Seq<ForwardRecord>, i: int, c: ForwardRecord)
    requires
        distinct_merchants(s),
        0 <= i < s.len(),
        s[i].merchant == c.merchant,
    ensures
        distinct_merchants(s.update(i, c)),
        forward_map(s.update(i, c)) =~= forward_map(s).insert(c.merchant, c),
{
    let t = s.update(i, c);
    assert(distinct_merchants(t)) by {
        assert forall|a: int, b: int|
            0 <= a < t.len() && 0 <= b < t.len() && a != b implies #[trigger] t[a].merchant
            != #[trigger] t[b].merchant by {
            assert(t[a].merchant == s[a].merchant);
            assert(t[b].merchant == s[b].merchant);
        }
    }
    let m = forward_map(s).insert(c.merchant, c);
    assert forall|k: Seq<u8>| #[trigger] forward_map(t).contains_key(k) <==> m.contains_key(k) by {
        if has_entry(s, k) {
            let j = choose|j: int| 0 <= j < s.len() && #[trigger] s[j].merchant == k;
            assert(t[j].merchant == k);
        }
        if has_entry(t, k) {
            let j = choose|j: int| 0 <= j < t.len() && #[trigger] t[j].merchant == k;
            assert(s[j].merchant == k);
        }
        if k == c.merchant {
            assert(t[i] == c);
        }
    }
    assert forall|k: Seq<u8>| #[trigger] forward_map(t).contains_key(k) implies forward_map(t)[k] == m[k] by {
        let j = choose|j: int| 0 <= j < t.len() && #[trigger] t[j].merchant == k;
        lemma_entry(t, j);
        if j == i {
            assert(t[j] == c);
        } else {
            assert(t[j] == s[j]);
            lemma_entry(s, j);
        }
    }
}

/// Deleting the entry of a merchant removes its rule from the map.
pub proof fn lemma_delete(s: Seq<ForwardRecord>, i: int)
    requires
        distinct_merchants(s),
        0 <= i < s.len(),
    ensures
        distinct_merchants(s.remove(i)),
        forward_map(s.remove(i)) =~= forward_map(s).remove(s[i].merchant),
{
    let t = s.remove(i);
    let gone = s[i].merchant;
    assert forall|a: int| 0 <= a < t.len() implies #[trigger] t[a] == (if a < i {
        s[a]
    } else {
        s[a + 1]
    }) by {}
    assert(distinct_merchants(t)) by {
        assert forall|a: int, b: int|
            0 <= a < t.len() && 0 <= b < t.len() && a != b implies #[trigger] t[a].merchant
            != #[trigger] t[b].merchant by {
            let a2 = if a < i {
                a
            } else {
                a + 1
            };
            let b2 = if b < i {
                b
            } else {
                b + 1
            };
            assert(t[a] == s[a2]);
            assert(t[b] == s[b2]);
        }
    }
    let m = forward_map(s).remove(gone);
    assert forall|k: Seq<u8>| #[trigger] forward_map(t).contains_key(k) <==> m.contains_key(k) by {
        if has_entry(t, k) {
            let a = choose|a: int| 0 <= a < t.len() && #[trigger] t[a].merchant == k;
            let a2 = if a < i {
                a
            } else {
                a + 1
            };
            assert(t[a] == s[a2]);
            assert(s[a2].merchant == k);
            assert(a2 != i);
        }
        if has_entry(s, k) && k != gone {
            let j = choose|j: int| 0 <= j < s.len() && #[trigger] s[j].merchant == k;
            assert(j != i);
            if j < i {
                assert(t[j] == s[j]);
            } else {
                assert(t[j - 1] == s[j]);
            }
        }
    }
    assert forall|k: Seq<u8>| #[trigger] forward_map(t).contains_key(k) implies forward_map(t)[k] == m[k] by {
        let a = choose|a: int| 0 <= a < t.len() && #[trigger] t[a].merchant == k;
        let a2 = if a < i {
            a
        } else {
            a + 1
        };
        assert(t[a] == s[a2]);
        lemma_entry(t, a);
        lemma_entry(s, a2);
    }
}

} // verus!
