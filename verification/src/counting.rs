//! Counting set flags in a sequence of booleans.

use vstd::prelude::*;

verus! {

/// Number of `true` entries of `s`.
pub open spec fn count_true(s: Seq<bool>) -> nat
    decreases s.len(),
{
    if s.len() == 0 {
        0
    } else {
        count_true(s.drop_last()) + if s.last() {
            1nat
        } else {
            0nat
        }
    }
}

/// A sequence never has more set flags than entries.
pub proof fn lemma_count_true_le_len(s: Seq<bool>)
    ensures
        count_true(s) <= s.len(),
    decreases s.len(),
{
    if s.len() > 0 {
        lemma_count_true_le_len(s.drop_last());
    }
}

/// Appending a flag adds one to the count exactly when the flag is set.
pub proof fn lemma_count_true_push(s: Seq<bool>, b: bool)
    ensures
        count_true(s.push(b)) == count_true(s) + if b {
            1nat
        } else {
            0nat
        },
{
    assert(s.push(b).drop_last() =~= s);
}

/// Setting a flag that was clear adds one to the count.
pub proof fn lemma_count_true_set(s: Seq<bool>, i: int)
    requires
        0 <= i < s.len(),
        !s[i],
    ensures
        count_true(s.update(i, true)) == count_true(s) + 1,
    decreases s.len(),
{
    let t = s.update(i, true);
    if i == s.len() - 1 {
        assert(t.drop_last() =~= s.drop_last());
    } else {
        lemma_count_true_set(s.drop_last(), i);
        assert(t.drop_last() =~= s.drop_last().update(i, true));
    }
}

/// A sequence of clear flags counts zero.
pub proof fn lemma_count_true_all_clear(n: nat)
    ensures
        count_true(Seq::new(n, |j: int| false)) == 0,
    decreases n,
{
    if n > 0 {
        let s = Seq::new(n, |j: int| false);
        assert(s.drop_last() =~= Seq::new((n - 1) as nat, |j: int| false));
        lemma_count_true_all_clear((n - 1) as nat);
    }
}

/// The count reaches the length exactly when every flag is set.
pub proof fn lemma_count_true_full(s: Seq<bool>)
    ensures
        (count_true(s) == s.len()) <==> (forall|j: int| 0 <= j < s.len() ==> s[j]),
    decreases s.len(),
{
    if s.len() > 0 {
        let d = s.drop_last();
        lemma_count_true_full(d);
        lemma_count_true_le_len(d);
        if forall|j: int| 0 <= j < s.len() ==> s[j] {
            assert forall|j: int| 0 <= j < d.len() implies d[j] by {
                assert(s[j]);
            }
            assert(s[s.len() - 1]);
        }
        if count_true(s) == s.len() {
            assert forall|j: int| 0 <= j < s.len() implies s[j] by {
                if j < s.len() - 1 {
                    assert(d[j]);
                }
            }
        }
    }
}

} // verus!
