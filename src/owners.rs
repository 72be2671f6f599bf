use vstd::prelude::*;
use std::collections::HashSet;
use crate::types::AccountId;

verus! {

broadcast use vstd::std_specs::hash::group_hash_axioms;

/// The accounts of `s` with repeats removed: each account stays at its first
/// occurrence, and the order of first occurrences is kept.
pub open spec fn dedup(s: Seq<AccountId>) -> Seq<AccountId>
    decreases s.len(),
{
    if s.len() == 0 {
        Seq::empty()
    } else {
        let d = dedup(s.drop_last());
        if s.drop_last().contains(s.last()) {
            d
        } else {
            d.push(s.last())
        }
    }
}

/// Removing repeats keeps exactly the accounts that occur.
pub proof fn lemma_dedup_contains(s: Seq<AccountId>, a: AccountId)
    ensures
        dedup(s).contains(a) <==> s.contains(a),
    decreases s.len(),
{
    if s.len() > 0 {
        let p = s.drop_last();
        let x = s.last();
        lemma_dedup_contains(p, a);
        assert(s.contains(a) <==> (p.contains(a) || a == x)) by {
            if s.contains(a) {
                let k = choose|k: int| 0 <= k < s.len() && s[k] == a;
                if k < p.len() {
                    assert(p[k] == a);
                }
            }
            if p.contains(a) {
                let k = choose|k: int| 0 <= k < p.len() && p[k] == a;
                assert(s[k] == a);
            }
            if a == x {
                assert(s[s.len() - 1] == a);
            }
        }
        if !p.contains(x) {
            let d = dedup(p);
            assert(dedup(s).contains(a) <==> (d.contains(a) || a == x)) by {
                if dedup(s).contains(a) {
                    let k = choose|k: int| 0 <= k < dedup(s).len() && dedup(s)[k] == a;
                    if k < d.len() {
                        assert(d[k] == a);
                    }
                }
                if d.contains(a) {
                    let k = choose|k: int| 0 <= k < d.len() && d[k] == a;
                    assert(dedup(s)[k] == a);
                }
                if a == x {
                    assert(dedup(s)[d.len() as int] == a);
                }
            }
        }
    }
}

/// Removing repeats leaves no account twice.
pub proof fn lemma_dedup_no_duplicates(s: Seq<AccountId>)
    ensures
        dedup(s).no_duplicates(),
    decreases s.len(),
{
    if s.len() > 0 {
        let p = s.drop_last();
        lemma_dedup_no_duplicates(p);
        lemma_dedup_contains(p, s.last());
    }
}

/// Removing repeats never lengthens the sequence.
pub proof fn lemma_dedup_len(s: Seq<AccountId>)
    ensures
        dedup(s).len() <= s.len(),
        s.len() > 0 ==> dedup(s).len() > 0,
    decreases s.len(),
{
    if s.len() > 0 {
        lemma_dedup_len(s.drop_last());
    }
}

/// In `s`, account `a` occurs before any occurrence of account `b`.
pub open spec fn seen_before(s: Seq<AccountId>, a: AccountId, b: AccountId) -> bool {
    exists|i: int| 0 <= i < s.len() && s[i] == a && forall|k: int| 0 <= k <= i ==> s[k] != b
}

/// Removing repeats keeps the order in which accounts are first seen.
pub proof fn lemma_dedup_order(s: Seq<AccountId>, i: int, j: int)
    requires
        0 <= i < j < dedup(s).len(),
    ensures
        seen_before(s, dedup(s)[i], dedup(s)[j]),
    decreases s.len(),
{
    let p = s.drop_last();
    let x = s.last();
    let d = dedup(p);
    if p.contains(x) || j < d.len() {
        lemma_dedup_order(p, i, j);
        let a = d[i];
        let b = d[j];
        let w = choose|w: int| 0 <= w < p.len() && p[w] == a && forall|k: int| 0 <= k <= w ==> p[k] != b;
        assert forall|k: int| 0 <= k <= w implies s[k] != b by {
            assert(s[k] == p[k]);
        }
        assert(s[w] == a);
        assert(dedup(s)[i] == a && dedup(s)[j] == b);
    } else {
        let a = d[i];
        assert(d.contains(a));
        lemma_dedup_contains(p, a);
        let w = choose|w: int| 0 <= w < p.len() && p[w] == a;
        assert forall|k: int| 0 <= k <= w implies s[k] != x by {
            assert(s[k] == p[k]);
        }
        assert(s[w] == a);
        assert(dedup(s)[i] == a && dedup(s)[j] == x);
    }
}

/// The owners in the order given, each kept at its first occurrence.
pub fn dedup_owners(owners: &Vec<AccountId>) -> (r: Vec<AccountId>)
    ensures
        r@ == dedup(owners@),
{
    let mut seen: HashSet<AccountId> = HashSet::new();
    let mut r: Vec<AccountId> = Vec::new();
    let mut i: usize = 0;
    while i < owners.len()
        invariant
            i <= owners.len(),
            r@ == dedup(owners@.take(i as int)),
            forall|a: AccountId| seen@.contains(a) <==> r@.contains(a),
        decreases owners.len() - i,
    {
        let a = owners[i];
        let ghost t = owners@.take(i as int);
        proof {
            lemma_dedup_contains(t, a);
            assert(owners@.take(i + 1).drop_last() =~= t);
        }
        if !seen.contains(&a) {
            let ghost r0 = r@;
            seen.insert(a);
            r.push(a);
            proof {
                assert forall|b: AccountId| r@.contains(b) <==> (r0.contains(b) || b == a) by {
                    if r@.contains(b) {
                        let k = choose|k: int| 0 <= k < r@.len() && r@[k] == b;
                        if k < r0.len() {
                            assert(r0[k] == b);
                        }
                    }
                    if r0.contains(b) {
                        let k = choose|k: int| 0 <= k < r0.len() && r0[k] == b;
                        assert(r@[k] == b);
                    }
                    if b == a {
                        assert(r@[r0.len() as int] == b);
                    }
                }
            }
        }
        i = i + 1;
    }
    assert(owners@.take(i as int) =~= owners@);
    r
}

} // verus!
