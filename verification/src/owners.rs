//! The owner registry's rules: the cardinality bound, lookup, and the
//! canonical (sorted, duplicate-free) form of an owner list.

use vstd::prelude::*;
use crate::account::{AccountId, Rank, lemma_precedes_asymmetric, lemma_precedes_transitive};
use crate::events::MultiSigError;

verus! {

/// The most owners an engine can have.
pub const MAX_OWNERS: u32 = 3;

/// A quorum of `requirement` is satisfiable by `owners` owners, and the owner
/// count is within the bound.
pub open spec fn requirement_is_valid(owners: int, requirement: int) -> bool {
    0 < requirement && requirement <= owners && owners <= MAX_OWNERS
}

/// Every element precedes all later ones.
pub open spec fn strictly_ascending(s: Seq<AccountId>) -> bool {
    forall|i: int, j: int| 0 <= i < j < s.len() ==> (#[trigger] s[i]).precedes(#[trigger] s[j])
}

/// Checks a quorum against an owner count.
pub fn ensure_requirement_is_valid(owners: u32, requirement: u32) -> (r: Result<(), MultiSigError>)
    ensures
        r == if requirement_is_valid(owners as int, requirement as int) {
            Ok::<(), MultiSigError>(())
        } else {
            Err::<(), MultiSigError>(MultiSigError::InvalidRequirement)
        },
{
    if 0 < requirement && requirement <= owners && owners <= MAX_OWNERS {
        Ok(())
    } else {
        Err(MultiSigError::InvalidRequirement)
    }
}

/// The first position of `owner` in `owners`, if it occurs.
pub fn position_of(owners: &Vec<AccountId>, owner: &AccountId) -> (r: Option<usize>)
    ensures
        match r {
            Some(i) => i < owners@.len() && owners@[i as int] == *owner
                && !owners@.take(i as int).contains(*owner),
            None => !owners@.contains(*owner),
        },
{
    let mut i: usize = 0;
    while i < owners.len()
        invariant
            i <= owners@.len(),
            forall|k: int| 0 <= k < i ==> owners@[k] != *owner,
        decreases owners@.len() - i,
    {
        if owners[i].same(owner) {
            return Some(i);
        }
        i += 1;
    }
    None
}

/// Whether a list holds no identity twice.
pub fn has_no_duplicates(list: &Vec<AccountId>) -> (r: bool)
    ensures
        r == list@.no_duplicates(),
{
    let mut i: usize = 0;
    while i < list.len()
        invariant
            i <= list@.len(),
            list@.take(i as int).no_duplicates(),
        decreases list@.len() - i,
    {
        match position_of(list, &list[i]) {
            Some(j) => {
                if j < i {
                    return false;
                }
            },
            None => {},
        }
        proof {
            let next = list@.take(i + 1);
            assert forall|a: int, b: int| 0 <= a < next.len() && 0 <= b < next.len() && a
                != b implies next[a] != next[b] by {
                if a < i && b < i {
                    assert(list@.take(i as int)[a] != list@.take(i as int)[b]);
                } else if a < i {
                    assert(list@.take(i as int)[a] == list@[a]);
                } else {
                    assert(list@.take(i as int)[b] == list@[b]);
                }
            }
        }
        i += 1;
    }
    assert(list@.take(list@.len() as int) == list@);
    true
}

/// Whether every entry of `list` occurs in `owners`.
pub fn all_within(list: &Vec<AccountId>, owners: &Vec<AccountId>) -> (r: bool)
    ensures
        r == list@.to_set().subset_of(owners@.to_set()),
{
    let mut i: usize = 0;
    while i < list.len()
        invariant
            i <= list@.len(),
            forall|k: int| 0 <= k < i ==> owners@.contains(#[trigger] list@[k]),
        decreases list@.len() - i,
    {
        if position_of(owners, &list[i]).is_none() {
            assert(list@.to_set().contains(list@[i as int]));
            return false;
        }
        i += 1;
    }
    true
}

/// An ascending list holds nothing twice.
pub proof fn lemma_ascending_is_duplicate_free(s: Seq<AccountId>)
    requires
        strictly_ascending(s),
    ensures
        s.no_duplicates(),
{
    assert forall|i: int, j: int| 0 <= i < s.len() && 0 <= j < s.len() && i != j implies s[i]
        != s[j] by {
        if i < j {
            lemma_precedes_asymmetric(s[i], s[j]);
        } else {
            lemma_precedes_asymmetric(s[j], s[i]);
        }
    }
}

/// Puts `owner` at its place in an ascending list, unless it is there already.
fn insert_ascending(sorted: &mut Vec<AccountId>, owner: AccountId)
    requires
        strictly_ascending(old(sorted)@),
    ensures
        strictly_ascending(final(sorted)@),
        forall|a: AccountId| final(sorted)@.contains(a) <==> (old(sorted)@.contains(a) || a == owner),
{
    let mut p: usize = 0;
    while p < sorted.len() && sorted[p].is_before(&owner)
        invariant
            p <= sorted@.len(),
            sorted@ == old(sorted)@,
            forall|k: int| 0 <= k < p ==> (#[trigger] sorted@[k]).precedes(owner),
        decreases sorted@.len() - p,
    {
        p += 1;
    }
    if p < sorted.len() {
        match sorted[p].rank(&owner) {
            Rank::Same => {
                return ;
            },
            _ => {},
        }
    }
    let ghost before = sorted@;
    sorted.insert(p, owner);
    proof {
        let after = sorted@;
        assert forall|i: int, j: int| 0 <= i < j < after.len() implies (#[trigger] after[i]).precedes(
            #[trigger] after[j],
        ) by {
            if j < p {
                assert(before[i].precedes(before[j]));
            } else if j == p {
                assert(before[i].precedes(owner));
            } else if i < p {
                assert(before[i].precedes(before[j - 1]));
            } else if i == p {
                if j - 1 > p {
                    assert(before[p as int].precedes(before[j - 1]));
                    lemma_precedes_transitive(owner, before[p as int], before[j - 1]);
                }
            } else {
                assert(before[i - 1].precedes(before[j - 1]));
            }
        }
        assert forall|a: AccountId| after.contains(a) <==> (before.contains(a) || a == owner) by {
            if before.contains(a) {
                let k = choose|k: int| 0 <= k < before.len() && before[k] == a;
                if k < p {
                    assert(after[k] == a);
                } else {
                    assert(after[k + 1] == a);
                }
            }
            if a == owner {
                assert(after[p as int] == a);
            }
            if after.contains(a) {
                let k = choose|k: int| 0 <= k < after.len() && after[k] == a;
                if k < p {
                    assert(before[k] == a);
                } else if k > p {
                    assert(before[k - 1] == a);
                }
            }
        }
    }
}

/// Sorts an owner list and drops repeated entries.
pub fn normalize_owners(owners: Vec<AccountId>) -> (sorted: Vec<AccountId>)
    ensures
        strictly_ascending(sorted@),
        sorted@.no_duplicates(),
        sorted@.to_set() == owners@.to_set(),
        sorted@.len() == owners@.to_set().len(),
{
    let mut sorted: Vec<AccountId> = Vec::new();
    let mut i: usize = 0;
    while i < owners.len()
        invariant
            i <= owners@.len(),
            strictly_ascending(sorted@),
            forall|a: AccountId| sorted@.contains(a) <==> owners@.take(i as int).contains(a),
        decreases owners@.len() - i,
    {
        let ghost seen = owners@.take(i as int);
        insert_ascending(&mut sorted, owners[i]);
        i += 1;
        proof {
            let now = owners@.take(i as int);
            assert(now == seen.push(owners@[i - 1]));
            assert forall|a: AccountId| now.contains(a) <==> (seen.contains(a) || a == owners@[i
                - 1]) by {
                if seen.contains(a) {
                    let k = choose|k: int| 0 <= k < seen.len() && seen[k] == a;
                    assert(now[k] == a);
                }
                if a == owners@[i - 1] {
                    assert(now[i - 1] == a);
                }
            }
        }
    }
    proof {
        assert(owners@.take(owners@.len() as int) == owners@);
        assert(sorted@.to_set() =~= owners@.to_set());
        lemma_ascending_is_duplicate_free(sorted@);
        sorted@.unique_seq_to_set();
    }
    sorted
}

} // verus!
