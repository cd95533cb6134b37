//! Identities and the order the engine keeps them in.

use vstd::prelude::*;

verus! {

/// An amount of the host's currency.
pub type Balance = u128;

/// A 32-byte identity, as the host reports it for callers and contracts.
#[derive(Clone, Copy, Debug, PartialEq, Eq, Hash)]
pub struct AccountId {
    pub bytes: [u8; 32],
}

/// How one identity stands to another in byte-wise lexicographic order.
#[derive(Clone, Copy, Debug, PartialEq, Eq)]
pub enum Rank {
    Before,
    Same,
    After,
}

/// `a` and `b` hold the same bytes at every position below `i`.
pub open spec fn agree_before(a: AccountId, b: AccountId, i: int) -> bool {
    forall|j: int| 0 <= j < i ==> #[trigger] a.bytes[j] == b.bytes[j]
}

/// Position `i` is the first at which `a` and `b` differ, and `a` is smaller there.
pub open spec fn precedes_at(a: AccountId, b: AccountId, i: int) -> bool {
    &&& 0 <= i < 32
    &&& agree_before(a, b, i)
    &&& a.bytes[i] < b.bytes[i]
}

impl AccountId {
    /// Strict lexicographic order on the 32 bytes.
    pub open spec fn precedes(self, other: AccountId) -> bool {
        exists|i: int| precedes_at(self, other, i)
    }

    pub fn new(bytes: [u8; 32]) -> (id: AccountId)
        ensures
            id.bytes == bytes,
    {
        AccountId { bytes }
    }

    /// Compares two identities byte by byte.
    pub fn rank(&self, other: &AccountId) -> (r: Rank)
        ensures
            r == Rank::Before <==> self.precedes(*other),
            r == Rank::Same <==> *self == *other,
            r == Rank::After <==> other.precedes(*self),
    {
        proof {
            lemma_precedes_asymmetric(*self, *other);
            lemma_precedes_asymmetric(*other, *self);
        }
        let mut i: usize = 0;
        while i < 32
            invariant
                0 <= i <= 32,
                agree_before(*self, *other, i as int),
            decreases 32 - i,
        {
            if self.bytes[i] < other.bytes[i] {
                assert(precedes_at(*self, *other, i as int));
                return Rank::Before;
            }
            if self.bytes[i] > other.bytes[i] {
                assert(agree_before(*other, *self, i as int));
                assert(precedes_at(*other, *self, i as int));
                return Rank::After;
            }
            i += 1;
        }
        assert(self.bytes =~= other.bytes);
        Rank::Same
    }

    /// Whether this identity comes strictly before `other`.
    pub fn is_before(&self, other: &AccountId) -> (r: bool)
        ensures
            r == self.precedes(*other),
    {
        match self.rank(other) {
            Rank::Before => true,
            _ => false,
        }
    }

    /// Whether two identities are the same.
    pub fn same(&self, other: &AccountId) -> (r: bool)
        ensures
            r == (*self == *other),
    {
        match self.rank(other) {
            Rank::Same => true,
            _ => false,
        }
    }
}

/// Of two identities at most one precedes the other, and then they differ.
pub proof fn lemma_precedes_asymmetric(a: AccountId, b: AccountId)
    ensures
        a.precedes(b) ==> !b.precedes(a) && a != b,
{
    if a.precedes(b) {
        let i = choose|i: int| precedes_at(a, b, i);
        assert(a.bytes[i] != b.bytes[i]);
        if b.precedes(a) {
            let j = choose|j: int| precedes_at(b, a, j);
            if i < j {
                assert(b.bytes[i] == a.bytes[i]);
            } else if j < i {
                assert(a.bytes[j] == b.bytes[j]);
            }
        }
    }
}

/// The order is transitive.
pub proof fn lemma_precedes_transitive(a: AccountId, b: AccountId, c: AccountId)
    requires
        a.precedes(b),
        b.precedes(c),
    ensures
        a.precedes(c),
{
    let i = choose|i: int| precedes_at(a, b, i);
    let j = choose|j: int| precedes_at(b, c, j);
    let k = if i <= j { i } else { j };
    assert forall|m: int| 0 <= m < k implies #[trigger] a.bytes[m] == c.bytes[m] by {
        assert(a.bytes[m] == b.bytes[m]);
        assert(b.bytes[m] == c.bytes[m]);
    }
    if i < j {
        assert(b.bytes[i] == c.bytes[i]);
    } else if j < i {
        assert(a.bytes[j] == b.bytes[j]);
    }
    assert(precedes_at(a, c, k));
}

} // verus!
