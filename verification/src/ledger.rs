//! The transaction ledger and the confirmation tracker: the live proposals,
//! each with the owners that have confirmed it and their count.

use vstd::prelude::*;
use crate::account::{AccountId, Balance};
use crate::events::TransactionId;
use crate::owners::{all_within, has_no_duplicates, position_of};

verus! {

/// A proposal: one external call, fixed once submitted.
#[derive(Debug, PartialEq, Eq)]
pub struct Transaction {
    /// The contract that the call goes to.
    pub callee: AccountId,
    /// Selects the function that is called.
    pub selector: [u8; 4],
    /// The encoded arguments, passed on as they are.
    pub input: Vec<u8>,
    /// The value sent along with the call.
    pub transferred_value: Balance,
    /// The resource budget of the call.
    pub gas_limit: u64,
    /// Whether the called contract may call back into the engine.
    pub allow_reentry: bool,
}

/// A live proposal with its confirmation trail.
pub struct PendingTransaction {
    pub(crate) id: TransactionId,
    pub(crate) transaction: Transaction,
    pub(crate) confirmed_by: Vec<AccountId>,
    pub(crate) confirmation_count: u32,
}

/// What a live proposal is, apart from how it is stored.
pub struct PendingView {
    pub transaction: Transaction,
    pub confirmed_by: Set<AccountId>,
    pub confirmation_count: nat,
}

impl PendingView {
    /// The proposal with `owner`'s confirmation recorded.
    pub open spec fn confirm(self, owner: AccountId) -> PendingView {
        if self.confirmed_by.contains(owner) {
            self
        } else {
            PendingView {
                transaction: self.transaction,
                confirmed_by: self.confirmed_by.insert(owner),
                confirmation_count: self.confirmation_count + 1,
            }
        }
    }

    /// The proposal with `owner`'s confirmation, if there was one, withdrawn.
    pub open spec fn revoke(self, owner: AccountId) -> PendingView {
        if self.confirmed_by.contains(owner) {
            PendingView {
                transaction: self.transaction,
                confirmed_by: self.confirmed_by.remove(owner),
                confirmation_count: (self.confirmation_count - 1) as nat,
            }
        } else {
            self
        }
    }
}

impl View for PendingTransaction {
    type V = PendingView;

    open(crate) spec fn view(&self) -> PendingView {
        PendingView {
            transaction: self.transaction,
            confirmed_by: self.confirmed_by@.to_set(),
            confirmation_count: self.confirmation_count as nat,
        }
    }
}

impl PendingTransaction {
    /// The proposal's id.
    pub closed spec fn key(&self) -> TransactionId {
        self.id
    }

    /// The owners that have confirmed, in the order in which they did.
    pub closed spec fn confirmers(&self) -> Seq<AccountId> {
        self.confirmed_by@
    }

    /// A row made of what was stored for a proposal.
    pub fn from_parts(
        id: TransactionId,
        transaction: Transaction,
        confirmed_by: Vec<AccountId>,
        confirmation_count: u32,
    ) -> (row: PendingTransaction)
        ensures
            row.key() == id,
            row.confirmers() == confirmed_by@,
            row@ == (PendingView {
                transaction,
                confirmed_by: confirmed_by@.to_set(),
                confirmation_count: confirmation_count as nat,
            }),
    {
        PendingTransaction { id, transaction, confirmed_by, confirmation_count }
    }

    /// What is stored for a proposal: its id, the proposal, the owners that
    /// have confirmed it, and their count.
    pub fn into_parts(self) -> (parts: (TransactionId, Transaction, Vec<AccountId>, u32))
        ensures
            parts.0 == self.key(),
            parts.1 == self@.transaction,
            parts.2@ == self.confirmers(),
            parts.3 as nat == self@.confirmation_count,
    {
        (self.id, self.transaction, self.confirmed_by, self.confirmation_count)
    }

    pub fn id(&self) -> (id: TransactionId)
        ensures
            id == self.key(),
    {
        self.id
    }

    pub fn transaction(&self) -> (t: &Transaction)
        ensures
            *t == self@.transaction,
    {
        &self.transaction
    }

    pub fn confirmed_by(&self) -> (list: &Vec<AccountId>)
        ensures
            list@ == self.confirmers(),
    {
        &self.confirmed_by
    }

    pub fn confirmation_count(&self) -> (count: u32)
        ensures
            count as nat == self@.confirmation_count,
    {
        self.confirmation_count
    }

    /// The trail lists no owner twice, and the count is its length.
    pub closed spec fn consistent(&self) -> bool {
        self.wf()
    }

    /// Checks that the trail lists no owner twice and that the count is its
    /// length.
    pub fn is_consistent(&self) -> (r: bool)
        ensures
            r == self.consistent(),
    {
        has_no_duplicates(&self.confirmed_by) && self.confirmed_by.len() <= u32::MAX as usize
            && self.confirmed_by.len() == self.confirmation_count as usize
    }

    pub(crate) open spec fn wf(&self) -> bool {
        &&& self.confirmed_by@.no_duplicates()
        &&& self.confirmation_count as nat == self.confirmed_by@.len()
    }

    /// Records `owner`; `true` if that was new.
    pub(crate) fn confirm(&mut self, owner: AccountId) -> (fresh: bool)
        requires
            old(self).wf(),
            old(self).confirmation_count < u32::MAX,
        ensures
            final(self).wf(),
            final(self).id == old(self).id,
            final(self)@ == old(self)@.confirm(owner),
            fresh == !old(self)@.confirmed_by.contains(owner),
    {
        match position_of(&self.confirmed_by, &owner) {
            Some(_) => false,
            None => {
                self.confirmed_by.push(owner);
                self.confirmation_count = self.confirmation_count + 1;
                proof {
                    assert(final(self).confirmed_by@.to_set() =~= old(self).confirmed_by@.to_set().insert(owner)) by {
                        lemma_push_to_set(old(self).confirmed_by@, owner);
                    }
                }
                true
            },
        }
    }

    /// Withdraws `owner`'s confirmation; `true` if there was one.
    pub(crate) fn revoke(&mut self, owner: AccountId) -> (found: bool)
        requires
            old(self).wf(),
        ensures
            final(self).wf(),
            final(self).id == old(self).id,
            final(self)@ == old(self)@.revoke(owner),
            found == old(self)@.confirmed_by.contains(owner),
    {
        match position_of(&self.confirmed_by, &owner) {
            Some(i) => {
                self.confirmed_by.remove(i);
                self.confirmation_count = self.confirmation_count - 1;
                proof {
                    lemma_remove_to_set(old(self).confirmed_by@, i as int);
                }
                true
            },
            None => false,
        }
    }
}

/// Appending to a list adds the element to its set.
pub proof fn lemma_push_to_set(s: Seq<AccountId>, a: AccountId)
    ensures
        s.push(a).to_set() == s.to_set().insert(a),
        s.no_duplicates() && !s.contains(a) ==> s.push(a).no_duplicates(),
{
    let p = s.push(a);
    assert forall|x: AccountId| #[trigger] p.contains(x) <==> (s.contains(x) || x == a) by {
        if p.contains(x) {
            let k = choose|k: int| 0 <= k < p.len() && p[k] == x;
            if k < s.len() {
                assert(s[k] == x);
            }
        }
        if s.contains(x) {
            let k = choose|k: int| 0 <= k < s.len() && s[k] == x;
            assert(s.push(a)[k] == x);
        }
        if x == a {
            assert(s.push(a)[s.len() as int] == x);
        }
    }
    assert(p.to_set() =~= s.to_set().insert(a));
}

/// Removing an entry of a duplicate-free list removes it from the list's set.
pub proof fn lemma_remove_to_set(s: Seq<AccountId>, i: int)
    requires
        s.no_duplicates(),
        0 <= i < s.len(),
    ensures
        s.remove(i).no_duplicates(),
        s.remove(i).to_set() == s.to_set().remove(s[i]),
{
    let r = s.remove(i);
    assert forall|x: AccountId| #[trigger] r.contains(x) <==> (s.contains(x) && x != s[i]) by {
        if s.contains(x) && x != s[i] {
            let k = choose|k: int| 0 <= k < s.len() && s[k] == x;
            if k < i {
                assert(r[k] == x);
            } else {
                assert(r[k - 1] == x);
            }
        }
        if r.contains(x) {
            let k = choose|k: int| 0 <= k < r.len() && r[k] == x;
            if k < i {
                assert(s[k] == x);
            } else {
                assert(s[k + 1] == x);
            }
        }
    }
    assert(r.to_set() =~= s.to_set().remove(s[i]));
}

/// Some row of `rows` carries `id`.
pub open(crate) spec fn holds(rows: Seq<PendingTransaction>, id: TransactionId) -> bool {
    exists|i: int| 0 <= i < rows.len() && (#[trigger] rows[i]).id == id
}

/// The position of the row that carries `id`.
pub open(crate) spec fn slot(rows: Seq<PendingTransaction>, id: TransactionId) -> int {
    choose|i: int| 0 <= i < rows.len() && (#[trigger] rows[i]).id == id
}

/// No two rows carry the same id.
pub open(crate) spec fn distinct_ids(rows: Seq<PendingTransaction>) -> bool {
    forall|i: int, j: int|
        0 <= i < j < rows.len() ==> (#[trigger] rows[i]).id != (#[trigger] rows[j]).id
}

/// The rows as a map from id to proposal.
pub open(crate) spec fn ledger_view(rows: Seq<PendingTransaction>) -> Map<
    TransactionId,
    PendingView,
> {
    Map::new(|id: TransactionId| holds(rows, id), |id: TransactionId| rows[slot(rows, id)]@)
}

/// The rows can stand as a ledger whose next id is `next_id`: their ids are
/// distinct and below `next_id`, and each row is consistent.
pub open spec fn rows_valid(rows: Seq<PendingTransaction>, next_id: TransactionId) -> bool {
    &&& forall|i: int, j: int|
        0 <= i < j < rows.len() ==> (#[trigger] rows[i]).key() != (#[trigger] rows[j]).key()
    &&& forall|i: int|
        0 <= i < rows.len() ==> (#[trigger] rows[i]).consistent() && rows[i].key() < next_id
}

proof fn lemma_slot(rows: Seq<PendingTransaction>, i: int)
    requires
        distinct_ids(rows),
        0 <= i < rows.len(),
    ensures
        holds(rows, rows[i].id),
        slot(rows, rows[i].id) == i,
{
    let id = rows[i].id;
    let j = slot(rows, id);
    assert(rows[j].id == id);
}

proof fn lemma_view_update(rows: Seq<PendingTransaction>, k: int, row: PendingTransaction)
    requires
        distinct_ids(rows),
        0 <= k < rows.len(),
        row.id == rows[k].id,
    ensures
        distinct_ids(rows.update(k, row)),
        ledger_view(rows.update(k, row)) == ledger_view(rows).insert(row.id, row@),
{
    let next = rows.update(k, row);
    assert forall|i: int| 0 <= i < rows.len() implies (#[trigger] next[i]).id == rows[i].id by {}
    assert(distinct_ids(next)) by {
        assert forall|i: int, j: int| 0 <= i < j < next.len() implies (#[trigger] next[i]).id != (
        #[trigger] next[j]).id by {
            assert(rows[i].id != rows[j].id);
        }
    }
    assert forall|id: TransactionId| holds(next, id) == (holds(rows, id) || id == row.id) by {
        if holds(next, id) {
            let i = slot(next, id);
            assert(rows[i].id == id);
        }
        if holds(rows, id) {
            let i = slot(rows, id);
            assert(next[i].id == id);
        }
        if id == row.id {
            assert(next[k].id == id);
        }
    }
    assert forall|id: TransactionId| holds(next, id) implies #[trigger] ledger_view(next)[id]
        == ledger_view(rows).insert(row.id, row@)[id] by {
        let i = slot(next, id);
        lemma_slot(next, i);
        assert(rows[i].id == id);
        lemma_slot(rows, i);
    }
    assert(ledger_view(next) =~= ledger_view(rows).insert(row.id, row@));
}

proof fn lemma_view_push(rows: Seq<PendingTransaction>, row: PendingTransaction)
    requires
        distinct_ids(rows),
        !holds(rows, row.id),
    ensures
        distinct_ids(rows.push(row)),
        ledger_view(rows.push(row)) == ledger_view(rows).insert(row.id, row@),
{
    let next = rows.push(row);
    assert(distinct_ids(next)) by {
        assert forall|i: int, j: int| 0 <= i < j < next.len() implies (#[trigger] next[i]).id != (
        #[trigger] next[j]).id by {
            assert(rows[i].id == next[i].id);
            if j < rows.len() {
                assert(rows[j].id == next[j].id);
            }
        }
    }
    assert forall|id: TransactionId| holds(next, id) == (holds(rows, id) || id == row.id) by {
        if holds(next, id) {
            let i = slot(next, id);
            if i < rows.len() {
                assert(rows[i].id == id);
            }
        }
        if holds(rows, id) {
            let i = slot(rows, id);
            assert(next[i].id == id);
        }
        if id == row.id {
            assert(next[rows.len() as int].id == id);
        }
    }
    assert forall|id: TransactionId| holds(next, id) implies #[trigger] ledger_view(next)[id]
        == ledger_view(rows).insert(row.id, row@)[id] by {
        let i = slot(next, id);
        lemma_slot(next, i);
        if i < rows.len() {
            assert(rows[i].id == id);
            lemma_slot(rows, i);
        }
    }
    assert(ledger_view(next) =~= ledger_view(rows).insert(row.id, row@));
}

proof fn lemma_view_remove(rows: Seq<PendingTransaction>, k: int)
    requires
        distinct_ids(rows),
        0 <= k < rows.len(),
    ensures
        distinct_ids(rows.remove(k)),
        ledger_view(rows.remove(k)) == ledger_view(rows).remove(rows[k].id),
{
    let next = rows.remove(k);
    assert forall|i: int| 0 <= i < next.len() implies (#[trigger] next[i]) == rows[if i < k {
        i
    } else {
        i + 1
    }] by {}
    assert(distinct_ids(next)) by {
        assert forall|i: int, j: int| 0 <= i < j < next.len() implies (#[trigger] next[i]).id != (
        #[trigger] next[j]).id by {
            let a = if i < k { i } else { i + 1 };
            let b = if j < k { j } else { j + 1 };
            assert(rows[a].id != rows[b].id);
        }
    }
    assert forall|id: TransactionId| holds(next, id) == (holds(rows, id) && id != rows[k].id) by {
        if holds(next, id) {
            let i = slot(next, id);
            let a = if i < k { i } else { i + 1 };
            assert(rows[a].id == id);
            lemma_slot(rows, a);
            lemma_slot(rows, k);
        }
        if holds(rows, id) && id != rows[k].id {
            let a = slot(rows, id);
            let i = if a < k { a } else { a - 1 };
            assert(next[i].id == id);
        }
    }
    assert forall|id: TransactionId| holds(next, id) implies #[trigger] ledger_view(next)[id]
        == ledger_view(rows).remove(rows[k].id)[id] by {
        let i = slot(next, id);
        lemma_slot(next, i);
        let a = if i < k { i } else { i + 1 };
        assert(rows[a].id == id);
        lemma_slot(rows, a);
    }
    assert(ledger_view(next) =~= ledger_view(rows).remove(rows[k].id));
}

/// The live proposals, and the id that the next one will get.
pub struct Transactions {
    pub(crate) transactions: Vec<PendingTransaction>,
    pub(crate) next_id: TransactionId,
}

impl View for Transactions {
    type V = Map<TransactionId, PendingView>;

    /// The live proposals by id.
    open(crate) spec fn view(&self) -> Map<TransactionId, PendingView> {
        ledger_view(self.transactions@)
    }
}

impl Transactions {
    /// The id that the next proposal will get.
    pub open(crate) spec fn upcoming(&self) -> TransactionId {
        self.next_id
    }

    /// Ids are distinct and below the next one; each trail lists its owners
    /// once and its count is their number.
    pub open(crate) spec fn wf(&self) -> bool {
        &&& distinct_ids(self.transactions@)
        &&& forall|i: int|
            0 <= i < self.transactions@.len() ==> (#[trigger] self.transactions@[i]).wf()
                && self.transactions@[i].id < self.next_id
    }

    /// An empty ledger that starts counting at zero.
    pub fn new() -> (ledger: Transactions)
        ensures
            ledger.wf(),
            ledger@ == Map::<TransactionId, PendingView>::empty(),
            ledger.upcoming() == 0,
    {
        let ledger = Transactions { transactions: Vec::new(), next_id: 0 };
        assert(ledger@ =~= Map::<TransactionId, PendingView>::empty());
        ledger
    }

    /// The rows, in the order in which the proposals were submitted.
    pub closed spec fn rows(&self) -> Seq<PendingTransaction> {
        self.transactions@
    }

    /// A ledger made of stored rows and the next id, if they are valid.
    pub fn from_parts(rows: Vec<PendingTransaction>, next_id: TransactionId) -> (r: Option<
        Transactions,
    >)
        ensures
            r.is_some() == rows_valid(rows@, next_id),
            r.is_some() ==> r.unwrap().wf() && r.unwrap().rows() == rows@ && r.unwrap().upcoming()
                == next_id && r.unwrap()@ == ledger_view(rows@),
    {
        let mut i: usize = 0;
        while i < rows.len()
            invariant
                i <= rows@.len(),
                rows_valid(rows@.take(i as int), next_id),
            decreases rows@.len() - i,
        {
            let ghost seen = rows@.take(i as int);
            let ghost next = rows@.take(i + 1);
            if !rows[i].is_consistent() || rows[i].id >= next_id {
                return None;
            }
            let mut j: usize = 0;
            while j < i
                invariant
                    j <= i < rows@.len(),
                    forall|k: int| 0 <= k < j ==> (#[trigger] rows@[k]).id != rows@[i as int].id,
                decreases i - j,
            {
                if rows[j].id == rows[i].id {
                    return None;
                }
                j += 1;
            }
            proof {
                assert forall|a: int, b: int| 0 <= a < b < next.len() implies (#[trigger] next[a]).key()
                    != (#[trigger] next[b]).key() by {
                    if b < i {
                        assert(seen[a].key() != seen[b].key());
                    }
                }
                assert forall|a: int| 0 <= a < next.len() implies (#[trigger] next[a]).consistent()
                    && next[a].key() < next_id by {
                    if a < i {
                        assert(seen[a].consistent());
                    }
                }
            }
            i += 1;
        }
        assert(rows@.take(rows@.len() as int) == rows@);
        Some(Transactions { transactions: rows, next_id })
    }

    /// The stored rows and the next id.
    pub fn into_parts(self) -> (parts: (Vec<PendingTransaction>, TransactionId))
        requires
            self.wf(),
        ensures
            parts.0@ == self.rows(),
            parts.1 == self.upcoming(),
            rows_valid(parts.0@, parts.1),
            ledger_view(parts.0@) == self@,
    {
        (self.transactions, self.next_id)
    }

    /// Whether every confirmation on record is by one of `owners`.
    pub fn confirmers_within(&self, owners: &Vec<AccountId>) -> (r: bool)
        requires
            self.wf(),
        ensures
            r == forall|id: TransactionId| #[trigger]
                self@.contains_key(id) ==> self@[id].confirmed_by.subset_of(owners@.to_set()),
    {
        let mut i: usize = 0;
        while i < self.transactions.len()
            invariant
                self.wf(),
                i <= self.transactions@.len(),
                forall|k: int|
                    0 <= k < i ==> (#[trigger] self.transactions@[k])@.confirmed_by.subset_of(
                        owners@.to_set(),
                    ),
            decreases self.transactions@.len() - i,
        {
            if !all_within(&self.transactions[i].confirmed_by, owners) {
                proof {
                    lemma_slot(self.transactions@, i as int);
                    assert(self@.contains_key(self.transactions@[i as int].id));
                }
                return false;
            }
            i += 1;
        }
        proof {
            assert forall|id: TransactionId| #[trigger] self@.contains_key(id) implies self@[id].confirmed_by.subset_of(
            owners@.to_set()) by {
                let k = slot(self.transactions@, id);
                assert(self.transactions@[k]@.confirmed_by.subset_of(owners@.to_set()));
            }
        }
        true
    }

    /// The row that carries `id`.
    pub(crate) fn find(&self, id: TransactionId) -> (r: Option<usize>)
        requires
            self.wf(),
        ensures
            match r {
                Some(k) => k < self.transactions@.len() && self.transactions@[k as int].id == id
                    && self@.contains_key(id) && self@[id] == self.transactions@[k as int]@,
                None => !self@.contains_key(id),
            },
    {
        let mut k: usize = 0;
        while k < self.transactions.len()
            invariant
                self.wf(),
                k <= self.transactions@.len(),
                forall|i: int| 0 <= i < k ==> (#[trigger] self.transactions@[i]).id != id,
            decreases self.transactions@.len() - k,
        {
            if self.transactions[k].id == id {
                proof {
                    lemma_slot(self.transactions@, k as int);
                }
                return Some(k);
            }
            k += 1;
        }
        None
    }

    /// Records `owner`'s confirmation of `id`.
    pub fn confirm(&mut self, id: TransactionId, owner: AccountId) -> (r: Option<(bool, u32)>)
        requires
            old(self).wf(),
            old(self)@.contains_key(id) ==> old(self)@[id].confirmation_count < u32::MAX,
        ensures
            final(self).wf(),
            final(self).upcoming() == old(self).upcoming(),
            !old(self)@.contains_key(id) ==> r.is_none() && final(self)@ == old(self)@,
            old(self)@.contains_key(id) ==> final(self)@ == old(self)@.insert(
                id,
                old(self)@[id].confirm(owner),
            ) && r == Some(
                (
                    !old(self)@[id].confirmed_by.contains(owner),
                    final(self)@[id].confirmation_count as u32,
                ),
            ),
    {
        match self.find(id) {
            None => None,
            Some(k) => {
                let fresh = self.transactions[k].confirm(owner);
                proof {
                    lemma_view_update(old(self).transactions@, k as int, self.transactions@[k as int]);
                    assert(self.transactions@ =~= old(self).transactions@.update(k as int, self.transactions@[k as int]));
                }
                Some((fresh, self.transactions[k].confirmation_count))
            },
        }
    }
}

/// In a well-formed ledger every live id is below the next one, and each count
/// is the number of owners recorded for that id.
pub proof fn lemma_ledger_counts(ledger: Transactions)
    requires
        ledger.wf(),
    ensures
        forall|id: TransactionId| #[trigger]
            ledger@.contains_key(id) ==> id < ledger.upcoming()
                && ledger@[id].confirmed_by.finite() && ledger@[id].confirmed_by.len()
                == ledger@[id].confirmation_count,
{
    assert forall|id: TransactionId| #[trigger] ledger@.contains_key(id) implies id
        < ledger.upcoming() && ledger@[id].confirmed_by.finite() && ledger@[id].confirmed_by.len()
        == ledger@[id].confirmation_count by {
        let i = slot(ledger.transactions@, id);
        assert(ledger.transactions@[i].wf());
        ledger.transactions@[i].confirmed_by@.unique_seq_to_set();
    }
}

impl Transactions {
    /// Whether `id` is live.
    pub fn contains(&self, id: TransactionId) -> (r: bool)
        requires
            self.wf(),
        ensures
            r == self@.contains_key(id),
    {
        self.find(id).is_some()
    }

    /// How many owners have confirmed `id`, if it is live.
    pub fn confirmation_count(&self, id: TransactionId) -> (r: Option<u32>)
        requires
            self.wf(),
        ensures
            r.is_some() == self@.contains_key(id),
            r.is_some() ==> r.unwrap() as nat == self@[id].confirmation_count,
    {
        match self.find(id) {
            Some(k) => Some(self.transactions[k].confirmation_count),
            None => None,
        }
    }

    /// The value that `id` declares for its call, if it is live.
    pub fn declared_value(&self, id: TransactionId) -> (r: Option<Balance>)
        requires
            self.wf(),
        ensures
            r == if self@.contains_key(id) {
                Some(self@[id].transaction.transferred_value)
            } else {
                None
            },
    {
        match self.find(id) {
            Some(k) => Some(self.transactions[k].transaction.transferred_value),
            None => None,
        }
    }

    /// Whether `owner` has a confirmation recorded for `id`.
    pub fn has_confirmed(&self, id: TransactionId, owner: &AccountId) -> (r: bool)
        requires
            self.wf(),
        ensures
            r == (self@.contains_key(id) && self@[id].confirmed_by.contains(*owner)),
    {
        match self.find(id) {
            Some(k) => position_of(&self.transactions[k].confirmed_by, owner).is_some(),
            None => false,
        }
    }

    /// The id that the next proposal will get.
    pub fn next_id(&self) -> (id: TransactionId)
        ensures
            id == self.upcoming(),
    {
        self.next_id
    }

    /// Stores a proposal under the next id, with no confirmation yet. Once
    /// the ids are used up nothing is stored any more.
    pub fn add(&mut self, transaction: Transaction) -> (r: Option<TransactionId>)
        requires
            old(self).wf(),
        ensures
            final(self).wf(),
            r == if old(self).upcoming() < u32::MAX {
                Some(old(self).upcoming())
            } else {
                None
            },
            r.is_none() ==> final(self)@ == old(self)@ && final(self).upcoming() == old(self).upcoming(),
            r.is_some() ==> final(self).upcoming() == old(self).upcoming() + 1 && !old(self)@.contains_key(old(self).upcoming()) && final(self)@ == old(self)@.insert(
                old(self).upcoming(),
                PendingView {
                    transaction,
                    confirmed_by: Set::<AccountId>::empty(),
                    confirmation_count: 0,
                },
            ),
    {
        if self.next_id == u32::MAX {
            return None;
        }
        let id = self.next_id;
        let row = PendingTransaction {
            id,
            transaction,
            confirmed_by: Vec::new(),
            confirmation_count: 0,
        };
        proof {
            assert(row.confirmed_by@.to_set() =~= Set::<AccountId>::empty());
            if holds(self.transactions@, id) {
                let i = slot(self.transactions@, id);
                assert(self.transactions@[i].id < self.next_id);
            }
            lemma_view_push(self.transactions@, row);
        }
        self.transactions.push(row);
        self.next_id = id + 1;
        Some(id)
    }

    /// Removes `id` together with its confirmation trail and hands the
    /// proposal out; `None`, and nothing changes, if `id` is not live.
    pub fn take(&mut self, id: TransactionId) -> (r: Option<Transaction>)
        requires
            old(self).wf(),
        ensures
            final(self).wf(),
            final(self).upcoming() == old(self).upcoming(),
            match r {
                Some(t) => old(self)@.contains_key(id) && t == old(self)@[id].transaction
                    && final(self)@ == old(self)@.remove(id),
                None => !old(self)@.contains_key(id) && final(self)@ == old(self)@,
            },
    {
        match self.find(id) {
            None => None,
            Some(k) => {
                proof {
                    lemma_view_remove(self.transactions@, k as int);
                }
                let row = self.transactions.remove(k);
                Some(row.transaction)
            },
        }
    }

    /// Withdraws `owner`'s confirmation of `id`; `true` if there was one.
    pub fn revoke(&mut self, id: TransactionId, owner: AccountId) -> (found: bool)
        requires
            old(self).wf(),
        ensures
            final(self).wf(),
            final(self).upcoming() == old(self).upcoming(),
            found == (old(self)@.contains_key(id) && old(self)@[id].confirmed_by.contains(owner)),
            final(self)@ == if old(self)@.contains_key(id) {
                old(self)@.insert(id, old(self)@[id].revoke(owner))
            } else {
                old(self)@
            },
    {
        match self.find(id) {
            None => false,
            Some(k) => {
                let found = self.transactions[k].revoke(owner);
                proof {
                    lemma_view_update(
                        old(self).transactions@,
                        k as int,
                        self.transactions@[k as int],
                    );
                    assert(self.transactions@ =~= old(self).transactions@.update(
                        k as int,
                        self.transactions@[k as int],
                    ));
                }
                found
            },
        }
    }

    /// Withdraws every confirmation that `owner` has given.
    pub fn purge_owner(&mut self, owner: AccountId)
        requires
            old(self).wf(),
        ensures
            final(self).wf(),
            final(self).upcoming() == old(self).upcoming(),
            final(self)@ == old(self)@.map_values(|p: PendingView| p.revoke(owner)),
    {
        let mut k: usize = 0;
        while k < self.transactions.len()
            invariant
                self.wf(),
                self.next_id == old(self).next_id,
                k <= self.transactions@.len(),
                self.transactions@.len() == old(self).transactions@.len(),
                forall|i: int|
                    0 <= i < self.transactions@.len() ==> (#[trigger] self.transactions@[i]).id
                        == old(self).transactions@[i].id,
                forall|i: int|
                    0 <= i < k ==> (#[trigger] self.transactions@[i])@ == old(self).transactions@[i]@.revoke(owner),
                forall|i: int|
                    k <= i < self.transactions@.len() ==> (#[trigger] self.transactions@[i])
                        == old(self).transactions@[i],
            decreases self.transactions@.len() - k,
        {
            let ghost before = self.transactions@;
            self.transactions[k].revoke(owner);
            proof {
                assert(self.transactions@ =~= before.update(k as int, self.transactions@[k as int]));
                lemma_view_update(before, k as int, self.transactions@[k as int]);
            }
            k += 1;
        }
        proof {
            let a = old(self).transactions@;
            let b = self.transactions@;
            let target = old(self)@.map_values(|p: PendingView| p.revoke(owner));
            assert forall|id: TransactionId| holds(a, id) == holds(b, id) by {
                if holds(a, id) {
                    assert(b[slot(a, id)].id == id);
                }
                if holds(b, id) {
                    assert(a[slot(b, id)].id == id);
                }
            }
            assert forall|id: TransactionId| holds(b, id) implies #[trigger] self@[id]
                == target[id] by {
                let i = slot(b, id);
                lemma_slot(b, i);
                assert(a[i].id == id);
                lemma_slot(a, i);
            }
            assert(self@ =~= target);
        }
    }
}

} // verus!
