use vstd::prelude::*;
use vstd::pervasive::VecAdditionalExecFns;
use crate::address::Address;
use crate::errors::LedgerError;

verus! {

/// No two entries of the sequence carry the same address.
pub open spec fn distinct_keys(s: Seq<(Address, u128)>) -> bool {
    forall|i: int, j: int| 0 <= i < j < s.len() ==> s[i].0 != s[j].0
}

/// The sum of all amounts stored in the sequence.
pub open spec fn sum_amounts(s: Seq<(Address, u128)>) -> int
    decreases s.len(),
{
    if s.len() == 0 {
        0
    } else {
        sum_amounts(s.drop_last()) + s.last().1
    }
}

/// The amount recorded for `a`, zero when no entry carries `a`.
pub open spec fn lookup(s: Seq<(Address, u128)>, a: Address) -> u128
    decreases s.len(),
{
    if s.len() == 0 {
        0u128
    } else if s.last().0 == a {
        s.last().1
    } else {
        lookup(s.drop_last(), a)
    }
}

/// A sum of unsigned amounts is never negative.
pub proof fn lemma_sum_nonneg(s: Seq<(Address, u128)>)
    ensures
        sum_amounts(s) >= 0,
    decreases s.len(),
{
    if s.len() > 0 {
        lemma_sum_nonneg(s.drop_last());
    }
}

/// Replacing the entry at `i` changes the sum by exactly the difference of
/// the amounts.
pub proof fn lemma_sum_update(s: Seq<(Address, u128)>, i: int, v: (Address, u128))
    requires
        0 <= i < s.len(),
    ensures
        sum_amounts(s.update(i, v)) == sum_amounts(s) - s[i].1 + v.1,
    decreases s.len(),
{
    let t = s.update(i, v);
    if i == s.len() - 1 {
        assert(t.drop_last() =~= s.drop_last());
    } else {
        assert(t.drop_last() =~= s.drop_last().update(i, v));
        lemma_sum_update(s.drop_last(), i, v);
    }
}

/// An address that appears in no entry looks up to zero.
pub proof fn lemma_lookup_absent(s: Seq<(Address, u128)>, a: Address)
    requires
        forall|j: int| 0 <= j < s.len() ==> s[j].0 != a,
    ensures
        lookup(s, a) == 0,
    decreases s.len(),
{
    if s.len() > 0 {
        lemma_lookup_absent(s.drop_last(), a);
    }
}

/// With distinct keys, the entry at `i` is what its address looks up to.
pub proof fn lemma_lookup_at(s: Seq<(Address, u128)>, i: int)
    requires
        distinct_keys(s),
        0 <= i < s.len(),
    ensures
        lookup(s, s[i].0) == s[i].1,
    decreases s.len(),
{
    if i < s.len() - 1 {
        assert(distinct_keys(s.drop_last()));
        lemma_lookup_at(s.drop_last(), i);
    }
}

/// No single entry exceeds the sum of all amounts.
pub proof fn lemma_lookup_le_sum(s: Seq<(Address, u128)>, a: Address)
    ensures
        lookup(s, a) <= sum_amounts(s),
    decreases s.len(),
{
    if s.len() > 0 {
        lemma_sum_nonneg(s.drop_last());
        lemma_lookup_le_sum(s.drop_last(), a);
    }
}

/// Replacing the entry at `i` with one of the same address changes that
/// address's lookup to the new amount and no other lookup at all.
pub proof fn lemma_lookup_update(s: Seq<(Address, u128)>, i: int, v: (Address, u128))
    requires
        distinct_keys(s),
        0 <= i < s.len(),
        v.0 == s[i].0,
    ensures
        distinct_keys(s.update(i, v)),
        lookup(s.update(i, v), v.0) == v.1,
        forall|b: Address| b != v.0 ==> lookup(s.update(i, v), b) == lookup(s, b),
    decreases s.len(),
{
    let t = s.update(i, v);
    assert(distinct_keys(t));
    lemma_lookup_at(t, i);
    if i == s.len() - 1 {
        assert(t.drop_last() =~= s.drop_last());
        assert forall|b: Address| b != v.0 implies lookup(t, b) == lookup(s, b) by {
            assert(lookup(t, b) == lookup(t.drop_last(), b));
            assert(lookup(s, b) == lookup(s.drop_last(), b));
        }
    } else {
        assert(t.drop_last() =~= s.drop_last().update(i, v));
        assert(distinct_keys(s.drop_last()));
        lemma_lookup_update(s.drop_last(), i, v);
        assert forall|b: Address| b != v.0 implies lookup(t, b) == lookup(s, b) by {
            assert(t.last() == s.last());
            if s.last().0 != b {
                assert(lookup(t, b) == lookup(t.drop_last(), b));
                assert(lookup(s, b) == lookup(s.drop_last(), b));
            }
        }
    }
}

/// Appending an entry with a fresh address keeps the keys distinct, adds its
/// amount to the sum, and changes no other address's lookup.
pub proof fn lemma_push_fresh(s: Seq<(Address, u128)>, p: (Address, u128))
    requires
        distinct_keys(s),
        forall|j: int| 0 <= j < s.len() ==> s[j].0 != p.0,
    ensures
        distinct_keys(s.push(p)),
        sum_amounts(s.push(p)) == sum_amounts(s) + p.1,
        lookup(s.push(p), p.0) == p.1,
        forall|b: Address| b != p.0 ==> lookup(s.push(p), b) == lookup(s, b),
{
    let t = s.push(p);
    assert(t.drop_last() =~= s);
}

/// The balance ledger: a mapping of addresses to unsigned balances together
/// with the total-supply counter. Absent addresses hold balance zero; an
/// entry, once created, stays (a balance may return to zero but the entry is
/// never removed). Conservation — the sum of all balances equals the total
/// supply — is part of well-formedness and is preserved by every operation.
pub struct Ledger {
    entries: Vec<(Address, u128)>,
    total: u128,
}

impl Ledger {
    /// The stored balance entries, one per address ever credited.
    pub closed spec fn spec_balances(self) -> Seq<(Address, u128)> {
        self.entries@
    }

    /// The balance of `a`: zero when `a` was never credited.
    pub closed spec fn spec_balance(self, a: Address) -> u128 {
        lookup(self.entries@, a)
    }

    /// The total supply.
    pub closed spec fn spec_total(self) -> u128 {
        self.total
    }

    /// Well-formedness: entry addresses are distinct and the sum of all
    /// balances equals the total supply.
    pub closed spec fn wf(self) -> bool {
        &&& distinct_keys(self.entries@)
        &&& sum_amounts(self.entries@) == self.total
    }

    /// Conservation invariant: in every well-formed state, the sum of all
    /// balances equals the total supply. The entries summed over carry
    /// distinct addresses, and each holds exactly its address's balance
    /// (see `lemma_balance_is_lookup`).
    pub proof fn lemma_conservation(self)
        requires
            self.wf(),
        ensures
            distinct_keys(self.spec_balances()),
            sum_amounts(self.spec_balances()) == self.spec_total() as int,
    {
    }

    /// `spec_balance` is exactly the lookup in the stored entries.
    pub proof fn lemma_balance_is_lookup(self, a: Address)
        ensures
            self.spec_balance(a) == lookup(self.spec_balances(), a),
    {
    }

    /// No balance is ever negative (amounts are unsigned), and none exceeds
    /// the total supply.
    pub proof fn lemma_balance_le_total(self, a: Address)
        requires
            self.wf(),
        ensures
            0 <= self.spec_balance(a) <= self.spec_total(),
    {
        lemma_lookup_le_sum(self.entries@, a);
    }

    /// An empty ledger: no balances, zero total supply.
    pub fn new() -> (r: Ledger)
        ensures
            r.wf(),
            r.spec_total() == 0,
            forall|a: Address| r.spec_balance(a) == 0,
    {
        Ledger { entries: Vec::new(), total: 0 }
    }

    /// The index of the entry carrying `a`, if one exists.
    fn find(&self, a: &Address) -> (r: Option<usize>)
        ensures
            match r {
                Some(i) => i < self.entries@.len() && self.entries@[i as int].0 == *a,
                None => forall|j: int| 0 <= j < self.entries@.len() ==> self.entries@[j].0 != *a,
            },
    {
        let mut i: usize = 0;
        while i < self.entries.len()
            invariant
                i <= self.entries@.len(),
                forall|j: int| 0 <= j < i ==> self.entries@[j].0 != *a,
            decreases self.entries@.len() - i,
        {
            if self.entries[i].0 == *a {
                return Some(i);
            }
            i += 1;
        }
        None
    }

    /// The balance of `a`; zero for an address never credited. Pure read, no
    /// failure mode.
    pub fn balance_of(&self, a: &Address) -> (r: u128)
        requires
            self.wf(),
        ensures
            r == self.spec_balance(*a),
    {
        match self.find(a) {
            Some(i) => {
                proof {
                    lemma_lookup_at(self.entries@, i as int);
                }
                self.entries[i].1
            }
            None => {
                proof {
                    lemma_lookup_absent(self.entries@, *a);
                }
                0
            }
        }
    }

    /// The total supply. Pure read, no failure mode.
    pub fn total_supply(&self) -> (r: u128)
        ensures
            r == self.spec_total(),
    {
        self.total
    }

    /// Adds `amount` to `a`'s balance and to the total supply. Fails with
    /// `Overflow` — leaving the ledger unchanged — exactly when the new total
    /// supply would not be representable; a balance alone can never overflow
    /// first, since no balance exceeds the total supply.
    pub fn credit(&mut self, a: &Address, amount: u128) -> (r: Result<(), LedgerError>)
        requires
            old(self).wf(),
        ensures
            final(self).wf(),
            match r {
                Ok(_) => {
                    &&& old(self).spec_total() + amount <= u128::MAX
                    &&& final(self).spec_total() == old(self).spec_total() + amount
                    &&& final(self).spec_balance(*a) == old(self).spec_balance(*a) + amount
                    &&& forall|b: Address|
                        b != *a ==> final(self).spec_balance(b) == old(self).spec_balance(b)
                },
                Err(e) => {
                    &&& e == LedgerError::Overflow
                    &&& old(self).spec_total() + amount > u128::MAX
                    &&& *final(self) == *old(self)
                },
            },
    {
        if amount > u128::MAX - self.total {
            return Err(LedgerError::Overflow);
        }
        let new_total = self.total + amount;
        match self.find(a) {
            Some(i) => {
                let cur = self.entries[i].1;
                proof {
                    lemma_lookup_at(self.entries@, i as int);
                    lemma_lookup_le_sum(self.entries@, *a);
                    lemma_sum_update(self.entries@, i as int, (*a, (cur + amount) as u128));
                    lemma_lookup_update(self.entries@, i as int, (*a, (cur + amount) as u128));
                }
                let new_balance = cur + amount;
                self.entries.set(i, (*a, new_balance));
                self.total = new_total;
                Ok(())
            }
            None => {
                proof {
                    lemma_lookup_absent(self.entries@, *a);
                    lemma_push_fresh(self.entries@, (*a, amount));
                }
                self.entries.push((*a, amount));
                self.total = new_total;
                Ok(())
            }
        }
    }

    /// Subtracts `amount` from `a`'s balance and from the total supply.
    /// Fails with `InsufficientBalance` — leaving the ledger unchanged —
    /// exactly when `amount` exceeds the current balance; no partial debit
    /// ever happens.
    pub fn debit(&mut self, a: &Address, amount: u128) -> (r: Result<(), LedgerError>)
        requires
            old(self).wf(),
        ensures
            final(self).wf(),
            match r {
                Ok(_) => {
                    &&& amount <= old(self).spec_balance(*a)
                    &&& final(self).spec_total() == old(self).spec_total() - amount
                    &&& final(self).spec_balance(*a) == old(self).spec_balance(*a) - amount
                    &&& forall|b: Address|
                        b != *a ==> final(self).spec_balance(b) == old(self).spec_balance(b)
                },
                Err(e) => {
                    &&& e == LedgerError::InsufficientBalance
                    &&& amount > old(self).spec_balance(*a)
                    &&& *final(self) == *old(self)
                },
            },
    {
        match self.find(a) {
            Some(i) => {
                let cur = self.entries[i].1;
                proof {
                    lemma_lookup_at(self.entries@, i as int);
                }
                if amount > cur {
                    return Err(LedgerError::InsufficientBalance);
                }
                proof {
                    lemma_lookup_le_sum(self.entries@, *a);
                    lemma_sum_update(self.entries@, i as int, (*a, (cur - amount) as u128));
                    lemma_lookup_update(self.entries@, i as int, (*a, (cur - amount) as u128));
                }
                let new_balance = cur - amount;
                self.entries.set(i, (*a, new_balance));
                self.total = self.total - amount;
                Ok(())
            }
            None => {
                proof {
                    lemma_lookup_absent(self.entries@, *a);
                }
                if amount == 0 {
                    Ok(())
                } else {
                    Err(LedgerError::InsufficientBalance)
                }
            }
        }
    }

    /// Debits `from` and credits `to` by the same `amount`, as one atomic
    /// unit: the total supply is unchanged, and if the debit fails the credit
    /// is never attempted. The credit half cannot overflow after a successful
    /// same-amount debit, so the only failure is `InsufficientBalance`, and a
    /// failed call leaves the ledger exactly as it was.
    pub fn move_value(&mut self, from: &Address, to: &Address, amount: u128) -> (r: Result<
        (),
        LedgerError,
    >)
        requires
            old(self).wf(),
        ensures
            final(self).wf(),
            match r {
                Ok(_) => {
                    &&& amount <= old(self).spec_balance(*from)
                    &&& final(self).spec_total() == old(self).spec_total()
                    &&& *from == *to ==> forall|b: Address|
                        final(self).spec_balance(b) == old(self).spec_balance(b)
                    &&& *from != *to ==> {
                        &&& final(self).spec_balance(*from) == old(self).spec_balance(*from)
                            - amount
                        &&& final(self).spec_balance(*to) == old(self).spec_balance(*to) + amount
                        &&& forall|b: Address|
                            b != *from && b != *to ==> final(self).spec_balance(b) == old(
                                self,
                            ).spec_balance(b)
                    }
                },
                Err(e) => {
                    &&& e == LedgerError::InsufficientBalance
                    &&& amount > old(self).spec_balance(*from)
                    &&& *final(self) == *old(self)
                },
            },
    {
        proof {
            self.lemma_balance_le_total(*from);
        }
        match self.debit(from, amount) {
            Err(e) => Err(e),
            Ok(_) => {
                match self.credit(to, amount) {
                    Ok(_) => Ok(()),
                    Err(e) => {
                        proof {
                            assert(false);
                        }
                        Err(e)
                    }
                }
            }
        }
    }
}

} // verus!
