use vstd::prelude::*;
use vstd::pervasive::VecAdditionalExecFns;
use crate::address::Address;
use crate::errors::AllowanceError;

verus! {

/// No two entries of the sequence carry the same (owner, spender) pair.
pub open spec fn distinct_pairs(s: Seq<(Address, Address, u128)>) -> bool {
    forall|i: int, j: int|
        0 <= i < j < s.len() ==> !(s[i].0 == s[j].0 && s[i].1 == s[j].1)
}

/// The amount recorded for `(owner, spender)`, zero when no entry carries
/// that pair.
pub open spec fn lookup_pair(
    s: Seq<(Address, Address, u128)>,
    owner: Address,
    spender: Address,
) -> u128
    decreases s.len(),
{
    if s.len() == 0 {
        0u128
    } else if s.last().0 == owner && s.last().1 == spender {
        s.last().2
    } else {
        lookup_pair(s.drop_last(), owner, spender)
    }
}

/// A pair that appears in no entry looks up to zero.
pub proof fn lemma_pair_absent(s: Seq<(Address, Address, u128)>, owner: Address, spender: Address)
    requires
        forall|j: int| 0 <= j < s.len() ==> !(s[j].0 == owner && s[j].1 == spender),
    ensures
        lookup_pair(s, owner, spender) == 0,
    decreases s.len(),
{
    if s.len() > 0 {
        lemma_pair_absent(s.drop_last(), owner, spender);
    }
}

/// With distinct pairs, the entry at `i` is what its pair looks up to.
pub proof fn lemma_pair_at(s: Seq<(Address, Address, u128)>, i: int)
    requires
        distinct_pairs(s),
        0 <= i < s.len(),
    ensures
        lookup_pair(s, s[i].0, s[i].1) == s[i].2,
    decreases s.len(),
{
    if i < s.len() - 1 {
        assert(distinct_pairs(s.drop_last()));
        lemma_pair_at(s.drop_last(), i);
    }
}

/// Replacing the entry at `i` with one of the same pair changes that pair's
/// lookup to the new amount and no other lookup at all.
pub proof fn lemma_pair_update(s: Seq<(Address, Address, u128)>, i: int, v: (Address, Address, u128))
    requires
        distinct_pairs(s),
        0 <= i < s.len(),
        v.0 == s[i].0,
        v.1 == s[i].1,
    ensures
        distinct_pairs(s.update(i, v)),
        lookup_pair(s.update(i, v), v.0, v.1) == v.2,
        forall|o: Address, p: Address|
            !(o == v.0 && p == v.1) ==> lookup_pair(s.update(i, v), o, p) == lookup_pair(s, o, p),
    decreases s.len(),
{
    let t = s.update(i, v);
    assert(distinct_pairs(t));
    lemma_pair_at(t, i);
    if i == s.len() - 1 {
        assert(t.drop_last() =~= s.drop_last());
        assert forall|o: Address, p: Address| !(o == v.0 && p == v.1) implies lookup_pair(t, o, p)
            == lookup_pair(s, o, p) by {
            assert(lookup_pair(t, o, p) == lookup_pair(t.drop_last(), o, p));
            assert(lookup_pair(s, o, p) == lookup_pair(s.drop_last(), o, p));
        }
    } else {
        assert(t.drop_last() =~= s.drop_last().update(i, v));
        assert(distinct_pairs(s.drop_last()));
        lemma_pair_update(s.drop_last(), i, v);
        assert forall|o: Address, p: Address| !(o == v.0 && p == v.1) implies lookup_pair(t, o, p)
            == lookup_pair(s, o, p) by {
            assert(t.last() == s.last());
            if !(s.last().0 == o && s.last().1 == p) {
                assert(lookup_pair(t, o, p) == lookup_pair(t.drop_last(), o, p));
                assert(lookup_pair(s, o, p) == lookup_pair(s.drop_last(), o, p));
            }
        }
    }
}

/// Appending an entry with a fresh pair keeps the pairs distinct and changes
/// no other pair's lookup.
pub proof fn lemma_pair_push_fresh(s: Seq<(Address, Address, u128)>, v: (Address, Address, u128))
    requires
        distinct_pairs(s),
        forall|j: int| 0 <= j < s.len() ==> !(s[j].0 == v.0 && s[j].1 == v.1),
    ensures
        distinct_pairs(s.push(v)),
        lookup_pair(s.push(v), v.0, v.1) == v.2,
        forall|o: Address, p: Address|
            !(o == v.0 && p == v.1) ==> lookup_pair(s.push(v), o, p) == lookup_pair(s, o, p),
{
    let t = s.push(v);
    assert(t.drop_last() =~= s);
}

/// The allowance table: a mapping of (owner, spender) pairs to the amount
/// the spender may still withdraw on the owner's behalf. Absent pairs hold
/// allowance zero. An allowance is written only by an explicit approval
/// (which overwrites, never adds) and decremented only by a spend, by
/// exactly the spent amount.
pub struct AllowanceTable {
    entries: Vec<(Address, Address, u128)>,
}

/// The state transition performed by an approval: the (owner, spender)
/// allowance is exactly `amount` afterwards — whatever it was before — and
/// every other pair is untouched.
pub open spec fn spec_approved(
    pre: AllowanceTable,
    post: AllowanceTable,
    owner: Address,
    spender: Address,
    amount: u128,
) -> bool {
    &&& post.wf()
    &&& post.spec_allowance(owner, spender) == amount
    &&& forall|o: Address, p: Address|
        !(o == owner && p == spender) ==> post.spec_allowance(o, p) == pre.spec_allowance(o, p)
}

/// Approvals overwrite: approving `x` and then `y` for the same
/// (owner, spender) pair leaves the allowance exactly `y`, whatever `x` was,
/// and leaves every other pair as it stood before both calls.
pub proof fn lemma_approve_overwrites(
    t0: AllowanceTable,
    t1: AllowanceTable,
    t2: AllowanceTable,
    owner: Address,
    spender: Address,
    x: u128,
    y: u128,
)
    requires
        spec_approved(t0, t1, owner, spender, x),
        spec_approved(t1, t2, owner, spender, y),
    ensures
        t2.spec_allowance(owner, spender) == y,
        forall|o: Address, p: Address|
            !(o == owner && p == spender) ==> t2.spec_allowance(o, p) == t0.spec_allowance(o, p),
{
}

impl AllowanceTable {
    /// The allowance recorded for `(owner, spender)`: zero when the pair was
    /// never approved.
    pub closed spec fn spec_allowance(self, owner: Address, spender: Address) -> u128 {
        lookup_pair(self.entries@, owner, spender)
    }

    /// Well-formedness: entry pairs are distinct.
    pub closed spec fn wf(self) -> bool {
        distinct_pairs(self.entries@)
    }

    /// An empty table: every allowance is zero.
    pub fn new() -> (r: AllowanceTable)
        ensures
            r.wf(),
            forall|o: Address, p: Address| r.spec_allowance(o, p) == 0,
    {
        AllowanceTable { entries: Vec::new() }
    }

    /// The index of the entry carrying `(owner, spender)`, if one exists.
    fn find(&self, owner: &Address, spender: &Address) -> (r: Option<usize>)
        ensures
            match r {
                Some(i) => i < self.entries@.len() && self.entries@[i as int].0 == *owner
                    && self.entries@[i as int].1 == *spender,
                None => forall|j: int|
                    0 <= j < self.entries@.len() ==> !(self.entries@[j].0 == *owner
                        && self.entries@[j].1 == *spender),
            },
    {
        let mut i: usize = 0;
        while i < self.entries.len()
            invariant
                i <= self.entries@.len(),
                forall|j: int|
                    0 <= j < i ==> !(self.entries@[j].0 == *owner && self.entries@[j].1
                        == *spender),
            decreases self.entries@.len() - i,
        {
            if self.entries[i].0 == *owner && self.entries[i].1 == *spender {
                return Some(i);
            }
            i += 1;
        }
        None
    }

    /// The allowance of `(owner, spender)`; zero for a pair never approved.
    /// Pure read, no failure mode.
    pub fn allowance(&self, owner: &Address, spender: &Address) -> (r: u128)
        requires
            self.wf(),
        ensures
            r == self.spec_allowance(*owner, *spender),
    {
        match self.find(owner, spender) {
            Some(i) => {
                proof {
                    lemma_pair_at(self.entries@, i as int);
                }
                self.entries[i].2
            }
            None => {
                proof {
                    lemma_pair_absent(self.entries@, *owner, *spender);
                }
                0
            }
        }
    }

    /// Sets the allowance of `(owner, spender)` to exactly `amount`,
    /// overwriting (not adding to) any prior value. Always succeeds; setting
    /// zero is the way to revoke.
    pub fn approve(&mut self, owner: &Address, spender: &Address, amount: u128)
        requires
            old(self).wf(),
        ensures
            spec_approved(*old(self), *final(self), *owner, *spender, amount),
    {
        match self.find(owner, spender) {
            Some(i) => {
                proof {
                    lemma_pair_update(self.entries@, i as int, (*owner, *spender, amount));
                }
                self.entries.set(i, (*owner, *spender, amount));
            }
            None => {
                proof {
                    lemma_pair_push_fresh(self.entries@, (*owner, *spender, amount));
                }
                self.entries.push((*owner, *spender, amount));
            }
        }
    }

    /// Consumes `amount` of the allowance of `(owner, spender)`. Fails with
    /// `InsufficientAllowance` — leaving the table unchanged — exactly when
    /// `amount` exceeds the recorded allowance; otherwise decrements the
    /// allowance by exactly `amount` and touches no other pair.
    pub fn spend(&mut self, owner: &Address, spender: &Address, amount: u128) -> (r: Result<
        (),
        AllowanceError,
    >)
        requires
            old(self).wf(),
        ensures
            final(self).wf(),
            match r {
                Ok(_) => {
                    &&& amount <= old(self).spec_allowance(*owner, *spender)
                    &&& final(self).spec_allowance(*owner, *spender) == old(self).spec_allowance(
                        *owner,
                        *spender,
                    ) - amount
                    &&& forall|o: Address, p: Address|
                        !(o == *owner && p == *spender) ==> final(self).spec_allowance(o, p) == old(
                            self,
                        ).spec_allowance(o, p)
                },
                Err(e) => {
                    &&& e == AllowanceError::InsufficientAllowance
                    &&& amount > old(self).spec_allowance(*owner, *spender)
                    &&& *final(self) == *old(self)
                },
            },
    {
        match self.find(owner, spender) {
            Some(i) => {
                let cur = self.entries[i].2;
                proof {
                    lemma_pair_at(self.entries@, i as int);
                }
                if amount > cur {
                    return Err(AllowanceError::InsufficientAllowance);
                }
                proof {
                    lemma_pair_update(
                        self.entries@,
                        i as int,
                        (*owner, *spender, (cur - amount) as u128),
                    );
                }
                self.entries.set(i, (*owner, *spender, cur - amount));
                Ok(())
            }
            None => {
                proof {
                    lemma_pair_absent(self.entries@, *owner, *spender);
                }
                if amount == 0 {
                    Ok(())
                } else {
                    Err(AllowanceError::InsufficientAllowance)
                }
            }
        }
    }
}

} // verus!
