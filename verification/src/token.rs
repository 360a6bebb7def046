use vstd::prelude::*;
use crate::address::Address;
use crate::allowance::AllowanceTable;
use crate::allowance::spec_approved;
use crate::errors::TokenError;
use crate::events::Event;
use crate::ledger::Ledger;
use crate::ledger::sum_amounts;

verus! {

/// Approvals overwrite at the token level too: across two `approve` calls
/// for the same (owner, spender) pair — first `x`, then `y` — the allowance
/// is exactly `y`, whatever `x` was, and every other pair stands as before
/// both calls. The two hypotheses are exactly what `Token::approve` ensures
/// of its pre- and post-state.
pub proof fn lemma_approve_overwrites(
    t0: Token,
    t1: Token,
    t2: Token,
    owner: Address,
    spender: Address,
    x: u128,
    y: u128,
)
    requires
        spec_approved(t0.spec_allowances(), t1.spec_allowances(), owner, spender, x),
        spec_approved(t1.spec_allowances(), t2.spec_allowances(), owner, spender, y),
    ensures
        t2.spec_allowance(owner, spender) == y,
        forall|o: Address, p: Address|
            !(o == owner && p == spender) ==> t2.spec_allowance(o, p) == t0.spec_allowance(o, p),
{
}

/// The token: metadata fixed at construction, a balance ledger and an
/// allowance table, and the public operation surface that composes them.
///
/// Every operation takes the resolved caller identity as an explicit
/// parameter — the surrounding environment supplies it — and is a single
/// atomic state transition: a failed call leaves the token exactly as it
/// was. Successful mutating operations return the domain event for the
/// environment to emit.
pub struct Token {
    name: String,
    symbol: String,
    decimals: u8,
    ledger: Ledger,
    allowances: AllowanceTable,
}

impl Token {
    /// The balance ledger.
    pub closed spec fn spec_ledger(self) -> Ledger {
        self.ledger
    }

    /// The allowance table.
    pub closed spec fn spec_allowances(self) -> AllowanceTable {
        self.allowances
    }

    /// The token name.
    pub closed spec fn spec_name(self) -> Seq<char> {
        self.name@
    }

    /// The token symbol.
    pub closed spec fn spec_symbol(self) -> Seq<char> {
        self.symbol@
    }

    /// The decimal precision.
    pub closed spec fn spec_decimals(self) -> u8 {
        self.decimals
    }

    /// The balance of `a`: zero when `a` was never credited.
    pub open spec fn spec_balance(self, a: Address) -> u128 {
        self.spec_ledger().spec_balance(a)
    }

    /// The stored balance entries, one per address ever credited.
    pub open spec fn spec_balances(self) -> Seq<(Address, u128)> {
        self.spec_ledger().spec_balances()
    }

    /// The total supply.
    pub open spec fn spec_total(self) -> u128 {
        self.spec_ledger().spec_total()
    }

    /// The allowance of `(owner, spender)`: zero when never approved.
    pub open spec fn spec_allowance(self, owner: Address, spender: Address) -> u128 {
        self.spec_allowances().spec_allowance(owner, spender)
    }

    /// Well-formedness of both state components; established by `new` and
    /// preserved by every operation.
    pub open spec fn wf(self) -> bool {
        &&& self.spec_ledger().wf()
        &&& self.spec_allowances().wf()
    }

    /// The metadata of `post` is that of `pre`: no operation ever changes
    /// name, symbol or decimals.
    pub open spec fn same_metadata(pre: Token, post: Token) -> bool {
        &&& post.spec_name() == pre.spec_name()
        &&& post.spec_symbol() == pre.spec_symbol()
        &&& post.spec_decimals() == pre.spec_decimals()
    }

    /// Conservation invariant: in every well-formed state the sum of all
    /// stored balances — over distinct addresses — equals the total supply.
    /// All reachable states are well-formed: `new` establishes `wf` and
    /// every operation preserves it.
    pub proof fn lemma_conservation(self)
        requires
            self.wf(),
        ensures
            crate::ledger::distinct_keys(self.spec_balances()),
            sum_amounts(self.spec_balances()) == self.spec_total() as int,
    {
        self.spec_ledger().lemma_conservation();
    }

    /// No balance is ever negative (amounts are unsigned), and none exceeds
    /// the total supply.
    pub proof fn lemma_balance_le_total(self, a: Address)
        requires
            self.wf(),
        ensures
            0 <= self.spec_balance(a) <= self.spec_total(),
    {
        self.spec_ledger().lemma_balance_le_total(a);
    }

    /// A fresh token with the given metadata: no balances, no allowances,
    /// zero total supply.
    pub fn new(name: String, symbol: String, decimals: u8) -> (r: Token)
        ensures
            r.wf(),
            r.spec_name() == name@,
            r.spec_symbol() == symbol@,
            r.spec_decimals() == decimals,
            r.spec_total() == 0,
            forall|a: Address| r.spec_balance(a) == 0,
            forall|o: Address, p: Address| r.spec_allowance(o, p) == 0,
    {
        Token { name, symbol, decimals, ledger: Ledger::new(), allowances: AllowanceTable::new() }
    }

    /// The token name. Pure read, no failure mode.
    pub fn name(&self) -> (r: &String)
        ensures
            r@ == self.spec_name(),
    {
        &self.name
    }

    /// The token symbol. Pure read, no failure mode.
    pub fn symbol(&self) -> (r: &String)
        ensures
            r@ == self.spec_symbol(),
    {
        &self.symbol
    }

    /// The decimal precision. Pure read, no failure mode.
    pub fn decimals(&self) -> (r: u8)
        ensures
            r == self.spec_decimals(),
    {
        self.decimals
    }

    /// The total supply. Pure read, no failure mode.
    pub fn total_supply(&self) -> (r: u128)
        ensures
            r == self.spec_total(),
    {
        self.ledger.total_supply()
    }

    /// The balance of `addr`. Pure read, no failure mode.
    pub fn balance_of(&self, addr: &Address) -> (r: u128)
        requires
            self.wf(),
        ensures
            r == self.spec_balance(*addr),
    {
        self.ledger.balance_of(addr)
    }

    /// The allowance of `(owner, spender)`. Pure read, no failure mode.
    pub fn allowance(&self, owner: &Address, spender: &Address) -> (r: u128)
        requires
            self.wf(),
        ensures
            r == self.spec_allowance(*owner, *spender),
    {
        self.allowances.allowance(owner, spender)
    }

    /// Moves `amount` from the caller to `to`. Fails with
    /// `InsufficientBalance` — leaving the token unchanged — exactly when
    /// `amount` exceeds the caller's balance; so a zero-amount transfer
    /// always succeeds and changes no balance, and a self-transfer leaves
    /// every balance unchanged. A successful call still emits the `Transfer`
    /// event in both cases.
    pub fn transfer(&mut self, caller: &Address, to: &Address, amount: u128) -> (r: Result<
        Event,
        TokenError,
    >)
        requires
            old(self).wf(),
        ensures
            final(self).wf(),
            Token::same_metadata(*old(self), *final(self)),
            forall|o: Address, p: Address|
                final(self).spec_allowance(o, p) == old(self).spec_allowance(o, p),
            match r {
                Ok(ev) => {
                    &&& amount <= old(self).spec_balance(*caller)
                    &&& ev == (Event::Transfer { from: *caller, to: *to, amount })
                    &&& final(self).spec_total() == old(self).spec_total()
                    &&& *caller == *to ==> forall|b: Address|
                        final(self).spec_balance(b) == old(self).spec_balance(b)
                    &&& *caller != *to ==> {
                        &&& final(self).spec_balance(*caller) == old(self).spec_balance(*caller)
                            - amount
                        &&& final(self).spec_balance(*to) == old(self).spec_balance(*to) + amount
                        &&& forall|b: Address|
                            b != *caller && b != *to ==> final(self).spec_balance(b) == old(
                                self,
                            ).spec_balance(b)
                    }
                },
                Err(e) => {
                    &&& e == TokenError::InsufficientBalance
                    &&& amount > old(self).spec_balance(*caller)
                    &&& *final(self) == *old(self)
                },
            },
            amount == 0 ==> r is Ok && forall|b: Address|
                final(self).spec_balance(b) == old(self).spec_balance(b),
    {
        match self.ledger.move_value(caller, to, amount) {
            Ok(_) => Ok(Event::Transfer { from: *caller, to: *to, amount }),
            Err(e) => Err(TokenError::from_ledger(e)),
        }
    }

    /// Sets the caller's allowance for `spender` to exactly `amount`,
    /// overwriting any prior value. Always succeeds and emits the `Approval`
    /// event; approving zero revokes.
    pub fn approve(&mut self, caller: &Address, spender: &Address, amount: u128) -> (r: Result<
        Event,
        TokenError,
    >)
        requires
            old(self).wf(),
        ensures
            final(self).wf(),
            Token::same_metadata(*old(self), *final(self)),
            final(self).spec_total() == old(self).spec_total(),
            forall|b: Address| final(self).spec_balance(b) == old(self).spec_balance(b),
            spec_approved(
                old(self).spec_allowances(),
                final(self).spec_allowances(),
                *caller,
                *spender,
                amount,
            ),
            r == Ok::<Event, TokenError>(
                Event::Approval { owner: *caller, spender: *spender, amount },
            ),
    {
        self.allowances.approve(caller, spender, amount);
        Ok(Event::Approval { owner: *caller, spender: *spender, amount })
    }

    /// Moves `amount` from `from` to `to` on the strength of the allowance
    /// `(from, caller)`. The allowance is checked first: a call that fails
    /// with `InsufficientAllowance` never touches balances, a call that
    /// fails with `InsufficientBalance` never touches the allowance, and
    /// only a fully successful call decrements the allowance — by exactly
    /// `amount` — and moves the value.
    pub fn transfer_from(
        &mut self,
        caller: &Address,
        from: &Address,
        to: &Address,
        amount: u128,
    ) -> (r: Result<Event, TokenError>)
        requires
            old(self).wf(),
        ensures
            final(self).wf(),
            Token::same_metadata(*old(self), *final(self)),
            match r {
                Ok(ev) => {
                    &&& amount <= old(self).spec_allowance(*from, *caller)
                    &&& amount <= old(self).spec_balance(*from)
                    &&& ev == (Event::Transfer { from: *from, to: *to, amount })
                    &&& final(self).spec_total() == old(self).spec_total()
                    &&& final(self).spec_allowance(*from, *caller) == old(self).spec_allowance(
                        *from,
                        *caller,
                    ) - amount
                    &&& forall|o: Address, p: Address|
                        !(o == *from && p == *caller) ==> final(self).spec_allowance(o, p) == old(
                            self,
                        ).spec_allowance(o, p)
                    &&& *from == *to ==> forall|b: Address|
                        final(self).spec_balance(b) == old(self).spec_balance(b)
                    &&& *from != *to ==> {
                        &&& final(self).spec_balance(*from) == old(self).spec_balance(*from)
                            - amount
                        &&& final(self).spec_balance(*to) == old(self).spec_balance(*to) + amount
                        &&& forall|b: Address|
                            b != *from && b != *to ==> final(self).spec_balance(b) == old(
                                self,
                            ).spec_balance(b)
                    }
                },
                Err(e) => {
                    &&& *final(self) == *old(self)
                    &&& (e == TokenError::InsufficientAllowance <==> amount > old(
                        self,
                    ).spec_allowance(*from, *caller))
                    &&& (e == TokenError::InsufficientBalance <==> (amount <= old(
                        self,
                    ).spec_allowance(*from, *caller) && amount > old(self).spec_balance(*from)))
                    &&& (e == TokenError::InsufficientAllowance || e
                        == TokenError::InsufficientBalance)
                },
            },
    {
        let granted = self.allowances.allowance(from, caller);
        if amount > granted {
            return Err(TokenError::InsufficientAllowance);
        }
        match self.ledger.move_value(from, to, amount) {
            Err(e) => Err(TokenError::from_ledger(e)),
            Ok(_) => {
                match self.allowances.spend(from, caller, amount) {
                    Ok(_) => Ok(Event::Transfer { from: *from, to: *to, amount }),
                    Err(_) => {
                        proof {
                            assert(false);
                        }
                        Err(TokenError::InsufficientAllowance)
                    }
                }
            }
        }
    }

    /// Mints `amount` new tokens to the caller: the caller's balance and the
    /// total supply grow by exactly `amount`. Fails with `Overflow` —
    /// leaving the token unchanged — exactly when the new total supply would
    /// not be representable. No access control is imposed here; the
    /// surrounding deployment may add one.
    pub fn mint(&mut self, caller: &Address, amount: u128) -> (r: Result<Event, TokenError>)
        requires
            old(self).wf(),
        ensures
            final(self).wf(),
            Token::same_metadata(*old(self), *final(self)),
            forall|o: Address, p: Address|
                final(self).spec_allowance(o, p) == old(self).spec_allowance(o, p),
            match r {
                Ok(ev) => {
                    &&& old(self).spec_total() + amount <= u128::MAX
                    &&& ev == (Event::Transfer { from: Address::spec_zero(), to: *caller, amount })
                    &&& final(self).spec_total() == old(self).spec_total() + amount
                    &&& final(self).spec_balance(*caller) == old(self).spec_balance(*caller)
                        + amount
                    &&& forall|b: Address|
                        b != *caller ==> final(self).spec_balance(b) == old(self).spec_balance(b)
                },
                Err(e) => {
                    &&& e == TokenError::Overflow
                    &&& old(self).spec_total() + amount > u128::MAX
                    &&& *final(self) == *old(self)
                },
            },
    {
        self.mint_to(caller, amount)
    }

    /// Mints `amount` new tokens to an explicit recipient; otherwise exactly
    /// as `mint`.
    pub fn mint_to(&mut self, to: &Address, amount: u128) -> (r: Result<Event, TokenError>)
        requires
            old(self).wf(),
        ensures
            final(self).wf(),
            Token::same_metadata(*old(self), *final(self)),
            forall|o: Address, p: Address|
                final(self).spec_allowance(o, p) == old(self).spec_allowance(o, p),
            match r {
                Ok(ev) => {
                    &&& old(self).spec_total() + amount <= u128::MAX
                    &&& ev == (Event::Transfer { from: Address::spec_zero(), to: *to, amount })
                    &&& final(self).spec_total() == old(self).spec_total() + amount
                    &&& final(self).spec_balance(*to) == old(self).spec_balance(*to) + amount
                    &&& forall|b: Address|
                        b != *to ==> final(self).spec_balance(b) == old(self).spec_balance(b)
                },
                Err(e) => {
                    &&& e == TokenError::Overflow
                    &&& old(self).spec_total() + amount > u128::MAX
                    &&& *final(self) == *old(self)
                },
            },
    {
        match self.ledger.credit(to, amount) {
            Ok(_) => Ok(Event::Transfer { from: Address::zero(), to: *to, amount }),
            Err(e) => Err(TokenError::from_ledger(e)),
        }
    }

    /// Burns `amount` tokens from the caller's own balance: the balance and
    /// the total supply shrink by exactly `amount`. Fails with
    /// `InsufficientBalance` — leaving the token unchanged — exactly when
    /// `amount` exceeds the caller's balance.
    pub fn burn(&mut self, caller: &Address, amount: u128) -> (r: Result<Event, TokenError>)
        requires
            old(self).wf(),
        ensures
            final(self).wf(),
            Token::same_metadata(*old(self), *final(self)),
            forall|o: Address, p: Address|
                final(self).spec_allowance(o, p) == old(self).spec_allowance(o, p),
            match r {
                Ok(ev) => {
                    &&& amount <= old(self).spec_balance(*caller)
                    &&& ev == (Event::Transfer { from: *caller, to: Address::spec_zero(), amount })
                    &&& final(self).spec_total() == old(self).spec_total() - amount
                    &&& final(self).spec_balance(*caller) == old(self).spec_balance(*caller)
                        - amount
                    &&& forall|b: Address|
                        b != *caller ==> final(self).spec_balance(b) == old(self).spec_balance(b)
                },
                Err(e) => {
                    &&& e == TokenError::InsufficientBalance
                    &&& amount > old(self).spec_balance(*caller)
                    &&& *final(self) == *old(self)
                },
            },
    {
        match self.ledger.debit(caller, amount) {
            Ok(_) => Ok(Event::Transfer { from: *caller, to: Address::zero(), amount }),
            Err(e) => Err(TokenError::from_ledger(e)),
        }
    }
}

} // verus!
