use candy_token::address::Address;
use candy_token::errors::TokenError;
use candy_token::events::Event;
use candy_token::token::Token;

fn addr(n: u128) -> Address {
    Address { hi: 0, lo: n }
}

fn fresh_token() -> Token {
    Token::new("CandyToken".to_string(), "CANDY".to_string(), 18)
}

#[test]
fn metadata_is_fixed_at_construction() {
    let t = fresh_token();
    assert_eq!(t.name().as_str(), "CandyToken");
    assert_eq!(t.symbol().as_str(), "CANDY");
    assert_eq!(t.decimals(), 18);
    assert_eq!(t.total_supply(), 0);
}

#[test]
fn fresh_token_has_no_balances_or_allowances() {
    let t = fresh_token();
    assert_eq!(t.balance_of(&addr(1)), 0);
    assert_eq!(t.allowance(&addr(1), &addr(2)), 0);
}

#[test]
fn mint_credits_caller_and_supply() {
    let mut t = fresh_token();
    let a = addr(1);
    let ev = t.mint(&a, 1000).unwrap();
    assert_eq!(t.balance_of(&a), 1000);
    assert_eq!(t.total_supply(), 1000);
    assert_eq!(ev, Event::Transfer { from: Address::zero(), to: a, amount: 1000 });
}

#[test]
fn mint_to_credits_explicit_recipient() {
    let mut t = fresh_token();
    let caller = addr(1);
    let target = addr(9);
    let ev = t.mint_to(&target, 42).unwrap();
    assert_eq!(t.balance_of(&target), 42);
    assert_eq!(t.balance_of(&caller), 0);
    assert_eq!(t.total_supply(), 42);
    assert_eq!(ev, Event::Transfer { from: Address::zero(), to: target, amount: 42 });
}

#[test]
fn approve_then_transfer_from_scenario() {
    let mut t = fresh_token();
    let a = addr(1);
    let b = addr(2);
    let c = addr(3);
    t.mint_to(&a, 1000).unwrap();
    assert_eq!(t.balance_of(&a), 1000);
    assert_eq!(t.total_supply(), 1000);
    let ev = t.approve(&a, &b, 300).unwrap();
    assert_eq!(ev, Event::Approval { owner: a, spender: b, amount: 300 });
    assert_eq!(t.allowance(&a, &b), 300);
    let ev = t.transfer_from(&b, &a, &c, 300).unwrap();
    assert_eq!(ev, Event::Transfer { from: a, to: c, amount: 300 });
    assert_eq!(t.balance_of(&a), 700);
    assert_eq!(t.balance_of(&c), 300);
    assert_eq!(t.allowance(&a, &b), 0);
    assert_eq!(t.total_supply(), 1000);
}

#[test]
fn transfer_from_with_exhausted_allowance_fails() {
    let mut t = fresh_token();
    let a = addr(1);
    let b = addr(2);
    let c = addr(3);
    t.mint_to(&a, 1000).unwrap();
    t.approve(&a, &b, 300).unwrap();
    t.transfer_from(&b, &a, &c, 300).unwrap();
    let r = t.transfer_from(&b, &a, &c, 1);
    assert_eq!(r, Err(TokenError::InsufficientAllowance));
    assert_eq!(t.balance_of(&a), 700);
    assert_eq!(t.balance_of(&c), 300);
    assert_eq!(t.total_supply(), 1000);
}

#[test]
fn transfer_exceeding_balance_fails() {
    let mut t = fresh_token();
    let a = addr(1);
    let c = addr(3);
    t.mint_to(&a, 700).unwrap();
    let r = t.transfer(&a, &c, 800);
    assert_eq!(r, Err(TokenError::InsufficientBalance));
    assert_eq!(t.balance_of(&a), 700);
    assert_eq!(t.balance_of(&c), 0);
    assert_eq!(t.total_supply(), 700);
}

#[test]
fn transfer_moves_value_and_emits_event() {
    let mut t = fresh_token();
    let a = addr(1);
    let c = addr(3);
    t.mint_to(&a, 700).unwrap();
    let ev = t.transfer(&a, &c, 250).unwrap();
    assert_eq!(ev, Event::Transfer { from: a, to: c, amount: 250 });
    assert_eq!(t.balance_of(&a), 450);
    assert_eq!(t.balance_of(&c), 250);
    assert_eq!(t.total_supply(), 700);
}

#[test]
fn approve_overwrites_previous_allowance() {
    let mut t = fresh_token();
    let owner = addr(1);
    let spender = addr(2);
    t.approve(&owner, &spender, 500).unwrap();
    assert_eq!(t.allowance(&owner, &spender), 500);
    t.approve(&owner, &spender, 70).unwrap();
    assert_eq!(t.allowance(&owner, &spender), 70);
    t.approve(&owner, &spender, 0).unwrap();
    assert_eq!(t.allowance(&owner, &spender), 0);
}

#[test]
fn self_transfer_leaves_balance_unchanged() {
    let mut t = fresh_token();
    let a = addr(1);
    t.mint_to(&a, 5).unwrap();
    let ev = t.transfer(&a, &a, 5).unwrap();
    assert_eq!(ev, Event::Transfer { from: a, to: a, amount: 5 });
    assert_eq!(t.balance_of(&a), 5);
    assert_eq!(t.total_supply(), 5);
}

#[test]
fn zero_amount_transfer_succeeds_and_changes_nothing() {
    let mut t = fresh_token();
    let a = addr(1);
    let b = addr(2);
    t.mint_to(&a, 10).unwrap();
    let ev = t.transfer(&a, &b, 0).unwrap();
    assert_eq!(ev, Event::Transfer { from: a, to: b, amount: 0 });
    assert_eq!(t.balance_of(&a), 10);
    assert_eq!(t.balance_of(&b), 0);
    // even a sender that holds nothing may send zero
    let ev = t.transfer(&b, &a, 0).unwrap();
    assert_eq!(ev, Event::Transfer { from: b, to: a, amount: 0 });
    assert_eq!(t.balance_of(&a), 10);
    assert_eq!(t.balance_of(&b), 0);
}

#[test]
fn burn_full_balance_reduces_supply() {
    let mut t = fresh_token();
    let a = addr(1);
    let b = addr(2);
    t.mint_to(&a, 700).unwrap();
    t.mint_to(&b, 300).unwrap();
    let ev = t.burn(&a, 700).unwrap();
    assert_eq!(ev, Event::Transfer { from: a, to: Address::zero(), amount: 700 });
    assert_eq!(t.balance_of(&a), 0);
    assert_eq!(t.total_supply(), 300);
}

#[test]
fn burn_more_than_balance_fails_and_changes_nothing() {
    let mut t = fresh_token();
    let a = addr(1);
    t.mint_to(&a, 700).unwrap();
    let r = t.burn(&a, 701);
    assert_eq!(r, Err(TokenError::InsufficientBalance));
    assert_eq!(t.balance_of(&a), 700);
    assert_eq!(t.total_supply(), 700);
}

#[test]
fn mint_past_max_supply_fails_and_changes_nothing() {
    let mut t = fresh_token();
    let a = addr(1);
    let b = addr(2);
    t.mint_to(&a, 300).unwrap();
    let r = t.mint_to(&b, u128::MAX - 299);
    assert_eq!(r, Err(TokenError::Overflow));
    assert_eq!(t.balance_of(&a), 300);
    assert_eq!(t.balance_of(&b), 0);
    assert_eq!(t.total_supply(), 300);
    // minting exactly up to the maximum still works
    t.mint_to(&b, u128::MAX - 300).unwrap();
    assert_eq!(t.total_supply(), u128::MAX);
    let r = t.mint_to(&b, 1);
    assert_eq!(r, Err(TokenError::Overflow));
}

#[test]
fn supply_equals_sum_of_balances_through_a_history() {
    let mut t = fresh_token();
    let a = addr(1);
    let b = addr(2);
    let c = addr(3);
    t.mint_to(&a, 1000).unwrap();
    t.mint_to(&b, 500).unwrap();
    t.transfer(&a, &c, 123).unwrap();
    t.approve(&a, &b, 400).unwrap();
    t.transfer_from(&b, &a, &b, 377).unwrap();
    t.burn(&b, 200).unwrap();
    let sum = t.balance_of(&a) + t.balance_of(&b) + t.balance_of(&c);
    assert_eq!(sum, t.total_supply());
    assert_eq!(t.total_supply(), 1300);
}

#[test]
fn transfer_from_checks_allowance_before_balance() {
    let mut t = fresh_token();
    let a = addr(1);
    let b = addr(2);
    let c = addr(3);
    t.mint_to(&a, 10).unwrap();
    // both the allowance and the balance are too small: the allowance is
    // checked first
    let r = t.transfer_from(&b, &a, &c, 100);
    assert_eq!(r, Err(TokenError::InsufficientAllowance));
    // with enough allowance, the balance check decides
    t.approve(&a, &b, 100).unwrap();
    let r = t.transfer_from(&b, &a, &c, 100);
    assert_eq!(r, Err(TokenError::InsufficientBalance));
    assert_eq!(t.allowance(&a, &b), 100);
    assert_eq!(t.balance_of(&a), 10);
    assert_eq!(t.balance_of(&c), 0);
}

#[test]
fn transfer_from_self_to_self_keeps_balance_but_spends_allowance() {
    let mut t = fresh_token();
    let a = addr(1);
    let b = addr(2);
    t.mint_to(&a, 50).unwrap();
    t.approve(&a, &b, 30).unwrap();
    let ev = t.transfer_from(&b, &a, &a, 30).unwrap();
    assert_eq!(ev, Event::Transfer { from: a, to: a, amount: 30 });
    assert_eq!(t.balance_of(&a), 50);
    assert_eq!(t.allowance(&a, &b), 0);
    assert_eq!(t.total_supply(), 50);
}

#[test]
fn allowances_are_per_pair() {
    let mut t = fresh_token();
    let a = addr(1);
    let b = addr(2);
    let c = addr(3);
    t.approve(&a, &b, 11).unwrap();
    t.approve(&a, &c, 22).unwrap();
    t.approve(&b, &a, 33).unwrap();
    assert_eq!(t.allowance(&a, &b), 11);
    assert_eq!(t.allowance(&a, &c), 22);
    assert_eq!(t.allowance(&b, &a), 33);
    assert_eq!(t.allowance(&c, &a), 0);
}

#[test]
fn addresses_compare_by_all_bits() {
    let x = Address { hi: 1, lo: 0 };
    let y = Address { hi: 0, lo: 1 };
    let z = Address { hi: 1, lo: 0 };
    assert_ne!(x, y);
    assert_eq!(x, z);
    assert_eq!(Address::zero(), Address { hi: 0, lo: 0 });
}
