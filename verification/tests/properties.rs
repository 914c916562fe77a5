//! The ledger's guarantees checked on concrete values: conservation of
//! supply, no effect on failure, absolute approval, the infinite-allowance
//! sentinel, zero-address rejection for every operation, the exact error
//! payloads, and the event log.

use erc20::address::Address;
use erc20::ledger::Error;
use erc20::ledger::Event;
use erc20::ledger::ERC20;

fn carol() -> Address {
    Address::new(0xCA201, 0x11)
}

fn dave() -> Address {
    Address::new(0xDA4E, 0x22)
}

fn erin() -> Address {
    Address::new(0xE21, 0x33)
}

fn sum_of_balances(token: &ERC20, accounts: &[Address]) -> u128 {
    let mut total: u128 = 0;
    for a in accounts {
        total += token.balance_of(*a);
    }
    total
}

#[test]
fn transfers_conserve_the_total_supply() {
    let mut token = ERC20::new();
    token.set_total_supply(5);
    token.set_balance(carol(), 3);
    token.set_balance(dave(), 2);
    let holders = [carol(), dave(), erin()];
    assert_eq!(token.total_supply(), sum_of_balances(&token, &holders));

    token.transfer(carol(), dave(), 2).unwrap();
    assert_eq!(token.total_supply(), sum_of_balances(&token, &holders));

    token.set_allowance(dave(), carol(), 4);
    token.transfer_from(carol(), dave(), erin(), 4).unwrap();
    assert_eq!(token.total_supply(), sum_of_balances(&token, &holders));

    assert_eq!(1, token.balance_of(carol()));
    assert_eq!(0, token.balance_of(dave()));
    assert_eq!(4, token.balance_of(erin()));
    assert_eq!(5, token.total_supply());
}

#[test]
fn failed_calls_change_nothing() {
    let mut token = ERC20::new();
    token.set_total_supply(3);
    token.set_balance(carol(), 2);
    token.set_balance(dave(), 1);
    token.set_allowance(carol(), dave(), 1);

    // Insufficient balance on a plain transfer.
    assert!(token.transfer(carol(), erin(), 5).is_err());
    // Invalid receiver, even for a zero amount.
    assert!(token.transfer(carol(), Address::zero(), 0).is_err());
    // Invalid spender on approve.
    assert!(token.approve(carol(), Address::zero(), 7).is_err());
    // Insufficient allowance on a delegated transfer.
    assert!(token.transfer_from(dave(), carol(), erin(), 2).is_err());

    assert_eq!(2, token.balance_of(carol()));
    assert_eq!(1, token.balance_of(dave()));
    assert_eq!(0, token.balance_of(erin()));
    assert_eq!(1, token.allowance(carol(), dave()));
    assert_eq!(3, token.total_supply());
    assert_eq!(0, token.events.len());
}

#[test]
fn approve_is_absolute_not_additive() {
    let mut token = ERC20::new();
    token.approve(carol(), dave(), 5).unwrap();
    assert_eq!(5, token.allowance(carol(), dave()));

    token.approve(carol(), dave(), 3).unwrap();
    assert_eq!(3, token.allowance(carol(), dave()));

    token.approve(carol(), dave(), 0).unwrap();
    assert_eq!(0, token.allowance(carol(), dave()));
}

#[test]
fn approvals_of_different_spenders_are_independent() {
    let mut token = ERC20::new();
    token.approve(carol(), dave(), 5).unwrap();
    token.approve(carol(), erin(), 7).unwrap();
    assert_eq!(5, token.allowance(carol(), dave()));
    assert_eq!(7, token.allowance(carol(), erin()));
    assert_eq!(0, token.allowance(dave(), carol()));
}

#[test]
fn infinite_allowance_is_never_decremented() {
    let mut token = ERC20::new();
    token.set_balance(carol(), 10);
    token.set_allowance(carol(), dave(), u128::MAX);

    token.transfer_from(dave(), carol(), erin(), 4).unwrap();
    assert_eq!(u128::MAX, token.allowance(carol(), dave()));

    token.transfer_from(dave(), carol(), erin(), 6).unwrap();
    assert_eq!(u128::MAX, token.allowance(carol(), dave()));

    assert_eq!(0, token.balance_of(carol()));
    assert_eq!(10, token.balance_of(erin()));
}

#[test]
fn zero_address_is_rejected_everywhere() {
    let mut token = ERC20::new();
    token.set_balance(carol(), 1);

    let r = token.transfer(carol(), Address::zero(), 0);
    assert_eq!(r, Err(Error::InvalidReceiver { receiver: Address::zero() }));
    let r = token.transfer(carol(), Address::zero(), 1);
    assert_eq!(r, Err(Error::InvalidReceiver { receiver: Address::zero() }));

    let r = token.approve(carol(), Address::zero(), 1);
    assert_eq!(r, Err(Error::InvalidSpender { spender: Address::zero() }));

    let r = token.transfer_from(carol(), Address::zero(), dave(), 1);
    assert_eq!(r, Err(Error::InvalidSender { sender: Address::zero() }));
    let r = token.transfer_from(carol(), dave(), Address::zero(), 1);
    assert_eq!(r, Err(Error::InvalidReceiver { receiver: Address::zero() }));
}

#[test]
fn delegated_transfer_spends_the_allowance() {
    // Balances {carol: 2}, allowance {carol -> dave: 1}; dave moves one
    // token from carol to erin.
    let mut token = ERC20::new();
    token.set_balance(carol(), 2);
    token.set_allowance(carol(), dave(), 1);

    token.transfer_from(dave(), carol(), erin(), 1).unwrap();

    assert_eq!(1, token.balance_of(carol()));
    assert_eq!(1, token.balance_of(erin()));
    assert_eq!(0, token.allowance(carol(), dave()));
}

#[test]
fn delegated_transfer_can_drain_the_balance() {
    // Balances {carol: 1}, allowance {carol -> dave: 1}.
    let mut token = ERC20::new();
    token.set_balance(carol(), 1);
    token.set_allowance(carol(), dave(), 1);

    token.transfer_from(dave(), carol(), erin(), 1).unwrap();

    assert_eq!(0, token.balance_of(carol()));
    assert_eq!(1, token.balance_of(erin()));
}

#[test]
fn insufficient_balance_beats_sufficient_allowance() {
    // Balances {carol: 0}, allowance {carol -> dave: 1}: the delegated
    // transfer fails on the balance and spends no allowance.
    let mut token = ERC20::new();
    token.set_allowance(carol(), dave(), 1);

    let r = token.transfer_from(dave(), carol(), erin(), 1);
    assert_eq!(r, Err(Error::InsufficientBalance { sender: carol(), balance: 0, needed: 1 }));

    assert_eq!(0, token.balance_of(carol()));
    assert_eq!(0, token.balance_of(erin()));
    assert_eq!(1, token.allowance(carol(), dave()));
}

#[test]
fn missing_allowance_fails_before_the_balance_moves() {
    // Balances {carol: 1}, no allowance at all.
    let mut token = ERC20::new();
    token.set_balance(carol(), 1);

    let r = token.transfer_from(dave(), carol(), erin(), 1);
    assert_eq!(
        r,
        Err(Error::InsufficientAllowance { spender: dave(), allowance: 0, needed: 1 })
    );

    assert_eq!(1, token.balance_of(carol()));
    assert_eq!(0, token.balance_of(erin()));
}

#[test]
fn approving_the_null_address_creates_no_entry() {
    let mut token = ERC20::new();

    let r = token.approve(carol(), Address::zero(), 1);
    assert_eq!(r, Err(Error::InvalidSpender { spender: Address::zero() }));

    assert_eq!(0, token.allowance(carol(), Address::zero()));
    assert_eq!(0, token.events.len());
}

#[test]
fn insufficient_balance_error_carries_its_context() {
    let mut token = ERC20::new();
    token.set_balance(carol(), 4);

    let r = token.transfer(carol(), dave(), 9);
    assert_eq!(r, Err(Error::InsufficientBalance { sender: carol(), balance: 4, needed: 9 }));
}

#[test]
fn insufficient_allowance_error_carries_its_context() {
    let mut token = ERC20::new();
    token.set_balance(carol(), 9);
    token.set_allowance(carol(), dave(), 2);

    let r = token.transfer_from(dave(), carol(), erin(), 3);
    assert_eq!(
        r,
        Err(Error::InsufficientAllowance { spender: dave(), allowance: 2, needed: 3 })
    );
}

#[test]
fn every_successful_move_emits_one_transfer_event() {
    let mut token = ERC20::new();
    token.set_balance(carol(), 5);
    token.set_allowance(carol(), dave(), 2);

    token.transfer(carol(), dave(), 1).unwrap();
    assert_eq!(1, token.events.len());
    assert_eq!(Event::Transfer { from: carol(), to: dave(), value: 1 }, token.events[0]);

    token.transfer_from(dave(), carol(), erin(), 2).unwrap();
    assert_eq!(2, token.events.len());
    assert_eq!(Event::Transfer { from: carol(), to: erin(), value: 2 }, token.events[1]);
}

#[test]
fn approve_emits_one_approval_event() {
    let mut token = ERC20::new();
    token.approve(carol(), dave(), 0).unwrap();
    assert_eq!(1, token.events.len());
    assert_eq!(Event::Approval { owner: carol(), spender: dave(), value: 0 }, token.events[0]);
}

#[test]
fn transfer_to_self_changes_nothing_but_still_notifies() {
    let mut token = ERC20::new();
    token.set_balance(carol(), 3);

    token.transfer(carol(), carol(), 2).unwrap();

    assert_eq!(3, token.balance_of(carol()));
    assert_eq!(1, token.events.len());
    assert_eq!(Event::Transfer { from: carol(), to: carol(), value: 2 }, token.events[0]);
}

#[test]
fn transfer_of_zero_tokens_succeeds() {
    let mut token = ERC20::new();

    assert_eq!(Ok(true), token.transfer(carol(), dave(), 0));
    assert_eq!(0, token.balance_of(carol()));
    assert_eq!(0, token.balance_of(dave()));
}

#[test]
fn overwriting_a_balance_replaces_the_entry() {
    let mut token = ERC20::new();
    token.set_balance(carol(), 7);
    assert_eq!(7, token.balance_of(carol()));
    token.set_balance(carol(), 2);
    assert_eq!(2, token.balance_of(carol()));
}

#[test]
fn the_supply_reads_back_as_set() {
    let mut token = ERC20::new();
    assert_eq!(0, token.total_supply());
    token.set_total_supply(1_000_000);
    assert_eq!(1_000_000, token.total_supply());
}

#[test]
fn the_whole_domain_can_sit_in_one_account_and_move() {
    let mut token = ERC20::new();
    token.set_total_supply(u128::MAX);
    token.set_balance(carol(), u128::MAX);

    token.transfer(carol(), dave(), u128::MAX).unwrap();

    assert_eq!(0, token.balance_of(carol()));
    assert_eq!(u128::MAX, token.balance_of(dave()));

    token.transfer(dave(), carol(), 1).unwrap();
    assert_eq!(1, token.balance_of(carol()));
    assert_eq!(u128::MAX - 1, token.balance_of(dave()));
}

#[test]
fn an_exact_allowance_can_be_spent_to_zero() {
    let mut token = ERC20::new();
    token.set_balance(carol(), 8);
    token.set_allowance(carol(), dave(), 8);

    token.transfer_from(dave(), carol(), dave(), 8).unwrap();

    assert_eq!(0, token.allowance(carol(), dave()));
    assert_eq!(8, token.balance_of(dave()));
    assert_eq!(0, token.balance_of(carol()));
}
