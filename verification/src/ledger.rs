//! The token ledger and its state-transition operations.
//!
//! An [`ERC20`] value holds the balance map, the allowance map, the total
//! supply and the log of emitted events. The three public mutators
//! ([`ERC20::transfer`], [`ERC20::approve`], [`ERC20::transfer_from`]) first
//! validate every precondition and only then write, so a failing call leaves
//! the ledger exactly as it found it; the internal primitives
//! [`ERC20::_transfer`] and [`ERC20::_spend_allowance`] carry the balance and
//! allowance arithmetic.

use vstd::prelude::*;

use crate::address::Address;
use crate::table::allow_get;
use crate::table::allow_keys_unique;
use crate::table::allow_lookup;
use crate::table::allow_set;
use crate::table::bal_get;
use crate::table::bal_keys_unique;
use crate::table::bal_lookup;
use crate::table::bal_set;
use crate::table::bal_sum;
use crate::table::lemma_bal_sum_one;
use crate::table::lemma_bal_sum_two;

verus! {

/// The ways a ledger operation can fail. Each variant carries the structured
/// context a caller needs to inspect the failure programmatically; no failure
/// is ever reported as a `false` return.
#[derive(Clone, Copy, PartialEq, Eq, Structural, Debug)]
pub enum Error {
    /// The sender's balance is below the requested transfer amount.
    InsufficientBalance { sender: Address, balance: u128, needed: u128 },
    /// The token sender is the null address.
    InvalidSender { sender: Address },
    /// The token receiver is the null address.
    InvalidReceiver { receiver: Address },
    /// The spender's remaining allowance is below the requested amount.
    InsufficientAllowance { spender: Address, allowance: u128, needed: u128 },
    /// The spender to be approved is the null address.
    InvalidSpender { spender: Address },
}

/// A notification appended to the ledger's log when a mutation commits.
#[derive(Clone, Copy, PartialEq, Eq, Structural, Debug)]
pub enum Event {
    /// `value` tokens moved from `from` to `to`. `value` may be zero.
    Transfer { from: Address, to: Address, value: u128 },
    /// `owner` set the allowance of `spender` to `value`.
    Approval { owner: Address, spender: Address, value: u128 },
}

/// A fungible-token ledger: balances, allowances, total supply and the event
/// log.
///
/// The fields are exposed for inspection; mutate the ledger only through its
/// methods, which preserve [`ERC20::wf`].
pub struct ERC20 {
    /// Balance entries, one per account that was ever credited, keys unique.
    pub balances: Vec<(Address, u128)>,
    /// Allowance entries, one per (owner, spender) pair ever set, keys
    /// unique.
    pub allowances: Vec<(Address, Address, u128)>,
    /// The total supply, set at genesis and invariant under every operation
    /// here.
    pub supply: u128,
    /// Every event emitted so far, oldest first.
    pub events: Vec<Event>,
}

/// The two ledgers agree on every observable: every account's balance, every
/// pair's allowance, the total supply and the event log.
pub open spec fn ledger_unchanged(pre: ERC20, post: ERC20) -> bool {
    &&& forall|a: Address| post.bal(a) == pre.bal(a)
    &&& forall|o: Address, p: Address| post.allowance_of(o, p) == pre.allowance_of(o, p)
    &&& post.supply == pre.supply
    &&& post.events@ == pre.events@
}

impl ERC20 {
    /// The balance of `a`; zero for an account never credited.
    pub open spec fn bal(&self, a: Address) -> u128 {
        bal_lookup(self.balances@, a)
    }

    /// The remaining allowance `o` has granted `p`; zero if never set.
    pub open spec fn allowance_of(&self, o: Address, p: Address) -> u128 {
        allow_lookup(self.allowances@, o, p)
    }

    /// The sum of all account balances, as an unbounded integer.
    pub open spec fn balance_total(&self) -> int {
        bal_sum(self.balances@)
    }

    /// The allowance test applied to a delegated transfer: the allowance
    /// `owner` granted `spender` either is infinite or covers `value`.
    pub open spec fn allowance_covers(&self, owner: Address, spender: Address, value: u128) -> bool {
        self.allowance_of(owner, spender) == u128::MAX || self.allowance_of(owner, spender)
            >= value
    }

    /// Well-formedness: both maps keep their keys unique, and the balances
    /// together fit the unsigned domain, so that a transfer can never
    /// overflow the receiver's balance.
    pub open spec fn wf(&self) -> bool {
        &&& bal_keys_unique(self.balances@)
        &&& allow_keys_unique(self.allowances@)
        &&& bal_sum(self.balances@) <= u128::MAX
    }

    /// An empty ledger: no balances, no allowances, zero supply, no events.
    pub fn new() -> (t: ERC20)
        ensures
            t.wf(),
            forall|a: Address| t.bal(a) == 0,
            forall|o: Address, p: Address| t.allowance_of(o, p) == 0,
            t.supply == 0,
            t.events@.len() == 0,
            t.balance_total() == 0,
    {
        let t = ERC20 {
            balances: Vec::new(),
            allowances: Vec::new(),
            supply: 0,
            events: Vec::new(),
        };
        proof {
            assert forall|a: Address| t.bal(a) == 0 by {}
            assert forall|o: Address, p: Address| t.allowance_of(o, p) == 0 by {}
        }
        t
    }

    /// Returns the number of tokens in existence.
    pub fn total_supply(&self) -> (r: u128)
        ensures
            r == self.supply,
    {
        self.supply
    }

    /// Returns the number of tokens owned by `account`; zero for any account
    /// never credited.
    pub fn balance_of(&self, account: Address) -> (r: u128)
        ensures
            r == self.bal(account),
    {
        bal_get(&self.balances, account)
    }

    /// Returns the remaining number of tokens that `spender` is allowed to
    /// spend on behalf of `owner`; zero by default.
    pub fn allowance(&self, owner: Address, spender: Address) -> (r: u128)
        ensures
            r == self.allowance_of(owner, spender),
    {
        allow_get(&self.allowances, owner, spender)
    }

    /// Writes `value` as the balance of `account`, as a genesis or test
    /// harness would attach state directly to the store. Touches nothing
    /// else; the bound in the precondition keeps the balances within the
    /// domain's total capacity.
    pub fn set_balance(&mut self, account: Address, value: u128)
        requires
            old(self).wf(),
            bal_sum(old(self).balances@) - old(self).bal(account) + value <= u128::MAX,
        ensures
            final(self).wf(),
            final(self).bal(account) == value,
            forall|x: Address| x != account ==> final(self).bal(x) == old(self).bal(x),
            forall|o: Address, p: Address|
                final(self).allowance_of(o, p) == old(self).allowance_of(o, p),
            final(self).supply == old(self).supply,
            final(self).events@ == old(self).events@,
            final(self).balance_total() == old(self).balance_total() - old(self).bal(account)
                + value,
    {
        bal_set(&mut self.balances, account, value);
    }

    /// Writes `value` as the allowance `owner` grants `spender`, directly and
    /// unconditionally. Touches nothing else.
    pub fn set_allowance(&mut self, owner: Address, spender: Address, value: u128)
        requires
            old(self).wf(),
        ensures
            final(self).wf(),
            final(self).allowance_of(owner, spender) == value,
            forall|o: Address, p: Address|
                !(o == owner && p == spender) ==> final(self).allowance_of(o, p) == old(
                    self,
                ).allowance_of(o, p),
            forall|x: Address| final(self).bal(x) == old(self).bal(x),
            final(self).supply == old(self).supply,
            final(self).events@ == old(self).events@,
            final(self).balance_total() == old(self).balance_total(),
    {
        allow_set(&mut self.allowances, owner, spender, value);
    }

    /// Writes the total supply, as set once at genesis. Touches nothing
    /// else.
    pub fn set_total_supply(&mut self, value: u128)
        requires
            old(self).wf(),
        ensures
            final(self).wf(),
            final(self).supply == value,
            forall|x: Address| final(self).bal(x) == old(self).bal(x),
            forall|o: Address, p: Address|
                final(self).allowance_of(o, p) == old(self).allowance_of(o, p),
            final(self).events@ == old(self).events@,
            final(self).balance_total() == old(self).balance_total(),
    {
        self.supply = value;
    }

    /// Moves `value` from `from` to `to`, given that address validity was
    /// already checked. Fails with `InsufficientBalance` — and changes
    /// nothing — when `from` holds less than `value`; otherwise debits
    /// `from`, credits `to`, appends one `Transfer` event, and conserves the
    /// sum of all balances.
    fn _transfer(&mut self, from: Address, to: Address, value: u128) -> (r: Result<(), Error>)
        requires
            old(self).wf(),
        ensures
            final(self).wf(),
            old(self).bal(from) < value ==> r == Err::<(), Error>(
                Error::InsufficientBalance {
                    sender: from,
                    balance: old(self).bal(from),
                    needed: value,
                },
            ) && ledger_unchanged(*old(self), *final(self)),
            old(self).bal(from) >= value ==> {
                &&& r == Ok::<(), Error>(())
                &&& from != to ==> final(self).bal(from) == old(self).bal(from) - value
                &&& from != to ==> final(self).bal(to) == old(self).bal(to) + value
                &&& from == to ==> final(self).bal(from) == old(self).bal(from)
                &&& forall|x: Address|
                    x != from && x != to ==> final(self).bal(x) == old(self).bal(x)
                &&& forall|o: Address, p: Address|
                    final(self).allowance_of(o, p) == old(self).allowance_of(o, p)
                &&& final(self).supply == old(self).supply
                &&& final(self).balance_total() == old(self).balance_total()
                &&& final(self).events@ == old(self).events@.push(
                    Event::Transfer { from, to, value },
                )
            },
    {
        let from_balance = bal_get(&self.balances, from);
        if from_balance < value {
            return Err(
                Error::InsufficientBalance { sender: from, balance: from_balance, needed: value },
            );
        }
        proof {
            // The receiver's credit cannot overflow: both balances fit under
            // the sum of all balances, which well-formedness bounds.
            if from != to {
                lemma_bal_sum_two(self.balances@, from, to);
            } else {
                lemma_bal_sum_one(self.balances@, from);
            }
        }
        let new_from_balance = from_balance - value;
        bal_set(&mut self.balances, from, new_from_balance);
        let to_balance = bal_get(&self.balances, to);
        bal_set(&mut self.balances, to, to_balance + value);
        self.events.push(Event::Transfer { from, to, value });
        Ok(())
    }

    /// Deducts `value` from the allowance `owner` granted `spender`. An
    /// allowance equal to the maximum representable value is infinite: it is
    /// never decremented by spending. Fails with `InsufficientAllowance` —
    /// and changes nothing — when the finite allowance is below `value`.
    pub fn _spend_allowance(&mut self, owner: Address, spender: Address, value: u128) -> (r:
        Result<(), Error>)
        requires
            old(self).wf(),
        ensures
            final(self).wf(),
            final(self).balance_total() == old(self).balance_total(),
            old(self).allowance_of(owner, spender) == u128::MAX ==> r == Ok::<(), Error>(())
                && ledger_unchanged(*old(self), *final(self)),
            old(self).allowance_of(owner, spender) != u128::MAX && old(self).allowance_of(
                owner,
                spender,
            ) < value ==> r == Err::<(), Error>(
                Error::InsufficientAllowance {
                    spender,
                    allowance: old(self).allowance_of(owner, spender),
                    needed: value,
                },
            ) && ledger_unchanged(*old(self), *final(self)),
            old(self).allowance_of(owner, spender) != u128::MAX && old(self).allowance_of(
                owner,
                spender,
            ) >= value ==> {
                &&& r == Ok::<(), Error>(())
                &&& final(self).allowance_of(owner, spender) == old(self).allowance_of(
                    owner,
                    spender,
                ) - value
                &&& forall|o: Address, p: Address|
                    !(o == owner && p == spender) ==> final(self).allowance_of(o, p) == old(
                        self,
                    ).allowance_of(o, p)
                &&& forall|x: Address| final(self).bal(x) == old(self).bal(x)
                &&& final(self).supply == old(self).supply
                &&& final(self).balance_total() == old(self).balance_total()
                &&& final(self).events@ == old(self).events@
            },
    {
        let current_allowance = allow_get(&self.allowances, owner, spender);
        if current_allowance != u128::MAX {
            if current_allowance < value {
                return Err(
                    Error::InsufficientAllowance {
                        spender,
                        allowance: current_allowance,
                        needed: value,
                    },
                );
            }
            allow_set(&mut self.allowances, owner, spender, current_allowance - value);
        }
        Ok(())
    }

    /// Moves `value` tokens from `caller`'s account to `to`.
    ///
    /// Fails with `InvalidReceiver` when `to` is the null address — for any
    /// `value`, including zero — and with `InsufficientBalance` when
    /// `caller` holds less than `value`; a failing call leaves every
    /// observable unchanged. On success it returns `Ok(true)`, conserves the
    /// sum of all balances and the total supply, and emits exactly one
    /// `Transfer` event.
    pub fn transfer(&mut self, caller: Address, to: Address, value: u128) -> (r: Result<
        bool,
        Error,
    >)
        requires
            old(self).wf(),
        ensures
            final(self).wf(),
            r is Err ==> ledger_unchanged(*old(self), *final(self)),
            to.is_zero() ==> r == Err::<bool, Error>(Error::InvalidReceiver { receiver: to }),
            !to.is_zero() && old(self).bal(caller) < value ==> r == Err::<bool, Error>(
                Error::InsufficientBalance {
                    sender: caller,
                    balance: old(self).bal(caller),
                    needed: value,
                },
            ),
            !to.is_zero() && old(self).bal(caller) >= value ==> {
                &&& r == Ok::<bool, Error>(true)
                &&& caller != to ==> final(self).bal(caller) == old(self).bal(caller) - value
                &&& caller != to ==> final(self).bal(to) == old(self).bal(to) + value
                &&& caller == to ==> final(self).bal(caller) == old(self).bal(caller)
                &&& forall|x: Address|
                    x != caller && x != to ==> final(self).bal(x) == old(self).bal(x)
                &&& forall|o: Address, p: Address|
                    final(self).allowance_of(o, p) == old(self).allowance_of(o, p)
                &&& final(self).supply == old(self).supply
                &&& final(self).balance_total() == old(self).balance_total()
                &&& final(self).events@ == old(self).events@.push(
                    Event::Transfer { from: caller, to, value },
                )
            },
    {
        let from = caller;
        if to.is_zero() {
            return Err(Error::InvalidReceiver { receiver: to });
        }
        match self._transfer(from, to, value) {
            Ok(()) => {},
            Err(e) => {
                return Err(e);
            },
        }
        Ok(true)
    }

    /// Sets the allowance of `spender` over `caller`'s tokens to exactly
    /// `value` — an absolute assignment, not an addition, whatever was set
    /// before.
    ///
    /// Fails with `InvalidSpender` when `spender` is the null address,
    /// leaving every observable unchanged. On success it returns `Ok(true)`,
    /// touches no balance, and emits exactly one `Approval` event.
    ///
    /// Setting a new allowance while a prior one is partially unspent lets
    /// the spender combine both across two adversarially ordered calls; that
    /// race is a documented property of the absolute-assignment design, and
    /// callers who need atomicity are expected to set the allowance to zero
    /// first.
    pub fn approve(&mut self, caller: Address, spender: Address, value: u128) -> (r: Result<
        bool,
        Error,
    >)
        requires
            old(self).wf(),
        ensures
            final(self).wf(),
            r is Err ==> ledger_unchanged(*old(self), *final(self)),
            spender.is_zero() ==> r == Err::<bool, Error>(Error::InvalidSpender { spender }),
            !spender.is_zero() ==> {
                &&& r == Ok::<bool, Error>(true)
                &&& final(self).allowance_of(caller, spender) == value
                &&& forall|o: Address, p: Address|
                    !(o == caller && p == spender) ==> final(self).allowance_of(o, p) == old(
                        self,
                    ).allowance_of(o, p)
                &&& forall|x: Address| final(self).bal(x) == old(self).bal(x)
                &&& final(self).supply == old(self).supply
                &&& final(self).balance_total() == old(self).balance_total()
                &&& final(self).events@ == old(self).events@.push(
                    Event::Approval { owner: caller, spender, value },
                )
            },
    {
        let owner = caller;
        if spender.is_zero() {
            return Err(Error::InvalidSpender { spender });
        }
        allow_set(&mut self.allowances, owner, spender, value);
        self.events.push(Event::Approval { owner, spender, value });
        Ok(true)
    }

    /// Moves `value` tokens from `from` to `to` on the authority of the
    /// allowance `from` granted `caller`, then deducts `value` from that
    /// allowance — unless the allowance is infinite, in which case it is
    /// left untouched.
    ///
    /// The checks run in order: `InvalidSender` when `from` is the null
    /// address, `InvalidReceiver` when `to` is, `InsufficientAllowance` when
    /// the finite allowance is below `value`, `InsufficientBalance` when
    /// `from` holds less than `value`. Every check runs before any write, so
    /// a failing call leaves every observable unchanged. On success it
    /// returns `Ok(true)`, conserves the sum of all balances and the total
    /// supply, and emits exactly one `Transfer` event.
    pub fn transfer_from(&mut self, caller: Address, from: Address, to: Address, value: u128) -> (r:
        Result<bool, Error>)
        requires
            old(self).wf(),
        ensures
            final(self).wf(),
            r is Err ==> ledger_unchanged(*old(self), *final(self)),
            old(self).allowance_of(from, caller) == u128::MAX ==> final(self).allowance_of(
                from,
                caller,
            ) == u128::MAX,
            from.is_zero() ==> r == Err::<bool, Error>(Error::InvalidSender { sender: from }),
            !from.is_zero() && to.is_zero() ==> r == Err::<bool, Error>(
                Error::InvalidReceiver { receiver: to },
            ),
            !from.is_zero() && !to.is_zero() && !old(self).allowance_covers(from, caller, value)
                ==> r == Err::<bool, Error>(
                Error::InsufficientAllowance {
                    spender: caller,
                    allowance: old(self).allowance_of(from, caller),
                    needed: value,
                },
            ),
            !from.is_zero() && !to.is_zero() && old(self).allowance_covers(from, caller, value)
                && old(self).bal(from) < value ==> r == Err::<bool, Error>(
                Error::InsufficientBalance {
                    sender: from,
                    balance: old(self).bal(from),
                    needed: value,
                },
            ),
            !from.is_zero() && !to.is_zero() && old(self).allowance_covers(from, caller, value)
                && old(self).bal(from) >= value ==> {
                &&& r == Ok::<bool, Error>(true)
                &&& from != to ==> final(self).bal(from) == old(self).bal(from) - value
                &&& from != to ==> final(self).bal(to) == old(self).bal(to) + value
                &&& from == to ==> final(self).bal(from) == old(self).bal(from)
                &&& forall|x: Address|
                    x != from && x != to ==> final(self).bal(x) == old(self).bal(x)
                &&& old(self).allowance_of(from, caller) != u128::MAX ==> final(self)
                    .allowance_of(from, caller) == old(self).allowance_of(from, caller) - value
                &&& forall|o: Address, p: Address|
                    !(o == from && p == caller) ==> final(self).allowance_of(o, p) == old(
                        self,
                    ).allowance_of(o, p)
                &&& final(self).supply == old(self).supply
                &&& final(self).balance_total() == old(self).balance_total()
                &&& final(self).events@ == old(self).events@.push(
                    Event::Transfer { from, to, value },
                )
            },
    {
        if from.is_zero() {
            return Err(Error::InvalidSender { sender: from });
        }
        if to.is_zero() {
            return Err(Error::InvalidReceiver { receiver: to });
        }
        let spender = caller;
        // Validate before mutating: a late failure must not leave an earlier
        // write behind, so the allowance and balance guards both run before
        // either map is written.
        let current_allowance = allow_get(&self.allowances, from, spender);
        if current_allowance != u128::MAX && current_allowance < value {
            return Err(
                Error::InsufficientAllowance {
                    spender,
                    allowance: current_allowance,
                    needed: value,
                },
            );
        }
        let from_balance = bal_get(&self.balances, from);
        if from_balance < value {
            return Err(
                Error::InsufficientBalance { sender: from, balance: from_balance, needed: value },
            );
        }
        match self._spend_allowance(from, spender, value) {
            Ok(()) => {},
            Err(e) => {
                return Err(e);
            },
        }
        match self._transfer(from, to, value) {
            Ok(()) => {},
            Err(e) => {
                return Err(e);
            },
        }
        Ok(true)
    }
}

} // verus!
