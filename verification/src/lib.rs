//! A fungible-token ledger with verified balance and allowance accounting.
//!
//! The ledger tracks ownership of a fungible unit of value across an open set
//! of accounts and permits delegated spending through an allowance mechanism.
//! Every state transition is specified by a contract and proved: transfers
//! conserve the sum of all balances, failed operations leave the ledger
//! exactly as they found it, an approval is an absolute assignment, and an
//! infinite allowance is never decremented by spending.
//!
//! What a host runtime would supply is modelled as plain data, so that the
//! accounting rules themselves are what gets verified:
//! - the persistent key-value substrate is an in-memory store owned by the
//!   [`ledger::ERC20`] value, one per deployed token;
//! - the ambient caller identity is an explicit [`address::Address`]
//!   parameter on every mutating operation;
//! - the event-emission primitive is a log kept in the ledger, appended to
//!   exactly once per successful mutation and only after every check has
//!   passed, so an aborted call leaves no trace.

pub mod address;
pub mod ledger;
pub mod table;
