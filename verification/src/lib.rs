//! The handlers of three small programs of a ledger, with their contracts.
//!
//! A program of the ledger is called with an instruction in bytes and with a
//! list of storage cells, and it reads and writes the bytes of those cells.
//! What a handler here decides and writes is verified; what only the ledger
//! can do, such as creating a cell, is named in the handler's result, and the
//! caller has the ledger do it.
//!
//! - [`echo`]: bytes are copied to a cell that is still zero, for any caller.
//! - [`authorized`]: buffers that only their authority may write. The address
//!   of such a buffer is derived from the authority and a seed
//!   ([`address`]), and its first bytes hold what the address was derived
//!   with ([`state`]).
//! - [`instruction`] and [`processor`]: the instructions of the echo program,
//!   and its entry.
//! - [`oracle`]: a program that knows the echo alone.
//! - [`exchange_booth`]: the set-up of an exchange booth and the withdrawal
//!   from it, with the token program ([`token`]).
//! - [`account_info`], [`error`], [`ledger`]: cells, refusals, and what a
//!   handler asks of the ledger.
//! - [`little_endian`], [`wire`]: the layout of integers and byte strings.

pub mod account_info;
pub mod address;
pub mod authorized;
pub mod echo;
pub mod error;
pub mod exchange_booth;
pub mod instruction;
pub mod ledger;
pub mod little_endian;
pub mod oracle;
pub mod processor;
pub mod state;
pub mod token;
pub mod wire;
