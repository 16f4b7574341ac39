//! Storage cells.

use vstd::prelude::*;
use crate::address::Address;

verus! {

/// A storage cell of the ledger as a handler sees it for the length of one call.
#[derive(Clone, Debug, PartialEq, Eq)]
pub struct AccountInfo {
    /// The address of the cell.
    pub key: Address,
    /// The program that owns the cell.
    pub owner: Address,
    /// The balance that pays for the allocated bytes.
    pub lamports: u64,
    /// Whether the transaction carries the signature of this cell's key.
    pub is_signer: bool,
    /// Whether the transaction lets the cell be written.
    pub is_writable: bool,
    /// The bytes of the cell. Their number is fixed when the cell is created.
    pub data: Vec<u8>,
}

impl AccountInfo {
    /// Whether `self` is `before` with other bytes in its buffer.
    pub open spec fn same_cell_as(&self, before: &AccountInfo) -> bool {
        &&& self.key == before.key
        &&& self.owner == before.owner
        &&& self.lamports == before.lamports
        &&& self.is_signer == before.is_signer
        &&& self.is_writable == before.is_writable
    }
}

} // verus!
