//! What the program asks of the ledger: instructions for other programs,
//! which the caller of this library hands to the ledger in the program's name.

use vstd::prelude::*;
use solana_program::pubkey::Pubkey;
use solana_program::system_instruction;
use crate::address::Address;
use crate::little_endian::le_bytes;

verus! {

/// A cell that an instruction names, and what the instruction may do with it.
#[derive(Clone, Copy, Debug, PartialEq, Eq)]
pub struct AccountMeta {
    /// The address of the cell.
    pub pubkey: Address,
    /// Whether the instruction needs the signature of the cell's key.
    pub is_signer: bool,
    /// Whether the instruction writes the cell.
    pub is_writable: bool,
}

/// An instruction for a program of the ledger.
#[derive(Clone, Debug, PartialEq, Eq)]
pub struct Instruction {
    /// The program that carries the instruction out.
    pub program_id: Address,
    /// The cells that the instruction names, in its order.
    pub accounts: Vec<AccountMeta>,
    /// The bytes that the program reads the instruction from.
    pub data: Vec<u8>,
}

/// An instruction that the program hands to the ledger in its own name.
#[derive(Clone, Debug, PartialEq, Eq)]
pub struct Invocation {
    /// The instruction.
    pub instruction: Instruction,
    /// The cells that go with it: their places among the cells of the call.
    pub accounts: Vec<usize>,
    /// The seeds that prove the program's authority over a derived address.
    pub signer_seeds: Vec<Vec<u8>>,
}

/// The address of the system program, which creates cells: 32 zero bytes.
pub open spec fn system_program_id() -> Seq<u8> {
    Seq::new(32, |i: int| 0u8)
}

/// The bytes of the system program's instruction that creates a cell: its
/// number, which is zero and takes four bytes, the balance, the number of
/// bytes, and the owner.
pub open spec fn create_account_data(lamports: u64, space: u64, owner: Seq<u8>) -> Seq<u8> {
    le_bytes(0, 4) + le_bytes(lamports as nat, 8) + le_bytes(space as nat, 8) + owner
}

/// `system_instruction::create_account`: the instruction that creates the
/// cell `to` with `space` bytes, owned by `owner` and paid for by `from` with
/// `lamports`. The contract claims that it is for the system program, names
/// `from` and `to` in this order, both as signers and as written, and holds
/// the bytes of `create_account_data`.
#[verifier::external_body]
pub(crate) fn create_account(
    from: &Address,
    to: &Address,
    lamports: u64,
    space: u64,
    owner: &Address,
) -> (instruction: Instruction)
    ensures
        instruction.program_id@ == system_program_id(),
        instruction.accounts@ == seq![
            AccountMeta { pubkey: *from, is_signer: true, is_writable: true },
            AccountMeta { pubkey: *to, is_signer: true, is_writable: true },
        ],
        instruction.data@ == create_account_data(lamports, space, owner@),
{
    let key = |address: &Address| Pubkey::new_from_array(address.bytes);
    let (from, to, owner) = (key(from), key(to), key(owner));
    let made = system_instruction::create_account(&from, &to, lamports, space, &owner);
    Instruction {
        program_id: Address { bytes: made.program_id.to_bytes() },
        accounts: made.accounts.iter().map(|meta| AccountMeta {
            pubkey: Address { bytes: meta.pubkey.to_bytes() },
            is_signer: meta.is_signer,
            is_writable: meta.is_writable,
        }).collect(),
        data: made.data,
    }
}

} // verus!
