//! The token program as far as the exchange booth deals with it: what its
//! cells hold, and the instructions that the booth hands to it.

use vstd::prelude::*;
use solana_program::program_error::ProgramError;
use solana_program::program_pack::Pack;
use solana_program::pubkey::Pubkey;
use crate::address::Address;
use crate::error::HandlerError;
use crate::ledger::{AccountMeta, Instruction};
use crate::little_endian::le_bytes;

verus! {

/// The address of the token program.
pub const TOKEN_PROGRAM_ID: [u8; 32] = [
    6, 221, 246, 225, 215, 101, 161, 147, 217, 203, 225, 70, 206, 235, 121, 172,
    28, 180, 133, 237, 95, 91, 55, 145, 58, 140, 245, 133, 126, 255, 0, 169,
];

/// The address of the cell that holds the ledger's rent.
pub const RENT_SYSVAR_ID: [u8; 32] = [
    6, 167, 213, 23, 25, 44, 92, 81, 33, 140, 201, 76, 61, 74, 241, 127,
    88, 218, 238, 8, 155, 161, 253, 68, 227, 219, 217, 138, 0, 0, 0, 0,
];

/// Number of bytes of a token account.
pub const TOKEN_ACCOUNT_LEN: usize = 165;

/// Number of bytes of a mint.
pub const MINT_LEN: usize = 82;

/// A token account as the token program reads it from a cell. A value of it
/// is carried through unread.
#[verifier::external_type_specification]
#[verifier::external_body]
pub struct ExTokenAccount(spl_token::state::Account);

/// A mint as the token program reads it from a cell. A value of it is carried
/// through unread.
#[verifier::external_type_specification]
#[verifier::external_body]
pub struct ExMint(spl_token::state::Mint);

/// Whether the token program reads `data` as a token account that is in use.
pub uninterp spec fn holds_token_account(data: Seq<u8>) -> bool;

/// Whether the token program reads `data` as a mint that is in use.
pub uninterp spec fn holds_mint(data: Seq<u8>) -> bool;

/// `Account::unpack` of the token program: the token account that a cell
/// holds. The contract claims that whether one is read is a function of the
/// bytes, named `holds_token_account`, and that one is read from 165 bytes only.
#[verifier::external_body]
pub(crate) fn unpack_account(data: &[u8]) -> (r: Result<spl_token::state::Account, ProgramError>)
    ensures
        r is Ok == holds_token_account(data@),
        r is Ok ==> data@.len() == TOKEN_ACCOUNT_LEN,
{
    spl_token::state::Account::unpack(data)
}

/// `Mint::unpack` of the token program: the mint that a cell holds. The
/// contract claims that whether one is read is a function of the bytes, named
/// `holds_mint`, and that one is read from 82 bytes only.
#[verifier::external_body]
pub(crate) fn unpack_mint(data: &[u8]) -> (r: Result<spl_token::state::Mint, ProgramError>)
    ensures
        r is Ok == holds_mint(data@),
        r is Ok ==> data@.len() == MINT_LEN,
{
    spl_token::state::Mint::unpack(data)
}

/// What was read from a cell, or `InvalidAccountData` where nothing was read,
/// whatever the reason.
pub fn read_or_invalid<T>(read: Result<T, ProgramError>) -> (r: Result<T, HandlerError>)
    ensures
        r == match read {
            Ok(value) => Ok::<T, HandlerError>(value),
            Err(_) => Err::<T, HandlerError>(HandlerError::InvalidAccountData),
        },
{
    match read {
        Ok(value) => Ok(value),
        Err(_) => Err(HandlerError::InvalidAccountData),
    }
}

/// The bytes of the token program's instruction that moves `amount` tokens:
/// its number, which is 3, then the amount.
pub open spec fn transfer_data(amount: u64) -> Seq<u8> {
    seq![3u8] + le_bytes(amount as nat, 8)
}

/// The bytes of the token program's instruction that sets a token account up:
/// its number, which is 1.
pub open spec fn initialize_account_data() -> Seq<u8> {
    seq![1u8]
}

/// `spl_token::instruction::transfer` without further signers: the
/// instruction that moves `amount` tokens from `source` to `destination` on
/// the word of `authority`. The contract claims that it fails exactly where
/// `token_program_id` is not the token program, and that it else is for that
/// program, names the source and the destination as written and the
/// authority as signer, and holds the bytes of `transfer_data`.
#[verifier::external_body]
pub(crate) fn transfer(
    token_program_id: &Address,
    source: &Address,
    destination: &Address,
    authority: &Address,
    amount: u64,
) -> (r: Result<Instruction, ProgramError>)
    ensures
        match r {
            Ok(instruction) => {
                &&& token_program_id@ == TOKEN_PROGRAM_ID@
                &&& instruction.program_id == *token_program_id
                &&& instruction.accounts@ == seq![
                    AccountMeta { pubkey: *source, is_signer: false, is_writable: true },
                    AccountMeta { pubkey: *destination, is_signer: false, is_writable: true },
                    AccountMeta { pubkey: *authority, is_signer: true, is_writable: false },
                ]
                &&& instruction.data@ == transfer_data(amount)
            },
            Err(_) => token_program_id@ != TOKEN_PROGRAM_ID@,
        },
{
    let key = |address: &Address| Pubkey::new_from_array(address.bytes);
    let (program, from, to) = (key(token_program_id), key(source), key(destination));
    let made = spl_token::instruction::transfer(&program, &from, &to, &key(authority), &[], amount)?;
    Ok(Instruction {
        program_id: Address { bytes: made.program_id.to_bytes() },
        accounts: made.accounts.iter().map(|meta| AccountMeta {
            pubkey: Address { bytes: meta.pubkey.to_bytes() },
            is_signer: meta.is_signer,
            is_writable: meta.is_writable,
        }).collect(),
        data: made.data,
    })
}

/// `spl_token::instruction::initialize_account`: the instruction that sets up
/// the token account `account` for the tokens of `mint`, with `owner` as the
/// one who may move them. The contract claims that it fails exactly where
/// `token_program_id` is not the token program, and that it else is for that
/// program, names the account as written, then the mint, the owner and the
/// cell of the rent, none of them as signer, and holds the bytes of
/// `initialize_account_data`.
#[verifier::external_body]
pub(crate) fn initialize_account(
    token_program_id: &Address,
    account: &Address,
    mint: &Address,
    owner: &Address,
) -> (r: Result<Instruction, ProgramError>)
    ensures
        match r {
            Ok(instruction) => {
                &&& token_program_id@ == TOKEN_PROGRAM_ID@
                &&& instruction.program_id == *token_program_id
                &&& instruction.accounts@ == seq![
                    AccountMeta { pubkey: *account, is_signer: false, is_writable: true },
                    AccountMeta { pubkey: *mint, is_signer: false, is_writable: false },
                    AccountMeta { pubkey: *owner, is_signer: false, is_writable: false },
                    AccountMeta {
                        pubkey: Address { bytes: RENT_SYSVAR_ID },
                        is_signer: false,
                        is_writable: false,
                    },
                ]
                &&& instruction.data@ == initialize_account_data()
            },
            Err(_) => token_program_id@ != TOKEN_PROGRAM_ID@,
        },
{
    let key = |address: &Address| Pubkey::new_from_array(address.bytes);
    let (program, account, mint) = (key(token_program_id), key(account), key(mint));
    let made = spl_token::instruction::initialize_account(&program, &account, &mint, &key(owner))?;
    Ok(Instruction {
        program_id: Address { bytes: made.program_id.to_bytes() },
        accounts: made.accounts.iter().map(|meta| AccountMeta {
            pubkey: Address { bytes: meta.pubkey.to_bytes() },
            is_signer: meta.is_signer,
            is_writable: meta.is_writable,
        }).collect(),
        data: made.data,
    })
}

} // verus!
