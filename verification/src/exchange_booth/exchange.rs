//! A user exchanges tokens of one mint for tokens of the other. The handler
//! is a draft: it reads its cells, and moves nothing yet.

use vstd::prelude::*;
use crate::account_info::AccountInfo;
use crate::address::Address;
use crate::error::HandlerError;
use crate::exchange_booth::state::ExchangeBooth;
use crate::token::{holds_mint, holds_token_account, read_or_invalid, unpack_account, unpack_mint};

verus! {

/// What an exchange leads to: the cells are read one after the other, and
/// the first that is missing or holds something else ends the request. The
/// cells are: the user, the user's two token accounts, the two vaults, the
/// two mints and the booth.
pub open spec fn exchange_outcome(accounts: Seq<AccountInfo>) -> Result<(), HandlerError> {
    if accounts.len() < 4 {
        Err(HandlerError::NotEnoughAccountKeys)
    } else if !holds_token_account(accounts[3].data@) {
        Err(HandlerError::InvalidAccountData)
    } else if accounts.len() < 5 {
        Err(HandlerError::NotEnoughAccountKeys)
    } else if !holds_token_account(accounts[4].data@) {
        Err(HandlerError::InvalidAccountData)
    } else if accounts.len() < 6 {
        Err(HandlerError::NotEnoughAccountKeys)
    } else if !holds_mint(accounts[5].data@) {
        Err(HandlerError::InvalidAccountData)
    } else if accounts.len() < 7 {
        Err(HandlerError::NotEnoughAccountKeys)
    } else if !holds_mint(accounts[6].data@) {
        Err(HandlerError::InvalidAccountData)
    } else if accounts.len() < 8 {
        Err(HandlerError::NotEnoughAccountKeys)
    } else if !ExchangeBooth::is_encoding(accounts[7].data@) {
        Err(HandlerError::BorshIoError)
    } else {
        Ok(())
    }
}

/// Reads the cells of an exchange: the vaults as token accounts, the mints
/// as mints, the booth as a booth. Fails with `NotEnoughAccountKeys` at the
/// first cell that is missing, with `InvalidAccountData` at the first vault
/// or mint that holds something else, and with `BorshIoError` where the last
/// cell holds no booth. Neither the signature of the user nor the number of
/// tokens decides anything yet.
pub fn process(program_id: &Address, accounts: &[AccountInfo], tokens_to_transfer: u64) -> (r:
    Result<(), HandlerError>)
    ensures
        r == exchange_outcome(accounts@),
{
    if accounts.len() < 4 {
        return Err(HandlerError::NotEnoughAccountKeys);
    }
    let vault_a_pda = &accounts[3];
    match read_or_invalid(unpack_account(vault_a_pda.data.as_slice())) {
        Ok(_) => {},
        Err(e) => {
            return Err(e);
        },
    }
    if accounts.len() < 5 {
        return Err(HandlerError::NotEnoughAccountKeys);
    }
    let vault_b_pda = &accounts[4];
    match read_or_invalid(unpack_account(vault_b_pda.data.as_slice())) {
        Ok(_) => {},
        Err(e) => {
            return Err(e);
        },
    }
    if accounts.len() < 6 {
        return Err(HandlerError::NotEnoughAccountKeys);
    }
    let mint_a_acc = &accounts[5];
    match read_or_invalid(unpack_mint(mint_a_acc.data.as_slice())) {
        Ok(_) => {},
        Err(e) => {
            return Err(e);
        },
    }
    if accounts.len() < 7 {
        return Err(HandlerError::NotEnoughAccountKeys);
    }
    let mint_b_acc = &accounts[6];
    match read_or_invalid(unpack_mint(mint_b_acc.data.as_slice())) {
        Ok(_) => {},
        Err(e) => {
            return Err(e);
        },
    }
    if accounts.len() < 8 {
        return Err(HandlerError::NotEnoughAccountKeys);
    }
    let exchange_booth_acc = &accounts[7];
    match ExchangeBooth::decode(exchange_booth_acc.data.as_slice()) {
        Ok(_) => Ok(()),
        Err(e) => Err(e),
    }
}

} // verus!
