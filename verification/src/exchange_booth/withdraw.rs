//! The administrator takes tokens out of the second vault.

use vstd::prelude::*;
use crate::account_info::AccountInfo;
use crate::address::Address;
use crate::error::HandlerError;
use crate::exchange_booth::state::ExchangeBooth;
use crate::exchange_booth::vault::{
    is_vault, signs_for_vault, vault_bump, vault_signer_seeds, VAULT_B_TAG,
};
use crate::ledger::{AccountMeta, Invocation};
use crate::token::{transfer, transfer_data, TOKEN_PROGRAM_ID};

verus! {

/// The reason for which a withdrawal is refused, or `None` where it is
/// allowed. The cells are: the administrator, the administrator's token
/// account, the vault, the mint, the booth and the token program.
pub open spec fn withdraw_refusal(program_id: Address, accounts: Seq<AccountInfo>) -> Option<
    HandlerError,
> {
    if accounts.len() < 6 {
        Some(HandlerError::NotEnoughAccountKeys)
    } else if !accounts[0].is_signer {
        Some(HandlerError::MissingRequiredSignature)
    } else if !ExchangeBooth::is_encoding(accounts[4].data@) {
        Some(HandlerError::BorshIoError)
    } else if accounts[4].data@.subrange(1, 33) != accounts[0].key@ {
        Some(HandlerError::InvalidArgument)
    } else if accounts[5].key@ != TOKEN_PROGRAM_ID@ {
        Some(HandlerError::IncorrectProgramId)
    } else if !is_vault(VAULT_B_TAG@, accounts[4].key, program_id, accounts[2].key) {
        Some(HandlerError::InvalidArgument)
    } else {
        None
    }
}

/// Whether `invocation` moves `amount` tokens from the vault to the
/// administrator's token account, on the word of the vault itself, which the
/// program gives with the seeds of the vault.
pub open spec fn is_withdrawal(
    invocation: Invocation,
    program_id: Address,
    accounts: Seq<AccountInfo>,
    amount: u64,
) -> bool {
    &&& invocation.instruction.program_id == accounts[5].key
    &&& invocation.instruction.accounts@ == seq![
        AccountMeta { pubkey: accounts[2].key, is_signer: false, is_writable: true },
        AccountMeta { pubkey: accounts[1].key, is_signer: false, is_writable: true },
        AccountMeta { pubkey: accounts[2].key, is_signer: true, is_writable: false },
    ]
    &&& invocation.instruction.data@ == transfer_data(amount)
    &&& invocation.accounts@ == seq![2usize, 1usize, 5usize]
    &&& signs_for_vault(
        invocation.signer_seeds,
        VAULT_B_TAG@,
        accounts[4].key,
        program_id,
        accounts[2].key,
    )
}

/// Checks a withdrawal and names the instruction that carries it out: the
/// caller hands it to the ledger. Fails with `NotEnoughAccountKeys` where
/// cells are missing, else with `MissingRequiredSignature` where the
/// administrator did not sign, else with `BorshIoError` where the cell of the
/// booth holds no booth, else with `InvalidArgument` where the booth names
/// another administrator, else with `IncorrectProgramId` where the last cell
/// is not the token program, else with `InvalidArgument` where the vault is
/// not at the address derived from the booth.
pub fn process(program_id: &Address, accounts: &[AccountInfo], amount_to_withdraw: u64) -> (r:
    Result<Invocation, HandlerError>)
    ensures
        match r {
            Ok(invocation) => withdraw_refusal(*program_id, accounts@) is None && is_withdrawal(
                invocation,
                *program_id,
                accounts@,
                amount_to_withdraw,
            ),
            Err(e) => withdraw_refusal(*program_id, accounts@) == Some(e),
        },
{
    if accounts.len() < 6 {
        return Err(HandlerError::NotEnoughAccountKeys);
    }
    let admin = &accounts[0];
    let admins_token_account = &accounts[1];
    let vault = &accounts[2];
    let exchange_booth_acct = &accounts[4];
    let token_program = &accounts[5];
    if !admin.is_signer {
        return Err(HandlerError::MissingRequiredSignature);
    }
    let exchange_booth = match ExchangeBooth::decode(exchange_booth_acct.data.as_slice()) {
        Ok(exchange_booth) => exchange_booth,
        Err(e) => {
            return Err(e);
        },
    };
    if !exchange_booth.admin.same_as(&admin.key) {
        return Err(HandlerError::InvalidArgument);
    }
    let transfer_ix = match transfer(
        &token_program.key,
        &vault.key,
        &admins_token_account.key,
        &vault.key,
        amount_to_withdraw,
    ) {
        Ok(transfer_ix) => transfer_ix,
        Err(_) => {
            return Err(HandlerError::IncorrectProgramId);
        },
    };
    let bump = match vault_bump(
        VAULT_B_TAG.as_slice(),
        &exchange_booth_acct.key,
        program_id,
        &vault.key,
    ) {
        Ok(bump) => bump,
        Err(e) => {
            return Err(e);
        },
    };
    let mut handed_on: Vec<usize> = Vec::new();
    handed_on.push(2);
    handed_on.push(1);
    handed_on.push(5);
    let signer_seeds = vault_signer_seeds(VAULT_B_TAG.as_slice(), &exchange_booth_acct.key, bump);
    assert(handed_on@ =~= seq![2usize, 1usize, 5usize]);
    Ok(Invocation { instruction: transfer_ix, accounts: handed_on, signer_seeds })
}

} // verus!
