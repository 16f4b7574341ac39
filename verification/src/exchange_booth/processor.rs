//! The entry of the exchange booth: an instruction is read from its bytes and
//! handed to its handler.

use vstd::prelude::*;
use crate::account_info::AccountInfo;
use crate::address::Address;
use crate::error::HandlerError;
use crate::exchange_booth::exchange::exchange_outcome;
use crate::exchange_booth::initialize_exchange_booth::{setup_refusal, BoothSetup};
use crate::exchange_booth::instruction::ExchangeBoothInstruction;
use crate::exchange_booth::withdraw::{is_withdrawal, withdraw_refusal};
use crate::exchange_booth::{exchange, initialize_exchange_booth, withdraw};
use crate::ledger::Invocation;
use crate::token::{holds_mint, holds_token_account, read_or_invalid, unpack_account, unpack_mint};

verus! {

/// How far an instruction of the booth got.
#[derive(Clone, Debug, PartialEq, Eq)]
pub enum BoothOutcome {
    /// The instruction is carried out.
    Done,
    /// The booth may be set up: the ledger has to create the vaults, and
    /// `BoothSetup::finish` then carries the instruction to its end.
    SetUp(BoothSetup),
    /// The ledger has to be handed this instruction.
    Invoke(Invocation),
}

/// The handlers of the exchange booth.
pub struct Processor {}

impl Processor {
    /// Unpacks the token account that a cell of the token program holds.
    /// Fails with `IncorrectProgramId` where the cell belongs to another
    /// program, else with `InvalidAccountData` where it holds no token
    /// account that is in use.
    pub fn unpack_token_account(account_info: &AccountInfo, token_program_id: &Address) -> (r:
        Result<spl_token::state::Account, HandlerError>)
        ensures
            match r {
                Ok(_) => account_info.owner == *token_program_id && holds_token_account(
                    account_info.data@,
                ),
                Err(e) => if account_info.owner != *token_program_id {
                    e == HandlerError::IncorrectProgramId
                } else {
                    e == HandlerError::InvalidAccountData && !holds_token_account(
                        account_info.data@,
                    )
                },
            },
    {
        if !account_info.owner.same_as(token_program_id) {
            return Err(HandlerError::IncorrectProgramId);
        } else {
            return read_or_invalid(unpack_account(account_info.data.as_slice()));
        }
    }

    /// Unpacks the mint that a cell of the token program holds. Fails with
    /// `IncorrectProgramId` where the cell belongs to another program, else
    /// with `InvalidAccountData` where it holds no mint that is in use.
    pub fn unpack_mint(account_info: &AccountInfo, token_program_id: &Address) -> (r: Result<
        spl_token::state::Mint,
        HandlerError,
    >)
        ensures
            match r {
                Ok(_) => account_info.owner == *token_program_id && holds_mint(account_info.data@),
                Err(e) => if account_info.owner != *token_program_id {
                    e == HandlerError::IncorrectProgramId
                } else {
                    e == HandlerError::InvalidAccountData && !holds_mint(account_info.data@)
                },
            },
    {
        if !account_info.owner.same_as(token_program_id) {
            Err(HandlerError::IncorrectProgramId)
        } else {
            read_or_invalid(unpack_mint(account_info.data.as_slice()))
        }
    }

    /// Reads the instruction and hands it to its handler. Fails with
    /// `InvalidInstructionData` on bytes that lay out no instruction, and as
    /// the handler fails. To deposit and to close a booth have no handler
    /// yet: nothing is done for them.
    pub fn process_instruction(
        program_id: &Address,
        accounts: &[AccountInfo],
        instruction_data: &[u8],
    ) -> (r: Result<BoothOutcome, HandlerError>)
        ensures
            match ExchangeBoothInstruction::decoding(instruction_data@) {
                None => r == Err::<BoothOutcome, HandlerError>(
                    HandlerError::InvalidInstructionData,
                ),
                Some(ExchangeBoothInstruction::InititializeExchangeBooth {  }) => match r {
                    Ok(outcome) => {
                        &&& setup_refusal(*program_id, accounts@) is None
                        &&& outcome matches BoothOutcome::SetUp(setup)
                        &&& setup.is_for(*program_id, accounts@)
                    },
                    Err(e) => setup_refusal(*program_id, accounts@) == Some(e),
                },
                Some(ExchangeBoothInstruction::Withdraw { amount_to_withdraw }) => match r {
                    Ok(outcome) => {
                        &&& withdraw_refusal(*program_id, accounts@) is None
                        &&& outcome matches BoothOutcome::Invoke(invocation)
                        &&& is_withdrawal(invocation, *program_id, accounts@, amount_to_withdraw)
                    },
                    Err(e) => withdraw_refusal(*program_id, accounts@) == Some(e),
                },
                Some(ExchangeBoothInstruction::Exchange { .. }) => match exchange_outcome(
                    accounts@,
                ) {
                    Ok(_) => r == Ok::<BoothOutcome, HandlerError>(BoothOutcome::Done),
                    Err(e) => r == Err::<BoothOutcome, HandlerError>(e),
                },
                Some(_) => r == Ok::<BoothOutcome, HandlerError>(BoothOutcome::Done),
            },
    {
        let instruction = match ExchangeBoothInstruction::decode(instruction_data) {
            Ok(instruction) => instruction,
            Err(e) => {
                return Err(e);
            },
        };
        match instruction {
            ExchangeBoothInstruction::InititializeExchangeBooth {  } => {
                match initialize_exchange_booth::process(program_id, accounts) {
                    Ok(setup) => Ok(BoothOutcome::SetUp(setup)),
                    Err(e) => Err(e),
                }
            },
            ExchangeBoothInstruction::Deposit {  } => Ok(BoothOutcome::Done),
            ExchangeBoothInstruction::Withdraw { amount_to_withdraw } => {
                match withdraw::process(program_id, accounts, amount_to_withdraw) {
                    Ok(invocation) => Ok(BoothOutcome::Invoke(invocation)),
                    Err(e) => Err(e),
                }
            },
            ExchangeBoothInstruction::Exchange { tokens_to_transfer } => {
                match exchange::process(program_id, accounts, tokens_to_transfer) {
                    Ok(_) => Ok(BoothOutcome::Done),
                    Err(e) => Err(e),
                }
            },
            ExchangeBoothInstruction::CloseExchangeBooth {  } => Ok(BoothOutcome::Done),
        }
    }
}

} // verus!
