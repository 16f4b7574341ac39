//! The oracle of the exchange booth. Of the instructions of the echo program
//! it knows the echo alone.

use vstd::prelude::*;
use crate::account_info::AccountInfo;
use crate::address::Address;
use crate::echo::{echo, echo_outcome};
use crate::error::HandlerError;
use crate::instruction::{EchoInstruction, EchoInstructionView};

verus! {

/// The handler of the oracle.
pub struct Processor {}

/// What an instruction does to the bytes of the first cell, or the reason for
/// which it does nothing.
pub open spec fn oracle_outcome(accounts: Seq<AccountInfo>, instruction_data: Seq<u8>) -> Result<
    Seq<u8>,
    HandlerError,
> {
    match EchoInstructionView::decoding(instruction_data) {
        Some(EchoInstructionView::Echo { data }) => if accounts.len() < 1 {
            Err(HandlerError::NotEnoughAccountKeys)
        } else {
            echo_outcome(accounts[0].data@, data)
        },
        _ => Err(HandlerError::InvalidInstructionData),
    }
}

impl Processor {
    /// Reads the instruction and, where it is an echo, copies its bytes to
    /// the first cell. Fails with `InvalidInstructionData` on bytes that lay
    /// out no echo, with `NotEnoughAccountKeys` where there is no cell, and
    /// as the echo fails. On failure no cell is changed.
    pub fn process_instruction(
        program_id: &Address,
        accounts: &mut [AccountInfo],
        instruction_data: &[u8],
    ) -> (r: Result<(), HandlerError>)
        ensures
            final(accounts)@.len() == old(accounts)@.len(),
            forall|i: int|
                1 <= i < old(accounts)@.len() ==> final(accounts)@[i] == old(accounts)@[i],
            match oracle_outcome(old(accounts)@, instruction_data@) {
                Ok(image) => {
                    &&& r is Ok
                    &&& final(accounts)@[0].data@ == image
                    &&& final(accounts)@[0].same_cell_as(&old(accounts)@[0])
                },
                Err(e) => r == Err::<(), HandlerError>(e) && final(accounts)@ == old(accounts)@,
            },
    {
        let instruction = match EchoInstruction::decode(instruction_data) {
            Ok(instruction) => instruction,
            Err(e) => {
                return Err(e);
            },
        };
        match instruction {
            EchoInstruction::Echo { data } => {
                if accounts.len() < 1 {
                    return Err(HandlerError::NotEnoughAccountKeys);
                }
                echo(&mut accounts[0], data.as_slice())
            },
            _ => Err(HandlerError::InvalidInstructionData),
        }
    }
}

} // verus!
