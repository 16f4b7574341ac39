//! The entry of the program: an instruction is read from its bytes and
//! carried out on the cells that come with it.

use vstd::prelude::*;
use crate::account_info::AccountInfo;
use crate::address::Address;
use crate::authorized::{
    authorized_echo, authorized_echo_outcome, initialize, initialize_outcome, binds,
    BufferCreation,
};
use crate::echo::{echo, echo_outcome};
use crate::error::HandlerError;
use crate::instruction::{EchoInstruction, EchoInstructionView};
use crate::state::EchoBuffer;
use crate::wire::{lemma_prefixed_is_unique, prefixed_decoding};

verus! {

/// How far an instruction got.
#[derive(Clone, Copy, Debug, PartialEq, Eq)]
pub enum Outcome {
    /// The instruction is carried out.
    Done,
    /// The ledger has to create this cell; `BufferCreation::finish` then
    /// carries the instruction to its end.
    CreateBuffer(BufferCreation),
}

/// The handlers of the program.
pub struct Processor {}

/// What an instruction does: the new bytes of the first cell, where it writes
/// them, and how far it got; or the reason for which it does nothing.
pub open spec fn process_outcome(
    program_id: Address,
    accounts: Seq<AccountInfo>,
    instruction_data: Seq<u8>,
) -> Result<(Option<Seq<u8>>, Outcome), HandlerError> {
    match EchoInstructionView::decoding(instruction_data) {
        None => Err(HandlerError::InvalidInstructionData),
        Some(EchoInstructionView::Echo { data }) => if accounts.len() < 1 {
            Err(HandlerError::NotEnoughAccountKeys)
        } else {
            match echo_outcome(accounts[0].data@, data) {
                Ok(image) => Ok((Some(image), Outcome::Done)),
                Err(e) => Err(e),
            }
        },
        Some(
            EchoInstructionView::InitializeAuthorizedEcho { buffer_seed, buffer_size },
        ) => if accounts.len() < 3 {
            Err(HandlerError::NotEnoughAccountKeys)
        } else {
            match initialize_outcome(
                program_id,
                accounts[0].key,
                accounts[1].key,
                accounts[1].is_signer,
                buffer_seed,
                buffer_size,
            ) {
                Ok(creation) => Ok((None, Outcome::CreateBuffer(creation))),
                Err(e) => Err(e),
            }
        },
        Some(EchoInstructionView::AuthorizedEcho { data }) => if accounts.len() < 2 {
            Err(HandlerError::NotEnoughAccountKeys)
        } else {
            match authorized_echo_outcome(
                program_id,
                accounts[0].key,
                accounts[0].data@,
                accounts[1].key,
                accounts[1].is_signer,
                data,
            ) {
                Ok(image) => Ok((Some(image), Outcome::Done)),
                Err(e) => Err(e),
            }
        },
        Some(EchoInstructionView::InitializeVendingMachineEcho { .. }) => Ok((None, Outcome::Done)),
        Some(EchoInstructionView::VendingMachineEcho { .. }) => Ok((None, Outcome::Done)),
    }
}

/// Whether `after` is `before` with at most the bytes of the first cell changed.
pub open spec fn same_cells(after: Seq<AccountInfo>, before: Seq<AccountInfo>) -> bool {
    &&& after.len() == before.len()
    &&& forall|i: int| 1 <= i < before.len() ==> after[i] == before[i]
    &&& before.len() > 0 ==> after[0].same_cell_as(&before[0])
}

impl Processor {
    /// Reads the instruction and carries it out on the cells: the first is
    /// the one written, the second the authority. Fails with
    /// `InvalidInstructionData` on bytes that lay out no instruction, with
    /// `NotEnoughAccountKeys` where cells are missing, and as the handler of
    /// the instruction fails. On failure no cell is changed.
    pub fn process_instruction(
        program_id: &Address,
        accounts: &mut [AccountInfo],
        instruction_data: &[u8],
    ) -> (r: Result<Outcome, HandlerError>)
        ensures
            same_cells(final(accounts)@, old(accounts)@),
            match process_outcome(*program_id, old(accounts)@, instruction_data@) {
                Ok((image, outcome)) => {
                    &&& r == Ok::<Outcome, HandlerError>(outcome)
                    &&& match image {
                        Some(bytes) => final(accounts)@[0].data@ == bytes,
                        None => final(accounts)@ == old(accounts)@,
                    }
                    &&& outcome matches Outcome::CreateBuffer(creation) ==> binds(creation)
                },
                Err(e) => {
                    &&& r == Err::<Outcome, HandlerError>(e)
                    &&& final(accounts)@ == old(accounts)@
                },
            },
    {
        let instruction = match EchoInstruction::decode(instruction_data) {
            Ok(instruction) => instruction,
            Err(e) => {
                return Err(e);
            },
        };
        match instruction {
            EchoInstruction::Echo { data } => {
                if accounts.len() < 1 {
                    return Err(HandlerError::NotEnoughAccountKeys);
                }
                match echo(&mut accounts[0], data.as_slice()) {
                    Ok(_) => Ok(Outcome::Done),
                    Err(e) => Err(e),
                }
            },
            EchoInstruction::InitializeAuthorizedEcho { buffer_seed, buffer_size } => {
                if accounts.len() < 3 {
                    return Err(HandlerError::NotEnoughAccountKeys);
                }
                match initialize(program_id, &accounts[0], &accounts[1], buffer_seed, buffer_size) {
                    Ok(creation) => Ok(Outcome::CreateBuffer(creation)),
                    Err(e) => Err(e),
                }
            },
            EchoInstruction::AuthorizedEcho { data } => {
                if accounts.len() < 2 {
                    return Err(HandlerError::NotEnoughAccountKeys);
                }
                let (head, tail) = accounts.split_at_mut(1);
                match authorized_echo(program_id, &mut head[0], &tail[0], data.as_slice()) {
                    Ok(_) => Ok(Outcome::Done),
                    Err(e) => Err(e),
                }
            },
            EchoInstruction::InitializeVendingMachineEcho { price: _, buffer_size: _ } => Ok(
                Outcome::Done,
            ),
            EchoInstruction::VendingMachineEcho { data: _ } => Ok(Outcome::Done),
        }
    }

    /// Reads the first cell as an echo buffer and lays the buffer out in the
    /// cell again, which changes no byte; `data` is not written. Fails with
    /// `NotEnoughAccountKeys` where there is no cell, and with `BorshIoError`
    /// where the bytes of the cell lay out no buffer.
    pub fn echo_impl1(accounts: &mut [AccountInfo], data: Vec<u8>) -> (r: Result<(), HandlerError>)
        ensures
            same_cells(final(accounts)@, old(accounts)@),
            old(accounts)@.len() > 0 ==> final(accounts)@[0].data@ == old(accounts)@[0].data@,
            r == if old(accounts)@.len() == 0 {
                Err::<(), HandlerError>(HandlerError::NotEnoughAccountKeys)
            } else if prefixed_decoding(old(accounts)@[0].data@) is None {
                Err::<(), HandlerError>(HandlerError::BorshIoError)
            } else {
                Ok::<(), HandlerError>(())
            },
    {
        if accounts.len() < 1 {
            return Err(HandlerError::NotEnoughAccountKeys);
        }
        let echo_buffer = match EchoBuffer::decode(accounts[0].data.as_slice()) {
            Ok(echo_buffer) => echo_buffer,
            Err(e) => {
                return Err(e);
            },
        };
        proof {
            lemma_prefixed_is_unique(accounts@[0].data@);
        }
        let bytes = match echo_buffer.encode() {
            Ok(bytes) => bytes,
            Err(e) => {
                return Err(e);
            },
        };
        let cell = &mut accounts[0];
        let mut i: usize = 0;
        while i < bytes.len()
            invariant
                i <= bytes@.len(),
                bytes@ == old(accounts)@[0].data@,
                cell.same_cell_as(&old(accounts)@[0]),
                cell.data@ == old(accounts)@[0].data@,
            decreases bytes@.len() - i,
        {
            cell.data[i] = bytes[i];
            i = i + 1;
        }
        Ok(())
    }

    /// Looks the first cell up and writes nothing. Fails with
    /// `NotEnoughAccountKeys` where there is no cell.
    pub fn echo_impl2(accounts: &[AccountInfo], message_to_echo: Vec<u8>) -> (r: Result<
        (),
        HandlerError,
    >)
        ensures
            r == if accounts@.len() == 0 {
                Err::<(), HandlerError>(HandlerError::NotEnoughAccountKeys)
            } else {
                Ok::<(), HandlerError>(())
            },
    {
        if accounts.len() < 1 {
            return Err(HandlerError::NotEnoughAccountKeys);
        }
        Ok(())
    }
}

} // verus!
