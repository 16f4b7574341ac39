//! Why a handler refuses a request.

use vstd::prelude::*;

verus! {

/// The ledger's own error type. A value of it is carried through unread.
#[verifier::external_type_specification]
#[verifier::external_body]
pub struct ExProgramError(solana_program::program_error::ProgramError);

/// The error of an address derivation. A value of it is carried through unread.
#[verifier::external_type_specification]
#[verifier::external_body]
pub struct ExPubkeyError(solana_program::pubkey::PubkeyError);

/// The reasons for which a request is refused.
#[derive(Debug, PartialEq, Eq)]
pub enum HandlerError {
    /// The instruction bytes are not one of the known instructions.
    InvalidInstructionData,
    /// Fewer cells were supplied than the instruction names.
    NotEnoughAccountKeys,
    /// The authority did not sign the transaction.
    MissingRequiredSignature,
    /// A size is too small, or an address is not the derived one.
    InvalidArgument,
    /// A cell is too short, or holds bytes where none may be.
    InvalidAccountData,
    /// A cell belongs to another program than the one expected.
    IncorrectProgramId,
    /// The bytes of a cell are not the layout of the value that is read from them.
    BorshIoError,
    /// The ledger refused to do what it was asked; its error is handed on as it came.
    Ledger(solana_program::program_error::ProgramError),
}

/// `Ok` where `statement` holds, else the given error. The message is for the
/// caller's diagnostics and decides nothing.
pub fn assert_with_msg(statement: bool, err: HandlerError, msg: &str) -> (r: Result<
    (),
    HandlerError,
>)
    ensures
        statement ==> r == Ok::<(), HandlerError>(()),
        !statement ==> r == Err::<(), HandlerError>(err),
{
    if !statement {
        Err(err)
    } else {
        Ok(())
    }
}

} // verus!
