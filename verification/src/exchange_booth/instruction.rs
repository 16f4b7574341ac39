//! The instructions of the exchange booth and their layout in bytes: one byte
//! that tells the instruction, then its amount, where it has one.

use vstd::prelude::*;
use vstd::slice::slice_subrange;
use crate::error::HandlerError;
use crate::little_endian::{
    le_bytes, le_value, lemma_le_bytes_len, lemma_le_bytes_of_value, lemma_le_value_bound,
    lemma_le_value_of_bytes, lemma_radix_of_machine_words, u64_from_le_bytes, u64_to_le_bytes,
};

verus! {

/// What a caller may ask of the exchange booth.
#[derive(Clone, Copy, Debug, PartialEq, Eq)]
pub enum ExchangeBoothInstruction {
    /// Set the booth up with its two vaults.
    InititializeExchangeBooth {  },
    /// Put tokens into a vault.
    Deposit {  },
    /// Take tokens out of a vault, as the administrator.
    Withdraw { amount_to_withdraw: u64 },
    /// Exchange tokens of one mint for tokens of the other.
    Exchange { tokens_to_transfer: u64 },
    /// Close the booth.
    CloseExchangeBooth {  },
}

impl ExchangeBoothInstruction {
    /// The byte that tells the instruction.
    pub open spec fn tag(self) -> u8 {
        match self {
            ExchangeBoothInstruction::InititializeExchangeBooth {  } => 0,
            ExchangeBoothInstruction::Deposit {  } => 1,
            ExchangeBoothInstruction::Withdraw { .. } => 2,
            ExchangeBoothInstruction::Exchange { .. } => 3,
            ExchangeBoothInstruction::CloseExchangeBooth {  } => 4,
        }
    }

    /// The layout of the instruction.
    pub open spec fn encoding(self) -> Seq<u8> {
        match self {
            ExchangeBoothInstruction::Withdraw { amount_to_withdraw } => seq![2u8] + le_bytes(
                amount_to_withdraw as nat,
                8,
            ),
            ExchangeBoothInstruction::Exchange { tokens_to_transfer } => seq![3u8] + le_bytes(
                tokens_to_transfer as nat,
                8,
            ),
            _ => seq![self.tag()],
        }
    }

    /// The instruction that `bytes` lay out, if they lay out one and nothing more.
    pub open spec fn decoding(bytes: Seq<u8>) -> Option<ExchangeBoothInstruction> {
        if bytes.len() == 1 && bytes[0] == 0 {
            Some(ExchangeBoothInstruction::InititializeExchangeBooth {  })
        } else if bytes.len() == 1 && bytes[0] == 1 {
            Some(ExchangeBoothInstruction::Deposit {  })
        } else if bytes.len() == 9 && bytes[0] == 2 {
            Some(
                ExchangeBoothInstruction::Withdraw {
                    amount_to_withdraw: le_value(bytes.skip(1)) as u64,
                },
            )
        } else if bytes.len() == 9 && bytes[0] == 3 {
            Some(
                ExchangeBoothInstruction::Exchange {
                    tokens_to_transfer: le_value(bytes.skip(1)) as u64,
                },
            )
        } else if bytes.len() == 1 && bytes[0] == 4 {
            Some(ExchangeBoothInstruction::CloseExchangeBooth {  })
        } else {
            None
        }
    }

    /// Reads an instruction from bytes that lay out one and nothing more.
    /// Fails with `InvalidInstructionData` on other bytes.
    pub fn decode(bytes: &[u8]) -> (r: Result<ExchangeBoothInstruction, HandlerError>)
        ensures
            match r {
                Ok(instruction) => Self::decoding(bytes@) == Some(instruction),
                Err(e) => e == HandlerError::InvalidInstructionData && Self::decoding(bytes@)
                    is None,
            },
    {
        if bytes.len() == 0 {
            return Err(HandlerError::InvalidInstructionData);
        }
        let tag = bytes[0];
        if tag == 2 || tag == 3 {
            if bytes.len() != 9 {
                return Err(HandlerError::InvalidInstructionData);
            }
            let body = slice_subrange(bytes, 1, 9);
            let amount = u64_from_le_bytes(body);
            if tag == 2 {
                Ok(ExchangeBoothInstruction::Withdraw { amount_to_withdraw: amount })
            } else {
                Ok(ExchangeBoothInstruction::Exchange { tokens_to_transfer: amount })
            }
        } else if bytes.len() != 1 {
            Err(HandlerError::InvalidInstructionData)
        } else if tag == 0 {
            Ok(ExchangeBoothInstruction::InititializeExchangeBooth {  })
        } else if tag == 1 {
            Ok(ExchangeBoothInstruction::Deposit {  })
        } else if tag == 4 {
            Ok(ExchangeBoothInstruction::CloseExchangeBooth {  })
        } else {
            Err(HandlerError::InvalidInstructionData)
        }
    }

    /// Lays the instruction out.
    pub fn encode(&self) -> (out: Vec<u8>)
        ensures
            out@ == self.encoding(),
    {
        let mut out: Vec<u8> = Vec::new();
        match self {
            ExchangeBoothInstruction::InititializeExchangeBooth {  } => {
                out.push(0);
            },
            ExchangeBoothInstruction::Deposit {  } => {
                out.push(1);
            },
            ExchangeBoothInstruction::Withdraw { amount_to_withdraw } => {
                out.push(2);
                let amount = u64_to_le_bytes(*amount_to_withdraw);
                out.extend_from_slice(amount.as_slice());
            },
            ExchangeBoothInstruction::Exchange { tokens_to_transfer } => {
                out.push(3);
                let amount = u64_to_le_bytes(*tokens_to_transfer);
                out.extend_from_slice(amount.as_slice());
            },
            ExchangeBoothInstruction::CloseExchangeBooth {  } => {
                out.push(4);
            },
        }
        out
    }
}

/// An instruction is read back from its layout.
pub proof fn lemma_booth_instruction_round_trip(instruction: ExchangeBoothInstruction)
    ensures
        ExchangeBoothInstruction::decoding(instruction.encoding()) == Some(instruction),
{
    lemma_radix_of_machine_words();
    match instruction {
        ExchangeBoothInstruction::Withdraw { amount_to_withdraw } => {
            lemma_le_bytes_len(amount_to_withdraw as nat, 8);
            lemma_le_value_of_bytes(amount_to_withdraw as nat, 8);
            assert(instruction.encoding().skip(1) =~= le_bytes(amount_to_withdraw as nat, 8));
        },
        ExchangeBoothInstruction::Exchange { tokens_to_transfer } => {
            lemma_le_bytes_len(tokens_to_transfer as nat, 8);
            lemma_le_value_of_bytes(tokens_to_transfer as nat, 8);
            assert(instruction.encoding().skip(1) =~= le_bytes(tokens_to_transfer as nat, 8));
        },
        _ => {},
    }
}

/// Bytes that lay out an instruction are the layout of that instruction.
pub proof fn lemma_booth_instruction_is_unique(bytes: Seq<u8>)
    requires
        ExchangeBoothInstruction::decoding(bytes) is Some,
    ensures
        ExchangeBoothInstruction::decoding(bytes).unwrap().encoding() == bytes,
{
    if bytes.len() == 9 {
        lemma_le_bytes_of_value(bytes.skip(1));
        lemma_le_value_bound(bytes.skip(1));
        lemma_radix_of_machine_words();
    }
}

} // verus!
