//! The instructions of the program and their layout in bytes: one byte that
//! tells the instruction, then its fields.

use vstd::prelude::*;
use vstd::slice::slice_subrange;
use crate::error::HandlerError;
use crate::wire::{
    decode_pair, decode_prefixed, encode_pair, encode_prefixed, lemma_pair_is_unique,
    lemma_pair_round_trip, lemma_prefixed_is_unique, lemma_prefixed_round_trip, pair,
    pair_decoding, prefixed, prefixed_decoding, MAX_STRING_LEN,
};

verus! {

/// What a caller may ask of the program.
#[derive(Clone, Debug, PartialEq, Eq)]
pub enum EchoInstruction {
    /// Copy `data` to the start of a cell that is still zero there.
    ///
    /// Cells: the destination.
    Echo { data: Vec<u8> },
    /// Create the buffer of an authority under `buffer_seed`, with
    /// `buffer_size` bytes.
    ///
    /// Cells: the new buffer, the authority (signs), the system program.
    InitializeAuthorizedEcho { buffer_seed: u64, buffer_size: u64 },
    /// Write `data` to the buffer of an authority.
    ///
    /// Cells: the buffer, the authority (signs).
    AuthorizedEcho { data: Vec<u8> },
    /// Create a buffer that is written against a price. Nothing is done yet.
    InitializeVendingMachineEcho { price: u64, buffer_size: u64 },
    /// Write `data` to a buffer against its price. Nothing is done yet.
    VendingMachineEcho { data: Vec<u8> },
}

/// An instruction as a value of mathematics: byte strings in place of vectors.
pub enum EchoInstructionView {
    Echo { data: Seq<u8> },
    InitializeAuthorizedEcho { buffer_seed: u64, buffer_size: u64 },
    AuthorizedEcho { data: Seq<u8> },
    InitializeVendingMachineEcho { price: u64, buffer_size: u64 },
    VendingMachineEcho { data: Seq<u8> },
}

impl View for EchoInstruction {
    type V = EchoInstructionView;

    open spec fn view(&self) -> EchoInstructionView {
        match *self {
            EchoInstruction::Echo { data } => EchoInstructionView::Echo { data: data@ },
            EchoInstruction::InitializeAuthorizedEcho { buffer_seed, buffer_size } => {
                EchoInstructionView::InitializeAuthorizedEcho { buffer_seed, buffer_size }
            },
            EchoInstruction::AuthorizedEcho { data } => EchoInstructionView::AuthorizedEcho {
                data: data@,
            },
            EchoInstruction::InitializeVendingMachineEcho { price, buffer_size } => {
                EchoInstructionView::InitializeVendingMachineEcho { price, buffer_size }
            },
            EchoInstruction::VendingMachineEcho { data } => {
                EchoInstructionView::VendingMachineEcho { data: data@ }
            },
        }
    }
}

impl EchoInstructionView {
    /// The byte that tells the instruction.
    pub open spec fn tag(self) -> u8 {
        match self {
            EchoInstructionView::Echo { .. } => 0,
            EchoInstructionView::InitializeAuthorizedEcho { .. } => 1,
            EchoInstructionView::AuthorizedEcho { .. } => 2,
            EchoInstructionView::InitializeVendingMachineEcho { .. } => 3,
            EchoInstructionView::VendingMachineEcho { .. } => 4,
        }
    }

    /// The layout of the fields.
    pub open spec fn body(self) -> Seq<u8> {
        match self {
            EchoInstructionView::Echo { data } => prefixed(data),
            EchoInstructionView::InitializeAuthorizedEcho { buffer_seed, buffer_size } => pair(
                buffer_seed,
                buffer_size,
            ),
            EchoInstructionView::AuthorizedEcho { data } => prefixed(data),
            EchoInstructionView::InitializeVendingMachineEcho { price, buffer_size } => pair(
                price,
                buffer_size,
            ),
            EchoInstructionView::VendingMachineEcho { data } => prefixed(data),
        }
    }

    /// Whether the instruction has a layout: its byte string, if it has one,
    /// is not longer than `MAX_STRING_LEN`.
    pub open spec fn fits(self) -> bool {
        match self {
            EchoInstructionView::Echo { data } => data.len() <= MAX_STRING_LEN,
            EchoInstructionView::AuthorizedEcho { data } => data.len() <= MAX_STRING_LEN,
            EchoInstructionView::VendingMachineEcho { data } => data.len() <= MAX_STRING_LEN,
            _ => true,
        }
    }

    /// The layout of the instruction.
    pub open spec fn encoding(self) -> Seq<u8> {
        seq![self.tag()] + self.body()
    }

    /// The instruction that `bytes` lay out, if they lay out one and nothing more.
    pub open spec fn decoding(bytes: Seq<u8>) -> Option<EchoInstructionView> {
        if bytes.len() == 0 {
            None
        } else {
            let body = bytes.skip(1);
            if bytes[0] == 0 {
                match prefixed_decoding(body) {
                    Some(data) => Some(EchoInstructionView::Echo { data }),
                    None => None,
                }
            } else if bytes[0] == 1 {
                match pair_decoding(body) {
                    Some((buffer_seed, buffer_size)) => Some(
                        EchoInstructionView::InitializeAuthorizedEcho { buffer_seed, buffer_size },
                    ),
                    None => None,
                }
            } else if bytes[0] == 2 {
                match prefixed_decoding(body) {
                    Some(data) => Some(EchoInstructionView::AuthorizedEcho { data }),
                    None => None,
                }
            } else if bytes[0] == 3 {
                match pair_decoding(body) {
                    Some((price, buffer_size)) => Some(
                        EchoInstructionView::InitializeVendingMachineEcho { price, buffer_size },
                    ),
                    None => None,
                }
            } else if bytes[0] == 4 {
                match prefixed_decoding(body) {
                    Some(data) => Some(EchoInstructionView::VendingMachineEcho { data }),
                    None => None,
                }
            } else {
                None
            }
        }
    }
}

impl EchoInstruction {
    /// Reads an instruction from bytes that lay out one and nothing more.
    /// Fails with `InvalidInstructionData` on other bytes.
    pub fn decode(bytes: &[u8]) -> (r: Result<EchoInstruction, HandlerError>)
        ensures
            match r {
                Ok(instruction) => EchoInstructionView::decoding(bytes@) == Some(instruction@),
                Err(e) => {
                    &&& e == HandlerError::InvalidInstructionData
                    &&& EchoInstructionView::decoding(bytes@) is None
                },
            },
    {
        if bytes.len() == 0 {
            return Err(HandlerError::InvalidInstructionData);
        }
        let tag = bytes[0];
        let body = slice_subrange(bytes, 1, bytes.len());
        if tag == 0 || tag == 2 || tag == 4 {
            match decode_prefixed(body) {
                Some(data) => if tag == 0 {
                    Ok(EchoInstruction::Echo { data })
                } else if tag == 2 {
                    Ok(EchoInstruction::AuthorizedEcho { data })
                } else {
                    Ok(EchoInstruction::VendingMachineEcho { data })
                },
                None => Err(HandlerError::InvalidInstructionData),
            }
        } else if tag == 1 || tag == 3 {
            match decode_pair(body) {
                Some((first, buffer_size)) => if tag == 1 {
                    Ok(
                        EchoInstruction::InitializeAuthorizedEcho {
                            buffer_seed: first,
                            buffer_size,
                        },
                    )
                } else {
                    Ok(EchoInstruction::InitializeVendingMachineEcho { price: first, buffer_size })
                },
                None => Err(HandlerError::InvalidInstructionData),
            }
        } else {
            Err(HandlerError::InvalidInstructionData)
        }
    }

    /// Lays the instruction out. `None` where its byte string is longer than
    /// `MAX_STRING_LEN`.
    pub fn encode(&self) -> (r: Option<Vec<u8>>)
        ensures
            match r {
                Some(bytes) => self@.fits() && bytes@ == self@.encoding(),
                None => !self@.fits(),
            },
    {
        let mut out: Vec<u8> = Vec::new();
        match self {
            EchoInstruction::Echo { data } => {
                out.push(0);
                match encode_prefixed(data.as_slice()) {
                    Some(body) => out.extend_from_slice(body.as_slice()),
                    None => {
                        return None;
                    },
                }
            },
            EchoInstruction::InitializeAuthorizedEcho { buffer_seed, buffer_size } => {
                out.push(1);
                let body = encode_pair(*buffer_seed, *buffer_size);
                out.extend_from_slice(body.as_slice());
            },
            EchoInstruction::AuthorizedEcho { data } => {
                out.push(2);
                match encode_prefixed(data.as_slice()) {
                    Some(body) => out.extend_from_slice(body.as_slice()),
                    None => {
                        return None;
                    },
                }
            },
            EchoInstruction::InitializeVendingMachineEcho { price, buffer_size } => {
                out.push(3);
                let body = encode_pair(*price, *buffer_size);
                out.extend_from_slice(body.as_slice());
            },
            EchoInstruction::VendingMachineEcho { data } => {
                out.push(4);
                match encode_prefixed(data.as_slice()) {
                    Some(body) => out.extend_from_slice(body.as_slice()),
                    None => {
                        return None;
                    },
                }
            },
        }
        Some(out)
    }
}

/// An instruction is read back from its layout.
pub proof fn lemma_instruction_round_trip(instruction: EchoInstructionView)
    requires
        instruction.fits(),
    ensures
        EchoInstructionView::decoding(instruction.encoding()) == Some(instruction),
{
    let bytes = instruction.encoding();
    assert(bytes.skip(1) =~= instruction.body());
    match instruction {
        EchoInstructionView::Echo { data } => lemma_prefixed_round_trip(data),
        EchoInstructionView::InitializeAuthorizedEcho { buffer_seed, buffer_size } => {
            lemma_pair_round_trip(buffer_seed, buffer_size)
        },
        EchoInstructionView::AuthorizedEcho { data } => lemma_prefixed_round_trip(data),
        EchoInstructionView::InitializeVendingMachineEcho { price, buffer_size } => {
            lemma_pair_round_trip(price, buffer_size)
        },
        EchoInstructionView::VendingMachineEcho { data } => lemma_prefixed_round_trip(data),
    }
}

/// Bytes that lay out an instruction are the layout of that instruction: no
/// two byte strings are read as the same instruction.
pub proof fn lemma_instruction_is_unique(bytes: Seq<u8>)
    requires
        EchoInstructionView::decoding(bytes) is Some,
    ensures
        EchoInstructionView::decoding(bytes).unwrap().fits(),
        EchoInstructionView::decoding(bytes).unwrap().encoding() == bytes,
{
    let body = bytes.skip(1);
    let instruction = EchoInstructionView::decoding(bytes).unwrap();
    if bytes[0] == 0 || bytes[0] == 2 || bytes[0] == 4 {
        lemma_prefixed_is_unique(body);
    } else {
        lemma_pair_is_unique(body);
    }
}

} // verus!
