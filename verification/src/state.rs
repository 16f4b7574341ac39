//! What the cells of the program hold.

use vstd::prelude::*;
use vstd::slice::slice_subrange;
use crate::error::HandlerError;
use crate::little_endian::{
    le_bytes, le_value, lemma_le_bytes_len, lemma_le_bytes_of_value, lemma_le_value_bound,
    lemma_le_value_of_bytes, lemma_radix_of_machine_words, u64_from_le_bytes, u64_to_le_bytes,
};
use crate::wire::{
    decode_prefixed, encode_prefixed, prefixed, prefixed_decoding, MAX_STRING_LEN,
};

verus! {

/// Number of bytes that the header of an authorized buffer takes.
pub const HEADER_LEN: usize = 9;

/// The bytes of a cell that any caller may fill once.
#[derive(Clone, Debug, PartialEq, Eq)]
pub struct EchoBuffer {
    pub data: Vec<u8>,
}

impl View for EchoBuffer {
    type V = Seq<u8>;

    open spec fn view(&self) -> Seq<u8> {
        self.data@
    }
}

impl EchoBuffer {
    /// Reads a buffer from bytes that lay out one and nothing more. Fails with
    /// `BorshIoError` on other bytes.
    pub fn decode(bytes: &[u8]) -> (r: Result<EchoBuffer, HandlerError>)
        ensures
            match r {
                Ok(buffer) => prefixed_decoding(bytes@) == Some(buffer@),
                Err(e) => e == HandlerError::BorshIoError && prefixed_decoding(bytes@) is None,
            },
    {
        match decode_prefixed(bytes) {
            Some(data) => Ok(EchoBuffer { data }),
            None => Err(HandlerError::BorshIoError),
        }
    }

    /// Lays the buffer out. Fails with `BorshIoError` where it is longer than
    /// `MAX_STRING_LEN`.
    pub fn encode(&self) -> (r: Result<Vec<u8>, HandlerError>)
        ensures
            match r {
                Ok(bytes) => self@.len() <= MAX_STRING_LEN && bytes@ == prefixed(self@),
                Err(e) => e == HandlerError::BorshIoError && self@.len() > MAX_STRING_LEN,
            },
    {
        match encode_prefixed(self.data.as_slice()) {
            Some(bytes) => Ok(bytes),
            None => Err(HandlerError::BorshIoError),
        }
    }
}

/// The first bytes of an authorized buffer: what its address was derived
/// from, beside the authority.
#[derive(Clone, Copy, Debug, PartialEq, Eq)]
pub struct AuthorizedBufferHeader {
    /// The bump that was found with the address.
    pub bump_seed: u8,
    /// The number that tells the buffers of one authority apart.
    pub buffer_seed: u64,
}

impl AuthorizedBufferHeader {
    /// The nine bytes of the header: the bump, then the seed, lowest byte first.
    pub open spec fn encoding(self) -> Seq<u8> {
        seq![self.bump_seed] + le_bytes(self.buffer_seed as nat, 8)
    }

    /// The header that the first nine of `bytes` hold.
    pub open spec fn decoding(bytes: Seq<u8>) -> Result<AuthorizedBufferHeader, HandlerError> {
        if bytes.len() < HEADER_LEN {
            Err(HandlerError::InvalidAccountData)
        } else {
            Ok(
                AuthorizedBufferHeader {
                    bump_seed: bytes[0],
                    buffer_seed: le_value(bytes.subrange(1, 9)) as u64,
                },
            )
        }
    }

    /// The nine bytes of the header.
    pub fn encode(&self) -> (out: Vec<u8>)
        ensures
            out@ == self.encoding(),
            out@.len() == HEADER_LEN,
    {
        let mut out: Vec<u8> = Vec::new();
        out.push(self.bump_seed);
        let seed = u64_to_le_bytes(self.buffer_seed);
        out.extend_from_slice(seed.as_slice());
        out
    }

    /// Reads the header from the first nine bytes. Fails with
    /// `InvalidAccountData` where there are fewer.
    pub fn decode(bytes: &[u8]) -> (r: Result<AuthorizedBufferHeader, HandlerError>)
        ensures
            r == Self::decoding(bytes@),
    {
        if bytes.len() < HEADER_LEN {
            return Err(HandlerError::InvalidAccountData);
        }
        let bump_seed = bytes[0];
        let buffer_seed = u64_from_le_bytes(slice_subrange(bytes, 1, 9));
        Ok(AuthorizedBufferHeader { bump_seed, buffer_seed })
    }
}

/// A header is read back from its nine bytes, whatever follows them.
pub proof fn lemma_header_round_trip(header: AuthorizedBufferHeader, rest: Seq<u8>)
    ensures
        header.encoding().len() == HEADER_LEN,
        AuthorizedBufferHeader::decoding(header.encoding()) == Ok::<
            AuthorizedBufferHeader,
            HandlerError,
        >(header),
        AuthorizedBufferHeader::decoding(header.encoding() + rest) == Ok::<
            AuthorizedBufferHeader,
            HandlerError,
        >(header),
{
    let seed = le_bytes(header.buffer_seed as nat, 8);
    lemma_le_bytes_len(header.buffer_seed as nat, 8);
    lemma_radix_of_machine_words();
    lemma_le_value_of_bytes(header.buffer_seed as nat, 8);
    assert(header.encoding().subrange(1, 9) =~= seed);
    assert((header.encoding() + rest).subrange(1, 9) =~= seed);
}

/// Nine bytes are the encoding of the header that is read from them.
pub proof fn lemma_header_is_unique(bytes: Seq<u8>)
    requires
        bytes.len() == HEADER_LEN,
    ensures
        AuthorizedBufferHeader::decoding(bytes) is Ok,
        AuthorizedBufferHeader::decoding(bytes).unwrap().encoding() == bytes,
{
    let seed = bytes.subrange(1, 9);
    lemma_le_bytes_of_value(seed);
    lemma_le_value_bound(seed);
    lemma_radix_of_machine_words();
}

/// The header of a buffer that is written against a price. It holds nothing yet.
#[derive(Clone, Copy, Debug, PartialEq, Eq)]
pub struct VendingMachineBufferHeader {}

} // verus!
