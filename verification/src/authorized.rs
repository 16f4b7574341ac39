//! Buffers that only their authority may write: each lives in a cell whose
//! address is derived from the authority and a seed, and begins with a header
//! from which that address can be computed again.

use vstd::prelude::*;
use vstd::slice::slice_to_vec;
use solana_program::program_error::ProgramError;
use crate::account_info::AccountInfo;
use crate::address::{
    cell_seeds_with_bump, derived, is_curve_point, lemma_address_by_bytes, rederive, rederived,
    seed_bytes, Address,
};
use crate::error::HandlerError;
use crate::little_endian::u64_to_le_bytes;
use crate::ledger::{
    create_account, create_account_data, system_program_id, AccountMeta, Invocation,
};
use crate::state::{lemma_header_round_trip, AuthorizedBufferHeader, HEADER_LEN};

verus! {

/// The domain tag of authorized buffers: the letters of `authority`.
pub const AUTHORITY_TAG: [u8; 9] = [97, 117, 116, 104, 111, 114, 105, 116, 121];

/// The cell that the ledger is asked to create for a new buffer.
#[derive(Clone, Copy, Debug, PartialEq, Eq)]
pub struct BufferCreation {
    /// Who pays for the cell: the authority of the buffer.
    pub funder: Address,
    /// The address of the cell: the one derived from the authority and the seed.
    pub address: Address,
    /// The number of bytes of the cell.
    pub space: u64,
    /// The program that will own the cell.
    pub owner: Address,
    /// What the first bytes of the cell will hold.
    pub header: AuthorizedBufferHeader,
}

/// `len` bytes: the payload, as far as there is room, then zeros.
pub open spec fn padded(payload: Seq<u8>, len: nat) -> Seq<u8> {
    Seq::new(
        len,
        |i: int|
            if i < payload.len() {
                payload[i]
            } else {
                0u8
            },
    )
}

/// The request that a derivation allows: the cell at `buffer_key`, where that
/// is the address that was derived.
pub open spec fn creation_for(
    found: Option<(Address, u8)>,
    program_id: Address,
    buffer_key: Address,
    authority_key: Address,
    buffer_seed: u64,
    buffer_size: u64,
) -> Result<BufferCreation, HandlerError> {
    match found {
        Some((address, bump_seed)) => if address == buffer_key {
            Ok(
                BufferCreation {
                    funder: authority_key,
                    address: buffer_key,
                    space: buffer_size,
                    owner: program_id,
                    header: AuthorizedBufferHeader { bump_seed, buffer_seed },
                },
            )
        } else {
            Err(HandlerError::InvalidArgument)
        },
        None => Err(HandlerError::InvalidArgument),
    }
}

/// Compares a derived address with the address of the cell that the caller
/// supplied, and names the cell to create. Fails with `InvalidArgument` where
/// the two differ or nothing was derived.
pub fn plan_creation(
    found: Option<(Address, u8)>,
    program_id: &Address,
    buffer_key: &Address,
    authority_key: &Address,
    buffer_seed: u64,
    buffer_size: u64,
) -> (r: Result<BufferCreation, HandlerError>)
    ensures
        r == creation_for(
            found,
            *program_id,
            *buffer_key,
            *authority_key,
            buffer_seed,
            buffer_size,
        ),
{
    match found {
        Some((address, bump_seed)) => {
            if address.same_as(buffer_key) {
                Ok(
                    BufferCreation {
                        funder: *authority_key,
                        address: *buffer_key,
                        space: buffer_size,
                        owner: *program_id,
                        header: AuthorizedBufferHeader { bump_seed, buffer_seed },
                    },
                )
            } else {
                Err(HandlerError::InvalidArgument)
            }
        },
        None => Err(HandlerError::InvalidArgument),
    }
}

/// What a request for a new buffer leads to: the checks in their order, then
/// the derivation from the authority and the seed.
pub open spec fn initialize_outcome(
    program_id: Address,
    buffer_key: Address,
    authority_key: Address,
    authority_signed: bool,
    buffer_seed: u64,
    buffer_size: u64,
) -> Result<BufferCreation, HandlerError> {
    if !authority_signed {
        Err(HandlerError::MissingRequiredSignature)
    } else if buffer_size < HEADER_LEN {
        Err(HandlerError::InvalidArgument)
    } else {
        match derived(AUTHORITY_TAG@, authority_key@, buffer_seed, program_id@) {
            Some((address, bump_seed)) => if address == buffer_key@ {
                Ok(
                    BufferCreation {
                        funder: authority_key,
                        address: buffer_key,
                        space: buffer_size,
                        owner: program_id,
                        header: AuthorizedBufferHeader { bump_seed, buffer_seed },
                    },
                )
            } else {
                Err(HandlerError::InvalidArgument)
            },
            None => Err(HandlerError::InvalidArgument),
        }
    }
}

/// Whether the header of `creation` gives its address back: the address is
/// the one that the authority, the seed and the bump have, it is no point of
/// the curve, and no higher bump has an address.
pub open spec fn binds(creation: BufferCreation) -> bool {
    &&& !is_curve_point(creation.address@)
    &&& rederived(
        AUTHORITY_TAG@,
        creation.funder@,
        creation.header.buffer_seed,
        creation.header.bump_seed,
        creation.owner@,
    ) == Some(creation.address@)
    &&& forall|higher: u8|
        creation.header.bump_seed < higher ==> #[trigger] rederived(
            AUTHORITY_TAG@,
            creation.funder@,
            creation.header.buffer_seed,
            higher,
            creation.owner@,
        ) is None
}

/// Checks a request for a new buffer and names the cell that the ledger has
/// to create for it. Fails with `MissingRequiredSignature` where the authority
/// did not sign, else with `InvalidArgument` where the size has no room for
/// the header, else with `InvalidArgument` where the cell supplied is not at
/// the address derived from the authority and the seed.
pub fn initialize(
    program_id: &Address,
    buffer: &AccountInfo,
    authority: &AccountInfo,
    buffer_seed: u64,
    buffer_size: u64,
) -> (r: Result<BufferCreation, HandlerError>)
    ensures
        r == initialize_outcome(
            *program_id,
            buffer.key,
            authority.key,
            authority.is_signer,
            buffer_seed,
            buffer_size,
        ),
        r matches Ok(creation) ==> binds(creation),
{
    if !authority.is_signer {
        return Err(HandlerError::MissingRequiredSignature);
    }
    if buffer_size < HEADER_LEN as u64 {
        return Err(HandlerError::InvalidArgument);
    }
    let found = crate::address::derive(
        AUTHORITY_TAG.as_slice(),
        &authority.key,
        buffer_seed,
        program_id,
    );
    proof {
        if let Some((address, _)) = found {
            lemma_address_by_bytes(address, buffer.key);
        }
    }
    plan_creation(found, program_id, &buffer.key, &authority.key, buffer_seed, buffer_size)
}

/// The bytes of a new cell once its header is written.
pub open spec fn with_header(header: AuthorizedBufferHeader, data: Seq<u8>) -> Seq<u8> {
    header.encoding() + data.skip(HEADER_LEN as int)
}

/// What the end of an initialization does to the bytes of the cell.
pub open spec fn finish_outcome(
    creation: BufferCreation,
    created: Result<(), ProgramError>,
    key: Address,
    data: Seq<u8>,
) -> Result<Seq<u8>, HandlerError> {
    match created {
        Err(e) => Err(HandlerError::Ledger(e)),
        Ok(_) => if key != creation.address {
            Err(HandlerError::InvalidArgument)
        } else if data.len() < HEADER_LEN {
            Err(HandlerError::InvalidAccountData)
        } else {
            Ok(with_header(creation.header, data))
        },
    }
}

impl BufferCreation {
    /// The seeds that prove the program's authority over the address: the
    /// tag, the authority, the seed and the bump.
    pub fn signer_seeds(&self) -> (seeds: Vec<Vec<u8>>)
        ensures
            seed_bytes(seeds@) == cell_seeds_with_bump(
                AUTHORITY_TAG@,
                self.funder@,
                self.header.buffer_seed,
                self.header.bump_seed,
            ),
    {
        let mut seeds: Vec<Vec<u8>> = Vec::new();
        seeds.push(slice_to_vec(AUTHORITY_TAG.as_slice()));
        seeds.push(self.funder.to_vec());
        seeds.push(u64_to_le_bytes(self.header.buffer_seed));
        let mut last: Vec<u8> = Vec::new();
        last.push(self.header.bump_seed);
        seeds.push(last);
        seeds
    }

    /// Whether `invocation` has the system program create the cell, with
    /// `lamports` as its balance, in the name of the program, which the seeds
    /// of the cell prove. The cells that go with it are the authority, the
    /// new cell and the system program: the second, the first and the third
    /// of the call.
    pub open spec fn is_invocation(self, invocation: Invocation, lamports: u64) -> bool {
        &&& invocation.instruction.program_id@ == system_program_id()
        &&& invocation.instruction.accounts@ == seq![
            AccountMeta { pubkey: self.funder, is_signer: true, is_writable: true },
            AccountMeta { pubkey: self.address, is_signer: true, is_writable: true },
        ]
        &&& invocation.instruction.data@ == create_account_data(lamports, self.space, self.owner@)
        &&& invocation.accounts@ == seq![1usize, 0usize, 2usize]
        &&& seed_bytes(invocation.signer_seeds@) == cell_seeds_with_bump(
            AUTHORITY_TAG@,
            self.funder@,
            self.header.buffer_seed,
            self.header.bump_seed,
        )
    }

    /// What the ledger is handed to create the cell, with `lamports` as the
    /// balance of the cell.
    pub fn invocation(&self, lamports: u64) -> (invocation: Invocation)
        ensures
            self.is_invocation(invocation, lamports),
    {
        let instruction = create_account(
            &self.funder,
            &self.address,
            lamports,
            self.space,
            &self.owner,
        );
        let mut accounts: Vec<usize> = Vec::new();
        accounts.push(1);
        accounts.push(0);
        accounts.push(2);
        assert(accounts@ =~= seq![1usize, 0usize, 2usize]);
        Invocation { instruction, accounts, signer_seeds: self.signer_seeds() }
    }

    /// Ends the initialization once the ledger has answered: writes the header
    /// to the first bytes of the new cell. Hands on the ledger's error where
    /// it refused; fails with `InvalidArgument` where `buffer` is not the cell
    /// that was asked for, and with `InvalidAccountData` where it has no room
    /// for the header. A cell that is not written stays as it is.
    pub fn finish(&self, buffer: &mut AccountInfo, created: Result<(), ProgramError>) -> (r: Result<
        (),
        HandlerError,
    >)
        ensures
            final(buffer).same_cell_as(old(buffer)),
            match finish_outcome(*self, created, old(buffer).key, old(buffer).data@) {
                Ok(image) => r is Ok && final(buffer).data@ == image,
                Err(e) => r == Err::<(), HandlerError>(e) && *final(buffer) == *old(buffer),
            },
    {
        match created {
            Err(e) => {
                return Err(HandlerError::Ledger(e));
            },
            Ok(_) => {},
        }
        if !buffer.key.same_as(&self.address) {
            return Err(HandlerError::InvalidArgument);
        }
        if buffer.data.len() < HEADER_LEN {
            return Err(HandlerError::InvalidAccountData);
        }
        let bytes = self.header.encode();
        let mut i: usize = 0;
        while i < HEADER_LEN
            invariant
                i <= HEADER_LEN <= old(buffer).data@.len(),
                bytes@ == self.header.encoding(),
                bytes@.len() == HEADER_LEN,
                buffer.same_cell_as(old(buffer)),
                buffer.data@ == bytes@.take(i as int) + old(buffer).data@.skip(i as int),
            decreases HEADER_LEN - i,
        {
            buffer.data[i] = bytes[i];
            i = i + 1;
        }
        Ok(())
    }
}

/// The bytes of a buffer after a write: the header as it was, then the
/// payload, as far as there is room, then zeros.
pub open spec fn written(data: Seq<u8>, payload: Seq<u8>) -> Seq<u8> {
    data.take(HEADER_LEN as int) + padded(payload, (data.len() - HEADER_LEN) as nat)
}

/// What follows the second derivation: the write, where the address that was
/// computed again is the address of the cell.
pub open spec fn overwrite_outcome(
    recomputed: Option<Address>,
    key: Address,
    data: Seq<u8>,
    payload: Seq<u8>,
) -> Result<Seq<u8>, HandlerError> {
    if data.len() < HEADER_LEN {
        Err(HandlerError::InvalidAccountData)
    } else if recomputed != Some(key) {
        Err(HandlerError::InvalidArgument)
    } else {
        Ok(written(data, payload))
    }
}

/// Writes `payload` behind the header of the buffer and fills what is left
/// with zeros, where `recomputed` is the address of the cell. Fails with
/// `InvalidAccountData` where the cell has no room for a header, else with
/// `InvalidArgument` where the address is another or none; the cell then
/// stays as it is.
pub fn overwrite(buffer: &mut AccountInfo, recomputed: Option<Address>, payload: &[u8]) -> (r:
    Result<(), HandlerError>)
    ensures
        final(buffer).same_cell_as(old(buffer)),
        match overwrite_outcome(recomputed, old(buffer).key, old(buffer).data@, payload@) {
            Ok(image) => r is Ok && final(buffer).data@ == image,
            Err(e) => r == Err::<(), HandlerError>(e) && *final(buffer) == *old(buffer),
        },
{
    let len = buffer.data.len();
    if len < HEADER_LEN {
        return Err(HandlerError::InvalidAccountData);
    }
    match recomputed {
        Some(address) => {
            if !address.same_as(&buffer.key) {
                return Err(HandlerError::InvalidArgument);
            }
        },
        None => {
            return Err(HandlerError::InvalidArgument);
        },
    }
    let room = len - HEADER_LEN;
    let copied = if room <= payload.len() {
        room
    } else {
        payload.len()
    };
    let ghost image = written(old(buffer).data@, payload@);
    let mut i: usize = 0;
    while i < copied
        invariant
            i <= copied <= room,
            copied <= payload@.len(),
            room == len - HEADER_LEN,
            len == old(buffer).data@.len(),
            image == written(old(buffer).data@, payload@),
            buffer.same_cell_as(old(buffer)),
            buffer.data@.len() == len,
            forall|k: int| 0 <= k < HEADER_LEN + i ==> buffer.data@[k] == image[k],
            forall|k: int| HEADER_LEN + i <= k < len ==> buffer.data@[k] == old(buffer).data@[k],
        decreases copied - i,
    {
        buffer.data[i + HEADER_LEN] = payload[i];
        i = i + 1;
    }
    while i < room
        invariant
            copied <= i <= room,
            copied == crate::echo::overlap(room as nat, payload@.len()),
            room == len - HEADER_LEN,
            len == old(buffer).data@.len(),
            image == written(old(buffer).data@, payload@),
            buffer.same_cell_as(old(buffer)),
            buffer.data@.len() == len,
            forall|k: int| 0 <= k < HEADER_LEN + i ==> buffer.data@[k] == image[k],
        decreases room - i,
    {
        buffer.data[i + HEADER_LEN] = 0;
        i = i + 1;
    }
    Ok(())
}

/// What a write to an authorized buffer leads to: the checks in their order,
/// the address computed again from the header of the cell, and the write.
pub open spec fn authorized_echo_outcome(
    program_id: Address,
    key: Address,
    data: Seq<u8>,
    authority_key: Address,
    authority_signed: bool,
    payload: Seq<u8>,
) -> Result<Seq<u8>, HandlerError> {
    if !authority_signed {
        Err(HandlerError::MissingRequiredSignature)
    } else {
        match AuthorizedBufferHeader::decoding(data) {
            Err(e) => Err(e),
            Ok(header) => if rederived(
                AUTHORITY_TAG@,
                authority_key@,
                header.buffer_seed,
                header.bump_seed,
                program_id@,
            ) == Some(key@) {
                Ok(written(data, payload))
            } else {
                Err(HandlerError::InvalidArgument)
            },
        }
    }
}

/// Writes `payload` to the buffer of `authority`: behind the header, with
/// zeros after it to the end of the cell. Fails with
/// `MissingRequiredSignature` where the authority did not sign, else with
/// `InvalidAccountData` where the cell has no room for a header, else with
/// `InvalidArgument` where the authority and the header of the cell do not
/// give the address of the cell. A cell that is not written stays as it is.
pub fn authorized_echo(
    program_id: &Address,
    buffer: &mut AccountInfo,
    authority: &AccountInfo,
    payload: &[u8],
) -> (r: Result<(), HandlerError>)
    ensures
        final(buffer).same_cell_as(old(buffer)),
        match authorized_echo_outcome(
            *program_id,
            old(buffer).key,
            old(buffer).data@,
            authority.key,
            authority.is_signer,
            payload@,
        ) {
            Ok(image) => r is Ok && final(buffer).data@ == image,
            Err(e) => r == Err::<(), HandlerError>(e) && *final(buffer) == *old(buffer),
        },
{
    if !authority.is_signer {
        return Err(HandlerError::MissingRequiredSignature);
    }
    let header = match AuthorizedBufferHeader::decode(buffer.data.as_slice()) {
        Ok(header) => header,
        Err(e) => {
            return Err(e);
        },
    };
    let recomputed = rederive(
        AUTHORITY_TAG.as_slice(),
        &authority.key,
        header.buffer_seed,
        header.bump_seed,
        program_id,
    );
    proof {
        if let Some(address) = recomputed {
            lemma_address_by_bytes(address, buffer.key);
        }
    }
    overwrite(buffer, recomputed, payload)
}

/// A request without the signature of the authority is refused with
/// `MissingRequiredSignature`, to create a buffer as to write one, whatever
/// else it holds.
pub proof fn lemma_signature_is_required(
    program_id: Address,
    key: Address,
    data: Seq<u8>,
    authority_key: Address,
    buffer_seed: u64,
    buffer_size: u64,
    payload: Seq<u8>,
)
    ensures
        initialize_outcome(program_id, key, authority_key, false, buffer_seed, buffer_size)
            == Err::<BufferCreation, HandlerError>(HandlerError::MissingRequiredSignature),
        authorized_echo_outcome(program_id, key, data, authority_key, false, payload) == Err::<
            Seq<u8>,
            HandlerError,
        >(HandlerError::MissingRequiredSignature),
{
}

/// A signed write to a cell whose header does not give the address of the cell
/// is refused with `InvalidArgument`, whatever the payload.
pub proof fn lemma_forged_header_is_refused(
    program_id: Address,
    key: Address,
    data: Seq<u8>,
    authority_key: Address,
    payload: Seq<u8>,
)
    requires
        data.len() >= HEADER_LEN,
        rederived(
            AUTHORITY_TAG@,
            authority_key@,
            AuthorizedBufferHeader::decoding(data).unwrap().buffer_seed,
            AuthorizedBufferHeader::decoding(data).unwrap().bump_seed,
            program_id@,
        ) != Some(key@),
    ensures
        authorized_echo_outcome(program_id, key, data, authority_key, true, payload) == Err::<
            Seq<u8>,
            HandlerError,
        >(HandlerError::InvalidArgument),
{
}

/// A write keeps the length of the cell and its header, puts the payload
/// behind the header as far as there is room, and leaves zeros after it.
pub proof fn lemma_written_layout(data: Seq<u8>, payload: Seq<u8>)
    requires
        data.len() >= HEADER_LEN,
    ensures
        written(data, payload).len() == data.len(),
        written(data, payload).take(HEADER_LEN as int) == data.take(HEADER_LEN as int),
        written(data, payload).skip(HEADER_LEN as int) == padded(
            payload,
            (data.len() - HEADER_LEN) as nat,
        ),
        AuthorizedBufferHeader::decoding(written(data, payload))
            == AuthorizedBufferHeader::decoding(data),
        forall|i: int|
            0 <= i < data.len() - HEADER_LEN ==> #[trigger] written(data, payload)[HEADER_LEN + i]
                == if i < payload.len() {
                payload[i]
            } else {
                0u8
            },
{
    let image = written(data, payload);
    assert(image.subrange(1, 9) =~= data.subrange(1, 9));
}

/// A second write leaves nothing of the first: where the first is accepted,
/// so is the second, and the cell then holds what the second alone would
/// have left.
pub proof fn lemma_write_leaves_no_residue(
    program_id: Address,
    key: Address,
    data: Seq<u8>,
    authority_key: Address,
    authority_signed: bool,
    first: Seq<u8>,
    second: Seq<u8>,
)
    requires
        authorized_echo_outcome(
            program_id,
            key,
            data,
            authority_key,
            authority_signed,
            first,
        ) is Ok,
    ensures
        authorized_echo_outcome(
            program_id,
            key,
            written(data, first),
            authority_key,
            authority_signed,
            second,
        ) == Ok::<Seq<u8>, HandlerError>(written(data, second)),
        written(data, second).skip(HEADER_LEN as int) == padded(
            second,
            (data.len() - HEADER_LEN) as nat,
        ),
{
    lemma_written_layout(data, first);
}

/// The header of a cell that was initialized is the one that its address was
/// derived with.
pub proof fn lemma_finished_cell_holds_header(
    creation: BufferCreation,
    created: Result<(), ProgramError>,
    key: Address,
    data: Seq<u8>,
)
    requires
        finish_outcome(creation, created, key, data) is Ok,
    ensures
        finish_outcome(creation, created, key, data).unwrap().len() == data.len(),
        AuthorizedBufferHeader::decoding(finish_outcome(creation, created, key, data).unwrap())
            == Ok::<AuthorizedBufferHeader, HandlerError>(creation.header),
        finish_outcome(creation, created, key, data).unwrap().skip(HEADER_LEN as int) == data.skip(
            HEADER_LEN as int,
        ),
{
    let rest = data.skip(HEADER_LEN as int);
    lemma_header_round_trip(creation.header, rest);
}

/// The authority may write the buffer that was initialized for it: a signed
/// write to the new cell is accepted, whatever was written to it before.
pub proof fn lemma_new_buffer_takes_writes(
    creation: BufferCreation,
    data: Seq<u8>,
    payload: Seq<u8>,
)
    requires
        binds(creation),
        data.len() >= HEADER_LEN,
    ensures
        authorized_echo_outcome(
            creation.owner,
            creation.address,
            with_header(creation.header, data),
            creation.funder,
            true,
            payload,
        ) == Ok::<Seq<u8>, HandlerError>(written(with_header(creation.header, data), payload)),
{
    lemma_header_round_trip(creation.header, data.skip(HEADER_LEN as int));
}

} // verus!
