//! The vaults of a booth: token accounts at addresses that the program
//! derives from the booth.

use vstd::prelude::*;
use vstd::slice::slice_to_vec;
use crate::address::{
    found_program_address, lemma_address_by_bytes, program_address, seed_bytes,
    try_find_program_address, Address,
};
use crate::error::HandlerError;

verus! {

/// The domain tag of the first vault: the letters of `vault_a`.
pub const VAULT_A_TAG: [u8; 7] = [118, 97, 117, 108, 116, 95, 97];

/// The domain tag of the second vault: the letters of `vault_b`.
pub const VAULT_B_TAG: [u8; 7] = [118, 97, 117, 108, 116, 95, 98];

/// The seeds of a vault, in the order in which they are hashed.
pub open spec fn vault_seeds(tag: Seq<u8>, booth: Address) -> Seq<Seq<u8>> {
    seq![tag, booth@]
}

/// The address and the bump of the vault of `booth` under `tag`.
pub open spec fn vault_of(tag: Seq<u8>, booth: Address, program_id: Address) -> Option<
    (Seq<u8>, u8),
> {
    found_program_address(vault_seeds(tag, booth), program_id@)
}

/// Whether `found` is what `find_vault` returns for these inputs.
pub open spec fn is_vault_search(
    found: Option<(Address, u8)>,
    tag: Seq<u8>,
    booth: Address,
    program_id: Address,
) -> bool {
    match found {
        Some((address, bump)) => {
            &&& vault_of(tag, booth, program_id) == Some((address@, bump))
            &&& program_address(vault_seeds(tag, booth).push(seq![bump]), program_id@) == Some(
                address@,
            )
        },
        None => vault_of(tag, booth, program_id) is None,
    }
}

/// Finds the address of the vault of `booth` under `tag`, and the bump that
/// goes with it. `None` where the search finds no bump.
pub fn find_vault(tag: &[u8], booth: &Address, program_id: &Address) -> (found: Option<
    (Address, u8),
>)
    ensures
        is_vault_search(found, tag@, *booth, *program_id),
{
    let mut seeds: Vec<Vec<u8>> = Vec::new();
    seeds.push(slice_to_vec(tag));
    seeds.push(booth.to_vec());
    assert(seed_bytes(seeds@) =~= vault_seeds(tag@, *booth));
    try_find_program_address(&seeds, program_id)
}

/// The bump of a vault, where the address that was found for it is the
/// address of the cell that the caller supplied. Fails with `InvalidArgument`
/// where the two differ or nothing was found.
pub fn check_vault(found: Option<(Address, u8)>, supplied: &Address) -> (r: Result<
    u8,
    HandlerError,
>)
    ensures
        r == match found {
            Some((address, bump)) => if address == *supplied {
                Ok::<u8, HandlerError>(bump)
            } else {
                Err::<u8, HandlerError>(HandlerError::InvalidArgument)
            },
            None => Err::<u8, HandlerError>(HandlerError::InvalidArgument),
        },
{
    match found {
        Some((address, bump)) => {
            if address.same_as(supplied) {
                Ok(bump)
            } else {
                Err(HandlerError::InvalidArgument)
            }
        },
        None => Err(HandlerError::InvalidArgument),
    }
}

/// Whether the cell at `supplied` is the vault of `booth` under `tag`.
pub open spec fn is_vault(tag: Seq<u8>, booth: Address, program_id: Address, supplied: Address)
    -> bool {
    match vault_of(tag, booth, program_id) {
        Some((address, _)) => address == supplied@,
        None => false,
    }
}

/// Checks that the cell at `supplied` is the vault of `booth` under `tag`,
/// and gives the bump of the vault. Fails with `InvalidArgument` where it is not.
pub fn vault_bump(tag: &[u8], booth: &Address, program_id: &Address, supplied: &Address) -> (r:
    Result<u8, HandlerError>)
    ensures
        match r {
            Ok(bump) => {
                &&& vault_of(tag@, *booth, *program_id) == Some((supplied@, bump))
                &&& program_address(vault_seeds(tag@, *booth).push(seq![bump]), program_id@)
                    == Some(supplied@)
            },
            Err(e) => e == HandlerError::InvalidArgument && !is_vault(
                tag@,
                *booth,
                *program_id,
                *supplied,
            ),
        },
{
    let found = find_vault(tag, booth, program_id);
    proof {
        if let Some((address, _)) = found {
            lemma_address_by_bytes(address, *supplied);
        }
    }
    check_vault(found, supplied)
}

/// Whether `signer_seeds` prove the program's authority over the cell at
/// `supplied` as the vault of `booth` under `tag`: they are the tag, the
/// booth and the bump of the vault, and the cell is at the address that they give.
pub open spec fn signs_for_vault(
    signer_seeds: Vec<Vec<u8>>,
    tag: Seq<u8>,
    booth: Address,
    program_id: Address,
    supplied: Address,
) -> bool {
    match vault_of(tag, booth, program_id) {
        Some((address, bump)) => {
            &&& address == supplied@
            &&& seed_bytes(signer_seeds@) == vault_seeds(tag, booth).push(seq![bump])
            &&& program_address(seed_bytes(signer_seeds@), program_id@) == Some(supplied@)
        },
        None => false,
    }
}

/// The seeds that prove the program's authority over a vault: the tag, the
/// booth and the bump.
pub fn vault_signer_seeds(tag: &[u8], booth: &Address, bump: u8) -> (seeds: Vec<Vec<u8>>)
    ensures
        seed_bytes(seeds@) == vault_seeds(tag@, *booth).push(seq![bump]),
{
    let mut seeds: Vec<Vec<u8>> = Vec::new();
    seeds.push(slice_to_vec(tag));
    seeds.push(booth.to_vec());
    let mut last: Vec<u8> = Vec::new();
    last.push(bump);
    seeds.push(last);
    seeds
}

} // verus!
