//! Addresses of storage cells, and the addresses that a program derives for
//! the cells it controls.

use vstd::prelude::*;
use vstd::slice::slice_to_vec;
use solana_program::pubkey::{Pubkey, PubkeyError};
use crate::little_endian::{le_bytes, u64_to_le_bytes};

verus! {

/// The public identifier of a storage cell, of a program or of a signer.
#[derive(Clone, Copy, Debug, PartialEq, Eq, Hash)]
pub struct Address {
    pub bytes: [u8; 32],
}

impl View for Address {
    type V = Seq<u8>;

    open spec fn view(&self) -> Seq<u8> {
        self.bytes@
    }
}

impl Address {
    /// Whether two addresses hold the same bytes.
    pub fn same_as(&self, other: &Address) -> (same: bool)
        ensures
            same == (self@ == other@),
            same == (*self == *other),
    {
        let mut i: usize = 0;
        while i < 32
            invariant
                i <= 32,
                forall|k: int| 0 <= k < i ==> self.bytes@[k] == other.bytes@[k],
            decreases 32 - i,
        {
            if self.bytes[i] != other.bytes[i] {
                return false;
            }
            i = i + 1;
        }
        assert(self.bytes =~= other.bytes);
        true
    }

    /// The bytes of the address in a vector.
    pub fn to_vec(&self) -> (out: Vec<u8>)
        ensures
            out@ == self@,
    {
        slice_to_vec(self.bytes.as_slice())
    }
}

/// Two addresses are the same where their bytes are.
pub proof fn lemma_address_by_bytes(a: Address, b: Address)
    ensures
        (a@ == b@) == (a == b),
{
    if a@ == b@ {
        assert(a.bytes =~= b.bytes);
    }
}

/// The address that the ledger computes from `seeds` for the program
/// `program_id`, or `None` where it computes none: where there are more than
/// 16 seeds, where a seed is longer than 32 bytes, or where the bytes computed
/// are a point of the curve that the keys of signers lie on.
pub uninterp spec fn program_address(seeds: Seq<Seq<u8>>, program_id: Seq<u8>) -> Option<Seq<u8>>;

/// The address and the bump that the ledger finds for `seeds` and the program
/// `program_id`, or `None` where its search ends without one.
pub uninterp spec fn found_program_address(seeds: Seq<Seq<u8>>, program_id: Seq<u8>) -> Option<
    (Seq<u8>, u8),
>;

/// Whether `bytes` are a point of that curve, as the ledger's
/// `bytes_are_curve_point` tells. An address that is such a point may have a
/// signing key; one that is none has none.
pub uninterp spec fn is_curve_point(bytes: Seq<u8>) -> bool;

/// The seeds as byte strings.
pub open spec fn seed_bytes(seeds: Seq<Vec<u8>>) -> Seq<Seq<u8>> {
    Seq::new(seeds.len(), |i: int| seeds[i]@)
}

/// `Pubkey::create_program_address`: the address for exactly these seeds. The
/// contract claims that the outcome is a function of the seeds and the
/// program, named `program_address`, and that an address that is returned is
/// no point of the curve.
#[verifier::external_body]
pub(crate) fn create_program_address(seeds: &Vec<Vec<u8>>, program_id: &Address) -> (r: Result<
    Address,
    PubkeyError,
>)
    ensures
        match r {
            Ok(address) => {
                &&& program_address(seed_bytes(seeds@), program_id@) == Some(address@)
                &&& !is_curve_point(address@)
            },
            Err(_) => program_address(seed_bytes(seeds@), program_id@) is None,
        },
{
    let parts: Vec<&[u8]> = seeds.iter().map(|seed| seed.as_slice()).collect();
    match Pubkey::create_program_address(&parts, &Pubkey::new_from_array(program_id.bytes)) {
        Ok(key) => Ok(Address { bytes: key.to_bytes() }),
        Err(e) => Err(e),
    }
}

/// `Pubkey::try_find_program_address`: the search for a bump, a last seed of
/// one byte, with which the seeds have an address. The contract claims that
/// the outcome is a function of the seeds and the program, named
/// `found_program_address`; that the address found is the one that
/// `Pubkey::create_program_address` gives for the seeds followed by the bump,
/// and so no point of the curve; and that it gives none for the seeds
/// followed by any higher bump, the search going downwards from 255.
#[verifier::external_body]
pub(crate) fn try_find_program_address(seeds: &Vec<Vec<u8>>, program_id: &Address) -> (r: Option<
    (Address, u8),
>)
    ensures
        match r {
            Some((address, bump)) => {
                &&& found_program_address(seed_bytes(seeds@), program_id@) == Some(
                    (address@, bump),
                )
                &&& program_address(seed_bytes(seeds@).push(seq![bump]), program_id@) == Some(
                    address@,
                )
                &&& !is_curve_point(address@)
                &&& forall|higher: u8|
                    bump < higher ==> #[trigger] program_address(
                        seed_bytes(seeds@).push(seq![higher]),
                        program_id@,
                    ) is None
            },
            None => found_program_address(seed_bytes(seeds@), program_id@) is None,
        },
{
    let parts: Vec<&[u8]> = seeds.iter().map(|seed| seed.as_slice()).collect();
    match Pubkey::try_find_program_address(&parts, &Pubkey::new_from_array(program_id.bytes)) {
        Some((key, bump)) => Some((Address { bytes: key.to_bytes() }, bump)),
        None => None,
    }
}

/// The seeds of the cell that `owner` controls under `domain_tag` and `seed`,
/// in the order in which they are hashed.
pub open spec fn cell_seeds(domain_tag: Seq<u8>, owner: Seq<u8>, seed: u64) -> Seq<Seq<u8>> {
    seq![domain_tag, owner, le_bytes(seed as nat, 8)]
}

/// The same seeds followed by the bump.
pub open spec fn cell_seeds_with_bump(
    domain_tag: Seq<u8>,
    owner: Seq<u8>,
    seed: u64,
    bump: u8,
) -> Seq<Seq<u8>> {
    cell_seeds(domain_tag, owner, seed).push(seq![bump])
}

/// What a derivation binds a tag, an owner and a seed to: an address and a bump.
pub open spec fn derived(domain_tag: Seq<u8>, owner: Seq<u8>, seed: u64, program_id: Seq<u8>)
    -> Option<(Seq<u8>, u8)> {
    found_program_address(cell_seeds(domain_tag, owner, seed), program_id)
}

/// The address for a tag, an owner, a seed and a bump that is already known.
pub open spec fn rederived(
    domain_tag: Seq<u8>,
    owner: Seq<u8>,
    seed: u64,
    bump: u8,
    program_id: Seq<u8>,
) -> Option<Seq<u8>> {
    program_address(cell_seeds_with_bump(domain_tag, owner, seed, bump), program_id)
}

/// Whether `outcome` is what `derive` returns for these inputs.
pub open spec fn is_derivation(
    outcome: Option<(Address, u8)>,
    domain_tag: Seq<u8>,
    owner: Seq<u8>,
    seed: u64,
    program_id: Seq<u8>,
) -> bool {
    match outcome {
        Some((address, bump)) => {
            &&& derived(domain_tag, owner, seed, program_id) == Some((address@, bump))
            &&& rederived(domain_tag, owner, seed, bump, program_id) == Some(address@)
            &&& !is_curve_point(address@)
            &&& forall|higher: u8|
                bump < higher ==> #[trigger] rederived(
                    domain_tag,
                    owner,
                    seed,
                    higher,
                    program_id,
                ) is None
        },
        None => derived(domain_tag, owner, seed, program_id) is None,
    }
}

/// The three seeds of a cell as the ledger takes them.
fn seeds_of(domain_tag: &[u8], owner: &Address, seed: u64) -> (seeds: Vec<Vec<u8>>)
    ensures
        seed_bytes(seeds@) == cell_seeds(domain_tag@, owner@, seed),
{
    let mut seeds: Vec<Vec<u8>> = Vec::new();
    seeds.push(slice_to_vec(domain_tag));
    seeds.push(owner.to_vec());
    seeds.push(u64_to_le_bytes(seed));
    seeds
}

/// Finds the address of the cell that `owner` controls under `domain_tag` and
/// `seed`, and the bump that goes with it: the highest bump with which the
/// seeds have an address. The address is no point of the curve, so that no
/// signing key belongs to it. `None` where the search finds no bump.
pub fn derive(domain_tag: &[u8], owner: &Address, seed: u64, program_id: &Address) -> (r: Option<
    (Address, u8),
>)
    ensures
        is_derivation(r, domain_tag@, owner@, seed, program_id@),
{
    let seeds = seeds_of(domain_tag, owner, seed);
    try_find_program_address(&seeds, program_id)
}

/// Computes the address of the cell again from a bump that is already known.
/// `None` where the seeds and the bump have no address.
pub fn rederive(
    domain_tag: &[u8],
    owner: &Address,
    seed: u64,
    bump: u8,
    program_id: &Address,
) -> (r: Option<Address>)
    ensures
        match r {
            Some(address) => {
                &&& rederived(domain_tag@, owner@, seed, bump, program_id@) == Some(address@)
                &&& !is_curve_point(address@)
            },
            None => rederived(domain_tag@, owner@, seed, bump, program_id@) is None,
        },
{
    let mut seeds = seeds_of(domain_tag, owner, seed);
    let ghost three = seeds@;
    let mut last: Vec<u8> = Vec::new();
    last.push(bump);
    seeds.push(last);
    assert(seed_bytes(seeds@) =~= seed_bytes(three).push(seq![bump]));
    match create_program_address(&seeds, program_id) {
        Ok(address) => Some(address),
        Err(_) => None,
    }
}

/// Two derivations from the same tag, owner, seed and program give the same
/// address and the same bump, or both give none.
pub proof fn lemma_derive_deterministic(
    first: Option<(Address, u8)>,
    second: Option<(Address, u8)>,
    domain_tag: Seq<u8>,
    owner: Seq<u8>,
    seed: u64,
    program_id: Seq<u8>,
)
    requires
        is_derivation(first, domain_tag, owner, seed, program_id),
        is_derivation(second, domain_tag, owner, seed, program_id),
    ensures
        first == second,
{
    if let Some((a, _)) = first {
        if let Some((b, _)) = second {
            assert(a.bytes =~= b.bytes);
        }
    }
}

} // verus!
