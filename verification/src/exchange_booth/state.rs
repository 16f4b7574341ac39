//! What the cell of an exchange booth holds.

use vstd::prelude::*;
use crate::account_info::AccountInfo;
use crate::address::Address;
use crate::error::HandlerError;

verus! {

/// Number of bytes that a booth takes in its cell: one for the flag, 32 for
/// each of its six addresses.
pub const BOOTH_LEN: usize = 193;

/// An exchange booth.
#[derive(Clone, Copy, Debug, PartialEq, Eq)]
pub struct ExchangeBooth {
    /// Whether the booth is set up.
    pub initialized: bool,
    /// Who may take tokens out of the vaults.
    pub admin: Address,
    /// The mint of the first token.
    pub mint_a: Address,
    /// The mint of the second token.
    pub mint_b: Address,
    /// The token account, at a derived address, that holds the first token.
    pub vault_a: Address,
    /// The token account, at a derived address, that holds the second token.
    pub vault_b: Address,
    /// The cell that the rate of exchange is read from.
    pub oracle: Address,
}

impl ExchangeBooth {
    /// The 193 bytes of the booth: the flag as 0 or 1, then the addresses in
    /// the order of the fields.
    pub open spec fn encoding(self) -> Seq<u8> {
        seq![if self.initialized { 1u8 } else { 0u8 }] + self.admin@ + self.mint_a@ + self.mint_b@
            + self.vault_a@ + self.vault_b@ + self.oracle@
    }

    /// Whether `bytes` lay out a booth and nothing more.
    pub open spec fn is_encoding(bytes: Seq<u8>) -> bool {
        bytes.len() == BOOTH_LEN && bytes[0] <= 1
    }

    /// Whether `self` is the booth that `bytes` lay out.
    pub open spec fn is_decoding_of(self, bytes: Seq<u8>) -> bool {
        &&& Self::is_encoding(bytes)
        &&& self.initialized == (bytes[0] == 1)
        &&& self.admin@ == bytes.subrange(1, 33)
        &&& self.mint_a@ == bytes.subrange(33, 65)
        &&& self.mint_b@ == bytes.subrange(65, 97)
        &&& self.vault_a@ == bytes.subrange(97, 129)
        &&& self.vault_b@ == bytes.subrange(129, 161)
        &&& self.oracle@ == bytes.subrange(161, 193)
    }

    /// The bytes of a cell after the booth is laid out at its start.
    pub open spec fn saved_in(self, data: Seq<u8>) -> Seq<u8> {
        self.encoding() + data.skip(BOOTH_LEN as int)
    }

    /// Lays the booth out.
    pub fn encode(&self) -> (out: Vec<u8>)
        ensures
            out@ == self.encoding(),
            out@.len() == BOOTH_LEN,
    {
        let mut out: Vec<u8> = Vec::new();
        out.push(if self.initialized { 1 } else { 0 });
        out.extend_from_slice(self.admin.bytes.as_slice());
        out.extend_from_slice(self.mint_a.bytes.as_slice());
        out.extend_from_slice(self.mint_b.bytes.as_slice());
        out.extend_from_slice(self.vault_a.bytes.as_slice());
        out.extend_from_slice(self.vault_b.bytes.as_slice());
        out.extend_from_slice(self.oracle.bytes.as_slice());
        out
    }

    /// Reads a booth from bytes that lay out one and nothing more. Fails with
    /// `BorshIoError` on other bytes.
    pub fn decode(bytes: &[u8]) -> (r: Result<ExchangeBooth, HandlerError>)
        ensures
            match r {
                Ok(booth) => booth.is_decoding_of(bytes@),
                Err(e) => e == HandlerError::BorshIoError && !Self::is_encoding(bytes@),
            },
    {
        if bytes.len() != BOOTH_LEN || bytes[0] > 1 {
            return Err(HandlerError::BorshIoError);
        }
        Ok(
            ExchangeBooth {
                initialized: bytes[0] == 1,
                admin: address_at(bytes, 1),
                mint_a: address_at(bytes, 33),
                mint_b: address_at(bytes, 65),
                vault_a: address_at(bytes, 97),
                vault_b: address_at(bytes, 129),
                oracle: address_at(bytes, 161),
            },
        )
    }

    /// Reads the booth that the cell holds. Fails with `BorshIoError` where
    /// the bytes of the cell lay out no booth.
    pub fn load_unchecked(account_info: &AccountInfo) -> (r: Result<ExchangeBooth, HandlerError>)
        ensures
            match r {
                Ok(booth) => booth.is_decoding_of(account_info.data@),
                Err(e) => e == HandlerError::BorshIoError && !Self::is_encoding(account_info.data@),
            },
    {
        Self::decode(account_info.data.as_slice())
    }

    /// Whether the booth may be used. Every booth may.
    fn validate(&self) -> (r: Result<(), HandlerError>)
        ensures
            r is Ok,
    {
        Ok(())
    }

    /// Reads the booth that the cell holds and checks it. Fails with
    /// `BorshIoError` where the bytes of the cell lay out no booth.
    pub fn load(account_info: &AccountInfo) -> (r: Result<ExchangeBooth, HandlerError>)
        ensures
            match r {
                Ok(booth) => booth.is_decoding_of(account_info.data@),
                Err(e) => e == HandlerError::BorshIoError && !Self::is_encoding(account_info.data@),
            },
    {
        let booth = match Self::decode(account_info.data.as_slice()) {
            Ok(booth) => booth,
            Err(e) => {
                return Err(e);
            },
        };
        match booth.validate() {
            Ok(_) => Ok(booth),
            Err(e) => Err(e),
        }
    }

    /// Lays the booth out at the start of the cell and leaves the bytes
    /// behind it as they are. Fails with `BorshIoError`, and writes nothing,
    /// where the cell has fewer than 193 bytes.
    pub fn save(&self, account_info: &mut AccountInfo) -> (r: Result<(), HandlerError>)
        ensures
            final(account_info).same_cell_as(old(account_info)),
            if old(account_info).data@.len() >= BOOTH_LEN {
                r is Ok && final(account_info).data@ == self.saved_in(old(account_info).data@)
            } else {
                &&& r == Err::<(), HandlerError>(HandlerError::BorshIoError)
                &&& *final(account_info) == *old(account_info)
            },
    {
        if account_info.data.len() < BOOTH_LEN {
            return Err(HandlerError::BorshIoError);
        }
        let bytes = self.encode();
        let mut i: usize = 0;
        while i < BOOTH_LEN
            invariant
                i <= BOOTH_LEN <= old(account_info).data@.len(),
                bytes@ == self.encoding(),
                bytes@.len() == BOOTH_LEN,
                account_info.same_cell_as(old(account_info)),
                account_info.data@ == bytes@.take(i as int) + old(account_info).data@.skip(
                    i as int,
                ),
            decreases BOOTH_LEN - i,
        {
            account_info.data[i] = bytes[i];
            i = i + 1;
        }
        Ok(())
    }
}

/// The address that the 32 bytes from `start` on hold.
fn address_at(bytes: &[u8], start: usize) -> (address: Address)
    requires
        start + 32 <= bytes@.len(),
    ensures
        address@ == bytes@.subrange(start as int, start + 32),
{
    let mut out = [0u8; 32];
    let mut i: usize = 0;
    while i < 32
        invariant
            i <= 32,
            start + 32 <= bytes.len(),
            forall|k: int| 0 <= k < i ==> out@[k] == bytes@[start + k],
        decreases 32 - i,
    {
        out[i] = bytes[start + i];
        i = i + 1;
    }
    Address { bytes: out }
}

/// A booth is read back from its layout.
pub proof fn lemma_booth_round_trip(booth: ExchangeBooth, read: ExchangeBooth)
    requires
        read.is_decoding_of(booth.encoding()),
    ensures
        read == booth,
{
    let bytes = booth.encoding();
    assert(bytes.subrange(1, 33) =~= booth.admin@);
    assert(bytes.subrange(33, 65) =~= booth.mint_a@);
    assert(bytes.subrange(65, 97) =~= booth.mint_b@);
    assert(bytes.subrange(97, 129) =~= booth.vault_a@);
    assert(bytes.subrange(129, 161) =~= booth.vault_b@);
    assert(bytes.subrange(161, 193) =~= booth.oracle@);
    crate::address::lemma_address_by_bytes(read.admin, booth.admin);
    crate::address::lemma_address_by_bytes(read.mint_a, booth.mint_a);
    crate::address::lemma_address_by_bytes(read.mint_b, booth.mint_b);
    crate::address::lemma_address_by_bytes(read.vault_a, booth.vault_a);
    crate::address::lemma_address_by_bytes(read.vault_b, booth.vault_b);
    crate::address::lemma_address_by_bytes(read.oracle, booth.oracle);
}

/// The layout of a booth lays out a booth, and a booth that is saved in a
/// cell is the one that is loaded from the first 193 bytes of the cell.
pub proof fn lemma_booth_is_saved(booth: ExchangeBooth, data: Seq<u8>)
    requires
        data.len() >= BOOTH_LEN,
    ensures
        ExchangeBooth::is_encoding(booth.encoding()),
        booth.is_decoding_of(booth.encoding()),
        booth.saved_in(data).len() == data.len(),
        booth.saved_in(data).take(BOOTH_LEN as int) == booth.encoding(),
        booth.saved_in(data).skip(BOOTH_LEN as int) == data.skip(BOOTH_LEN as int),
{
    let bytes = booth.encoding();
    assert(bytes.subrange(1, 33) =~= booth.admin@);
    assert(bytes.subrange(33, 65) =~= booth.mint_a@);
    assert(bytes.subrange(65, 97) =~= booth.mint_b@);
    assert(bytes.subrange(97, 129) =~= booth.vault_a@);
    assert(bytes.subrange(129, 161) =~= booth.vault_b@);
    assert(bytes.subrange(161, 193) =~= booth.oracle@);
}

} // verus!
