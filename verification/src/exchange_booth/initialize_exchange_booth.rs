//! The administrator sets a booth up: the ledger creates the two vaults, the
//! token program makes token accounts of them, and the booth is written to
//! its cell.

use vstd::prelude::*;
use crate::account_info::AccountInfo;
use crate::address::{seed_bytes, Address};
use crate::error::HandlerError;
use crate::exchange_booth::state::ExchangeBooth;
use crate::exchange_booth::vault::{
    is_vault, vault_bump, vault_of, vault_seeds, vault_signer_seeds, VAULT_A_TAG, VAULT_B_TAG,
};
use crate::ledger::{
    create_account, create_account_data, system_program_id, AccountMeta, Invocation,
};
use crate::token::{
    initialize_account, initialize_account_data, RENT_SYSVAR_ID, TOKEN_ACCOUNT_LEN,
    TOKEN_PROGRAM_ID,
};

verus! {

/// A booth that is being set up: the cells that the request named, and the
/// bumps of the two vaults.
#[derive(Clone, Copy, Debug, PartialEq, Eq)]
pub struct BoothSetup {
    /// The program that sets the booth up.
    pub program_id: Address,
    /// Who sets the booth up and pays for the vaults.
    pub administrator: Address,
    /// The cell of the booth.
    pub exchange_booth: Address,
    /// The mint of the first token.
    pub mint_a: Address,
    /// The mint of the second token.
    pub mint_b: Address,
    /// The vault of the first token.
    pub vault_a: Address,
    /// The vault of the second token.
    pub vault_b: Address,
    /// The cell that the rate of exchange is read from.
    pub oracle: Address,
    /// The program that will own the vaults.
    pub token_program: Address,
    /// The bump of the first vault.
    pub vault_a_bump: u8,
    /// The bump of the second vault.
    pub vault_b_bump: u8,
}

/// The reason for which a booth is not set up, or `None` where it may be. The
/// cells are: the administrator, the booth, the two mints, the two vaults,
/// the oracle, the system program, the token program and the rent.
pub open spec fn setup_refusal(program_id: Address, accounts: Seq<AccountInfo>) -> Option<
    HandlerError,
> {
    if accounts.len() < 10 {
        Some(HandlerError::NotEnoughAccountKeys)
    } else if !accounts[0].is_signer {
        Some(HandlerError::MissingRequiredSignature)
    } else if !is_vault(VAULT_A_TAG@, accounts[1].key, program_id, accounts[4].key) {
        Some(HandlerError::InvalidArgument)
    } else if !is_vault(VAULT_B_TAG@, accounts[1].key, program_id, accounts[5].key) {
        Some(HandlerError::InvalidArgument)
    } else {
        None
    }
}

impl BoothSetup {
    /// Whether the setup names the cells of the request.
    pub open spec fn names(self, program_id: Address, accounts: Seq<AccountInfo>) -> bool {
        &&& self.program_id == program_id
        &&& self.administrator == accounts[0].key
        &&& self.exchange_booth == accounts[1].key
        &&& self.mint_a == accounts[2].key
        &&& self.mint_b == accounts[3].key
        &&& self.vault_a == accounts[4].key
        &&& self.vault_b == accounts[5].key
        &&& self.oracle == accounts[6].key
        &&& self.token_program == accounts[8].key
    }

    /// Whether the setup is the one of the request: it names the cells of
    /// the request, and its bumps are those of the two vaults.
    pub open spec fn is_for(self, program_id: Address, accounts: Seq<AccountInfo>) -> bool {
        &&& self.names(program_id, accounts)
        &&& vault_of(VAULT_A_TAG@, self.exchange_booth, program_id) == Some(
            (self.vault_a@, self.vault_a_bump),
        )
        &&& vault_of(VAULT_B_TAG@, self.exchange_booth, program_id) == Some(
            (self.vault_b@, self.vault_b_bump),
        )
    }

    /// The seeds of the first vault with its bump.
    pub fn vault_a_seeds(&self) -> (seeds: Vec<Vec<u8>>)
        ensures
            seed_bytes(seeds@) == vault_seeds(
                VAULT_A_TAG@,
                self.exchange_booth,
            ).push(seq![self.vault_a_bump]),
    {
        vault_signer_seeds(VAULT_A_TAG.as_slice(), &self.exchange_booth, self.vault_a_bump)
    }

    /// The seeds of the second vault with its bump.
    pub fn vault_b_seeds(&self) -> (seeds: Vec<Vec<u8>>)
        ensures
            seed_bytes(seeds@) == vault_seeds(
                VAULT_B_TAG@,
                self.exchange_booth,
            ).push(seq![self.vault_b_bump]),
    {
        vault_signer_seeds(VAULT_B_TAG.as_slice(), &self.exchange_booth, self.vault_b_bump)
    }

    /// Whether `invocation` has the system program create the cell of a
    /// vault: 165 bytes, owned by the token program, paid for by the
    /// administrator with `lamports`. The cells that go with it are the
    /// administrator, the vault, which is at place `place`, and the system
    /// program.
    pub open spec fn creates_vault(
        self,
        invocation: Invocation,
        lamports: u64,
        vault: Address,
        place: usize,
    ) -> bool {
        &&& invocation.instruction.program_id@ == system_program_id()
        &&& invocation.instruction.accounts@ == seq![
            AccountMeta { pubkey: self.administrator, is_signer: true, is_writable: true },
            AccountMeta { pubkey: vault, is_signer: true, is_writable: true },
        ]
        &&& invocation.instruction.data@ == create_account_data(
            lamports,
            TOKEN_ACCOUNT_LEN as u64,
            self.token_program@,
        )
        &&& invocation.accounts@ == seq![0usize, place, 7usize]
    }

    /// The two instructions that have the ledger create the vaults, the first
    /// vault first, each with `lamports` as its balance.
    pub fn create_vaults(&self, lamports: u64) -> (invocations: Vec<Invocation>)
        ensures
            invocations@.len() == 2,
            self.creates_vault(invocations@[0], lamports, self.vault_a, 4),
            self.creates_vault(invocations@[1], lamports, self.vault_b, 5),
            seed_bytes(invocations@[0].signer_seeds@)
                == vault_seeds(
                VAULT_A_TAG@,
                self.exchange_booth,
            ).push(seq![self.vault_a_bump]),
            seed_bytes(invocations@[1].signer_seeds@)
                == vault_seeds(
                VAULT_B_TAG@,
                self.exchange_booth,
            ).push(seq![self.vault_b_bump]),
    {
        let vault_size: u64 = TOKEN_ACCOUNT_LEN as u64;
        let ix_create_vault_a = create_account(
            &self.administrator,
            &self.vault_a,
            lamports,
            vault_size,
            &self.token_program,
        );
        let ix_create_vault_b = create_account(
            &self.administrator,
            &self.vault_b,
            lamports,
            vault_size,
            &self.token_program,
        );
        let mut invocations: Vec<Invocation> = Vec::new();
        invocations.push(
            Invocation {
                instruction: ix_create_vault_a,
                accounts: places(0, 4, 7),
                signer_seeds: self.vault_a_seeds(),
            },
        );
        invocations.push(
            Invocation {
                instruction: ix_create_vault_b,
                accounts: places(0, 5, 7),
                signer_seeds: self.vault_b_seeds(),
            },
        );
        invocations
    }

    /// Whether `invocation` has the token program make a token account of a
    /// vault, for the tokens of `mint` and with the vault as its own owner.
    /// The cells that go with it are the token program, the vault, the mint
    /// and the rent.
    pub open spec fn initializes_vault(
        self,
        invocation: Invocation,
        vault: Address,
        mint: Address,
        vault_place: usize,
        mint_place: usize,
    ) -> bool {
        &&& invocation.instruction.program_id == self.token_program
        &&& invocation.instruction.accounts@ == seq![
            AccountMeta { pubkey: vault, is_signer: false, is_writable: true },
            AccountMeta { pubkey: mint, is_signer: false, is_writable: false },
            AccountMeta { pubkey: vault, is_signer: false, is_writable: false },
            AccountMeta {
                pubkey: Address { bytes: RENT_SYSVAR_ID },
                is_signer: false,
                is_writable: false,
            },
        ]
        &&& invocation.instruction.data@ == initialize_account_data()
        &&& invocation.accounts@ == seq![8usize, vault_place, mint_place, 9usize]
    }

    /// The two instructions that have the token program make token accounts
    /// of the vaults, the first vault first. Fails with `IncorrectProgramId`
    /// where the request named another program as the token program.
    pub fn initialize_vaults(&self) -> (r: Result<Vec<Invocation>, HandlerError>)
        ensures
            match r {
                Ok(invocations) => {
                    &&& self.token_program@ == TOKEN_PROGRAM_ID@
                    &&& invocations@.len() == 2
                    &&& self.initializes_vault(invocations@[0], self.vault_a, self.mint_a, 4, 2)
                    &&& self.initializes_vault(invocations@[1], self.vault_b, self.mint_b, 5, 3)
                    &&& seed_bytes(invocations@[0].signer_seeds@)
                        == vault_seeds(
                        VAULT_A_TAG@,
                        self.exchange_booth,
                    ).push(seq![self.vault_a_bump])
                    &&& seed_bytes(invocations@[1].signer_seeds@)
                        == vault_seeds(
                        VAULT_B_TAG@,
                        self.exchange_booth,
                    ).push(seq![self.vault_b_bump])
                },
                Err(e) => e == HandlerError::IncorrectProgramId && self.token_program@
                    != TOKEN_PROGRAM_ID@,
            },
    {
        let ix_init_acct_vault_a = match initialize_account(
            &self.token_program,
            &self.vault_a,
            &self.mint_a,
            &self.vault_a,
        ) {
            Ok(instruction) => instruction,
            Err(_) => {
                return Err(HandlerError::IncorrectProgramId);
            },
        };
        let ix_init_acct_vault_b = match initialize_account(
            &self.token_program,
            &self.vault_b,
            &self.mint_b,
            &self.vault_b,
        ) {
            Ok(instruction) => instruction,
            Err(_) => {
                return Err(HandlerError::IncorrectProgramId);
            },
        };
        let mut invocations: Vec<Invocation> = Vec::new();
        let mut handed_on_a = places(8, 4, 2);
        handed_on_a.push(9);
        let mut handed_on_b = places(8, 5, 3);
        handed_on_b.push(9);
        assert(handed_on_a@ =~= seq![8usize, 4usize, 2usize, 9usize]);
        assert(handed_on_b@ =~= seq![8usize, 5usize, 3usize, 9usize]);
        invocations.push(
            Invocation {
                instruction: ix_init_acct_vault_a,
                accounts: handed_on_a,
                signer_seeds: self.vault_a_seeds(),
            },
        );
        invocations.push(
            Invocation {
                instruction: ix_init_acct_vault_b,
                accounts: handed_on_b,
                signer_seeds: self.vault_b_seeds(),
            },
        );
        Ok(invocations)
    }

    /// The booth that the cell holds once it is set up: the flag as it was
    /// read, and the cells of the request.
    pub open spec fn booth(self, initialized: bool) -> ExchangeBooth {
        ExchangeBooth {
            initialized,
            admin: self.administrator,
            mint_a: self.mint_a,
            mint_b: self.mint_b,
            vault_a: self.vault_a,
            vault_b: self.vault_b,
            oracle: self.oracle,
        }
    }

    /// What the end of the setup does to the bytes of the booth's cell.
    pub open spec fn finish_outcome(self, key: Address, data: Seq<u8>) -> Result<
        Seq<u8>,
        HandlerError,
    > {
        if key != self.exchange_booth {
            Err(HandlerError::InvalidArgument)
        } else if !ExchangeBooth::is_encoding(data) {
            Err(HandlerError::BorshIoError)
        } else {
            Ok(self.booth(data[0] == 1).encoding())
        }
    }

    /// Ends the setup once the vaults are token accounts: reads the booth
    /// from its cell, names the cells of the request in it, and writes it
    /// back. Fails with `InvalidArgument` where `exchange_booth` is not the
    /// cell that the request named, and with `BorshIoError` where it holds no
    /// booth. A cell that is not written stays as it is.
    pub fn finish(&self, exchange_booth: &mut AccountInfo) -> (r: Result<(), HandlerError>)
        ensures
            final(exchange_booth).same_cell_as(old(exchange_booth)),
            match self.finish_outcome(old(exchange_booth).key, old(exchange_booth).data@) {
                Ok(image) => r is Ok && final(exchange_booth).data@ == image,
                Err(e) => r == Err::<(), HandlerError>(e) && *final(exchange_booth) == *old(
                    exchange_booth,
                ),
            },
    {
        if !exchange_booth.key.same_as(&self.exchange_booth) {
            return Err(HandlerError::InvalidArgument);
        }
        let mut booth = match ExchangeBooth::load_unchecked(exchange_booth) {
            Ok(booth) => booth,
            Err(e) => {
                return Err(e);
            },
        };
        booth.admin = self.administrator;
        booth.mint_a = self.mint_a;
        booth.mint_b = self.mint_b;
        booth.vault_a = self.vault_a;
        booth.vault_b = self.vault_b;
        booth.oracle = self.oracle;
        booth.save(exchange_booth)
    }
}

/// Three places in the list of cells.
fn places(first: usize, second: usize, third: usize) -> (out: Vec<usize>)
    ensures
        out@ == seq![first, second, third],
{
    let mut out: Vec<usize> = Vec::new();
    out.push(first);
    out.push(second);
    out.push(third);
    out
}

/// Checks a request to set a booth up, which comes with the cells listed at
/// `setup_refusal`. Fails with `NotEnoughAccountKeys` where cells are
/// missing, else with `MissingRequiredSignature` where the administrator did
/// not sign, else with `InvalidArgument` where the first vault, and then
/// where the second vault, is not at the address derived from the booth.
pub fn process(program_id: &Address, accounts: &[AccountInfo]) -> (r: Result<
    BoothSetup,
    HandlerError,
>)
    ensures
        match r {
            Ok(setup) => setup_refusal(*program_id, accounts@) is None && setup.is_for(
                *program_id,
                accounts@,
            ),
            Err(e) => setup_refusal(*program_id, accounts@) == Some(e),
        },
{
    if accounts.len() < 10 {
        return Err(HandlerError::NotEnoughAccountKeys);
    }
    let administrator_ai = &accounts[0];
    let exchange_booth_ai = &accounts[1];
    let mint_a_ai = &accounts[2];
    let mint_b_ai = &accounts[3];
    let vault_a_ai = &accounts[4];
    let vault_b_ai = &accounts[5];
    let oracle_ai = &accounts[6];
    let token_program_ai = &accounts[8];
    if !administrator_ai.is_signer {
        return Err(HandlerError::MissingRequiredSignature);
    }
    let vault_a_bump = match vault_bump(
        VAULT_A_TAG.as_slice(),
        &exchange_booth_ai.key,
        program_id,
        &vault_a_ai.key,
    ) {
        Ok(bump) => bump,
        Err(e) => {
            return Err(e);
        },
    };
    let vault_b_bump = match vault_bump(
        VAULT_B_TAG.as_slice(),
        &exchange_booth_ai.key,
        program_id,
        &vault_b_ai.key,
    ) {
        Ok(bump) => bump,
        Err(e) => {
            return Err(e);
        },
    };
    Ok(
        BoothSetup {
            program_id: *program_id,
            administrator: administrator_ai.key,
            exchange_booth: exchange_booth_ai.key,
            mint_a: mint_a_ai.key,
            mint_b: mint_b_ai.key,
            vault_a: vault_a_ai.key,
            vault_b: vault_b_ai.key,
            oracle: oracle_ai.key,
            token_program: token_program_ai.key,
            vault_a_bump,
            vault_b_bump,
        },
    )
}

} // verus!
