use echo_program::account_info::AccountInfo;
use echo_program::address::Address;
use echo_program::authorized::{
    authorized_echo, initialize, overwrite, plan_creation, BufferCreation,
};
use echo_program::error::HandlerError;
use echo_program::ledger::AccountMeta;
use echo_program::state::AuthorizedBufferHeader;
use solana_program::program_error::ProgramError;
use solana_program::pubkey::Pubkey;

fn program() -> Address {
    Address { bytes: [11; 32] }
}

fn authority(signed: bool) -> AccountInfo {
    AccountInfo {
        key: Address { bytes: [5; 32] },
        owner: Address { bytes: [0; 32] },
        lamports: 1_000_000,
        is_signer: signed,
        is_writable: true,
        data: vec![],
    }
}

fn cell_at(key: Address, data: Vec<u8>) -> AccountInfo {
    AccountInfo {
        key,
        owner: program(),
        lamports: 0,
        is_signer: false,
        is_writable: true,
        data,
    }
}

fn derived(seed: u64) -> (Address, u8) {
    let (key, bump) = Pubkey::find_program_address(
        &[b"authority", &authority(true).key.bytes, &seed.to_le_bytes()],
        &Pubkey::new_from_array(program().bytes),
    );
    (Address { bytes: key.to_bytes() }, bump)
}

fn buffer(seed: u64, size: usize) -> AccountInfo {
    let (address, bump_seed) = derived(seed);
    let mut data = AuthorizedBufferHeader { bump_seed, buffer_seed: seed }.encode();
    data.resize(size, 0);
    cell_at(address, data)
}

#[test]
fn initialize_names_the_cell_to_create() {
    let (address, bump_seed) = derived(42);
    let new_cell = cell_at(address, vec![]);
    let creation = initialize(&program(), &new_cell, &authority(true), 42, 16).unwrap();
    assert_eq!(
        creation,
        BufferCreation {
            funder: authority(true).key,
            address,
            space: 16,
            owner: program(),
            header: AuthorizedBufferHeader { bump_seed, buffer_seed: 42 },
        }
    );
}

#[test]
fn initialize_needs_the_signature() {
    let (address, _) = derived(42);
    let new_cell = cell_at(address, vec![]);
    assert_eq!(
        initialize(&program(), &new_cell, &authority(false), 42, 16),
        Err(HandlerError::MissingRequiredSignature)
    );
    assert_eq!(
        initialize(&program(), &new_cell, &authority(false), 42, 0),
        Err(HandlerError::MissingRequiredSignature)
    );
}

#[test]
fn initialize_needs_room_for_the_header() {
    let (address, _) = derived(42);
    let new_cell = cell_at(address, vec![]);
    for size in 0u64..9 {
        assert_eq!(
            initialize(&program(), &new_cell, &authority(true), 42, size),
            Err(HandlerError::InvalidArgument)
        );
    }
    assert!(initialize(&program(), &new_cell, &authority(true), 42, 9).is_ok());
}

#[test]
fn initialize_needs_the_derived_address() {
    let (address, _) = derived(43);
    let elsewhere = cell_at(address, vec![]);
    assert_eq!(
        initialize(&program(), &elsewhere, &authority(true), 42, 16),
        Err(HandlerError::InvalidArgument)
    );
    let mut other = authority(true);
    other.key = Address { bytes: [6; 32] };
    let (address, _) = derived(42);
    assert_eq!(
        initialize(&program(), &cell_at(address, vec![]), &other, 42, 16),
        Err(HandlerError::InvalidArgument)
    );
}

#[test]
fn plan_creation_compares_the_addresses() {
    let key = Address { bytes: [1; 32] };
    let other = Address { bytes: [2; 32] };
    let funder = Address { bytes: [3; 32] };
    assert_eq!(
        plan_creation(Some((key, 250)), &program(), &key, &funder, 7, 100),
        Ok(BufferCreation {
            funder,
            address: key,
            space: 100,
            owner: program(),
            header: AuthorizedBufferHeader { bump_seed: 250, buffer_seed: 7 },
        })
    );
    assert_eq!(
        plan_creation(Some((other, 250)), &program(), &key, &funder, 7, 100),
        Err(HandlerError::InvalidArgument)
    );
    assert_eq!(
        plan_creation(None, &program(), &key, &funder, 7, 100),
        Err(HandlerError::InvalidArgument)
    );
}

#[test]
fn signer_seeds_are_tag_authority_seed_and_bump() {
    let (address, _) = derived(42);
    let creation =
        initialize(&program(), &cell_at(address, vec![]), &authority(true), 42, 16).unwrap();
    assert_eq!(
        creation.signer_seeds(),
        vec![
            b"authority".to_vec(),
            vec![5; 32],
            vec![42, 0, 0, 0, 0, 0, 0, 0],
            vec![creation.header.bump_seed],
        ]
    );
}

#[test]
fn creation_instruction_is_the_ledgers() {
    let (address, _) = derived(42);
    let creation =
        initialize(&program(), &cell_at(address, vec![]), &authority(true), 42, 16).unwrap();
    let invocation = creation.invocation(1_002_240);
    assert_eq!(invocation.accounts, vec![1, 0, 2]);
    assert_eq!(invocation.signer_seeds, creation.signer_seeds());
    let ours = invocation.instruction;
    let theirs = solana_program::system_instruction::create_account(
        &Pubkey::new_from_array([5; 32]),
        &Pubkey::new_from_array(address.bytes),
        1_002_240,
        16,
        &Pubkey::new_from_array(program().bytes),
    );
    assert_eq!(ours.program_id.bytes, theirs.program_id.to_bytes());
    assert_eq!(ours.program_id.bytes, solana_program::system_program::id().to_bytes());
    assert_eq!(ours.data, theirs.data);
    assert_eq!(ours.accounts.len(), theirs.accounts.len());
    for (mine, other) in ours.accounts.iter().zip(theirs.accounts.iter()) {
        assert_eq!(mine.pubkey.bytes, other.pubkey.to_bytes());
        assert_eq!(mine.is_signer, other.is_signer);
        assert_eq!(mine.is_writable, other.is_writable);
    }
}

#[test]
fn creation_instruction_has_the_stated_layout() {
    let creation = BufferCreation {
        funder: Address { bytes: [5; 32] },
        address: Address { bytes: [6; 32] },
        space: 16,
        owner: Address { bytes: [7; 32] },
        header: AuthorizedBufferHeader { bump_seed: 255, buffer_seed: 0 },
    };
    let instruction = creation.invocation(0x0102).instruction;
    assert_eq!(instruction.program_id, Address { bytes: [0; 32] });
    assert_eq!(
        instruction.accounts,
        vec![
            AccountMeta { pubkey: creation.funder, is_signer: true, is_writable: true },
            AccountMeta { pubkey: creation.address, is_signer: true, is_writable: true },
        ]
    );
    let mut data = vec![0, 0, 0, 0, 2, 1, 0, 0, 0, 0, 0, 0, 16, 0, 0, 0, 0, 0, 0, 0];
    data.extend([7u8; 32]);
    assert_eq!(instruction.data, data);
}

#[test]
fn finish_writes_the_header() {
    let (address, bump_seed) = derived(42);
    let mut new_cell = cell_at(address, vec![]);
    let creation = initialize(&program(), &new_cell, &authority(true), 42, 16).unwrap();
    new_cell.data = vec![0; 16];
    assert_eq!(creation.finish(&mut new_cell, Ok(())), Ok(()));
    assert_eq!(
        new_cell.data,
        vec![bump_seed, 42, 0, 0, 0, 0, 0, 0, 0, 0, 0, 0, 0, 0, 0, 0]
    );
    assert_eq!(
        AuthorizedBufferHeader::decode(&new_cell.data),
        Ok(AuthorizedBufferHeader { bump_seed, buffer_seed: 42 })
    );
}

#[test]
fn finish_hands_the_ledgers_error_on() {
    let (address, _) = derived(42);
    let mut new_cell = cell_at(address, vec![0; 16]);
    let creation = initialize(&program(), &new_cell, &authority(true), 42, 16).unwrap();
    assert_eq!(
        creation.finish(&mut new_cell, Err(ProgramError::Custom(0))),
        Err(HandlerError::Ledger(ProgramError::Custom(0)))
    );
    assert_eq!(
        creation.finish(&mut new_cell, Err(ProgramError::InsufficientFunds)),
        Err(HandlerError::Ledger(ProgramError::InsufficientFunds))
    );
    assert_eq!(new_cell.data, vec![0; 16]);
}

#[test]
fn finish_refuses_another_cell_and_a_short_cell() {
    let (address, _) = derived(42);
    let new_cell = cell_at(address, vec![]);
    let creation = initialize(&program(), &new_cell, &authority(true), 42, 16).unwrap();
    let mut elsewhere = cell_at(Address { bytes: [9; 32] }, vec![0; 16]);
    assert_eq!(creation.finish(&mut elsewhere, Ok(())), Err(HandlerError::InvalidArgument));
    assert_eq!(elsewhere.data, vec![0; 16]);
    let mut short = cell_at(address, vec![0; 8]);
    assert_eq!(creation.finish(&mut short, Ok(())), Err(HandlerError::InvalidAccountData));
    assert_eq!(short.data, vec![0; 8]);
}

#[test]
fn scenario_create_then_write() {
    let size: u64 = 16;
    let seed: u64 = 42;
    let caller = authority(true);
    let (a, b) = echo_program::address::derive(b"authority", &caller.key, seed, &program()).unwrap();
    let mut new_cell = cell_at(a, vec![]);
    let creation = initialize(&program(), &new_cell, &caller, seed, size).unwrap();
    assert_eq!(creation.address, a);
    assert_eq!(creation.space, 16);
    new_cell.data = vec![0; creation.space as usize];
    assert_eq!(creation.finish(&mut new_cell, Ok(())), Ok(()));
    assert_eq!(new_cell.data[0], b);
    assert_eq!(&new_cell.data[1..9], &42u64.to_le_bytes());
    assert_eq!(&new_cell.data[9..], &[0u8; 7]);
    assert_eq!(authorized_echo(&program(), &mut new_cell, &caller, &[1, 2, 3]), Ok(()));
    assert_eq!(&new_cell.data[9..12], &[1, 2, 3]);
    assert_eq!(&new_cell.data[12..16], &[0, 0, 0, 0]);
    assert_eq!(new_cell.data[0], b);
    assert_eq!(&new_cell.data[1..9], &42u64.to_le_bytes());
}

#[test]
fn second_write_leaves_no_residue() {
    let mut cell = buffer(7, 20);
    let header = cell.data[..9].to_vec();
    assert_eq!(
        authorized_echo(&program(), &mut cell, &authority(true), &[9, 9, 9, 9, 9, 9, 9, 9]),
        Ok(())
    );
    assert_eq!(&cell.data[9..], &[9, 9, 9, 9, 9, 9, 9, 9, 0, 0, 0]);
    assert_eq!(authorized_echo(&program(), &mut cell, &authority(true), &[1, 2]), Ok(()));
    assert_eq!(&cell.data[9..], &[1, 2, 0, 0, 0, 0, 0, 0, 0, 0, 0]);
    assert_eq!(&cell.data[..9], &header[..]);
    assert_eq!(authorized_echo(&program(), &mut cell, &authority(true), &[]), Ok(()));
    assert_eq!(&cell.data[9..], &[0; 11]);
}

#[test]
fn write_cuts_the_payload_to_the_room() {
    let mut cell = buffer(7, 12);
    assert_eq!(
        authorized_echo(&program(), &mut cell, &authority(true), &[1, 2, 3, 4, 5]),
        Ok(())
    );
    assert_eq!(&cell.data[9..], &[1, 2, 3]);
    let mut header_only = buffer(7, 9);
    let before = header_only.clone();
    assert_eq!(
        authorized_echo(&program(), &mut header_only, &authority(true), &[1, 2, 3]),
        Ok(())
    );
    assert_eq!(header_only, before);
}

#[test]
fn write_needs_the_signature() {
    let mut cell = buffer(7, 20);
    let before = cell.clone();
    assert_eq!(
        authorized_echo(&program(), &mut cell, &authority(false), &[1]),
        Err(HandlerError::MissingRequiredSignature)
    );
    assert_eq!(cell, before);
    let mut short = cell_at(before.key, vec![0; 3]);
    assert_eq!(
        authorized_echo(&program(), &mut short, &authority(false), &[1]),
        Err(HandlerError::MissingRequiredSignature)
    );
}

#[test]
fn write_needs_room_for_the_header() {
    let mut cell = buffer(7, 20);
    cell.data.truncate(8);
    let before = cell.clone();
    assert_eq!(
        authorized_echo(&program(), &mut cell, &authority(true), &[1]),
        Err(HandlerError::InvalidAccountData)
    );
    assert_eq!(cell, before);
}

#[test]
fn write_refuses_a_forged_header() {
    let honest = buffer(7, 20);
    for payload in [vec![], vec![1u8, 2, 3], vec![0u8; 100]] {
        let mut wrong_seed = honest.clone();
        wrong_seed.data[1] ^= 1;
        let before = wrong_seed.clone();
        assert_eq!(
            authorized_echo(&program(), &mut wrong_seed, &authority(true), &payload),
            Err(HandlerError::InvalidArgument)
        );
        assert_eq!(wrong_seed, before);
        let mut wrong_bump = honest.clone();
        wrong_bump.data[0] = wrong_bump.data[0].wrapping_sub(1);
        assert_eq!(
            authorized_echo(&program(), &mut wrong_bump, &authority(true), &payload),
            Err(HandlerError::InvalidArgument)
        );
        let mut elsewhere = honest.clone();
        elsewhere.key = Address { bytes: [8; 32] };
        assert_eq!(
            authorized_echo(&program(), &mut elsewhere, &authority(true), &payload),
            Err(HandlerError::InvalidArgument)
        );
    }
}

#[test]
fn write_refuses_another_authority_and_another_program() {
    let mut cell = buffer(7, 20);
    let mut other = authority(true);
    other.key = Address { bytes: [6; 32] };
    assert_eq!(
        authorized_echo(&program(), &mut cell, &other, &[1]),
        Err(HandlerError::InvalidArgument)
    );
    assert_eq!(
        authorized_echo(&Address { bytes: [12; 32] }, &mut cell, &authority(true), &[1]),
        Err(HandlerError::InvalidArgument)
    );
    assert_eq!(cell, buffer(7, 20));
}

#[test]
fn overwrite_goes_by_the_address_it_is_given() {
    let key = Address { bytes: [1; 32] };
    let mut cell = cell_at(key, vec![7; 12]);
    assert_eq!(overwrite(&mut cell, None, &[1]), Err(HandlerError::InvalidArgument));
    assert_eq!(
        overwrite(&mut cell, Some(Address { bytes: [2; 32] }), &[1]),
        Err(HandlerError::InvalidArgument)
    );
    assert_eq!(cell.data, vec![7; 12]);
    assert_eq!(overwrite(&mut cell, Some(key), &[1]), Ok(()));
    assert_eq!(cell.data, vec![7, 7, 7, 7, 7, 7, 7, 7, 7, 1, 0, 0]);
    let mut short = cell_at(key, vec![7; 8]);
    assert_eq!(overwrite(&mut short, Some(key), &[1]), Err(HandlerError::InvalidAccountData));
    assert_eq!(overwrite(&mut short, None, &[1]), Err(HandlerError::InvalidAccountData));
}
