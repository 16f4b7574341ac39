use echo_program::account_info::AccountInfo;
use echo_program::address::Address;
use echo_program::error::HandlerError;
use echo_program::exchange_booth::instruction::ExchangeBoothInstruction;
use echo_program::exchange_booth::state::{ExchangeBooth, BOOTH_LEN};

fn key(byte: u8) -> Address {
    Address { bytes: [byte; 32] }
}

fn booth() -> ExchangeBooth {
    ExchangeBooth {
        initialized: true,
        admin: key(1),
        mint_a: key(2),
        mint_b: key(3),
        vault_a: key(4),
        vault_b: key(5),
        oracle: key(6),
    }
}

fn cell(data: Vec<u8>) -> AccountInfo {
    AccountInfo {
        key: key(9),
        owner: key(8),
        lamports: 5,
        is_signer: false,
        is_writable: true,
        data,
    }
}

#[test]
fn booth_instruction_tags() {
    assert_eq!(ExchangeBoothInstruction::InititializeExchangeBooth {}.encode(), vec![0]);
    assert_eq!(ExchangeBoothInstruction::Deposit {}.encode(), vec![1]);
    assert_eq!(
        ExchangeBoothInstruction::Withdraw { amount_to_withdraw: 258 }.encode(),
        vec![2, 2, 1, 0, 0, 0, 0, 0, 0]
    );
    assert_eq!(
        ExchangeBoothInstruction::Exchange { tokens_to_transfer: u64::MAX }.encode(),
        vec![3, 255, 255, 255, 255, 255, 255, 255, 255]
    );
    assert_eq!(ExchangeBoothInstruction::CloseExchangeBooth {}.encode(), vec![4]);
}

#[test]
fn booth_instruction_round_trip() {
    let all = [
        ExchangeBoothInstruction::InititializeExchangeBooth {},
        ExchangeBoothInstruction::Deposit {},
        ExchangeBoothInstruction::Withdraw { amount_to_withdraw: 0 },
        ExchangeBoothInstruction::Withdraw { amount_to_withdraw: 77_000_000_000 },
        ExchangeBoothInstruction::Exchange { tokens_to_transfer: 1 },
        ExchangeBoothInstruction::CloseExchangeBooth {},
    ];
    for instruction in all {
        assert_eq!(ExchangeBoothInstruction::decode(&instruction.encode()), Ok(instruction));
    }
}

#[test]
fn booth_instruction_amount_agrees_with_borsh() {
    let amount: u64 = 0x0102_0304_0506_0708;
    let mut expected = vec![2u8];
    expected.extend(borsh::BorshSerialize::try_to_vec(&amount).unwrap());
    assert_eq!(
        ExchangeBoothInstruction::Withdraw { amount_to_withdraw: amount }.encode(),
        expected
    );
}

#[test]
fn booth_instruction_is_refused_on_other_bytes() {
    let cases: Vec<Vec<u8>> = vec![
        vec![],
        vec![5],
        vec![255],
        vec![0, 0],
        vec![1, 0, 0, 0, 0, 0, 0, 0, 0],
        vec![2],
        vec![2, 1, 2, 3, 4, 5, 6, 7],
        vec![2, 1, 2, 3, 4, 5, 6, 7, 8, 9],
        vec![3, 0],
        vec![4, 0],
    ];
    for bytes in cases {
        assert_eq!(
            ExchangeBoothInstruction::decode(&bytes),
            Err(HandlerError::InvalidInstructionData)
        );
    }
}

#[test]
fn booth_takes_193_bytes() {
    let bytes = booth().encode();
    assert_eq!(BOOTH_LEN, 193);
    assert_eq!(bytes.len(), 193);
    assert_eq!(bytes[0], 1);
    for (i, field) in (1u8..=6).enumerate() {
        assert_eq!(&bytes[1 + 32 * i..33 + 32 * i], &[field; 32]);
    }
    let mut closed = booth();
    closed.initialized = false;
    assert_eq!(closed.encode()[0], 0);
}

#[test]
fn booth_layout_agrees_with_borsh() {
    let value = booth();
    let mut expected = borsh::BorshSerialize::try_to_vec(&value.initialized).unwrap();
    for field in [value.admin, value.mint_a, value.mint_b, value.vault_a, value.vault_b, value.oracle]
    {
        expected.extend(borsh::BorshSerialize::try_to_vec(&field.bytes).unwrap());
    }
    assert_eq!(value.encode(), expected);
}

#[test]
fn booth_round_trip() {
    let mut value = booth();
    assert_eq!(ExchangeBooth::decode(&value.encode()), Ok(value));
    value.initialized = false;
    value.oracle = Address {
        bytes: [
            1, 2, 3, 4, 5, 6, 7, 8, 9, 10, 11, 12, 13, 14, 15, 16, 17, 18, 19, 20, 21, 22, 23, 24,
            25, 26, 27, 28, 29, 30, 31, 32,
        ],
    };
    assert_eq!(ExchangeBooth::decode(&value.encode()), Ok(value));
}

#[test]
fn booth_is_refused_on_other_bytes() {
    let bytes = booth().encode();
    assert_eq!(ExchangeBooth::decode(&bytes[..192]), Err(HandlerError::BorshIoError));
    let mut longer = bytes.clone();
    longer.push(0);
    assert_eq!(ExchangeBooth::decode(&longer), Err(HandlerError::BorshIoError));
    let mut flag = bytes.clone();
    flag[0] = 2;
    assert_eq!(ExchangeBooth::decode(&flag), Err(HandlerError::BorshIoError));
    assert_eq!(ExchangeBooth::decode(&[]), Err(HandlerError::BorshIoError));
}

#[test]
fn booth_load_reads_the_cell() {
    let stored = cell(booth().encode());
    assert_eq!(ExchangeBooth::load_unchecked(&stored), Ok(booth()));
    assert_eq!(ExchangeBooth::load(&stored), Ok(booth()));
    let fresh = cell(vec![0; 193]);
    let empty = ExchangeBooth {
        initialized: false,
        admin: key(0),
        mint_a: key(0),
        mint_b: key(0),
        vault_a: key(0),
        vault_b: key(0),
        oracle: key(0),
    };
    assert_eq!(ExchangeBooth::load_unchecked(&fresh), Ok(empty));
    let short = cell(vec![0; 100]);
    assert_eq!(ExchangeBooth::load_unchecked(&short), Err(HandlerError::BorshIoError));
    assert_eq!(ExchangeBooth::load(&short), Err(HandlerError::BorshIoError));
}

#[test]
fn booth_save_writes_the_start_of_the_cell() {
    let mut exact = cell(vec![0; 193]);
    assert_eq!(booth().save(&mut exact), Ok(()));
    assert_eq!(exact, cell(booth().encode()));
    let mut longer = cell(vec![7; 200]);
    assert_eq!(booth().save(&mut longer), Ok(()));
    assert_eq!(&longer.data[..193], &booth().encode()[..]);
    assert_eq!(&longer.data[193..], &[7; 7]);
    let mut short = cell(vec![7; 192]);
    assert_eq!(booth().save(&mut short), Err(HandlerError::BorshIoError));
    assert_eq!(short, cell(vec![7; 192]));
}
