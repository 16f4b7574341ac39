use echo_program::account_info::AccountInfo;
use echo_program::address::Address;
use echo_program::echo::echo;
use echo_program::error::HandlerError;

fn cell(data: Vec<u8>) -> AccountInfo {
    AccountInfo {
        key: Address { bytes: [1; 32] },
        owner: Address { bytes: [2; 32] },
        lamports: 1_000,
        is_signer: false,
        is_writable: true,
        data,
    }
}

#[test]
fn echo_fills_the_start_of_a_zero_cell() {
    let mut destination = cell(vec![0; 8]);
    assert_eq!(echo(&mut destination, &[1, 2, 3]), Ok(()));
    assert_eq!(destination, cell(vec![1, 2, 3, 0, 0, 0, 0, 0]));
}

#[test]
fn echo_of_the_same_length_fills_the_cell() {
    let mut destination = cell(vec![0; 4]);
    assert_eq!(echo(&mut destination, &[9, 8, 7, 6]), Ok(()));
    assert_eq!(destination.data, vec![9, 8, 7, 6]);
}

#[test]
fn echo_cuts_the_payload_to_the_cell() {
    let mut destination = cell(vec![0; 3]);
    assert_eq!(echo(&mut destination, &[1, 2, 3, 4, 5]), Ok(()));
    assert_eq!(destination.data, vec![1, 2, 3]);
}

#[test]
fn echo_of_nothing_changes_nothing() {
    let mut destination = cell(vec![0, 0, 5]);
    assert_eq!(echo(&mut destination, &[]), Ok(()));
    assert_eq!(destination.data, vec![0, 0, 5]);
}

#[test]
fn echo_refuses_a_cell_without_bytes() {
    let mut destination = cell(vec![]);
    assert_eq!(echo(&mut destination, &[1]), Err(HandlerError::InvalidAccountData));
    assert_eq!(echo(&mut destination, &[]), Err(HandlerError::InvalidAccountData));
    assert_eq!(destination, cell(vec![]));
}

#[test]
fn echo_writes_once() {
    let mut destination = cell(vec![0; 6]);
    assert_eq!(echo(&mut destination, &[1, 2, 3]), Ok(()));
    assert_eq!(echo(&mut destination, &[4, 5, 6]), Err(HandlerError::InvalidAccountData));
    assert_eq!(destination.data, vec![1, 2, 3, 0, 0, 0]);
    assert_eq!(echo(&mut destination, &[7]), Err(HandlerError::InvalidAccountData));
    assert_eq!(destination.data, vec![1, 2, 3, 0, 0, 0]);
}

#[test]
fn echo_writes_nothing_where_a_later_byte_is_taken() {
    let mut destination = cell(vec![0, 0, 0, 9, 0]);
    assert_eq!(echo(&mut destination, &[1, 2, 3, 4]), Err(HandlerError::InvalidAccountData));
    assert_eq!(destination.data, vec![0, 0, 0, 9, 0]);
}

#[test]
fn echo_looks_only_at_the_bytes_it_covers() {
    let mut destination = cell(vec![0, 0, 0, 9, 9]);
    assert_eq!(echo(&mut destination, &[1, 2, 3]), Ok(()));
    assert_eq!(destination.data, vec![1, 2, 3, 9, 9]);
}

#[test]
fn echo_of_zeros_may_be_repeated() {
    let mut destination = cell(vec![0; 4]);
    assert_eq!(echo(&mut destination, &[0, 0]), Ok(()));
    assert_eq!(echo(&mut destination, &[5, 6]), Ok(()));
    assert_eq!(destination.data, vec![5, 6, 0, 0]);
}

#[test]
fn echo_asks_for_no_signature_and_no_owner() {
    let mut destination = cell(vec![0; 2]);
    destination.is_signer = false;
    destination.is_writable = false;
    destination.owner = Address { bytes: [77; 32] };
    let before = destination.clone();
    assert_eq!(echo(&mut destination, &[1]), Ok(()));
    assert_eq!(destination.key, before.key);
    assert_eq!(destination.owner, before.owner);
    assert_eq!(destination.lamports, before.lamports);
    assert_eq!(destination.is_signer, before.is_signer);
    assert_eq!(destination.is_writable, before.is_writable);
}
