use echo_program::error::HandlerError;
use echo_program::state::{AuthorizedBufferHeader, EchoBuffer, HEADER_LEN};

#[test]
fn header_takes_nine_bytes() {
    let header = AuthorizedBufferHeader { bump_seed: 254, buffer_seed: 42 };
    assert_eq!(HEADER_LEN, 9);
    assert_eq!(header.encode(), vec![254, 42, 0, 0, 0, 0, 0, 0, 0]);
}

#[test]
fn header_round_trip() {
    for bump_seed in [0u8, 1, 127, 255] {
        for buffer_seed in [0u64, 1, 42, 0x0102_0304_0506_0708, u64::MAX] {
            let header = AuthorizedBufferHeader { bump_seed, buffer_seed };
            assert_eq!(AuthorizedBufferHeader::decode(&header.encode()), Ok(header));
        }
    }
}

#[test]
fn header_round_trip_over_every_bump() {
    for bump_seed in 0u8..=255 {
        let header = AuthorizedBufferHeader { bump_seed, buffer_seed: 1 << 63 };
        assert_eq!(AuthorizedBufferHeader::decode(&header.encode()), Ok(header));
    }
}

#[test]
fn header_is_read_from_the_first_nine_bytes() {
    let bytes = [3, 8, 7, 6, 5, 4, 3, 2, 1, 99, 98, 97];
    assert_eq!(
        AuthorizedBufferHeader::decode(&bytes),
        Ok(AuthorizedBufferHeader { bump_seed: 3, buffer_seed: 0x0102_0304_0506_0708 })
    );
}

#[test]
fn header_needs_nine_bytes() {
    assert_eq!(AuthorizedBufferHeader::decode(&[]), Err(HandlerError::InvalidAccountData));
    assert_eq!(AuthorizedBufferHeader::decode(&[1; 8]), Err(HandlerError::InvalidAccountData));
    assert!(AuthorizedBufferHeader::decode(&[1; 9]).is_ok());
}

#[test]
fn header_layout_agrees_with_borsh() {
    let header = AuthorizedBufferHeader { bump_seed: 200, buffer_seed: 77_000_000_000 };
    let mut expected = borsh::BorshSerialize::try_to_vec(&header.bump_seed).unwrap();
    expected.extend(borsh::BorshSerialize::try_to_vec(&header.buffer_seed).unwrap());
    assert_eq!(header.encode(), expected);
}

#[test]
fn echo_buffer_round_trip() {
    let buffer = EchoBuffer { data: vec![1, 2, 3, 4, 5] };
    let bytes = buffer.encode().unwrap();
    assert_eq!(bytes, vec![5, 0, 0, 0, 1, 2, 3, 4, 5]);
    assert_eq!(EchoBuffer::decode(&bytes), Ok(buffer));
}

#[test]
fn echo_buffer_is_refused_on_other_bytes() {
    assert_eq!(EchoBuffer::decode(&[]), Err(HandlerError::BorshIoError));
    assert_eq!(EchoBuffer::decode(&[5, 0, 0, 0, 1]), Err(HandlerError::BorshIoError));
    assert_eq!(EchoBuffer::decode(&[0, 0, 0, 0, 1]), Err(HandlerError::BorshIoError));
    assert_eq!(EchoBuffer::decode(&[0, 0, 0, 0]), Ok(EchoBuffer { data: vec![] }));
}
