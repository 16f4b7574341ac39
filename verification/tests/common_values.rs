use echo_program::little_endian::{
    u32_from_le_bytes, u32_to_le_bytes, u64_from_le_bytes, u64_to_le_bytes,
};
use echo_program::wire::{decode_pair, decode_prefixed, encode_pair, encode_prefixed};

#[test]
fn u64_bytes_are_little_endian() {
    assert_eq!(u64_to_le_bytes(42), vec![42, 0, 0, 0, 0, 0, 0, 0]);
    assert_eq!(u64_to_le_bytes(0), vec![0; 8]);
    assert_eq!(u64_to_le_bytes(u64::MAX), vec![255; 8]);
    assert_eq!(
        u64_to_le_bytes(0x0102_0304_0506_0708),
        vec![8, 7, 6, 5, 4, 3, 2, 1]
    );
    for value in [0u64, 1, 255, 256, 65_535, 1 << 32, u64::MAX - 1, u64::MAX] {
        assert_eq!(u64_to_le_bytes(value), value.to_le_bytes().to_vec());
        assert_eq!(u64_from_le_bytes(&value.to_le_bytes()), value);
    }
}

#[test]
fn u32_bytes_are_little_endian() {
    assert_eq!(u32_to_le_bytes(3), vec![3, 0, 0, 0]);
    assert_eq!(u32_to_le_bytes(0x0a0b_0c0d), vec![0x0d, 0x0c, 0x0b, 0x0a]);
    for value in [0u32, 1, 255, 256, 65_536, u32::MAX] {
        assert_eq!(u32_to_le_bytes(value), value.to_le_bytes().to_vec());
        assert_eq!(u32_from_le_bytes(&value.to_le_bytes()), value);
    }
}

#[test]
fn byte_string_follows_its_length() {
    assert_eq!(encode_prefixed(&[]), Some(vec![0, 0, 0, 0]));
    assert_eq!(encode_prefixed(&[9, 8, 7]), Some(vec![3, 0, 0, 0, 9, 8, 7]));
    let long = vec![5u8; 300];
    let laid_out = encode_prefixed(&long).unwrap();
    assert_eq!(&laid_out[..4], &[44, 1, 0, 0]);
    assert_eq!(&laid_out[4..], &long[..]);
    assert_eq!(decode_prefixed(&laid_out), Some(long));
}

#[test]
fn byte_string_layout_agrees_with_borsh() {
    for data in [vec![], vec![1u8], vec![1, 2, 3], vec![0u8; 1000]] {
        let expected = borsh::BorshSerialize::try_to_vec(&data).unwrap();
        assert_eq!(encode_prefixed(&data), Some(expected.clone()));
        let back: Vec<u8> = borsh::BorshDeserialize::try_from_slice(&expected).unwrap();
        assert_eq!(decode_prefixed(&expected), Some(back));
    }
}

#[test]
fn byte_string_is_refused_where_borsh_refuses_it() {
    let cases: Vec<Vec<u8>> = vec![
        vec![],
        vec![0],
        vec![0, 0, 0],
        vec![1, 0, 0, 0],
        vec![1, 0, 0, 0, 7, 7],
        vec![0, 0, 0, 0, 7],
        vec![2, 0, 0, 0, 7],
        vec![0, 1, 0, 0, 7],
        vec![255, 255, 255, 255],
    ];
    for bytes in cases {
        let theirs: Result<Vec<u8>, _> = borsh::BorshDeserialize::try_from_slice(&bytes);
        assert!(theirs.is_err());
        assert_eq!(decode_prefixed(&bytes), None);
    }
}

#[test]
fn pair_takes_sixteen_bytes() {
    let laid_out = encode_pair(42, 16);
    assert_eq!(
        laid_out,
        vec![42, 0, 0, 0, 0, 0, 0, 0, 16, 0, 0, 0, 0, 0, 0, 0]
    );
    assert_eq!(decode_pair(&laid_out), Some((42, 16)));
    assert_eq!(decode_pair(&laid_out[..15]), None);
    let mut longer = laid_out.clone();
    longer.push(0);
    assert_eq!(decode_pair(&longer), None);
    assert_eq!(decode_pair(&[]), None);
    assert_eq!(
        decode_pair(&encode_pair(u64::MAX, 0)),
        Some((u64::MAX, 0))
    );
}
