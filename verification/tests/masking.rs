use forum_core::api_types::Failure;
use forum_core::masked_oid::{
    block_of_counter, block_of_record_id, counter_of_block, decode_target, record_id_of_block,
    MaskedObjectId, MaskedSequentialId, MaskingKey, RecordId,
};

fn key() -> MaskingKey {
    MaskingKey::new(&[7u8; 16])
}

#[test]
fn record_id_round_trips() {
    let key = key();
    let id = RecordId::from_bytes([1, 2, 3, 4, 5, 6, 7, 8, 9, 10, 11, 12]);
    let token = key.mask(&id);
    assert_ne!(&token.bytes[0..12], &id.bytes[..]);
    let back = key.unmask(&token).expect("a masked record id decodes");
    assert_eq!(back.bytes, id.bytes);
}

#[test]
fn sequential_id_round_trips() {
    let key = key();
    for seq in [0u64, 1, 2, 255, 256, 1 << 40, u64::MAX] {
        let token = key.mask_sequential(seq);
        assert_eq!(key.unmask_sequential(&token).ok(), Some(seq));
    }
}

#[test]
fn tokens_do_not_cross_types() {
    let key = key();
    let token = key.mask_sequential(42);
    let as_record = MaskedObjectId::from_bytes(token.bytes);
    assert!(key.unmask(&as_record).is_err());

    let token = key.mask(&RecordId::from_bytes([9; 12]));
    let as_counter = MaskedSequentialId::from_bytes(token.bytes);
    assert!(key.unmask_sequential(&as_counter).is_err());
}

#[test]
fn another_key_does_not_decode() {
    let id = RecordId::from_bytes([0xab; 12]);
    let token = key().mask(&id);
    let other = MaskingKey::new(&[8u8; 16]);
    assert!(other.unmask(&token).is_err());
}

#[test]
fn garbage_does_not_decode() {
    let key = key();
    assert!(key.unmask(&MaskedObjectId::from_bytes([0; 16])).is_err());
    assert!(key.unmask_sequential(&MaskedSequentialId::from_bytes([0xff; 16])).is_err());
}

#[test]
fn mask_is_aes_128_of_the_padded_block() {
    let key_bytes: [u8; 16] = [0, 1, 2, 3, 4, 5, 6, 7, 8, 9, 10, 11, 12, 13, 14, 15];
    let key = MaskingKey::new(&key_bytes);
    let id = RecordId::from_bytes([0x61, 0xcf, 0x99, 0x80, 1, 2, 3, 4, 5, 6, 7, 8]);
    assert_eq!(
        key.mask(&id).bytes,
        [32, 160, 22, 238, 96, 212, 99, 10, 225, 130, 103, 61, 187, 70, 9, 98]
    );
    assert_eq!(
        key.mask_sequential(1).bytes,
        [77, 111, 13, 171, 222, 194, 102, 158, 22, 44, 238, 36, 120, 128, 120, 132]
    );
    assert_eq!(
        key.mask_sequential(42).bytes,
        [162, 244, 172, 98, 183, 192, 91, 106, 102, 12, 122, 252, 246, 20, 72, 117]
    );
    assert_eq!(
        key.mask_sequential((1 << 40) + 5).bytes,
        [175, 26, 13, 92, 55, 247, 39, 42, 191, 18, 90, 233, 208, 111, 224, 200]
    );
}

#[test]
fn unmask_is_the_inverse_on_known_tokens() {
    let key_bytes: [u8; 16] = [0, 1, 2, 3, 4, 5, 6, 7, 8, 9, 10, 11, 12, 13, 14, 15];
    let key = MaskingKey::new(&key_bytes);
    let token = MaskedObjectId::from_bytes([
        32, 160, 22, 238, 96, 212, 99, 10, 225, 130, 103, 61, 187, 70, 9, 98,
    ]);
    let id = key.unmask(&token).expect("the token of a record id");
    assert_eq!(id.bytes, [0x61, 0xcf, 0x99, 0x80, 1, 2, 3, 4, 5, 6, 7, 8]);
    let token = MaskedSequentialId::from_bytes([
        162, 244, 172, 98, 183, 192, 91, 106, 102, 12, 122, 252, 246, 20, 72, 117,
    ]);
    assert_eq!(key.unmask_sequential(&token).ok(), Some(42));
    // FIPS-197, appendix C.1: this block decrypts to 00 11 22 .. ff, which
    // ends in no tag.
    let cipher = [
        0x69, 0xc4, 0xe0, 0xd8, 0x6a, 0x7b, 0x04, 0x30, 0xd8, 0xcd, 0xb7, 0x80, 0x70, 0xb4, 0xc5,
        0x5a,
    ];
    assert!(key.unmask(&MaskedObjectId::from_bytes(cipher)).is_err());
    assert!(key.unmask_sequential(&MaskedSequentialId::from_bytes(cipher)).is_err());
}

#[test]
fn lists_of_identifiers_are_masked_one_by_one() {
    let key = key();
    let ids = vec![RecordId::from_bytes([1; 12]), RecordId::from_bytes([2; 12])];
    let tokens = key.mask_all(&ids);
    assert_eq!(tokens.len(), 2);
    assert_eq!(tokens[0].bytes, key.mask(&ids[0]).bytes);
    assert_eq!(tokens[1].bytes, key.mask(&ids[1]).bytes);
    let back = key.unmask_all(&tokens).expect("masked ids decode");
    assert_eq!(back.len(), 2);
    assert_eq!(back[0].bytes, [1; 12]);
    assert_eq!(back[1].bytes, [2; 12]);

    let mut broken = tokens.clone();
    broken.push(MaskedObjectId::from_bytes([0; 16]));
    assert!(key.unmask_all(&broken).is_err());
    assert!(key.unmask_all(&Vec::new()).expect("nothing to decode").is_empty());
}

#[test]
fn tokens_compare_by_their_bytes() {
    let a = MaskedObjectId::from_bytes([1; 16]);
    let mut other = [1u8; 16];
    assert!(a.same(&MaskedObjectId::from_bytes(other)));
    other[15] = 2;
    assert!(!a.same(&MaskedObjectId::from_bytes(other)));
}

#[test]
fn padding_error_has_its_message() {
    let error = key().unmask(&MaskedObjectId::from_bytes([0; 16])).unwrap_err();
    assert_eq!(error.message(), "Invalid id");
    assert!(matches!(error.to_failure(), Failure::BadRequest("bad masked id")));
}

#[test]
fn record_id_timestamp_is_big_endian() {
    let id = RecordId::from_bytes([0x61, 0xcf, 0x99, 0x80, 0, 0, 0, 0, 0, 0, 0, 0]);
    assert_eq!(id.timestamp_seconds(), 1640995200);
}

#[test]
fn a_record_block_is_the_identifier_and_four_zero_bytes() {
    let id = RecordId::from_bytes([1, 2, 3, 4, 5, 6, 7, 8, 9, 10, 11, 12]);
    let block = block_of_record_id(&id);
    assert_eq!(block, [1, 2, 3, 4, 5, 6, 7, 8, 9, 10, 11, 12, 0, 0, 0, 0]);
    assert_eq!(record_id_of_block(&block).expect("a record block").bytes, id.bytes);
    assert_eq!(record_id_of_block(&[0; 16]).expect("a record block").bytes, [0; 12]);
}

#[test]
fn a_block_that_does_not_end_in_the_record_tag_is_no_record() {
    for position in 12..16 {
        let mut block = [0u8; 16];
        block[position] = 1;
        assert!(record_id_of_block(&block).is_err());
    }
    assert!(record_id_of_block(&[1; 16]).is_err());
    assert!(record_id_of_block(&block_of_counter(0)).is_err());
    // Only the last four bytes are the tag.
    let mut block = [9u8; 16];
    block[12..16].copy_from_slice(&[0; 4]);
    assert_eq!(record_id_of_block(&block).expect("a record block").bytes, [9; 12]);
}

#[test]
fn a_counter_block_is_the_counter_lowest_byte_first_and_eight_one_bytes() {
    assert_eq!(block_of_counter(0), [0, 0, 0, 0, 0, 0, 0, 0, 1, 1, 1, 1, 1, 1, 1, 1]);
    assert_eq!(
        block_of_counter(0x0102_0304_0506_0708),
        [8, 7, 6, 5, 4, 3, 2, 1, 1, 1, 1, 1, 1, 1, 1, 1]
    );
    assert_eq!(counter_of_block(&[8, 7, 6, 5, 4, 3, 2, 1, 1, 1, 1, 1, 1, 1, 1, 1]).ok(), Some(0x0102_0304_0506_0708));
    assert_eq!(counter_of_block(&[0xff, 0, 0, 0, 0, 0, 0, 0, 1, 1, 1, 1, 1, 1, 1, 1]).ok(), Some(255));
    assert_eq!(counter_of_block(&[1; 16]).ok(), Some(0x0101_0101_0101_0101));
}

#[test]
fn a_block_that_does_not_end_in_the_counter_tag_is_no_counter() {
    for position in 8..16 {
        let mut block = [1u8; 16];
        block[position] = 0;
        assert!(counter_of_block(&block).is_err());
        block[position] = 2;
        assert!(counter_of_block(&block).is_err());
    }
    assert!(counter_of_block(&[0; 16]).is_err());
    assert!(counter_of_block(&block_of_record_id(&RecordId::from_bytes([1; 12]))).is_err());
}

#[test]
fn a_target_that_does_not_decode_is_a_bad_request() {
    let key = key();
    let id = RecordId::from_bytes([3; 12]);
    let token = key.mask(&id);
    assert_eq!(decode_target(&key, &token).expect("a masked id").bytes, [3; 12]);
    let garbage = MaskedObjectId::from_bytes([0; 16]);
    assert!(matches!(decode_target(&key, &garbage), Err(Failure::BadRequest("bad masked id"))));
    let counter = MaskedObjectId::from_bytes(key.mask_sequential(3).bytes);
    assert!(matches!(decode_target(&key, &counter), Err(Failure::BadRequest("bad masked id"))));
}

#[test]
fn a_token_is_a_number_with_its_lowest_byte_first() {
    let mut bytes = [0u8; 16];
    assert_eq!(MaskedObjectId::from_bytes(bytes).number(), 0);
    bytes[0] = 1;
    assert_eq!(MaskedObjectId::from_bytes(bytes).number(), 1);
    bytes[1] = 2;
    assert_eq!(MaskedObjectId::from_bytes(bytes).number(), 0x201);
    bytes[15] = 0x80;
    assert_eq!(MaskedObjectId::from_bytes(bytes).number(), (0x80u128 << 120) + 0x201);
    assert_eq!(MaskedObjectId::from_bytes([0xff; 16]).number(), u128::MAX);
}
