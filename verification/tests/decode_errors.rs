use ssz_nif::decode::{decode, DecodeError};
use ssz_nif::encode::encode;
use ssz_nif::types::{Field, SszType, SszValue};

fn two_lists() -> SszType {
    SszType::Container(vec![
        Field { name: "n", ty: SszType::Uint(4) },
        Field { name: "a", ty: SszType::ByteList(16) },
        Field { name: "b", ty: SszType::ByteList(16) },
    ])
}

fn two_lists_bytes() -> Vec<u8> {
    let value = SszValue::Container(vec![
        SszValue::Uint(1),
        SszValue::Bytes(vec![7, 7]),
        SszValue::Bytes(vec![8, 8, 8]),
    ]);
    encode(&two_lists(), &value).unwrap()
}

#[test]
fn well_formed_bytes_decode() {
    let bytes = two_lists_bytes();
    assert_eq!(bytes, vec![1, 0, 0, 0, 12, 0, 0, 0, 14, 0, 0, 0, 7, 7, 8, 8, 8]);
    assert!(decode(&two_lists(), &bytes).is_ok());
}

#[test]
fn decreasing_offset_is_refused() {
    let mut bytes = two_lists_bytes();
    // the second offset is made less than the first
    bytes[8] = 11;
    assert_eq!(decode(&two_lists(), &bytes), Err(DecodeError::OffsetsAreDecreasing));
    bytes[8] = 0;
    assert_eq!(decode(&two_lists(), &bytes), Err(DecodeError::OffsetsAreDecreasing));
}

#[test]
fn offset_past_the_end_is_refused() {
    let mut bytes = two_lists_bytes();
    bytes[8] = 18;
    assert_eq!(decode(&two_lists(), &bytes), Err(DecodeError::OffsetOutOfBounds));
    bytes[8] = 17;
    assert!(decode(&two_lists(), &bytes).is_ok());
}

#[test]
fn first_offset_into_the_fixed_part_is_refused() {
    let mut bytes = two_lists_bytes();
    bytes[4] = 11;
    assert_eq!(decode(&two_lists(), &bytes), Err(DecodeError::OffsetIntoFixedPortion));
}

#[test]
fn first_offset_that_skips_bytes_is_refused() {
    let mut bytes = two_lists_bytes();
    bytes[4] = 13;
    assert_eq!(decode(&two_lists(), &bytes), Err(DecodeError::OffsetSkipsVariableBytes));
}

#[test]
fn truncated_fixed_part_is_refused() {
    let bytes = two_lists_bytes();
    assert_eq!(decode(&two_lists(), &bytes[..11]), Err(DecodeError::InvalidByteLength));
    assert_eq!(decode(&two_lists(), &[]), Err(DecodeError::InvalidByteLength));
}

#[test]
fn fixed_size_container_of_wrong_length_is_refused() {
    let ty = SszType::Container(vec![
        Field { name: "a", ty: SszType::Uint(8) },
        Field { name: "b", ty: SszType::Uint(8) },
    ]);
    assert_eq!(decode(&ty, &[0u8; 15]), Err(DecodeError::InvalidByteLength));
    assert_eq!(decode(&ty, &[0u8; 17]), Err(DecodeError::InvalidByteLength));
    assert!(decode(&ty, &[0u8; 16]).is_ok());
}

#[test]
fn list_bytes_that_are_no_multiple_of_the_element_size_are_refused() {
    let ty = SszType::List(Box::new(SszType::Uint(8)), 100);
    assert_eq!(decode(&ty, &[0u8; 12]), Err(DecodeError::InvalidByteLength));
    assert!(decode(&ty, &[0u8; 16]).is_ok());
}

#[test]
fn list_of_variable_elements_checks_its_first_offset() {
    let ty = SszType::List(Box::new(SszType::ByteList(16)), 4);
    assert_eq!(decode(&ty, &[1, 0]), Err(DecodeError::InvalidLengthPrefix));
    assert_eq!(decode(&ty, &[9, 0, 0, 0, 1]), Err(DecodeError::OffsetOutOfBounds));
    assert_eq!(decode(&ty, &[5, 0, 0, 0, 1]), Err(DecodeError::InvalidListFixedBytesLen));
    assert_eq!(decode(&ty, &[0, 0, 0, 0]), Err(DecodeError::InvalidListFixedBytesLen));
    let mut five = vec![20u8, 0, 0, 0];
    five.extend_from_slice(&[20, 0, 0, 0, 20, 0, 0, 0, 20, 0, 0, 0, 20, 0, 0, 0]);
    assert_eq!(decode(&ty, &five), Err(DecodeError::ExceedsMaxLength));
    assert_eq!(
        decode(&ty, &[8, 0, 0, 0, 7, 0, 0, 0]),
        Err(DecodeError::OffsetsAreDecreasing)
    );
    assert_eq!(
        decode(&ty, &[8, 0, 0, 0, 9, 0, 0, 0]),
        Err(DecodeError::OffsetOutOfBounds)
    );
    assert_eq!(
        decode(&ty, &[8, 0, 0, 0, 8, 0, 0, 0]),
        Ok(SszValue::List(vec![SszValue::Bytes(vec![]), SszValue::Bytes(vec![])]))
    );
}

#[test]
fn error_inside_an_item_comes_out() {
    let ty = SszType::List(Box::new(SszType::Bool), 4);
    assert_eq!(decode(&ty, &[1, 0, 3]), Err(DecodeError::InvalidBool));
    let nested = SszType::Container(vec![
        Field { name: "bits", ty: SszType::Bitlist(8) },
        Field { name: "flag", ty: SszType::Bool },
    ]);
    assert_eq!(decode(&nested, &[5, 0, 0, 0, 1, 0]), Err(DecodeError::MissingLengthInformation));
    assert_eq!(
        decode(&nested, &[5, 0, 0, 0, 1, 1]),
        Ok(SszValue::Container(vec![SszValue::Bits(vec![]), SszValue::Bool(true)]))
    );
}

#[test]
fn broken_rule_is_told_by_its_name() {
    let all = [
        DecodeError::InvalidByteLength,
        DecodeError::InvalidLengthPrefix,
        DecodeError::InvalidBool,
        DecodeError::OffsetIntoFixedPortion,
        DecodeError::OffsetSkipsVariableBytes,
        DecodeError::OffsetsAreDecreasing,
        DecodeError::OffsetOutOfBounds,
        DecodeError::InvalidListFixedBytesLen,
        DecodeError::ExceedsMaxLength,
        DecodeError::MissingLengthInformation,
        DecodeError::ExcessBits,
    ];
    for e in all {
        assert_eq!(e.name(), format!("{:?}", e));
    }
    assert_eq!(DecodeError::InvalidBool.name(), "InvalidBool");
}
