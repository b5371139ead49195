use ssz::{Decode, Encode};
use ssz_nif::decode::{decode, DecodeError};
use ssz_nif::encode::{check_value, encode, EncodeError};
use ssz_nif::schema::{beacon_blocks_by_range_request, checkpoint, voluntary_exit};
use ssz_nif::types::{Field, SszType, SszValue};
use ssz_types::typenum::{U16, U4, U5, U8};
use ssz_types::{BitList, BitVector, FixedVector, VariableList};

fn u64_list(max: u64) -> SszType {
    SszType::List(Box::new(SszType::Uint(8)), max)
}

fn uints(items: &[u64]) -> SszValue {
    SszValue::List(items.iter().map(|x| SszValue::Uint(*x)).collect())
}

#[test]
fn checkpoint_zero_encodes_to_forty_zero_bytes() {
    let ty = checkpoint();
    let value = SszValue::Container(vec![SszValue::Uint(0), SszValue::Bytes(vec![0u8; 32])]);
    let bytes = encode(&ty, &value).unwrap();
    assert_eq!(bytes.len(), 40);
    assert_eq!(bytes, vec![0u8; 40]);
    assert_eq!(decode(&ty, &bytes), Ok(value));
}

#[test]
fn checkpoint_epoch_comes_first_little_endian() {
    let ty = checkpoint();
    let value = SszValue::Container(vec![
        SszValue::Uint(0x0102_0304_0506_0708),
        SszValue::Bytes(vec![0xAB; 32]),
    ]);
    let bytes = encode(&ty, &value).unwrap();
    let mut expected = vec![8u8, 7, 6, 5, 4, 3, 2, 1];
    expected.extend_from_slice(&[0xAB; 32]);
    assert_eq!(bytes, expected);
}

#[test]
fn voluntary_exit_round_trips() {
    let ty = voluntary_exit();
    let value = SszValue::Container(vec![SszValue::Uint(5), SszValue::Uint(1000)]);
    let bytes = encode(&ty, &value).unwrap();
    assert_eq!(bytes, vec![5, 0, 0, 0, 0, 0, 0, 0, 0xE8, 3, 0, 0, 0, 0, 0, 0]);
    assert_eq!(decode(&ty, &bytes), Ok(value));
}

#[test]
fn blocks_by_range_request_decodes_three_numbers() {
    let ty = beacon_blocks_by_range_request();
    let mut bytes = Vec::new();
    bytes.extend_from_slice(&10u64.to_le_bytes());
    bytes.extend_from_slice(&5u64.to_le_bytes());
    bytes.extend_from_slice(&1u64.to_le_bytes());
    assert_eq!(bytes.len(), 24);
    assert_eq!(
        decode(&ty, &bytes),
        Ok(SszValue::Container(vec![SszValue::Uint(10), SszValue::Uint(5), SszValue::Uint(1)]))
    );
}

#[test]
fn integers_encode_as_the_ssz_crate_does() {
    for x in [0u64, 1, 255, 256, 65535, 65536, 0xFFFF_FFFF, u64::MAX] {
        assert_eq!(encode(&SszType::Uint(8), &SszValue::Uint(x)).unwrap(), x.as_ssz_bytes());
    }
    for x in [0u32, 1, 0x0102_0304, u32::MAX] {
        assert_eq!(encode(&SszType::Uint(4), &SszValue::Uint(x as u64)).unwrap(), x.as_ssz_bytes());
    }
    for x in [0u16, 258, u16::MAX] {
        assert_eq!(encode(&SszType::Uint(2), &SszValue::Uint(x as u64)).unwrap(), x.as_ssz_bytes());
    }
    for x in [0u8, 7, u8::MAX] {
        assert_eq!(encode(&SszType::Uint(1), &SszValue::Uint(x as u64)).unwrap(), x.as_ssz_bytes());
    }
    assert_eq!(encode(&SszType::Bool, &SszValue::Bool(true)).unwrap(), true.as_ssz_bytes());
    assert_eq!(encode(&SszType::Bool, &SszValue::Bool(false)).unwrap(), false.as_ssz_bytes());
}

#[test]
fn integers_decode_as_the_ssz_crate_does() {
    let bytes = [0x11u8, 0x22, 0x33, 0x44, 0x55, 0x66, 0x77, 0x88];
    assert_eq!(
        decode(&SszType::Uint(8), &bytes),
        Ok(SszValue::Uint(u64::from_ssz_bytes(&bytes).unwrap()))
    );
    assert_eq!(
        decode(&SszType::Uint(4), &bytes[..4]),
        Ok(SszValue::Uint(u32::from_ssz_bytes(&bytes[..4]).unwrap() as u64))
    );
    assert_eq!(decode(&SszType::Uint(2), &bytes[..2]), Ok(SszValue::Uint(0x2211)));
    assert_eq!(decode(&SszType::Uint(1), &bytes[..1]), Ok(SszValue::Uint(0x11)));
    assert!(u64::from_ssz_bytes(&bytes[..7]).is_err());
    assert_eq!(decode(&SszType::Uint(8), &bytes[..7]), Err(DecodeError::InvalidByteLength));
}

#[test]
fn integer_that_does_not_fit_is_refused() {
    assert_eq!(encode(&SszType::Uint(1), &SszValue::Uint(256)), Err(EncodeError::InvalidValue));
    assert_eq!(encode(&SszType::Uint(2), &SszValue::Uint(65536)), Err(EncodeError::InvalidValue));
    assert_eq!(
        encode(&SszType::Uint(4), &SszValue::Uint(0x1_0000_0000)),
        Err(EncodeError::InvalidValue)
    );
    assert!(encode(&SszType::Uint(8), &SszValue::Uint(u64::MAX)).is_ok());
}

#[test]
fn list_of_fixed_size_elements_is_their_concatenation() {
    let ty = u64_list(8);
    let value = uints(&[1, 2, 3]);
    let bytes = encode(&ty, &value).unwrap();
    let reference: VariableList<u64, U8> = VariableList::new(vec![1, 2, 3]).unwrap();
    assert_eq!(bytes, reference.as_ssz_bytes());
    assert_eq!(bytes.len(), 24);
    assert_eq!(decode(&ty, &bytes), Ok(value));
}

#[test]
fn list_length_is_recovered_without_a_length_field() {
    let ty = u64_list(1024);
    for n in [0usize, 1, 2, 17, 1024] {
        let items: Vec<u64> = (0..n as u64).collect();
        let bytes = encode(&ty, &uints(&items)).unwrap();
        assert_eq!(bytes.len(), 8 * n);
        match decode(&ty, &bytes).unwrap() {
            SszValue::List(back) => assert_eq!(back.len(), n),
            other => panic!("not a list: {:?}", other),
        }
    }
}

#[test]
fn list_over_capacity_is_refused_both_ways() {
    let ty = u64_list(2);
    assert_eq!(encode(&ty, &uints(&[1, 2, 3])), Err(EncodeError::InvalidValue));
    assert!(encode(&ty, &uints(&[1, 2])).is_ok());
    let bytes = encode(&u64_list(3), &uints(&[1, 2, 3])).unwrap();
    assert_eq!(decode(&ty, &bytes), Err(DecodeError::ExceedsMaxLength));
    let reference = <VariableList<u64, ssz_types::typenum::U2>>::from_ssz_bytes(&bytes);
    assert!(reference.is_err());
}

#[test]
fn list_of_variable_size_elements_has_an_offset_table() {
    let ty = SszType::List(Box::new(SszType::ByteList(16)), 4);
    let value = SszValue::List(vec![
        SszValue::Bytes(vec![1, 2, 3]),
        SszValue::Bytes(vec![]),
        SszValue::Bytes(vec![4, 5]),
    ]);
    let bytes = encode(&ty, &value).unwrap();
    assert_eq!(bytes, vec![12, 0, 0, 0, 15, 0, 0, 0, 15, 0, 0, 0, 1, 2, 3, 4, 5]);
    let reference: VariableList<VariableList<u8, U16>, U4> = VariableList::new(vec![
        VariableList::new(vec![1, 2, 3]).unwrap(),
        VariableList::new(vec![]).unwrap(),
        VariableList::new(vec![4, 5]).unwrap(),
    ])
    .unwrap();
    assert_eq!(bytes, reference.as_ssz_bytes());
    assert_eq!(decode(&ty, &bytes), Ok(value));
}

#[test]
fn empty_list_of_variable_size_elements_is_empty() {
    let ty = SszType::List(Box::new(SszType::ByteList(16)), 4);
    let bytes = encode(&ty, &SszValue::List(vec![])).unwrap();
    assert!(bytes.is_empty());
    assert_eq!(decode(&ty, &bytes), Ok(SszValue::List(vec![])));
}

#[test]
fn container_with_variable_fields_puts_offsets_in_the_fixed_part() {
    let ty = SszType::Container(vec![
        Field { name: "a", ty: SszType::Uint(2) },
        Field { name: "b", ty: SszType::ByteList(8) },
        Field { name: "c", ty: SszType::Uint(1) },
        Field { name: "d", ty: u64_list(4) },
    ]);
    let value = SszValue::Container(vec![
        SszValue::Uint(0x0102),
        SszValue::Bytes(vec![9, 9, 9]),
        SszValue::Uint(7),
        uints(&[5]),
    ]);
    let bytes = encode(&ty, &value).unwrap();
    let expected = vec![
        2, 1, // a
        11, 0, 0, 0, // offset of b
        7, // c
        14, 0, 0, 0, // offset of d
        9, 9, 9, // b
        5, 0, 0, 0, 0, 0, 0, 0, // d
    ];
    assert_eq!(bytes, expected);
    assert_eq!(decode(&ty, &bytes), Ok(value));
}

#[test]
fn vector_has_exactly_its_length() {
    let ty = SszType::Vector(Box::new(SszType::Uint(8)), 4);
    let value = uints(&[1, 2, 3, 4]);
    let bytes = encode(&ty, &value).unwrap();
    let reference: FixedVector<u64, U4> = FixedVector::new(vec![1, 2, 3, 4]).unwrap();
    assert_eq!(bytes, reference.as_ssz_bytes());
    assert_eq!(decode(&ty, &bytes), Ok(value));
    assert_eq!(encode(&ty, &uints(&[1, 2, 3])), Err(EncodeError::InvalidValue));
    assert_eq!(encode(&ty, &uints(&[1, 2, 3, 4, 5])), Err(EncodeError::InvalidValue));
    assert_eq!(decode(&ty, &bytes[..24]), Err(DecodeError::InvalidByteLength));
}

#[test]
fn byte_types_are_copied_byte_for_byte() {
    let bytes: Vec<u8> = (0..32).collect();
    assert_eq!(encode(&SszType::ByteArray(32), &SszValue::Bytes(bytes.clone())).unwrap(), bytes);
    assert_eq!(encode(&SszType::Uint256, &SszValue::Bytes(bytes.clone())).unwrap(), bytes);
    assert_eq!(decode(&SszType::Uint256, &bytes), Ok(SszValue::Bytes(bytes.clone())));
    assert_eq!(decode(&SszType::ByteArray(32), &bytes[..31]), Err(DecodeError::InvalidByteLength));
    assert_eq!(
        encode(&SszType::ByteVector(48), &SszValue::Bytes(vec![1; 47])),
        Err(EncodeError::InvalidValue)
    );
    assert_eq!(
        decode(&SszType::ByteList(4), &[1, 2, 3, 4, 5]),
        Err(DecodeError::ExceedsMaxLength)
    );
    assert_eq!(decode(&SszType::ByteList(4), &[]), Ok(SszValue::Bytes(vec![])));
}

#[test]
fn bitlist_encodes_with_a_sentinel_bit() {
    let ty = SszType::Bitlist(8);
    let bits = vec![true, false, true, true];
    let bytes = encode(&ty, &SszValue::Bits(bits.clone())).unwrap();
    assert_eq!(bytes, vec![0b0001_1101]);
    let mut reference: BitList<U8> = BitList::with_capacity(4).unwrap();
    for (i, b) in bits.iter().enumerate() {
        reference.set(i, *b).unwrap();
    }
    assert_eq!(bytes, reference.as_ssz_bytes());
    assert_eq!(decode(&ty, &bytes), Ok(SszValue::Bits(bits)));
}

#[test]
fn bitlist_of_every_small_length_round_trips() {
    let ty = SszType::Bitlist(64);
    for n in 0usize..=40 {
        let bits: Vec<bool> = (0..n).map(|i| i % 3 == 0 || i % 7 == 2).collect();
        let bytes = encode(&ty, &SszValue::Bits(bits.clone())).unwrap();
        assert_eq!(bytes.len(), n / 8 + 1);
        let mut reference: BitList<ssz_types::typenum::U64> = BitList::with_capacity(n).unwrap();
        for (i, b) in bits.iter().enumerate() {
            reference.set(i, *b).unwrap();
        }
        assert_eq!(bytes, reference.as_ssz_bytes());
        match decode(&ty, &bytes).unwrap() {
            SszValue::Bits(back) => {
                assert_eq!(back.len(), n);
                assert_eq!(back, bits);
            }
            other => panic!("not bits: {:?}", other),
        }
    }
}

#[test]
fn bitlist_of_a_whole_number_of_bytes_gets_a_byte_for_the_sentinel() {
    let ty = SszType::Bitlist(16);
    let bits = vec![true; 8];
    let bytes = encode(&ty, &SszValue::Bits(bits.clone())).unwrap();
    assert_eq!(bytes, vec![0xFF, 0x01]);
    assert_eq!(decode(&ty, &bytes), Ok(SszValue::Bits(bits)));
    assert_eq!(encode(&ty, &SszValue::Bits(vec![])).unwrap(), vec![0x01]);
    assert_eq!(decode(&ty, &[0x01]), Ok(SszValue::Bits(vec![])));
}

#[test]
fn bitlist_over_capacity_is_refused_both_ways() {
    let ty = SszType::Bitlist(5);
    assert_eq!(encode(&ty, &SszValue::Bits(vec![false; 6])), Err(EncodeError::InvalidValue));
    assert!(encode(&ty, &SszValue::Bits(vec![false; 5])).is_ok());
    assert_eq!(decode(&ty, &[0b0100_0000]), Err(DecodeError::ExceedsMaxLength));
    assert!(<BitList<U5>>::from_ssz_bytes(&[0b0100_0000]).is_err());
    assert_eq!(decode(&ty, &[0b0010_0000]), Ok(SszValue::Bits(vec![false; 5])));
}

#[test]
fn bitlist_without_a_sentinel_is_refused() {
    let ty = SszType::Bitlist(64);
    assert_eq!(decode(&ty, &[]), Err(DecodeError::MissingLengthInformation));
    assert_eq!(decode(&ty, &[0xFF, 0x00]), Err(DecodeError::MissingLengthInformation));
    assert!(<BitList<ssz_types::typenum::U64>>::from_ssz_bytes(&[0xFF, 0x00]).is_err());
    assert!(<BitList<ssz_types::typenum::U64>>::from_ssz_bytes(&[]).is_err());
}

#[test]
fn bitvector_is_packed_without_a_sentinel() {
    let ty = SszType::Bitvector(4);
    let bits = vec![true, true, false, true];
    let bytes = encode(&ty, &SszValue::Bits(bits.clone())).unwrap();
    assert_eq!(bytes, vec![0b0000_1011]);
    let mut reference: BitVector<U4> = BitVector::new();
    for (i, b) in bits.iter().enumerate() {
        reference.set(i, *b).unwrap();
    }
    assert_eq!(bytes, reference.as_ssz_bytes());
    assert_eq!(decode(&ty, &bytes), Ok(SszValue::Bits(bits)));
    assert_eq!(decode(&ty, &[0b0001_0000]), Err(DecodeError::ExcessBits));
    assert!(<BitVector<U4>>::from_ssz_bytes(&[0b0001_0000]).is_err());
    assert_eq!(decode(&ty, &[0, 0]), Err(DecodeError::InvalidByteLength));
    assert_eq!(encode(&ty, &SszValue::Bits(vec![true; 5])), Err(EncodeError::InvalidValue));
}

#[test]
fn boolean_must_be_zero_or_one() {
    assert_eq!(decode(&SszType::Bool, &[0]), Ok(SszValue::Bool(false)));
    assert_eq!(decode(&SszType::Bool, &[1]), Ok(SszValue::Bool(true)));
    assert_eq!(decode(&SszType::Bool, &[2]), Err(DecodeError::InvalidBool));
    assert_eq!(decode(&SszType::Bool, &[255]), Err(DecodeError::InvalidBool));
    assert!(bool::from_ssz_bytes(&[2]).is_err());
    assert_eq!(decode(&SszType::Bool, &[]), Err(DecodeError::InvalidByteLength));
    assert_eq!(decode(&SszType::Bool, &[0, 0]), Err(DecodeError::InvalidByteLength));
}

#[test]
fn value_of_another_kind_is_refused() {
    assert_eq!(encode(&SszType::Bool, &SszValue::Uint(1)), Err(EncodeError::InvalidValue));
    assert_eq!(encode(&SszType::Uint(8), &SszValue::Bool(true)), Err(EncodeError::InvalidValue));
    assert_eq!(
        encode(&checkpoint(), &SszValue::Container(vec![SszValue::Uint(0)])),
        Err(EncodeError::InvalidValue)
    );
    assert!(!check_value(&checkpoint(), &SszValue::List(vec![])));
    assert!(check_value(
        &checkpoint(),
        &SszValue::Container(vec![SszValue::Uint(0), SszValue::Bytes(vec![0; 32])])
    ));
}

#[test]
fn encoding_twice_gives_the_same_bytes() {
    let ty = SszType::List(Box::new(checkpoint()), 16);
    let value = SszValue::List(vec![
        SszValue::Container(vec![SszValue::Uint(3), SszValue::Bytes(vec![1; 32])]),
        SszValue::Container(vec![SszValue::Uint(4), SszValue::Bytes(vec![2; 32])]),
    ]);
    assert_eq!(encode(&ty, &value), encode(&ty, &value));
    assert_eq!(encode(&ty, &value).unwrap().len(), 80);
}

#[test]
fn descriptor_that_makes_no_sense_is_not_well_formed() {
    assert!(SszType::Uint(8).is_well_formed());
    assert!(!SszType::Uint(3).is_well_formed());
    assert!(!SszType::ByteArray(33).is_well_formed());
    assert!(!SszType::ByteVector(0).is_well_formed());
    assert!(!SszType::Container(vec![]).is_well_formed());
    assert!(!SszType::Vector(Box::new(SszType::Uint(8)), 0).is_well_formed());
    assert!(!SszType::Vector(Box::new(SszType::Uint(8)), 0x2000_0000).is_well_formed());
    assert!(SszType::Vector(Box::new(SszType::Uint(8)), 0x1FFF_FFFF).is_well_formed());
    assert!(checkpoint().is_well_formed());
    assert!(checkpoint().is_fixed_len());
    assert_eq!(checkpoint().fixed_len(), 40);
    assert!(!u64_list(4).is_fixed_len());
    assert_eq!(u64_list(4).part_len(), 4);
}

#[test]
fn container_encodes_as_the_ssz_encoder_does() {
    let ty = SszType::Container(vec![
        Field { name: "a", ty: SszType::Uint(8) },
        Field { name: "b", ty: u64_list(8) },
        Field { name: "c", ty: SszType::Uint(2) },
        Field { name: "d", ty: SszType::Bitlist(16) },
        Field { name: "e", ty: SszType::ByteArray(4) },
    ]);
    let value = SszValue::Container(vec![
        SszValue::Uint(77),
        uints(&[1, 2, 3]),
        SszValue::Uint(513),
        SszValue::Bits(vec![true, true, false]),
        SszValue::Bytes(vec![1, 2, 3, 4]),
    ]);
    let b: Vec<u64> = vec![1, 2, 3];
    let mut d: BitList<U16> = BitList::with_capacity(3).unwrap();
    d.set(0, true).unwrap();
    d.set(1, true).unwrap();
    let mut reference = Vec::new();
    let mut encoder = ssz::SszEncoder::container(&mut reference, 8 + 4 + 2 + 4 + 4);
    encoder.append(&77u64);
    encoder.append(&b);
    encoder.append(&513u16);
    encoder.append(&d);
    encoder.append(&[1u8, 2, 3, 4]);
    encoder.finalize();
    let bytes = encode(&ty, &value).unwrap();
    assert_eq!(bytes, reference);

    let mut builder = ssz::SszDecoderBuilder::new(&bytes);
    builder.register_type::<u64>().unwrap();
    builder.register_type::<Vec<u64>>().unwrap();
    builder.register_type::<u16>().unwrap();
    builder.register_type::<BitList<U16>>().unwrap();
    builder.register_type::<[u8; 4]>().unwrap();
    let mut decoder = builder.build().unwrap();
    assert_eq!(decoder.decode_next::<u64>().unwrap(), 77);
    assert_eq!(decoder.decode_next::<Vec<u64>>().unwrap(), b);
    assert_eq!(decoder.decode_next::<u16>().unwrap(), 513);
    assert_eq!(decoder.decode_next::<BitList<U16>>().unwrap(), d);
    assert_eq!(decoder.decode_next::<[u8; 4]>().unwrap(), [1, 2, 3, 4]);
    assert_eq!(decode(&ty, &bytes), Ok(value));
}

#[test]
fn what_decodes_encodes_to_the_same_bytes() {
    let ty = SszType::List(Box::new(SszType::ByteList(4)), 4);
    let inputs: [&[u8]; 6] = [
        &[],
        &[4, 0, 0, 0],
        &[4, 0, 0, 0, 1, 2],
        &[8, 0, 0, 0, 9, 0, 0, 0, 1, 2],
        &[8, 0, 0, 0, 8, 0, 0, 0, 1, 2],
        &[12, 0, 0, 0, 12, 0, 0, 0, 14, 0, 0, 0, 1, 2, 3],
    ];
    for bytes in inputs {
        let value = decode(&ty, bytes).unwrap();
        assert!(check_value(&ty, &value));
        assert_eq!(encode(&ty, &value).unwrap(), bytes);
    }
}

#[test]
fn copy_of_a_value_is_the_same_value() {
    let value = SszValue::Container(vec![
        SszValue::Uint(1),
        SszValue::List(vec![SszValue::Bool(true), SszValue::Bytes(vec![1, 2])]),
        SszValue::Bits(vec![true, false]),
    ]);
    assert_eq!(value.clone(), value);
}
