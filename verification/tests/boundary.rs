use ssz_nif::dispatch::{
    from_ssz_rs, hash_tree_root_list_rs, hash_tree_root_rs, list_from_ssz_rs, to_ssz_rs,
};
use ssz_nif::encode::encode;
use ssz_nif::from_elx::{from_elx, from_ssz, ConversionError, FromElxError};
use ssz_nif::helpers::{
    debug_error_to_nif, decode_ssz, encode_ssz, hash_list_tree_root, hash_vector_tree_root,
    list_decode_ssz, to_nif_result, NifError,
};
use ssz_nif::merkle::{tree_hash_root, vec_tree_hash_root};
use ssz_nif::schema::{attestation, checkpoint};
use ssz_nif::config::Config;
use ssz_nif::types::{SszType, SszValue};
use tree_hash::Hash256;

fn checkpoint_value(epoch: u64, byte: u8) -> SszValue {
    SszValue::Container(vec![SszValue::Uint(epoch), SszValue::Bytes(vec![byte; 32])])
}

fn attestation_data() -> SszValue {
    SszValue::Container(vec![
        SszValue::Uint(3),
        SszValue::Uint(1),
        SszValue::Bytes(vec![9; 32]),
        checkpoint_value(1, 1),
        checkpoint_value(2, 2),
    ])
}

#[test]
fn error_message_is_the_display_text() {
    let e = FromElxError::from_display("could not convert slice to array");
    assert_eq!(e.message(), "could not convert slice to array");
    assert_eq!(FromElxError::from_display(42).message(), "42");
    assert_eq!(FromElxError::from(String::from("x")).message(), "x");
}

#[test]
fn error_message_is_the_debug_text() {
    let e = FromElxError::from_debug(Some(3));
    assert_eq!(e.message(), "Some(3)");
    assert_eq!(FromElxError::from_debug("a").message(), "\"a\"");
}

#[test]
fn failures_carry_their_messages_to_the_host() {
    assert_eq!(
        to_nif_result(FromElxError::from_display("bad")),
        NifError::Term(String::from("bad"))
    );
    assert_eq!(debug_error_to_nif(Some(1)), NifError::Term(String::from("Some(1)")));
}

#[test]
fn encode_by_name_gives_the_bytes() {
    let bytes = to_ssz_rs(&checkpoint_value(0, 0), "Checkpoint", "mainnet").unwrap();
    assert_eq!(bytes, vec![0u8; 40]);
    let bytes = to_ssz_rs(&checkpoint_value(5, 7), "Checkpoint", "minimal").unwrap();
    assert_eq!(bytes, encode(&checkpoint(), &checkpoint_value(5, 7)).unwrap());
}

#[test]
fn decode_by_name_gives_the_value() {
    let mut bytes = vec![0u8; 40];
    bytes[0] = 9;
    assert_eq!(from_ssz_rs(&bytes, "Checkpoint", "gnosis"), Ok(checkpoint_value(9, 0)));
    assert!(matches!(from_ssz_rs(&bytes[..39], "Checkpoint", "gnosis"), Err(NifError::Term(_))));
}

#[test]
fn unknown_names_are_bad_arguments_in_every_operation() {
    let value = checkpoint_value(0, 0);
    assert_eq!(to_ssz_rs(&value, "Nothing", "mainnet"), Err(NifError::BadArg));
    assert_eq!(to_ssz_rs(&value, "Checkpoint", "nothing"), Err(NifError::BadArg));
    assert_eq!(from_ssz_rs(&[0u8; 40], "Nothing", "mainnet"), Err(NifError::BadArg));
    assert_eq!(list_from_ssz_rs(&[], "Checkpoint", "nothing"), Err(NifError::BadArg));
    assert_eq!(hash_tree_root_rs(&value, "Nothing", "mainnet"), Err(NifError::BadArg));
    assert_eq!(hash_tree_root_list_rs(&vec![], 4, "Nothing", "mainnet"), Err(NifError::BadArg));
}

#[test]
fn value_of_the_wrong_shape_is_a_failure_with_a_message() {
    match to_ssz_rs(&SszValue::Uint(1), "Checkpoint", "mainnet") {
        Err(NifError::Term(message)) => assert_eq!(message, "Mismatch"),
        other => panic!("unexpected: {:?}", other),
    }
    let short = SszValue::Container(vec![SszValue::Uint(0), SszValue::Bytes(vec![0; 31])]);
    match to_ssz_rs(&short, "Checkpoint", "mainnet") {
        Err(NifError::Term(message)) => assert_eq!(message, "could not convert slice to array"),
        other => panic!("unexpected: {:?}", other),
    }
}

#[test]
fn host_hands_bit_lists_over_as_their_encodings() {
    let ty = attestation(&Config::mainnet());
    let external = SszValue::Container(vec![
        SszValue::Bytes(vec![0b0001_0101]),
        attestation_data(),
        SszValue::Bytes(vec![0xAA; 96]),
    ]);
    let internal = from_elx(&ty, &external).unwrap();
    assert_eq!(
        internal,
        SszValue::Container(vec![
            SszValue::Bits(vec![true, false, true, false]),
            attestation_data(),
            SszValue::Bytes(vec![0xAA; 96]),
        ])
    );
    assert_eq!(from_ssz(&ty, &internal), external);
    let bytes = to_ssz_rs(&external, "Attestation", "mainnet").unwrap();
    assert_eq!(bytes, encode(&ty, &internal).unwrap());
    assert_eq!(bytes.len(), 4 + 128 + 96 + 1);
    assert_eq!(from_ssz_rs(&bytes, "Attestation", "mainnet"), Ok(external));
}

#[test]
fn bit_list_bytes_without_sentinel_are_refused() {
    let ty = attestation(&Config::mainnet());
    let external = SszValue::Container(vec![
        SszValue::Bytes(vec![0]),
        attestation_data(),
        SszValue::Bytes(vec![0xAA; 96]),
    ]);
    assert_eq!(from_elx(&ty, &external).unwrap_err().message(), "MissingLengthInformation");
}

#[test]
fn too_long_list_is_refused_with_its_bounds() {
    let ty = SszType::List(Box::new(SszType::Uint(8)), 2);
    let value = SszValue::List(vec![SszValue::Uint(1), SszValue::Uint(2), SszValue::Uint(3)]);
    assert_eq!(
        from_elx(&ty, &value).unwrap_err().message(),
        "OutOfBounds { i: 3, len: 2 }"
    );
    let ty = SszType::Vector(Box::new(SszType::Uint(8)), 2);
    assert_eq!(
        from_elx(&ty, &value).unwrap_err().message(),
        "OutOfBounds { i: 3, len: 2 }"
    );
    assert_eq!(
        from_elx(&SszType::Uint(1), &SszValue::Uint(256)).unwrap_err().message(),
        "OutOfRange"
    );
    assert_eq!(
        from_elx(&SszType::ByteVector(48), &SszValue::Bytes(vec![0; 47])).unwrap_err().message(),
        "OutOfBounds { i: 47, len: 48 }"
    );
    assert_eq!(
        from_elx(&SszType::ByteList(2), &SszValue::Bytes(vec![0; 3])).unwrap_err().message(),
        "OutOfBounds { i: 3, len: 2 }"
    );
}

#[test]
fn large_number_is_cut_or_filled_to_thirty_two_bytes() {
    let short = from_elx(&SszType::Uint256, &SszValue::Bytes(vec![1, 2, 3])).unwrap();
    let mut expected = vec![0u8; 32];
    expected[..3].copy_from_slice(&[1, 2, 3]);
    assert_eq!(short, SszValue::Bytes(expected));
    let long: Vec<u8> = (0..40).collect();
    let cut = from_elx(&SszType::Uint256, &SszValue::Bytes(long.clone())).unwrap();
    assert_eq!(cut, SszValue::Bytes(long[..32].to_vec()));
    let empty = from_elx(&SszType::Uint256, &SszValue::Bytes(vec![])).unwrap();
    assert_eq!(empty, SszValue::Bytes(vec![0u8; 32]));
}

#[test]
fn top_level_list_is_encoded_as_a_list_of_the_schema() {
    let list = SszValue::List(vec![checkpoint_value(1, 1), checkpoint_value(2, 2)]);
    let bytes = to_ssz_rs(&list, "Checkpoint", "mainnet").unwrap();
    assert_eq!(bytes.len(), 80);
    assert_eq!(bytes, encode_ssz(checkpoint(), &list).unwrap());
    assert_eq!(list_from_ssz_rs(&bytes, "Checkpoint", "mainnet").as_ref(), Ok(&list));
    assert_eq!(list_decode_ssz(checkpoint(), &bytes), Ok(list));
    assert_eq!(list_from_ssz_rs(&[], "Checkpoint", "mainnet"), Ok(SszValue::List(vec![])));
    assert!(matches!(
        list_from_ssz_rs(&bytes[..79], "Checkpoint", "mainnet"),
        Err(NifError::Term(_))
    ));
}

#[test]
fn decode_failure_carries_the_rule_broken() {
    assert_eq!(
        decode_ssz(&checkpoint(), &[0u8; 39]),
        Err(NifError::Term(String::from("InvalidByteLength")))
    );
    assert_eq!(decode_ssz(&checkpoint(), &[0u8; 40]), Ok(checkpoint_value(0, 0)));
}

#[test]
fn root_by_name_is_the_root_of_the_value() {
    let value = checkpoint_value(4, 4);
    let root = hash_tree_root_rs(&value, "Checkpoint", "mainnet").unwrap();
    assert_eq!(root, tree_hash_root(&checkpoint(), &value).unwrap());
    assert!(matches!(
        hash_tree_root_rs(&SszValue::Bool(true), "Checkpoint", "mainnet"),
        Err(NifError::Term(_))
    ));
}

#[test]
fn root_of_a_list_by_name_mixes_in_the_number_of_elements() {
    let list = vec![SszValue::Uint(1), SszValue::Uint(2), SszValue::Uint(3)];
    let vector_root = hash_vector_tree_root(SszType::Uint(8), &list, 16).unwrap();
    assert_eq!(vector_root, vec_tree_hash_root(&SszType::Uint(8), &list, 16));
    let root = hash_tree_root_list_rs(&list, 16, "Epoch", "mainnet").unwrap();
    assert_eq!(root, hash_list_tree_root(SszType::Uint(8), &list, 16).unwrap());
    assert_eq!(root, tree_hash::mix_in_length(&Hash256::from(vector_root), 3).0);
    let as_list = SszType::List(Box::new(SszType::Uint(8)), 16);
    assert_eq!(root, tree_hash_root(&as_list, &SszValue::List(list)).unwrap());
}

#[test]
fn more_elements_than_the_tree_holds_is_a_failure() {
    let list = vec![SszValue::Uint(1), SszValue::Uint(2), SszValue::Uint(3)];
    assert_eq!(
        hash_tree_root_list_rs(&list, 2, "Epoch", "mainnet"),
        Err(NifError::Term(String::from("CapacityExceeded")))
    );
    assert!(hash_tree_root_list_rs(&list, 3, "Epoch", "mainnet").is_ok());
    assert!(matches!(
        hash_vector_tree_root(SszType::ByteArray(32), &vec![], usize::MAX),
        Err(NifError::Term(_))
    ));
    assert!(matches!(
        hash_tree_root_list_rs(&vec![SszValue::Bool(true)], 4, "Epoch", "mainnet"),
        Err(NifError::Term(_))
    ));
}

#[test]
fn error_is_that_of_the_first_element_that_cannot_be_converted() {
    let ty = SszType::List(Box::new(SszType::ByteVector(4)), 2);
    let value = SszValue::List(vec![
        SszValue::Bytes(vec![0; 4]),
        SszValue::Bytes(vec![0; 3]),
        SszValue::Uint(1),
        SszValue::Bytes(vec![0; 9]),
    ]);
    assert_eq!(
        from_elx(&ty, &value).unwrap_err().message(),
        "OutOfBounds { i: 3, len: 4 }"
    );
    let late = SszValue::List(vec![
        SszValue::Bytes(vec![0; 4]),
        SszValue::Bytes(vec![1; 4]),
        SszValue::Uint(1),
    ]);
    assert_eq!(from_elx(&ty, &late).unwrap_err().message(), "Mismatch");
    let long = SszValue::List(vec![
        SszValue::Bytes(vec![0; 4]),
        SszValue::Bytes(vec![1; 4]),
        SszValue::Bytes(vec![2; 4]),
    ]);
    assert_eq!(from_elx(&ty, &long).unwrap_err().message(), "OutOfBounds { i: 3, len: 2 }");
    let nested = SszType::Container(vec![
        ssz_nif::types::Field { name: "a", ty: SszType::Uint(1) },
        ssz_nif::types::Field { name: "b", ty: SszType::Bitlist(4) },
        ssz_nif::types::Field { name: "c", ty: SszType::ByteArray(4) },
    ]);
    let fields = SszValue::Container(vec![
        SszValue::Uint(1),
        SszValue::Bytes(vec![0b0100_0000]),
        SszValue::Bytes(vec![0; 5]),
    ]);
    assert_eq!(from_elx(&nested, &fields).unwrap_err().message(), "ExceedsMaxLength");
}

#[test]
fn failures_of_the_operations_tell_what_failed() {
    let list = vec![SszValue::Uint(1), SszValue::Bool(true), SszValue::Bytes(vec![])];
    assert_eq!(
        hash_tree_root_list_rs(&list, 8, "Epoch", "mainnet"),
        Err(NifError::Term(String::from("Mismatch")))
    );
    assert_eq!(
        to_ssz_rs(&SszValue::Uint(1), "Root", "mainnet"),
        Err(NifError::Term(String::from("Mismatch")))
    );
    assert_eq!(
        from_ssz_rs(&[2], "Epoch", "mainnet"),
        Err(NifError::Term(String::from("InvalidByteLength")))
    );
    assert_eq!(
        hash_tree_root_rs(&SszValue::Bytes(vec![0; 31]), "Root", "mainnet"),
        Err(NifError::Term(String::from("could not convert slice to array")))
    );
}

#[test]
fn conversion_error_is_told_by_its_name_and_numbers() {
    assert_eq!(
        from_elx(&SszType::Bool, &SszValue::Uint(1)).unwrap_err().message(),
        format!("{:?}", ConversionError::Mismatch)
    );
    assert_eq!(
        from_elx(&SszType::Uint(2), &SszValue::Uint(70000)).unwrap_err().message(),
        format!("{:?}", ConversionError::OutOfRange)
    );
    assert_eq!(
        from_elx(&SszType::ByteVector(20), &SszValue::Bytes(vec![0; 21])).unwrap_err().message(),
        format!("{:?}", ConversionError::OutOfBounds { i: 21, len: 20 })
    );
}
