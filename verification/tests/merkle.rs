use ssz_nif::merkle::{is_hashable, root_of, tree_hash_root, vec_tree_hash_root, HashError};
use ssz_nif::schema::{checkpoint, validator};
use ssz_nif::types::{SszType, SszValue};
use ssz_types::typenum::{U1, U1099511627776, U16, U2048, U33, U4, U48, U5, U512, U8};
use ssz_types::{BitList, BitVector, FixedVector, VariableList};
use tree_hash::{Hash256, MerkleHasher, TreeHash};

const ZERO_PAIR: [u8; 32] = [
    0xf5, 0xa5, 0xfd, 0x42, 0xd1, 0x6a, 0x20, 0x30, 0x27, 0x98, 0xef, 0x6e, 0xd3, 0x09, 0x97,
    0x9b, 0x43, 0x00, 0x3d, 0x23, 0x20, 0xd9, 0xf0, 0xe8, 0xea, 0x98, 0x31, 0xa9, 0x27, 0x59,
    0xfb, 0x4b,
];

fn uints(items: &[u64]) -> SszValue {
    SszValue::List(items.iter().map(|x| SszValue::Uint(*x)).collect())
}

fn reference_container(roots: &[[u8; 32]]) -> [u8; 32] {
    let mut hasher = MerkleHasher::with_leaves(roots.len());
    for root in roots {
        hasher.write(root).unwrap();
    }
    hasher.finish().unwrap().0
}

fn checkpoint_value(epoch: u64, root: [u8; 32]) -> SszValue {
    SszValue::Container(vec![SszValue::Uint(epoch), SszValue::Bytes(root.to_vec())])
}

#[test]
fn root_of_a_number_is_its_padded_bytes() {
    let root = tree_hash_root(&SszType::Uint(8), &SszValue::Uint(0x0102)).unwrap();
    let mut expected = [0u8; 32];
    expected[0] = 2;
    expected[1] = 1;
    assert_eq!(root, expected);
    assert_eq!(root, 0x0102u64.tree_hash_root().0);
    assert_eq!(
        tree_hash_root(&SszType::Uint(1), &SszValue::Uint(200)).unwrap(),
        200u8.tree_hash_root().0
    );
    assert_eq!(
        tree_hash_root(&SszType::Bool, &SszValue::Bool(true)).unwrap(),
        true.tree_hash_root().0
    );
    assert_eq!(
        tree_hash_root(&SszType::Bool, &SszValue::Bool(false)).unwrap(),
        [0u8; 32]
    );
}

#[test]
fn root_of_a_short_byte_array_is_padded() {
    let root = tree_hash_root(&SszType::ByteArray(4), &SszValue::Bytes(vec![1, 2, 3, 4])).unwrap();
    assert_eq!(root, [1u8, 2, 3, 4].tree_hash_root().0);
    let bytes = [9u8; 32];
    assert_eq!(
        tree_hash_root(&SszType::ByteArray(32), &SszValue::Bytes(bytes.to_vec())).unwrap(),
        bytes
    );
    assert_eq!(
        tree_hash_root(&SszType::Uint256, &SszValue::Bytes(bytes.to_vec())).unwrap(),
        bytes
    );
}

#[test]
fn checkpoint_zero_root_is_the_hash_of_two_zero_chunks() {
    let root = tree_hash_root(&checkpoint(), &checkpoint_value(0, [0; 32])).unwrap();
    assert_eq!(root, ZERO_PAIR);
    let again = tree_hash_root(&checkpoint(), &checkpoint_value(0, [0; 32])).unwrap();
    assert_eq!(root, again);
}

#[test]
fn checkpoint_root_is_the_root_over_the_field_roots() {
    let root = tree_hash_root(&checkpoint(), &checkpoint_value(7, [3; 32])).unwrap();
    let expected = reference_container(&[7u64.tree_hash_root().0, [3; 32]]);
    assert_eq!(root, expected);
    assert_ne!(root, ZERO_PAIR);
}

#[test]
fn byte_vector_root_matches_the_reference() {
    let bytes: Vec<u8> = (0..48).collect();
    let reference: FixedVector<u8, U48> = FixedVector::new(bytes.clone()).unwrap();
    assert_eq!(
        tree_hash_root(&SszType::ByteVector(48), &SszValue::Bytes(bytes)).unwrap(),
        reference.tree_hash_root().0
    );
}

#[test]
fn byte_list_root_mixes_in_the_number_of_bytes() {
    let bytes = vec![5u8; 40];
    let reference: VariableList<u8, U2048> = VariableList::new(bytes.clone()).unwrap();
    let root = tree_hash_root(&SszType::ByteList(2048), &SszValue::Bytes(bytes.clone())).unwrap();
    assert_eq!(root, reference.tree_hash_root().0);
    let shorter: VariableList<u8, U2048> = VariableList::new(vec![5u8; 39]).unwrap();
    assert_ne!(root, shorter.tree_hash_root().0);
}

#[test]
fn vector_of_numbers_is_packed() {
    let ty = SszType::Vector(Box::new(SszType::Uint(8)), 5);
    let reference: FixedVector<u64, U5> = FixedVector::new(vec![1, 2, 3, 4, 5]).unwrap();
    assert_eq!(
        tree_hash_root(&ty, &uints(&[1, 2, 3, 4, 5])).unwrap(),
        reference.tree_hash_root().0
    );
}

#[test]
fn vector_of_roots_has_one_leaf_each() {
    let ty = SszType::Vector(Box::new(SszType::ByteArray(32)), 33);
    let items: Vec<[u8; 32]> = (0..33u8).map(|i| [i; 32]).collect();
    let value = SszValue::List(items.iter().map(|r| SszValue::Bytes(r.to_vec())).collect());
    let reference: FixedVector<[u8; 32], U33> = FixedVector::new(items).unwrap();
    assert_eq!(tree_hash_root(&ty, &value).unwrap(), reference.tree_hash_root().0);
}

#[test]
fn list_root_is_the_vector_root_with_the_length_mixed_in() {
    let elem = SszType::Uint(8);
    let ty = SszType::List(Box::new(SszType::Uint(8)), 16);
    let items = [10u64, 20, 30];
    let values: Vec<SszValue> = items.iter().map(|x| SszValue::Uint(*x)).collect();
    let vector_root = vec_tree_hash_root(&elem, &values, 16);
    let root = tree_hash_root(&ty, &uints(&items)).unwrap();
    assert_ne!(root, vector_root);
    assert_eq!(root, tree_hash::mix_in_length(&Hash256::from(vector_root), 3).0);
    let reference: VariableList<u64, U16> = VariableList::new(items.to_vec()).unwrap();
    assert_eq!(root, reference.tree_hash_root().0);
}

#[test]
fn trailing_zero_elements_change_the_root_only_through_the_length() {
    let elem = SszType::Uint(8);
    let two = vec![SszValue::Uint(1), SszValue::Uint(2)];
    let three = vec![SszValue::Uint(1), SszValue::Uint(2), SszValue::Uint(0)];
    assert_eq!(vec_tree_hash_root(&elem, &two, 16), vec_tree_hash_root(&elem, &three, 16));
    let ty = SszType::List(Box::new(SszType::Uint(8)), 16);
    let root_two = tree_hash_root(&ty, &SszValue::List(two)).unwrap();
    let root_three = tree_hash_root(&ty, &SszValue::List(three)).unwrap();
    assert_ne!(root_two, root_three);
}

#[test]
fn empty_list_still_has_a_root() {
    let ty = SszType::List(Box::new(SszType::Uint(8)), 0);
    let root = tree_hash_root(&ty, &uints(&[])).unwrap();
    assert_eq!(root, ZERO_PAIR);
    let some = SszType::List(Box::new(SszType::Uint(8)), 4);
    let reference: VariableList<u64, U4> = VariableList::new(vec![]).unwrap();
    assert_eq!(tree_hash_root(&some, &uints(&[])).unwrap(), reference.tree_hash_root().0);
}

#[test]
fn list_at_its_capacity_has_a_root() {
    let ty = SszType::List(Box::new(SszType::Uint(8)), 8);
    let items: Vec<u64> = (1..=8).collect();
    let reference: VariableList<u64, U8> = VariableList::new(items.clone()).unwrap();
    assert_eq!(tree_hash_root(&ty, &uints(&items)).unwrap(), reference.tree_hash_root().0);
    assert_eq!(
        tree_hash_root(&ty, &uints(&[1, 2, 3, 4, 5, 6, 7, 8, 9])),
        Err(HashError::InvalidValue)
    );
}

#[test]
fn list_with_a_large_bound_has_a_deep_tree() {
    let ty = SszType::List(Box::new(SszType::Uint(8)), 1099511627776);
    let reference: VariableList<u64, U1099511627776> = VariableList::new(vec![32, 64]).unwrap();
    assert_eq!(tree_hash_root(&ty, &uints(&[32, 64])).unwrap(), reference.tree_hash_root().0);
}

#[test]
fn list_with_the_largest_tree_has_a_root() {
    let ty = SszType::List(Box::new(SszType::ByteArray(32)), 1 << 49);
    let value = SszValue::List(vec![SszValue::Bytes(vec![1; 32])]);
    let mut hasher = MerkleHasher::with_leaves(1 << 49);
    hasher.write(&[1; 32]).unwrap();
    let expected = tree_hash::mix_in_length(&hasher.finish().unwrap(), 1).0;
    assert_eq!(tree_hash_root(&ty, &value).unwrap(), expected);
    assert!(tree_hash_root(&ty, &SszValue::List(vec![])).is_ok());
}

#[test]
fn length_is_mixed_in_as_a_chunk_of_little_endian_bytes() {
    let elem = SszType::Uint(8);
    let values = vec![SszValue::Uint(5)];
    let vector_root = vec_tree_hash_root(&elem, &values, 4);
    let mut length = [0u8; 32];
    length[0] = 1;
    let expected = ethereum_hashing::hash32_concat(&vector_root, &length);
    let ty = SszType::List(Box::new(SszType::Uint(8)), 4);
    assert_eq!(tree_hash_root(&ty, &SszValue::List(values)).unwrap(), expected);
}

#[test]
fn list_of_containers_has_one_leaf_each() {
    let ty = SszType::List(Box::new(checkpoint()), 4);
    let value = SszValue::List(vec![checkpoint_value(1, [1; 32]), checkpoint_value(2, [2; 32])]);
    let first = reference_container(&[1u64.tree_hash_root().0, [1; 32]]);
    let second = reference_container(&[2u64.tree_hash_root().0, [2; 32]]);
    let mut hasher = MerkleHasher::with_leaves(4);
    hasher.write(&first).unwrap();
    hasher.write(&second).unwrap();
    let vector_root = hasher.finish().unwrap();
    let expected = tree_hash::mix_in_length(&vector_root, 2).0;
    assert_eq!(tree_hash_root(&ty, &value).unwrap(), expected);
}

#[test]
fn bit_list_root_mixes_in_the_number_of_bits() {
    let ty = SszType::Bitlist(2048);
    for n in [0usize, 1, 7, 8, 9, 255, 256, 257, 600] {
        let bits: Vec<bool> = (0..n).map(|i| i % 5 == 1).collect();
        let mut reference: BitList<U2048> = BitList::with_capacity(n).unwrap();
        for (i, b) in bits.iter().enumerate() {
            reference.set(i, *b).unwrap();
        }
        assert_eq!(
            tree_hash_root(&ty, &SszValue::Bits(bits)).unwrap(),
            reference.tree_hash_root().0
        );
    }
}

#[test]
fn bit_list_of_no_bits_allowed_has_a_root() {
    let reference: BitList<U1> = BitList::with_capacity(0).unwrap();
    assert_eq!(
        tree_hash_root(&SszType::Bitlist(1), &SszValue::Bits(vec![])).unwrap(),
        reference.tree_hash_root().0
    );
}

#[test]
fn bit_vector_root_matches_the_reference() {
    let bits: Vec<bool> = (0..512).map(|i| i % 3 == 0).collect();
    let mut reference: BitVector<U512> = BitVector::new();
    for (i, b) in bits.iter().enumerate() {
        reference.set(i, *b).unwrap();
    }
    assert_eq!(
        tree_hash_root(&SszType::Bitvector(512), &SszValue::Bits(bits)).unwrap(),
        reference.tree_hash_root().0
    );
    let mut four: BitVector<U4> = BitVector::new();
    four.set(2, true).unwrap();
    assert_eq!(
        tree_hash_root(
            &SszType::Bitvector(4),
            &SszValue::Bits(vec![false, false, true, false])
        )
        .unwrap(),
        four.tree_hash_root().0
    );
}

#[test]
fn validator_root_is_the_root_over_eight_field_roots() {
    let pubkey: Vec<u8> = (0..48).collect();
    let value = SszValue::Container(vec![
        SszValue::Bytes(pubkey.clone()),
        SszValue::Bytes(vec![0x11; 32]),
        SszValue::Uint(32_000_000_000),
        SszValue::Bool(true),
        SszValue::Uint(1),
        SszValue::Uint(2),
        SszValue::Uint(3),
        SszValue::Uint(4),
    ]);
    let key: FixedVector<u8, U48> = FixedVector::new(pubkey).unwrap();
    let expected = reference_container(&[
        key.tree_hash_root().0,
        [0x11; 32],
        32_000_000_000u64.tree_hash_root().0,
        true.tree_hash_root().0,
        1u64.tree_hash_root().0,
        2u64.tree_hash_root().0,
        3u64.tree_hash_root().0,
        4u64.tree_hash_root().0,
    ]);
    assert_eq!(tree_hash_root(&validator(), &value).unwrap(), expected);
    assert_eq!(root_of(&validator(), &value), expected);
}

#[test]
fn value_that_is_not_of_the_type_has_no_root() {
    assert_eq!(
        tree_hash_root(&checkpoint(), &SszValue::Uint(1)),
        Err(HashError::InvalidValue)
    );
    assert_eq!(
        tree_hash_root(&SszType::Uint(1), &SszValue::Uint(256)),
        Err(HashError::InvalidValue)
    );
}

#[test]
fn tree_with_too_many_leaves_is_refused() {
    let ty = SszType::List(Box::new(SszType::ByteArray(32)), u64::MAX);
    assert!(!is_hashable(&ty));
    assert_eq!(
        tree_hash_root(&ty, &SszValue::List(vec![])),
        Err(HashError::CapacityExceeded)
    );
    assert!(is_hashable(&SszType::List(Box::new(SszType::ByteArray(32)), 1 << 49)));
    assert!(!is_hashable(&SszType::List(Box::new(SszType::ByteArray(32)), (1 << 49) + 1)));
    assert!(is_hashable(&checkpoint()));
}

fn pair(left: &[u8], right: &[u8]) -> [u8; 32] {
    ethereum_hashing::hash32_concat(left, right)
}

#[test]
fn root_of_three_chunks_is_the_hash_of_the_hashes_of_its_pairs() {
    let ty = SszType::Vector(Box::new(SszType::ByteArray(32)), 3);
    let chunks: Vec<[u8; 32]> = vec![[1; 32], [2; 32], [3; 32]];
    let value = SszValue::List(chunks.iter().map(|c| SszValue::Bytes(c.to_vec())).collect());
    let expected = pair(&pair(&chunks[0], &chunks[1]), &pair(&chunks[2], &[0; 32]));
    assert_eq!(tree_hash_root(&ty, &value).unwrap(), expected);
}

#[test]
fn root_of_packed_numbers_fills_the_last_chunk_with_zero_bytes() {
    let values: Vec<SszValue> = (1..=5u64).map(SszValue::Uint).collect();
    let mut first = Vec::new();
    for x in 1..=4u64 {
        first.extend_from_slice(&x.to_le_bytes());
    }
    let mut second = [0u8; 32];
    second[..8].copy_from_slice(&5u64.to_le_bytes());
    let zero = [0u8; 32];
    // twenty numbers take five chunks, in a tree of eight leaves
    let expected = pair(
        &pair(&pair(&first, &second), &pair(&zero, &zero)),
        &pair(&pair(&zero, &zero), &pair(&zero, &zero)),
    );
    assert_eq!(vec_tree_hash_root(&SszType::Uint(8), &values, 20), expected);
}

#[test]
fn tree_for_six_leaves_is_the_tree_for_eight() {
    let elem = SszType::ByteArray(32);
    let values: Vec<SszValue> = (1..=5u8).map(|i| SszValue::Bytes(vec![i; 32])).collect();
    assert_eq!(vec_tree_hash_root(&elem, &values, 6), vec_tree_hash_root(&elem, &values, 8));
    assert_eq!(vec_tree_hash_root(&elem, &values, 5), vec_tree_hash_root(&elem, &values, 8));
    assert_ne!(vec_tree_hash_root(&elem, &values, 9), vec_tree_hash_root(&elem, &values, 8));
}

#[test]
fn tree_for_no_leaves_or_one_is_the_chunk() {
    let elem = SszType::ByteArray(32);
    assert_eq!(vec_tree_hash_root(&elem, &vec![], 0), [0u8; 32]);
    assert_eq!(vec_tree_hash_root(&elem, &vec![], 1), [0u8; 32]);
    assert_eq!(vec_tree_hash_root(&elem, &vec![SszValue::Bytes(vec![7; 32])], 1), [7u8; 32]);
    assert_eq!(vec_tree_hash_root(&SszType::Uint(8), &vec![SszValue::Uint(3)], 4), {
        let mut chunk = [0u8; 32];
        chunk[0] = 3;
        chunk
    });
}
