//! What holds of every type, value and input: the bounds that decoding
//! enforces, the offsets that it refuses, and how the length of a list
//! enters its root.

use crate::bits::{
    bitlist_bytes, lemma_bitlist_len, lemma_bitlist_unpack, lemma_pack_is_packed, lemma_unpack_pack,
};
use crate::canonical::{lemma_decode_canonical, lemma_decoded_fits};
use crate::from_elx::{
    conversion_failure, converted, converted_items, external, external_items, uint256_bytes,
    Failure,
};
use crate::helpers::{decode_ssz_ensures, encode_ssz_ensures, list_of, NifError, encoded};
use crate::decode::{
    deserialize, deserialize_items, item_end, item_start, items_from, lemma_items_from_err,
    lemma_items_from_step, list_count, DecodeError,
};
use crate::encode::{encode_ensures, is_item_count, item_ty, offsets_fit, serialize, EncodeError};
use crate::merkle::{
    hash_ensures, hash_root, mixed, sha256_pair, vec_root, HashError, BYTES_PER_CHUNK,
};
use crate::roundtrip::{lemma_pieces, lemma_round_trip, lemma_round_trip_count};
use crate::types::{fixed_size, is_fixed, valid, wf, SszType, Value};
use crate::uint::{le_bytes, le_value, lemma_le_value_bound, lemma_pow256_le, lemma_pow256_values};
use crate::merkle::{
    chunk, chunk_count, elem_leaves, is_basic, merkle_root_of, tree_depth, tree_node, zeros,
};
use vstd::prelude::*;

verus! {

/// Encoding is a function of the type and the value: two results that
/// `encode` may give for the same arguments are the same.
pub proof fn lemma_encode_deterministic(
    ty: SszType,
    v: Value,
    first: Result<Seq<u8>, EncodeError>,
    second: Result<Seq<u8>, EncodeError>,
)
    requires
        encode_ensures(ty, v, first),
        encode_ensures(ty, v, second),
    ensures
        first == second,
{
}

/// Hashing is a function of the type and the value: two results that
/// `tree_hash_root` may give for the same arguments are the same.
pub proof fn lemma_hash_deterministic(
    ty: SszType,
    v: Value,
    first: Result<Seq<u8>, HashError>,
    second: Result<Seq<u8>, HashError>,
)
    requires
        hash_ensures(ty, v, first),
        hash_ensures(ty, v, second),
    ensures
        first == second,
{
}

/// Whatever decodes is a value of the type, within the type's bounds: a
/// list, byte list or bit list that decodes has no more elements than its
/// type allows, at any depth.
pub proof fn lemma_decoded_is_valid(ty: SszType, bytes: Seq<u8>)
    requires
        wf(ty),
        deserialize(ty, bytes) is Ok,
    ensures
        valid(ty, deserialize(ty, bytes)->Ok_0),
    decreases ty, 1nat, 0nat,
{
    match ty {
        SszType::Uint(width) => {
            lemma_le_value_bound(bytes);
            lemma_pow256_le(width as nat, 8);
            lemma_pow256_values();
        },
        SszType::Vector(_, n) => {
            lemma_items_valid(ty, bytes, n as nat, n as nat);
        },
        SszType::List(_, _) => {
            let n = list_count(ty, bytes)->Ok_0;
            lemma_items_valid(ty, bytes, n, n);
        },
        SszType::Container(fields) => {
            lemma_items_valid(ty, bytes, fields.len() as nat, fields.len() as nat);
        },
        _ => {},
    }
}

/// The first `k` items that decode are values of their types.
pub proof fn lemma_items_valid(ty: SszType, bytes: Seq<u8>, n: nat, k: nat)
    requires
        wf(ty),
        is_item_count(ty, n),
        k <= n,
        items_from(ty, bytes, n, k) is Ok,
    ensures
        items_from(ty, bytes, n, k)->Ok_0.len() == k,
        forall|i: int|
            0 <= i < k ==> valid(item_ty(ty, i), #[trigger] items_from(ty, bytes, n, k)->Ok_0[i]),
    decreases ty, 0nat, k,
{
    if k > 0 {
        let i = (k - 1) as int;
        if items_from(ty, bytes, n, (k - 1) as nat) is Err {
            lemma_items_from_err(ty, bytes, n, (k - 1) as nat, k);
        }
        lemma_items_valid(ty, bytes, n, (k - 1) as nat);
        lemma_items_from_step(ty, bytes, n, (k - 1) as nat);
        let start = item_start(ty, bytes, i);
        let end = item_end(ty, bytes, n, i);
        let part = bytes.subrange(start as int, end as int);
        assert(wf(item_ty(ty, i)));
        lemma_decoded_is_valid(item_ty(ty, i), part);
    }
}

/// A list that decodes has at most as many elements as its type allows.
pub proof fn lemma_decoded_list_within_bound(ty: SszType, bytes: Seq<u8>)
    requires
        wf(ty),
        ty is List,
        deserialize(ty, bytes) is Ok,
    ensures
        deserialize(ty, bytes)->Ok_0 is List,
        deserialize(ty, bytes)->Ok_0->List_0.len() <= ty->List_1,
{
    lemma_decoded_is_valid(ty, bytes);
}

/// A bit list that decodes has at most as many bits as its type allows:
/// bytes whose sentinel bit lies further up do not decode.
pub proof fn lemma_decoded_bitlist_within_bound(ty: SszType, bytes: Seq<u8>)
    requires
        ty is Bitlist,
    ensures
        deserialize(ty, bytes) is Ok ==> deserialize(ty, bytes)->Ok_0 is Bits && deserialize(
            ty,
            bytes,
        )->Ok_0->Bits_0.len() <= ty->Bitlist_0,
        bytes.len() > 0 && bytes.last() != 0 && crate::bits::bitlist_len(bytes) > ty->Bitlist_0
            ==> deserialize(ty, bytes) == Err::<Value, DecodeError>(
            DecodeError::ExceedsMaxLength,
        ),
{
}

/// A list with more elements than its type allows is not a value of the
/// type, so `encode` refuses it.
pub proof fn lemma_over_capacity_is_invalid(ty: SszType, items: Seq<Value>)
    requires
        ty is List,
        items.len() > ty->List_1,
    ensures
        !valid(ty, Value::List(items)),
        forall|r: Result<Seq<u8>, EncodeError>|
            encode_ensures(ty, Value::List(items), r) ==> r == Err::<Seq<u8>, EncodeError>(
                EncodeError::InvalidValue,
            ),
{
}

/// A bit list with more bits than its type allows is not a value of the
/// type, so `encode` refuses it.
pub proof fn lemma_over_capacity_bits_invalid(ty: SszType, bits: Seq<bool>)
    requires
        ty is Bitlist,
        bits.len() > ty->Bitlist_0,
    ensures
        !valid(ty, Value::Bits(bits)),
        forall|r: Result<Seq<u8>, EncodeError>|
            encode_ensures(ty, Value::Bits(bits), r) ==> r == Err::<Seq<u8>, EncodeError>(
                EncodeError::InvalidValue,
            ),
{
}

/// Bytes in which the offset of a variable-size item is greater than where
/// the item ends, which is the next offset or the end of the bytes, do not
/// decode.
pub proof fn lemma_decreasing_offsets_rejected(ty: SszType, bytes: Seq<u8>, n: nat, i: int)
    requires
        is_item_count(ty, n),
        0 <= i < n,
        !is_fixed(item_ty(ty, i)),
        item_end(ty, bytes, n, i) < item_start(ty, bytes, i),
    ensures
        deserialize_items(ty, bytes, n) is Err,
        !(ty is List) ==> deserialize(ty, bytes) is Err,
        list_count(ty, bytes) == Ok::<nat, DecodeError>(n) ==> deserialize(ty, bytes) is Err,
{
    if items_from(ty, bytes, n, i as nat) is Ok {
        lemma_items_from_step(ty, bytes, n, i as nat);
    } else {
        lemma_items_from_err(ty, bytes, n, i as nat, (i + 1) as nat);
    }
    lemma_items_from_err(ty, bytes, n, (i + 1) as nat, n);
}

/// Bytes in which a variable-size item ends past the end of the bytes,
/// because the next offset points there, do not decode.
pub proof fn lemma_offset_out_of_bounds_rejected(ty: SszType, bytes: Seq<u8>, n: nat, i: int)
    requires
        is_item_count(ty, n),
        0 <= i < n,
        !is_fixed(item_ty(ty, i)),
        item_end(ty, bytes, n, i) > bytes.len(),
    ensures
        deserialize_items(ty, bytes, n) is Err,
        !(ty is List) ==> deserialize(ty, bytes) is Err,
        list_count(ty, bytes) == Ok::<nat, DecodeError>(n) ==> deserialize(ty, bytes) is Err,
{
    if items_from(ty, bytes, n, i as nat) is Ok {
        lemma_items_from_step(ty, bytes, n, i as nat);
    } else {
        lemma_items_from_err(ty, bytes, n, i as nat, (i + 1) as nat);
    }
    lemma_items_from_err(ty, bytes, n, (i + 1) as nat, n);
}

/// The bits of a bit list come back from its bytes, whatever their number:
/// the sentinel bit is not one of them.
pub proof fn lemma_bitlist_round_trip(max: u64, bits: Seq<bool>)
    requires
        bits.len() <= max,
    ensures
        serialize(SszType::Bitlist(max), Value::Bits(bits)) == bitlist_bytes(bits),
        deserialize(SszType::Bitlist(max), bitlist_bytes(bits)) == Ok::<Value, DecodeError>(
            Value::Bits(bits),
        ),
{
    lemma_bitlist_len(bits);
    lemma_round_trip(SszType::Bitlist(max), Value::Bits(bits));
}

/// The number of elements of a list is not written down: it comes back
/// from the bytes alone, as the number of bytes over the size of an element
/// where the elements are of fixed size, and as the first offset over the
/// length of an offset where they are not.
pub proof fn lemma_list_length_recovered(ty: SszType, items: Seq<Value>)
    requires
        wf(ty),
        ty is List,
        valid(ty, Value::List(items)),
        offsets_fit(ty, Value::List(items)),
    ensures
        deserialize(ty, serialize(ty, Value::List(items))) is Ok,
        deserialize(ty, serialize(ty, Value::List(items)))->Ok_0->List_0.len() == items.len(),
        list_count(ty, serialize(ty, Value::List(items))) == Ok::<nat, DecodeError>(items.len()),
        is_fixed(*ty->List_0) ==> serialize(ty, Value::List(items)).len() == items.len()
            * fixed_size(*ty->List_0),
        !is_fixed(*ty->List_0) && items.len() > 0 ==> le_value(
            serialize(ty, Value::List(items)).subrange(0, 4),
        ) == 4 * items.len(),
{
    let bytes = serialize(ty, Value::List(items));
    lemma_round_trip(ty, Value::List(items));
    lemma_round_trip_count(ty, items);
    if is_fixed(*ty->List_0) {
        crate::types::lemma_part_len_positive(*ty->List_0);
        let size = fixed_size(*ty->List_0);
        assert(bytes.len() == items.len() * size) by (nonlinear_arith)
            requires
                size > 0,
                bytes.len() % size == 0,
                bytes.len() / size == items.len(),
        ;
    }
}

/// Element `i` of a list of fixed-size elements is encoded in the bytes
/// from `i` times the size of an element on: there is nothing before the
/// first element and nothing between two.
pub proof fn lemma_plain_list_element(ty: SszType, items: Seq<Value>, i: int)
    requires
        wf(ty),
        ty is List,
        is_fixed(*ty->List_0),
        valid(ty, Value::List(items)),
        0 <= i < items.len(),
    ensures
        (i + 1) * fixed_size(*ty->List_0) <= serialize(ty, Value::List(items)).len(),
        serialize(ty, Value::List(items)).subrange(
            i * fixed_size(*ty->List_0),
            (i + 1) * fixed_size(*ty->List_0),
        ) == serialize(*ty->List_0, items[i]),
{
    let size = fixed_size(*ty->List_0);
    lemma_pieces(ty, items, i);
    crate::encode::lemma_prefix_len_total(ty, i as nat);
    crate::encode::lemma_prefix_len_total(ty, (i + 1) as nat);
    crate::encode::lemma_prefix_len_total(ty, items.len());
    assert(crate::encode::prefix_len(ty, i as nat) == i * size);
    assert(crate::encode::prefix_len(ty, (i + 1) as nat) == (i + 1) * size);
}

/// A list of fixed-size elements is encoded as the encodings of its
/// elements, one after the other, whatever their number: no offset is
/// written, so every valid list of the kind has an encoding, and the list
/// comes back from it.
pub proof fn lemma_plain_list_round_trip(ty: SszType, items: Seq<Value>)
    requires
        wf(ty),
        ty is List,
        is_fixed(*ty->List_0),
        valid(ty, Value::List(items)),
    ensures
        offsets_fit(ty, Value::List(items)),
        forall|r: Result<Seq<u8>, EncodeError>|
            encode_ensures(ty, Value::List(items), r) ==> r is Ok,
        serialize(ty, Value::List(items)).len() == items.len() * fixed_size(*ty->List_0),
        deserialize(ty, serialize(ty, Value::List(items))) == Ok::<Value, DecodeError>(
            Value::List(items),
        ),
{
    assert forall|i: int| 0 <= i < items.len() implies is_fixed(#[trigger] item_ty(ty, i)) by {}
    crate::encode::lemma_fixed_items_fit(ty, items, items.len());
    lemma_list_length_recovered(ty, items);
    lemma_round_trip(ty, Value::List(items));
}

/// The root of a list is the hash of two chunks: the root of the tree over
/// its elements, made for as many elements as the type allows, and the
/// number of its elements. The number enters the root nowhere else.
pub proof fn lemma_list_root_mixes_length(ty: SszType, items: Seq<Value>)
    requires
        ty is List,
    ensures
        hash_root(ty, Value::List(items)) == sha256_pair(
            vec_root(*ty->List_0, items, ty->List_1 as nat),
            le_bytes(items.len(), BYTES_PER_CHUNK as nat),
        ),
{
}

/// The root of a list is the root of the vector of the same elements, in a
/// tree made for as many elements as the list allows, with the length
/// mixed in.
pub proof fn lemma_list_root_from_vector_root(list: SszType, vector: SszType, items: Seq<Value>)
    requires
        list is List,
        vector is Vector,
        *list->List_0 == *vector->Vector_0,
        list->List_1 == vector->Vector_1,
    ensures
        hash_root(list, Value::List(items)) == mixed(
            hash_root(vector, Value::List(items)),
            items.len(),
        ),
{
}

/// Two lists of one type whose trees over the elements have the same root
/// have roots that differ only by the length mixed in.
pub proof fn lemma_list_root_differs_by_length(ty: SszType, first: Seq<Value>, second: Seq<Value>)
    requires
        ty is List,
        vec_root(*ty->List_0, first, ty->List_1 as nat) == vec_root(
            *ty->List_0,
            second,
            ty->List_1 as nat,
        ),
    ensures
        hash_root(ty, Value::List(first)) == mixed(
            vec_root(*ty->List_0, first, ty->List_1 as nat),
            first.len(),
        ),
        hash_root(ty, Value::List(second)) == mixed(
            vec_root(*ty->List_0, first, ty->List_1 as nat),
            second.len(),
        ),
{
}

/// Two valid values of one type with the same encoding are the same value.
pub proof fn lemma_serialize_injective(ty: SszType, first: Value, second: Value)
    requires
        wf(ty),
        valid(ty, first),
        valid(ty, second),
        offsets_fit(ty, first),
        offsets_fit(ty, second),
        serialize(ty, first) == serialize(ty, second),
    ensures
        first == second,
{
    lemma_round_trip(ty, first);
    lemma_round_trip(ty, second);
}

/// Decoding accepts what encoding gives and nothing else: bytes decode to
/// a value if and only if the value is valid, its offsets fit, and the
/// bytes are its encoding.
pub proof fn lemma_decode_inverts_encode(ty: SszType, bytes: Seq<u8>, v: Value)
    requires
        wf(ty),
    ensures
        deserialize(ty, bytes) == Ok::<Value, DecodeError>(v) <==> valid(ty, v) && offsets_fit(
            ty,
            v,
        ) && serialize(ty, v) == bytes,
{
    if deserialize(ty, bytes) == Ok::<Value, DecodeError>(v) {
        lemma_decoded_is_valid(ty, bytes);
        lemma_decode_canonical(ty, bytes);
        lemma_decoded_fits(ty, bytes);
    }
    if valid(ty, v) && offsets_fit(ty, v) && serialize(ty, v) == bytes {
        lemma_round_trip(ty, v);
    }
}

/// The bits of a bit vector or bit list come back from their encoding.
pub proof fn lemma_bits_round_trip(ty: SszType, bits: Seq<bool>)
    requires
        wf(ty),
        valid(ty, Value::Bits(bits)),
    ensures
        deserialize(ty, serialize(ty, Value::Bits(bits))) == Ok::<Value, DecodeError>(
            Value::Bits(bits),
        ),
{
    match ty {
        SszType::Bitlist(max) => {
            lemma_bitlist_bits_round_trip(max, bits);
        },
        SszType::Bitvector(n) => {
            lemma_bitvector_bits_round_trip(n, bits);
        },
        _ => {},
    }
}

/// The bits of a bit list come back from their encoding.
proof fn lemma_bitlist_bits_round_trip(max: u64, bits: Seq<bool>)
    requires
        bits.len() <= max,
    ensures
        deserialize(SszType::Bitlist(max), serialize(SszType::Bitlist(max), Value::Bits(bits)))
            == Ok::<Value, DecodeError>(Value::Bits(bits)),
{
    let ty = SszType::Bitlist(max);
    let bytes = bitlist_bytes(bits);
    lemma_bitlist_len(bits);
    lemma_bitlist_unpack(bits);
    assert(serialize(ty, Value::Bits(bits)) == bytes);
    assert(bytes.len() > 0 && bytes.last() != 0);
    assert(crate::bits::bitlist_len(bytes) == bits.len());
    assert(crate::bits::unpack_bits(bytes, bits.len()) == bits);
}

/// The bits of a bit vector come back from their encoding.
proof fn lemma_bitvector_bits_round_trip(n: u64, bits: Seq<bool>)
    requires
        1 <= n,
        bits.len() == n,
    ensures
        deserialize(
            SszType::Bitvector(n),
            serialize(SszType::Bitvector(n), Value::Bits(bits)),
        ) == Ok::<Value, DecodeError>(Value::Bits(bits)),
{
    let ty = SszType::Bitvector(n);
    let bytes = crate::bits::pack_bits(bits);
    lemma_unpack_pack(bits);
    lemma_pack_is_packed(bits);
    assert(serialize(ty, Value::Bits(bits)) == bytes);
    assert(crate::bits::is_packed(bytes, n as nat));
    assert(crate::bits::unpack_bits(bytes, n as nat) == bits);
}

/// What the host is handed for a valid value means that value, when the
/// host hands it back.
pub proof fn lemma_external_round_trip(ty: SszType, v: Value)
    requires
        wf(ty),
        valid(ty, v),
    ensures
        converted(ty, external(ty, v)) == Some(v),
    decreases v, 0nat,
{
    match v {
        Value::Bytes(b) => {
            if ty is Uint256 {
                assert(uint256_bytes(b) =~= b);
            }
        },
        Value::Bits(bits) => {
            lemma_bits_round_trip(ty, bits);
        },
        Value::List(items) => {
            lemma_external_items_round_trip(ty, items, items.len());
            assert(items.subrange(0, items.len() as int) =~= items);
        },
        Value::Container(items) => {
            lemma_external_items_round_trip(ty, items, items.len());
            assert(items.subrange(0, items.len() as int) =~= items);
        },
        _ => {},
    }
}

/// What the host is handed for the first `k` items means those items.
pub proof fn lemma_external_items_round_trip(ty: SszType, items: Seq<Value>, k: nat)
    requires
        wf(ty),
        crate::encode::valid_items(ty, items),
        k <= items.len(),
    ensures
        external_items(ty, items, items.len()).len() == items.len(),
        converted_items(ty, external_items(ty, items, items.len()), k) == Some(
            items.subrange(0, k as int),
        ),
    decreases items, k,
{
    let n = items.len();
    let handed = external_items(ty, items, n);
    lemma_external_items_index(ty, items, n);
    if k == 0 {
        assert(items.subrange(0, 0) =~= Seq::<Value>::empty());
    } else {
        lemma_external_items_round_trip(ty, items, (k - 1) as nat);
        let t = item_ty(ty, k - 1);
        assert(wf(t) && valid(t, items[k - 1]));
        lemma_external_round_trip(t, items[k - 1]);
        assert(handed[k - 1] == external(t, items[k - 1]));
        assert(items.subrange(0, k as int) =~= items.subrange(0, k - 1).push(items[k - 1]));
    }
}

/// What the host is handed for `k` items are `k` items: for each what the
/// host is handed for it.
pub proof fn lemma_external_items_index(ty: SszType, items: Seq<Value>, k: nat)
    requires
        k <= items.len(),
    ensures
        external_items(ty, items, k).len() == k,
        forall|i: int|
            0 <= i < k ==> #[trigger] external_items(ty, items, k)[i] == external(
                item_ty(ty, i),
                items[i],
            ),
    decreases k,
{
    if k > 0 {
        lemma_external_items_index(ty, items, (k - 1) as nat);
    }
}

/// A valid value that is encoded and decoded again, and handed to the
/// host, means the same value when the host hands it back.
pub proof fn lemma_host_round_trip(ty: SszType, v: Value, handed: Value)
    requires
        wf(ty),
        valid(ty, v),
        offsets_fit(ty, v),
        decode_ssz_ensures(ty, serialize(ty, v), Ok(handed)),
    ensures
        handed == external(ty, v),
        converted(ty, handed) == Some(v),
{
    lemma_round_trip(ty, v);
    lemma_external_round_trip(ty, v);
}

/// Zero bytes after the end of the bytes leave every chunk as it was.
pub proof fn lemma_chunk_ignores_trailing_zeros(bytes: Seq<u8>, k: nat, i: nat)
    ensures
        chunk(bytes + zeros(k), i) == chunk(bytes, i),
{
    assert(chunk(bytes + zeros(k), i) =~= chunk(bytes, i));
}

/// Zero bytes after the end of the bytes leave every node of the tree as
/// it was.
pub proof fn lemma_node_ignores_trailing_zeros(bytes: Seq<u8>, k: nat, height: nat, index: nat)
    ensures
        tree_node(bytes + zeros(k), height, index) == tree_node(bytes, height, index),
    decreases height,
{
    if height == 0 {
        lemma_chunk_ignores_trailing_zeros(bytes, k, index);
    } else {
        lemma_node_ignores_trailing_zeros(bytes, k, (height - 1) as nat, 2 * index);
        lemma_node_ignores_trailing_zeros(bytes, k, (height - 1) as nat, 2 * index + 1);
    }
}

/// The leaves that are not written count as zero bytes: zero bytes after
/// the end of the bytes leave the root as it was.
pub proof fn lemma_root_ignores_trailing_zeros(bytes: Seq<u8>, k: nat, leaves: nat)
    ensures
        merkle_root_of(bytes + zeros(k), leaves) == merkle_root_of(bytes, leaves),
{
    lemma_node_ignores_trailing_zeros(bytes, k, tree_depth(leaves), 0);
}

/// A tree is made for a power of two of leaves: two numbers of leaves that
/// give trees of one depth give one root.
pub proof fn lemma_root_depends_on_depth(bytes: Seq<u8>, first: nat, second: nat)
    requires
        tree_depth(first) == tree_depth(second),
    ensures
        merkle_root_of(bytes, first) == merkle_root_of(bytes, second),
{
}

/// The value of a packed type whose encoding is zero bytes.
pub open spec fn zero_of(elem: SszType) -> Value {
    if elem is Bool {
        Value::Bool(false)
    } else {
        Value::Uint(0)
    }
}

/// The digits of zero are zero bytes.
pub proof fn lemma_le_bytes_of_zero(width: nat)
    ensures
        le_bytes(0, width) == zeros(width),
    decreases width,
{
    if width > 0 {
        lemma_le_bytes_of_zero((width - 1) as nat);
    }
    assert(le_bytes(0, width) =~= zeros(width));
}

/// An element added at the end leaves what the elements before it give to
/// the leaves as it was.
pub proof fn lemma_elem_leaves_push(elem: SszType, items: Seq<Value>, last: Value, k: nat)
    requires
        k <= items.len(),
    ensures
        elem_leaves(elem, items.push(last), k) == elem_leaves(elem, items, k),
    decreases k,
{
    if k > 0 {
        lemma_elem_leaves_push(elem, items, last, (k - 1) as nat);
        assert(items.push(last)[k - 1] == items[k - 1]);
    }
}

/// A zero element after the last element of a vector or list of a packed
/// type leaves the root of the tree over the elements as it was: the root
/// of the list changes through the length that is mixed in, and through
/// nothing else.
pub proof fn lemma_trailing_zero_element(ty: SszType, items: Seq<Value>)
    requires
        ty is List,
        is_basic(*ty->List_0),
    ensures
        vec_root(*ty->List_0, items.push(zero_of(*ty->List_0)), ty->List_1 as nat) == vec_root(
            *ty->List_0,
            items,
            ty->List_1 as nat,
        ),
        hash_root(ty, Value::List(items)) == mixed(
            vec_root(*ty->List_0, items, ty->List_1 as nat),
            items.len(),
        ),
        hash_root(ty, Value::List(items.push(zero_of(*ty->List_0)))) == mixed(
            vec_root(*ty->List_0, items, ty->List_1 as nat),
            items.len() + 1,
        ),
{
    let elem = *ty->List_0;
    let zero = zero_of(elem);
    let longer = items.push(zero);
    let before = elem_leaves(elem, items, items.len());
    lemma_elem_leaves_push(elem, items, zero, items.len());
    let piece = serialize(elem, zero);
    assert(elem_leaves(elem, longer, longer.len()) == before + piece);
    match elem {
        SszType::Uint(width) => {
            lemma_le_bytes_of_zero(width as nat);
        },
        _ => {
            assert(piece =~= zeros(1));
        },
    }
    lemma_root_ignores_trailing_zeros(before, piece.len(), chunk_count(elem, ty->List_1 as nat));
}

/// The first `k` items can be converted exactly when each of them can, and
/// then item by item, in order.
pub proof fn lemma_converted_items_index(ty: SszType, items: Seq<Value>, k: nat)
    requires
        k <= items.len(),
    ensures
        converted_items(ty, items, k) is Some <==> forall|i: int|
            0 <= i < k ==> (#[trigger] converted(item_ty(ty, i), items[i])) is Some,
        converted_items(ty, items, k) is Some ==> converted_items(ty, items, k)->Some_0.len()
            == k,
        converted_items(ty, items, k) is Some ==> forall|i: int|
            0 <= i < k ==> #[trigger] converted_items(ty, items, k)->Some_0[i] == converted(
                item_ty(ty, i),
                items[i],
            )->Some_0,
    decreases k,
{
    if k > 0 {
        lemma_converted_items_index(ty, items, (k - 1) as nat);
        let last = converted(item_ty(ty, k - 1), items[k - 1]);
        if converted_items(ty, items, k) is Some {
            assert(converted_items(ty, items, (k - 1) as nat) is Some && last is Some);
            assert forall|i: int| 0 <= i < k implies (#[trigger] converted(
                item_ty(ty, i),
                items[i],
            )) is Some by {
                if i == k - 1 {
                    assert(last is Some);
                }
            }
        }
        if forall|i: int|
            0 <= i < k ==> (#[trigger] converted(item_ty(ty, i), items[i])) is Some {
            assert(last is Some);
            assert forall|i: int| 0 <= i < k - 1 implies (#[trigger] converted(
                item_ty(ty, i),
                items[i],
            )) is Some by {}
            assert(converted_items(ty, items, (k - 1) as nat) is Some);
        }
    }
}

/// A list that the host hands over is converted exactly when it has no
/// more elements than its type allows and each of them can be converted;
/// the list that comes out has as many elements, each the conversion of
/// the one in its place. A longer list is refused, never cut.
pub proof fn lemma_list_conversion(ty: SszType, items: Seq<Value>)
    requires
        ty is List,
    ensures
        converted(ty, Value::List(items)) is Some <==> items.len() <= ty->List_1 && forall|
            i: int,
        |
            0 <= i < items.len() ==> (#[trigger] converted(*ty->List_0, items[i])) is Some,
        converted(ty, Value::List(items)) is Some ==> {
            let done = converted(ty, Value::List(items))->Some_0;
            &&& done is List
            &&& done->List_0.len() == items.len()
            &&& forall|i: int|
                0 <= i < items.len() ==> #[trigger] done->List_0[i] == converted(
                    *ty->List_0,
                    items[i],
                )->Some_0
        },
{
    lemma_converted_items_index(ty, items, items.len());
    assert forall|i: int| 0 <= i < items.len() implies item_ty(ty, i) == *ty->List_0 by {}
    if converted_items(ty, items, items.len()) is Some {
        assert forall|i: int| 0 <= i < items.len() implies (#[trigger] converted(
            *ty->List_0,
            items[i],
        )) is Some by {
            assert(converted(item_ty(ty, i), items[i]) is Some);
        }
    }
    if forall|i: int|
        0 <= i < items.len() ==> (#[trigger] converted(*ty->List_0, items[i])) is Some {
        assert forall|i: int| 0 <= i < items.len() implies (#[trigger] converted(
            item_ty(ty, i),
            items[i],
        )) is Some by {
            assert(converted(*ty->List_0, items[i]) is Some);
        }
    }
}

/// Bytes of a bit list whose sentinel bit lies past the bound of the type
/// are refused when the host hands them over: the bits are not cut to the
/// bound.
pub proof fn lemma_bitlist_conversion_over_bound(max: u64, bytes: Seq<u8>)
    requires
        bytes.len() > 0,
        bytes.last() != 0,
        crate::bits::bitlist_len(bytes) > max,
    ensures
        converted(SszType::Bitlist(max), Value::Bytes(bytes)) is None,
        conversion_failure(SszType::Bitlist(max), Value::Bytes(bytes)) == Failure::Decode(
            DecodeError::ExceedsMaxLength,
        ),
{
}

/// The host hands over a bit list as its encoding, and the bits that come
/// out are the bits that were encoded, as many and each in its place: the
/// sentinel bit is not one of them.
pub proof fn lemma_bitlist_conversion_round_trip(max: u64, bits: Seq<bool>)
    requires
        bits.len() <= max,
    ensures
        converted(SszType::Bitlist(max), Value::Bytes(bitlist_bytes(bits))) == Some(
            Value::Bits(bits),
        ),
{
    let ty = SszType::Bitlist(max);
    lemma_bits_round_trip(ty, bits);
    assert(serialize(ty, Value::Bits(bits)) == bitlist_bytes(bits));
}

/// The host is handed a bit list as its encoding: one byte more than the
/// bits fill, each bit in its place, and above them the sentinel bit as the
/// highest bit that is set.
pub proof fn lemma_bitlist_to_bytes(max: u64, bits: Seq<bool>)
    ensures
        external(SszType::Bitlist(max), Value::Bits(bits)) == Value::Bytes(bitlist_bytes(bits)),
        bitlist_bytes(bits).len() == bits.len() / 8 + 1,
        crate::bits::unpack_bits(bitlist_bytes(bits), bits.len()) == bits,
        bitlist_bytes(bits).last() != 0,
        crate::bits::bitlist_len(bitlist_bytes(bits)) == bits.len(),
{
    lemma_bitlist_handed(max, bits);
    lemma_bitlist_len(bits);
    lemma_bitlist_unpack(bits);
}

/// What the host is handed for a bit list is its encoding.
proof fn lemma_bitlist_handed(max: u64, bits: Seq<bool>)
    ensures
        external(SszType::Bitlist(max), Value::Bits(bits)) == Value::Bytes(bitlist_bytes(bits)),
{
}

/// A list of values of a fixed-size type that the host hands over, each of
/// which can be converted, is encoded whatever its length: the bytes are
/// the encodings of the elements, one after the other, with nothing before,
/// between or after them, so no elements give no bytes.
pub proof fn lemma_encode_ssz_plain_list(
    ty: SszType,
    items: Seq<Value>,
    r: Result<Seq<u8>, NifError>,
)
    requires
        wf(ty),
        is_fixed(ty),
        items.len() <= u64::MAX,
        converted_items(list_of(ty), items, items.len()) is Some,
        encode_ssz_ensures(ty, Value::List(items), r),
    ensures
        r is Ok,
        r->Ok_0.len() == items.len() * fixed_size(ty),
        forall|i: int|
            0 <= i < items.len() ==> #[trigger] r->Ok_0.subrange(
                i * fixed_size(ty),
                (i + 1) * fixed_size(ty),
            ) == serialize(ty, converted(ty, items[i])->Some_0),
{
    let top = list_of(ty);
    let xs = converted_items(top, items, items.len())->Some_0;
    lemma_converted_items_index(top, items, items.len());
    crate::from_elx::lemma_converted_items_valid(top, items, items.len());
    assert(converted(top, Value::List(items)) == Some(Value::List(xs)));
    assert(valid(top, Value::List(xs)));
    lemma_plain_list_round_trip(top, xs);
    assert forall|i: int| 0 <= i < items.len() implies #[trigger] serialize(
        top,
        Value::List(xs),
    ).subrange(i * fixed_size(ty), (i + 1) * fixed_size(ty)) == serialize(
        ty,
        converted(ty, items[i])->Some_0,
    ) by {
        lemma_plain_list_element(top, xs, i);
        assert(item_ty(top, i) == ty);
    }
}

/// The bytes of a valid list come back as the list when they are decoded
/// for the host: as many elements as were encoded, each what the host is
/// handed for the element in its place.
pub proof fn lemma_list_decode_ssz(
    elem: SszType,
    items: Seq<Value>,
    r: Result<Value, NifError>,
)
    requires
        wf(elem),
        valid(list_of(elem), Value::List(items)),
        offsets_fit(list_of(elem), Value::List(items)),
        decode_ssz_ensures(list_of(elem), serialize(list_of(elem), Value::List(items)), r),
    ensures
        r is Ok,
        r->Ok_0 is List,
        r->Ok_0->List_0.len() == items.len(),
        forall|i: int|
            0 <= i < items.len() ==> #[trigger] r->Ok_0->List_0[i] == external(elem, items[i]),
{
    let top = list_of(elem);
    lemma_round_trip(top, Value::List(items));
    lemma_external_items_index(top, items, items.len());
    assert forall|i: int| 0 <= i < items.len() implies item_ty(top, i) == elem by {}
}

} // verus!
