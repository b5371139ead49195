//! Decoding accepts one form only: bytes that decode are the encoding of
//! the value that they decode to.

use crate::bits::{
    bit, bitlist_bytes, bitlist_len, byte_bit, high_bit, is_packed, pack_bits, packed_byte, pow2,
    unpack_bits,
};
use crate::decode::{
    deserialize, deserialize_items, item_end, item_start, items_from, lemma_items_from_err,
    lemma_items_from_step, lemma_prefix_len_monotonic, list_count, next_offset, offset_at,
    DecodeError,
};
use crate::encode::{
    fixed_part, is_item_count, item_ty, items_fit, offsets_fit, lemma_prefix_len_step,
    lemma_prefix_len_total, prefix_len, serialize, serialize_items, var_part,
};

use crate::types::{
    MAX_LENGTH, is_fixed, lemma_part_len_positive, part_len, wf, SszType, Value, OFFSET_LEN,
};
use crate::uint::{
    le_bytes, le_value, lemma_le_bytes_of_value, lemma_le_value_bound, lemma_pow256_values,
};
use vstd::prelude::*;

verus! {

/// A byte is the sum of its bits.
proof fn lemma_byte_is_sum_of_bits(b: u8)
    ensures
        b as nat == (if byte_bit(b, 0) {
            1nat
        } else {
            0nat
        }) + (if byte_bit(b, 1) {
            2nat
        } else {
            0nat
        }) + (if byte_bit(b, 2) {
            4nat
        } else {
            0nat
        }) + (if byte_bit(b, 3) {
            8nat
        } else {
            0nat
        }) + (if byte_bit(b, 4) {
            16nat
        } else {
            0nat
        }) + (if byte_bit(b, 5) {
            32nat
        } else {
            0nat
        }) + (if byte_bit(b, 6) {
            64nat
        } else {
            0nat
        }) + (if byte_bit(b, 7) {
            128nat
        } else {
            0nat
        }),
{
    let x = b as u32;
    assert(x == (x / 1) % 2 + 2 * ((x / 2) % 2) + 4 * ((x / 4) % 2) + 8 * ((x / 8) % 2) + 16 * ((x
        / 16) % 2) + 32 * ((x / 32) % 2) + 64 * ((x / 64) % 2) + 128 * ((x / 128) % 2))
        by (bit_vector)
        requires
            x < 256,
    ;
}

/// A byte below `2^r` has no bit set at position `r` or above.
proof fn lemma_high_bits_unset(b: u8, r: int, k: int)
    requires
        0 <= r <= k < 8,
        (b as nat) < pow2(r),
    ensures
        !byte_bit(b, k),
{
}

/// Bit `k` of the bits unpacked from `bytes`, where it is one of them.
proof fn lemma_unpacked_bit(bytes: Seq<u8>, n: nat, j: int, k: int)
    requires
        0 <= k < 8,
        0 <= j,
    ensures
        bit(unpack_bits(bytes, n), 8 * j + k) == if 8 * j + k < n && byte_bit(bytes[j], k) {
            1nat
        } else {
            0nat
        },
{
    if 8 * j + k < n {
        assert((8 * j + k) / 8 == j);
        assert((8 * j + k) % 8 == k);
    }
}

/// Packing the bits unpacked from packed bytes gives the bytes.
pub proof fn lemma_pack_unpack(bytes: Seq<u8>, n: nat)
    requires
        is_packed(bytes, n),
    ensures
        pack_bits(unpack_bits(bytes, n)) == bytes,
{
    let bits = unpack_bits(bytes, n);
    let packed = pack_bits(bits);
    assert(packed.len() == bytes.len());
    assert forall|j: int| 0 <= j < bytes.len() implies packed[j] == bytes[j] by {
        lemma_byte_is_sum_of_bits(bytes[j]);
        lemma_unpacked_bit(bytes, n, j, 0);
        lemma_unpacked_bit(bytes, n, j, 1);
        lemma_unpacked_bit(bytes, n, j, 2);
        lemma_unpacked_bit(bytes, n, j, 3);
        lemma_unpacked_bit(bytes, n, j, 4);
        lemma_unpacked_bit(bytes, n, j, 5);
        lemma_unpacked_bit(bytes, n, j, 6);
        lemma_unpacked_bit(bytes, n, j, 7);
        if 8 * j + 8 > n {
            let r = (n % 8) as int;
            assert(j == bytes.len() - 1);
            assert(bytes[j] == bytes.last());
            assert(n == 8 * j + r);
            assert forall|k: int| r <= k < 8 implies !byte_bit(bytes[j], k) by {
                lemma_high_bits_unset(bytes[j], r, k);
            }
        }
        assert(packed_byte(bits, j) == bytes[j] as nat);
    }
    assert(packed =~= bytes);
}

/// The bytes of a bit list that decodes are the encoding of its bits.
pub proof fn lemma_bitlist_canonical(bytes: Seq<u8>)
    requires
        bytes.len() > 0,
        bytes.last() != 0,
    ensures
        bitlist_bytes(unpack_bits(bytes, bitlist_len(bytes) as nat)) == bytes,
{
    let n = bitlist_len(bytes) as nat;
    let h = high_bit(bytes.last());
    let last = bytes.len() - 1;
    let data = unpack_bits(bytes, n);
    let bits = data.push(true);
    let packed = pack_bits(bits);
    assert(n == 8 * last + h);
    assert(packed.len() == bytes.len());
    assert forall|j: int| 0 <= j < bytes.len() implies packed[j] == bytes[j] by {
        lemma_byte_is_sum_of_bits(bytes[j]);
        assert forall|k: int| 0 <= k < 8 implies bit(bits, 8 * j + k) == if byte_bit(
            bytes[j],
            k,
        ) {
            1nat
        } else {
            0nat
        } by {
            let i = 8 * j + k;
            if i < n {
                assert(bits[i] == data[i]);
                assert(i / 8 == j && i % 8 == k);
            } else if i == n {
                assert(j == last && k == h);
                assert(bits[i]);
                assert(byte_bit(bytes.last(), h));
            } else {
                assert(j == last && k > h);
                assert(!byte_bit(bytes.last(), k));
            }
        }
        assert(bit(bits, 8 * j + 0) == if byte_bit(bytes[j], 0) {
            1nat
        } else {
            0nat
        });
        assert(packed_byte(bits, j) == bytes[j] as nat);
    }
    assert(packed =~= bytes);
}

/// The items decoded first are those of any longer run.
proof fn lemma_items_from_prefix(ty: SszType, bytes: Seq<u8>, n: nat, a: nat, b: nat)
    requires
        a <= b <= n,
        items_from(ty, bytes, n, b) is Ok,
    ensures
        items_from(ty, bytes, n, a) is Ok,
        items_from(ty, bytes, n, a)->Ok_0.len() == a,
        items_from(ty, bytes, n, a)->Ok_0 == items_from(ty, bytes, n, b)->Ok_0.subrange(
            0,
            a as int,
        ),
    decreases b - a,
{
    if items_from(ty, bytes, n, a) is Err {
        lemma_items_from_err(ty, bytes, n, a, b);
    }
    lemma_items_from_len(ty, bytes, n, a);
    lemma_items_from_len(ty, bytes, n, b);
    if a < b {
        lemma_items_from_prefix(ty, bytes, n, a + 1, b);
        let longer = items_from(ty, bytes, n, a + 1)->Ok_0;
        let shorter = items_from(ty, bytes, n, a)->Ok_0;
        assert(longer.subrange(0, a as int) =~= shorter);
        assert(items_from(ty, bytes, n, b)->Ok_0.subrange(0, a as int) =~= longer.subrange(
            0,
            a as int,
        ));
    } else {
        assert(items_from(ty, bytes, n, b)->Ok_0.subrange(0, a as int) =~= items_from(
            ty,
            bytes,
            n,
            a,
        )->Ok_0);
    }
}

/// As many items come out as were asked for.
proof fn lemma_items_from_len(ty: SszType, bytes: Seq<u8>, n: nat, k: nat)
    requires
        k <= n,
        items_from(ty, bytes, n, k) is Ok,
    ensures
        items_from(ty, bytes, n, k)->Ok_0.len() == k,
    decreases k,
{
    if k > 0 {
        if items_from(ty, bytes, n, (k - 1) as nat) is Err {
            lemma_items_from_err(ty, bytes, n, (k - 1) as nat, k);
        }
        lemma_items_from_len(ty, bytes, n, (k - 1) as nat);
    }
}

/// Whether `items` are what `bytes` hold as the `n` items of a value of
/// type `ty`.
pub open spec fn holds_items(ty: SszType, bytes: Seq<u8>, n: nat, items: Seq<Value>) -> bool {
    &&& prefix_len(ty, n) <= bytes.len()
    &&& next_offset(ty, bytes, n, 0) == prefix_len(ty, n)
    &&& items_from(ty, bytes, n, n) == Ok::<Seq<Value>, DecodeError>(items)
    &&& items.len() == n
}

/// Items that decode are held by the bytes.
proof fn lemma_holds_items(ty: SszType, bytes: Seq<u8>, n: nat)
    requires
        deserialize_items(ty, bytes, n) is Ok,
    ensures
        holds_items(ty, bytes, n, deserialize_items(ty, bytes, n)->Ok_0),
{
    lemma_items_from_len(ty, bytes, n, n);
}

/// Item `i` is what its part of the bytes decodes to.
proof fn lemma_item_decoded(ty: SszType, bytes: Seq<u8>, n: nat, items: Seq<Value>, i: int)
    requires
        is_item_count(ty, n),
        0 <= i < n,
        holds_items(ty, bytes, n, items),
    ensures
        item_start(ty, bytes, i) <= item_end(ty, bytes, n, i) <= bytes.len(),
        deserialize(
            item_ty(ty, i),
            bytes.subrange(item_start(ty, bytes, i) as int, item_end(ty, bytes, n, i) as int),
        ) == Ok::<Value, DecodeError>(items[i]),
{
    lemma_items_from_prefix(ty, bytes, n, i as nat, n);
    lemma_items_from_prefix(ty, bytes, n, (i + 1) as nat, n);
    lemma_items_from_step(ty, bytes, n, i as nat);
    let before = items_from(ty, bytes, n, i as nat)->Ok_0;
    let upto = items_from(ty, bytes, n, (i + 1) as nat)->Ok_0;
    assert(upto == items.subrange(0, i + 1));
    assert(upto[i] == items[i]);
}

/// Bytes that decode are the encoding of the value that they decode to.
pub proof fn lemma_decode_canonical(ty: SszType, bytes: Seq<u8>)
    requires
        wf(ty),
        deserialize(ty, bytes) is Ok,
    ensures
        serialize(ty, deserialize(ty, bytes)->Ok_0) == bytes,
    decreases ty, 1nat, 0nat,
{
    match ty {
        SszType::Vector(_, n) => {
            lemma_sequence_canonical(ty, bytes, n as nat);
        },
        SszType::List(_, _) => {
            lemma_sequence_canonical(ty, bytes, list_count(ty, bytes)->Ok_0);
        },
        SszType::Container(fields) => {
            lemma_sequence_canonical(ty, bytes, fields.len() as nat);
        },
        _ => {
            lemma_leaf_canonical(ty, bytes);
        },
    }
}

/// The bytes of a value without items that decodes are its encoding.
proof fn lemma_leaf_canonical(ty: SszType, bytes: Seq<u8>)
    requires
        wf(ty),
        !(ty is Vector || ty is List || ty is Container),
        deserialize(ty, bytes) is Ok,
    ensures
        serialize(ty, deserialize(ty, bytes)->Ok_0) == bytes,
{
    match ty {
        SszType::Bool => {
            lemma_bool_canonical(bytes);
        },
        SszType::Uint(width) => {
            lemma_uint_canonical(width, bytes);
        },
        SszType::Bitvector(n) => {
            lemma_bitvector_canonical(n, bytes);
        },
        SszType::Bitlist(max) => {
            lemma_bitlist_type_canonical(max, bytes);
        },
        SszType::Uint256 => {},
        SszType::ByteArray(_) => {},
        SszType::ByteVector(_) => {},
        SszType::ByteList(_) => {},
        _ => {},
    }
}

/// A byte that decodes as a boolean is its encoding.
proof fn lemma_bool_canonical(bytes: Seq<u8>)
    requires
        deserialize(SszType::Bool, bytes) is Ok,
    ensures
        serialize(SszType::Bool, deserialize(SszType::Bool, bytes)->Ok_0) == bytes,
{
    assert(serialize(SszType::Bool, deserialize(SszType::Bool, bytes)->Ok_0) =~= bytes);
}

/// Bytes that decode as a bit list are the encoding of its bits.
proof fn lemma_bitlist_type_canonical(max: u64, bytes: Seq<u8>)
    requires
        deserialize(SszType::Bitlist(max), bytes) is Ok,
    ensures
        serialize(SszType::Bitlist(max), deserialize(SszType::Bitlist(max), bytes)->Ok_0)
            == bytes,
{
    let ty = SszType::Bitlist(max);
    let bits = unpack_bits(bytes, bitlist_len(bytes) as nat);
    assert(bytes.len() > 0 && bytes.last() != 0);
    assert(deserialize(ty, bytes) == Ok::<Value, DecodeError>(Value::Bits(bits)));
    assert(serialize(ty, Value::Bits(bits)) == bitlist_bytes(bits));
    lemma_bitlist_canonical(bytes);
}

/// Bytes that decode as a number are its encoding.
proof fn lemma_uint_canonical(width: u64, bytes: Seq<u8>)
    requires
        deserialize(SszType::Uint(width), bytes) is Ok,
    ensures
        serialize(SszType::Uint(width), deserialize(SszType::Uint(width), bytes)->Ok_0)
            == bytes,
{
    lemma_le_bytes_of_value(bytes);
    lemma_le_value_bound(bytes);
    lemma_pow256_values();
    crate::uint::lemma_pow256_le(width as nat, 8);
}

/// Bytes that decode as a bit vector are the encoding of its bits.
proof fn lemma_bitvector_canonical(n: u64, bytes: Seq<u8>)
    requires
        deserialize(SszType::Bitvector(n), bytes) is Ok,
    ensures
        serialize(SszType::Bitvector(n), deserialize(SszType::Bitvector(n), bytes)->Ok_0)
            == bytes,
{
    assert(is_packed(bytes, n as nat));
    lemma_pack_unpack(bytes, n as nat);
}

/// The bytes that hold the items of a vector, list or container are the
/// encoding of the items.
proof fn lemma_sequence_canonical(ty: SszType, bytes: Seq<u8>, n: nat)
    requires
        wf(ty),
        is_item_count(ty, n),
        deserialize_items(ty, bytes, n) is Ok,
    ensures
        serialize_items(ty, deserialize_items(ty, bytes, n)->Ok_0) == bytes,
    decreases ty, 0nat, n + 1,
{
    let items = deserialize_items(ty, bytes, n)->Ok_0;
    lemma_holds_items(ty, bytes, n);
    lemma_items_canonical(ty, bytes, n, items, n);
    assert(serialize_items(ty, items) =~= bytes);
}

/// The fixed part of the first `k` items is the beginning of the bytes;
/// their variable part lies between the fixed part of all the items and
/// where the next variable-size item starts.
proof fn lemma_items_canonical(ty: SszType, bytes: Seq<u8>, n: nat, items: Seq<Value>, k: nat)
    requires
        wf(ty),
        is_item_count(ty, n),
        k <= n,
        holds_items(ty, bytes, n, items),
    ensures
        prefix_len(ty, n) <= next_offset(ty, bytes, n, k) <= bytes.len(),
        prefix_len(ty, k) <= prefix_len(ty, n),
        fixed_part(ty, items, k) == bytes.subrange(0, prefix_len(ty, k) as int),
        var_part(ty, items, k) == bytes.subrange(
            prefix_len(ty, n) as int,
            next_offset(ty, bytes, n, k) as int,
        ),
    decreases ty, 0nat, k,
{
    let total = prefix_len(ty, n);
    lemma_prefix_len_total(ty, n);
    lemma_prefix_len_monotonic(ty, k, n);
    if k == 0 {
        assert(fixed_part(ty, items, 0) =~= bytes.subrange(0, 0));
        assert(var_part(ty, items, 0) =~= bytes.subrange(total as int, total as int));
    } else {
        let i = (k - 1) as int;
        let t = item_ty(ty, i);
        lemma_items_canonical(ty, bytes, n, items, (k - 1) as nat);
        lemma_item_decoded(ty, bytes, n, items, i);
        lemma_prefix_len_step(ty, (k - 1) as nat);
        assert(wf(t));
        lemma_part_len_positive(t);
        let start = item_start(ty, bytes, i);
        let end = item_end(ty, bytes, n, i);
        let part = bytes.subrange(start as int, end as int);
        lemma_decode_canonical(t, part);
        assert(serialize(t, items[i]) == part);
        lemma_item_step(ty, bytes, n, items, k, part);
    }
}

/// One more item extends the parts by the bytes that hold it.
proof fn lemma_item_step(
    ty: SszType,
    bytes: Seq<u8>,
    n: nat,
    items: Seq<Value>,
    k: nat,
    part: Seq<u8>,
)
    requires
        1 <= k <= n,
        items.len() == n,
        prefix_len(ty, k) == prefix_len(ty, (k - 1) as nat) + part_len(item_ty(ty, k - 1)),
        prefix_len(ty, k) <= prefix_len(ty, n) <= bytes.len(),
        item_start(ty, bytes, k - 1) <= item_end(ty, bytes, n, k - 1) <= bytes.len(),
        part == bytes.subrange(
            item_start(ty, bytes, k - 1) as int,
            item_end(ty, bytes, n, k - 1) as int,
        ),
        serialize(item_ty(ty, k - 1), items[k - 1]) == part,
        prefix_len(ty, n) <= next_offset(ty, bytes, n, (k - 1) as nat) <= bytes.len(),
        fixed_part(ty, items, (k - 1) as nat) == bytes.subrange(
            0,
            prefix_len(ty, (k - 1) as nat) as int,
        ),
        var_part(ty, items, (k - 1) as nat) == bytes.subrange(
            prefix_len(ty, n) as int,
            next_offset(ty, bytes, n, (k - 1) as nat) as int,
        ),
    ensures
        prefix_len(ty, n) <= next_offset(ty, bytes, n, k) <= bytes.len(),
        fixed_part(ty, items, k) == bytes.subrange(0, prefix_len(ty, k) as int),
        var_part(ty, items, k) == bytes.subrange(
            prefix_len(ty, n) as int,
            next_offset(ty, bytes, n, k) as int,
        ),
{
    let i = k - 1;
    let t = item_ty(ty, i);
    let total = prefix_len(ty, n);
    let pos = prefix_len(ty, (k - 1) as nat);
    let fixed_before = fixed_part(ty, items, (k - 1) as nat);
    let var_before = var_part(ty, items, (k - 1) as nat);
    if is_fixed(t) {
        assert(next_offset(ty, bytes, n, (k - 1) as nat) == next_offset(ty, bytes, n, k));
        assert(fixed_part(ty, items, k) == fixed_before + part);
        assert(fixed_before + part =~= bytes.subrange(0, prefix_len(ty, k) as int));
        assert(var_part(ty, items, k) =~= var_before);
    } else {
        let field = bytes.subrange(pos as int, pos + OFFSET_LEN);
        lemma_le_bytes_of_value(field);
        assert(next_offset(ty, bytes, n, (k - 1) as nat) == offset_at(ty, bytes, i));
        assert(total + var_before.len() == le_value(field));
        assert(fixed_part(ty, items, k) == fixed_before + le_bytes(
            total + var_before.len(),
            OFFSET_LEN as nat,
        ));
        assert(fixed_before + field =~= bytes.subrange(0, prefix_len(ty, k) as int));
        assert(var_part(ty, items, k) == var_before + part);
        assert(var_before + part =~= bytes.subrange(
            total as int,
            next_offset(ty, bytes, n, k) as int,
        ));
    }
}

/// The offsets among bytes that decode fit in four bytes: each was read
/// from four bytes.
pub proof fn lemma_decoded_fits(ty: SszType, bytes: Seq<u8>)
    requires
        wf(ty),
        deserialize(ty, bytes) is Ok,
    ensures
        offsets_fit(ty, deserialize(ty, bytes)->Ok_0),
    decreases ty, 1nat, 0nat,
{
    match ty {
        SszType::Vector(_, n) => {
            lemma_decoded_items_fit(ty, bytes, n as nat);
        },
        SszType::List(_, _) => {
            lemma_decoded_items_fit(ty, bytes, list_count(ty, bytes)->Ok_0);
        },
        SszType::Container(fields) => {
            lemma_decoded_items_fit(ty, bytes, fields.len() as nat);
        },
        _ => {},
    }
}

/// The offsets among the bytes that hold the items of a vector, list or
/// container fit in four bytes.
proof fn lemma_decoded_items_fit(ty: SszType, bytes: Seq<u8>, n: nat)
    requires
        wf(ty),
        is_item_count(ty, n),
        deserialize_items(ty, bytes, n) is Ok,
    ensures
        deserialize_items(ty, bytes, n)->Ok_0.len() == n,
        items_fit(ty, deserialize_items(ty, bytes, n)->Ok_0, n),
    decreases ty, 0nat, n + 1,
{
    let items = deserialize_items(ty, bytes, n)->Ok_0;
    lemma_holds_items(ty, bytes, n);
    lemma_held_items_fit(ty, bytes, n, items, n);
}

/// The offsets of the first `k` items that bytes hold fit in four bytes.
proof fn lemma_held_items_fit(ty: SszType, bytes: Seq<u8>, n: nat, items: Seq<Value>, k: nat)
    requires
        wf(ty),
        is_item_count(ty, n),
        k <= n,
        holds_items(ty, bytes, n, items),
    ensures
        items_fit(ty, items, k),
    decreases ty, 0nat, k,
{
    if k > 0 {
        let i = (k - 1) as int;
        let t = item_ty(ty, i);
        lemma_held_items_fit(ty, bytes, n, items, (k - 1) as nat);
        lemma_items_canonical(ty, bytes, n, items, (k - 1) as nat);
        lemma_item_decoded(ty, bytes, n, items, i);
        assert(wf(t));
        let part = bytes.subrange(
            item_start(ty, bytes, i) as int,
            item_end(ty, bytes, n, i) as int,
        );
        lemma_decoded_fits(t, part);
        assert(offsets_fit(t, items[i]));
        if !is_fixed(t) {
            let pos = prefix_len(ty, (k - 1) as nat);
            let field = bytes.subrange(pos as int, pos + OFFSET_LEN);
            lemma_items_canonical(ty, bytes, n, items, k);
            lemma_prefix_len_step(ty, (k - 1) as nat);
            assert(field.len() == 4);
            lemma_le_value_bound(field);
            lemma_pow256_values();
            let at = next_offset(ty, bytes, n, (k - 1) as nat);
            assert(at == offset_at(ty, bytes, i));
            assert(at == le_value(field));
            assert(var_part(ty, items, (k - 1) as nat).len() == at - prefix_len(ty, n));
            assert(prefix_len(ty, items.len()) + var_part(ty, items, (k - 1) as nat).len()
                <= MAX_LENGTH);
        }
    }
}

} // verus!
