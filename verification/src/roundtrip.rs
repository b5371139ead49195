//! What holds of encoding followed by decoding.

use crate::decode::{
    deserialize, deserialize_items, item_end, item_start, items_from, list_count, next_offset,
    offset_at, DecodeError,
};
use crate::encode::{
    fixed_part, item_ty, items_fit, lemma_items_fit_prefix, offsets_fit, lemma_parts_len,
    lemma_prefix_len_step, lemma_prefix_len_total, lemma_serialize_len, prefix_len, serialize,
    serialize_items, valid_items, var_part,
};
use crate::types::{
    is_fixed, lemma_part_len_positive, part_len, valid, wf, SszType, Value, MAX_LENGTH, OFFSET_LEN,
};
use crate::uint::{
    le_bytes, le_value, lemma_le_bytes_len, lemma_le_value_of_bytes, lemma_pow256_values,
};
use vstd::prelude::*;

verus! {

/// What item `i` adds to the fixed part.
pub open spec fn fixed_piece(ty: SszType, items: Seq<Value>, i: int) -> Seq<u8> {
    let t = item_ty(ty, i);
    if is_fixed(t) {
        serialize(t, items[i])
    } else {
        le_bytes(
            prefix_len(ty, items.len()) + var_part(ty, items, i as nat).len(),
            OFFSET_LEN as nat,
        )
    }
}

/// What item `i` adds to the variable part.
pub open spec fn var_piece(ty: SszType, items: Seq<Value>, i: int) -> Seq<u8> {
    let t = item_ty(ty, i);
    if is_fixed(t) {
        Seq::empty()
    } else {
        serialize(t, items[i])
    }
}

/// The fixed and variable parts of the first `k` items are the beginnings
/// of those of all the items.
proof fn lemma_parts_prefix(ty: SszType, items: Seq<Value>, k: nat, m: nat)
    requires
        k <= m <= items.len(),
    ensures
        fixed_part(ty, items, k).len() <= fixed_part(ty, items, m).len(),
        var_part(ty, items, k).len() <= var_part(ty, items, m).len(),
        fixed_part(ty, items, m).subrange(0, fixed_part(ty, items, k).len() as int)
            == fixed_part(ty, items, k),
        var_part(ty, items, m).subrange(0, var_part(ty, items, k).len() as int) == var_part(
            ty,
            items,
            k,
        ),
    decreases m,
{
    if k < m {
        lemma_parts_prefix(ty, items, k, (m - 1) as nat);
        let fk = fixed_part(ty, items, k);
        let fm1 = fixed_part(ty, items, (m - 1) as nat);
        let fm = fixed_part(ty, items, m);
        assert(fm == fm1 + fixed_piece(ty, items, m - 1));
        assert(fm.subrange(0, fk.len() as int) =~= fm1.subrange(0, fk.len() as int));
        let vk = var_part(ty, items, k);
        let vm1 = var_part(ty, items, (m - 1) as nat);
        let vm = var_part(ty, items, m);
        assert(vm == vm1 + var_piece(ty, items, m - 1));
        assert(vm.subrange(0, vk.len() as int) =~= vm1.subrange(0, vk.len() as int));
    } else {
        assert(fixed_part(ty, items, m).subrange(0, fixed_part(ty, items, k).len() as int)
            =~= fixed_part(ty, items, k));
        assert(var_part(ty, items, m).subrange(0, var_part(ty, items, k).len() as int)
            =~= var_part(ty, items, k));
    }
}

/// Where no item is of variable size, the variable part is empty.
proof fn lemma_var_part_empty(ty: SszType, items: Seq<Value>, k: nat)
    requires
        k <= items.len(),
        forall|i: int| 0 <= i < k ==> is_fixed(#[trigger] item_ty(ty, i)),
    ensures
        var_part(ty, items, k).len() == 0,
    decreases k,
{
    if k > 0 {
        lemma_var_part_empty(ty, items, (k - 1) as nat);
        assert(is_fixed(item_ty(ty, k - 1)));
    }
}

/// Where the pieces of item `i` lie in the bytes of the whole.
pub proof fn lemma_pieces(ty: SszType, items: Seq<Value>, i: int)
    requires
        wf(ty),
        valid_items(ty, items),
        0 <= i < items.len(),
    ensures
        ({
            let n = items.len();
            let bytes = serialize_items(ty, items);
            let total = prefix_len(ty, n);
            let va = var_part(ty, items, i as nat).len();
            let vb = var_part(ty, items, (i + 1) as nat).len();
            &&& prefix_len(ty, (i + 1) as nat) == prefix_len(ty, i as nat) + part_len(
                item_ty(ty, i),
            )
            &&& prefix_len(ty, (i + 1) as nat) <= total
            &&& va <= vb
            &&& total + vb <= bytes.len()
            &&& bytes.len() == total + var_part(ty, items, n).len()
            &&& bytes.subrange(
                prefix_len(ty, i as nat) as int,
                prefix_len(ty, (i + 1) as nat) as int,
            ) == fixed_piece(ty, items, i)
            &&& bytes.subrange((total + va) as int, (total + vb) as int) == var_piece(ty, items, i)
        }),
{
    let n = items.len();
    let fixed = fixed_part(ty, items, n);
    let variable = var_part(ty, items, n);
    let bytes = serialize_items(ty, items);
    let total = prefix_len(ty, n);
    lemma_parts_len(ty, items, n);
    lemma_parts_len(ty, items, i as nat);
    lemma_parts_len(ty, items, (i + 1) as nat);
    lemma_prefix_len_step(ty, i as nat);
    lemma_parts_prefix(ty, items, i as nat, (i + 1) as nat);
    lemma_parts_prefix(ty, items, (i + 1) as nat, n);
    let fa = fixed_part(ty, items, i as nat);
    let fb = fixed_part(ty, items, (i + 1) as nat);
    let va = var_part(ty, items, i as nat);
    let vb = var_part(ty, items, (i + 1) as nat);
    assert(fb == fa + fixed_piece(ty, items, i));
    assert(vb == va + var_piece(ty, items, i));
    assert(fixed.subrange(fa.len() as int, fb.len() as int) =~= fixed.subrange(
        0,
        fb.len() as int,
    ).subrange(fa.len() as int, fb.len() as int));
    assert(fb.subrange(fa.len() as int, fb.len() as int) =~= fixed_piece(ty, items, i));
    assert(bytes.subrange(fa.len() as int, fb.len() as int) =~= fixed.subrange(
        fa.len() as int,
        fb.len() as int,
    ));
    assert(variable.subrange(va.len() as int, vb.len() as int) =~= variable.subrange(
        0,
        vb.len() as int,
    ).subrange(va.len() as int, vb.len() as int));
    assert(vb.subrange(va.len() as int, vb.len() as int) =~= var_piece(ty, items, i));
    assert(bytes.subrange((total + va.len()) as int, (total + vb.len()) as int) =~= variable.subrange(
        va.len() as int,
        vb.len() as int,
    ));
}

/// The offset written for a variable-size item is where its bytes start.
proof fn lemma_offset_at(ty: SszType, items: Seq<Value>, i: int)
    requires
        wf(ty),
        valid_items(ty, items),
        0 <= i < items.len(),
        !is_fixed(item_ty(ty, i)),
        items_fit(ty, items, items.len()),
    ensures
        offset_at(ty, serialize_items(ty, items), i) == prefix_len(ty, items.len()) + var_part(
            ty,
            items,
            i as nat,
        ).len(),
{
    lemma_pieces(ty, items, i);
    lemma_pow256_values();
    lemma_items_fit_prefix(ty, items, (i + 1) as nat, items.len());
    let at = prefix_len(ty, items.len()) + var_part(ty, items, i as nat).len();
    assert(at <= MAX_LENGTH);
    lemma_le_value_of_bytes(at, OFFSET_LEN as nat);
}

/// The variable-size item before index `j` ends where the variable part of
/// the first `j` items ends.
proof fn lemma_next_offset(ty: SszType, items: Seq<Value>, j: nat)
    requires
        wf(ty),
        valid_items(ty, items),
        j <= items.len(),
        items_fit(ty, items, items.len()),
    ensures
        next_offset(ty, serialize_items(ty, items), items.len(), j) == prefix_len(
            ty,
            items.len(),
        ) + var_part(ty, items, j).len(),
    decreases items.len() - j,
{
    let n = items.len();
    if j >= n {
        lemma_parts_len(ty, items, n);
    } else if !is_fixed(item_ty(ty, j as int)) {
        lemma_offset_at(ty, items, j as int);
    } else {
        lemma_next_offset(ty, items, j + 1);
    }
}

/// Decoding the bytes of a valid value gives the value back, whatever the
/// length of the bytes, where each offset among them fits in four bytes.
pub proof fn lemma_round_trip(ty: SszType, v: Value)
    requires
        wf(ty),
        valid(ty, v),
        offsets_fit(ty, v),
    ensures
        deserialize(ty, serialize(ty, v)) == Ok::<Value, DecodeError>(v),
    decreases v, 0nat,
{
    match v {
        Value::Bool(_) => {},
        Value::Uint(x) => {
            let width = ty->Uint_0 as nat;
            lemma_le_bytes_len(x as nat, width);
            lemma_le_value_of_bytes(x as nat, width);
        },
        Value::Bytes(_) => {},
        Value::Bits(bits) => {
            crate::laws::lemma_bits_round_trip(ty, bits);
        },
        Value::List(items) => {
            lemma_round_trip_count(ty, items);
            lemma_round_trip_items(ty, items);
        },
        Value::Container(items) => {
            lemma_round_trip_items(ty, items);
        },
    }
}

/// The number of elements of a list can be read back from its bytes.
pub proof fn lemma_round_trip_count(ty: SszType, items: Seq<Value>)
    requires
        wf(ty),
        valid_items(ty, items),
        items_fit(ty, items, items.len()),
    ensures
        ty is List ==> list_count(ty, serialize_items(ty, items)) == Ok::<nat, DecodeError>(
            items.len(),
        ),
{
    if let SszType::List(elem, max) = ty {
        let n = items.len();
        let bytes = serialize_items(ty, items);
        lemma_parts_len(ty, items, n);
        lemma_prefix_len_total(ty, n);
        lemma_part_len_positive(*elem);
        let size = part_len(*elem);
        if is_fixed(*elem) {
            assert forall|i: int| 0 <= i < n implies is_fixed(#[trigger] item_ty(ty, i)) by {}
            lemma_var_part_empty(ty, items, n);
            assert(bytes.len() == n * size);
            assert((n * size) % size == 0 && (n * size) / size == n) by (nonlinear_arith)
                requires
                    size > 0,
            ;
        } else if n > 0 {
            lemma_pieces(ty, items, 0);
            assert(prefix_len(ty, 0) == 0);
            lemma_offset_at(ty, items, 0);
            assert(bytes.subrange(0, OFFSET_LEN as int) == bytes.subrange(
                prefix_len(ty, 0) as int,
                prefix_len(ty, 0) + OFFSET_LEN,
            ));
            assert(size == 4);
            assert(var_part(ty, items, 0).len() == 0);
            let first = le_value(bytes.subrange(0, OFFSET_LEN as int));
            assert(first == n * 4);
            assert(first <= bytes.len());
            assert(first % 4 == 0 && first / 4 == n);
        } else {
            assert(bytes.len() == 0);
        }
    }
}

/// The items of a vector, list or container can be read back from its
/// bytes.
proof fn lemma_round_trip_items(ty: SszType, items: Seq<Value>)
    requires
        wf(ty),
        valid_items(ty, items),
        items_fit(ty, items, items.len()),
    ensures
        deserialize_items(ty, serialize_items(ty, items), items.len()) == Ok::<
            Seq<Value>,
            DecodeError,
        >(items),
    decreases items, 1nat,
{
    let n = items.len();
    let bytes = serialize_items(ty, items);
    lemma_parts_len(ty, items, n);
    lemma_next_offset(ty, items, 0);
    lemma_round_trip_from(ty, items, n);
    assert(items.subrange(0, n as int) =~= items);
}

/// The first `k` items can be read back.
proof fn lemma_round_trip_from(ty: SszType, items: Seq<Value>, k: nat)
    requires
        wf(ty),
        valid_items(ty, items),
        items_fit(ty, items, items.len()),
        k <= items.len(),
    ensures
        items_from(ty, serialize_items(ty, items), items.len(), k) == Ok::<
            Seq<Value>,
            DecodeError,
        >(items.subrange(0, k as int)),
    decreases items, 0nat, k,
{
    let n = items.len();
    let bytes = serialize_items(ty, items);
    if k == 0 {
        assert(items.subrange(0, 0) =~= Seq::<Value>::empty());
    } else {
        let i = (k - 1) as int;
        lemma_round_trip_from(ty, items, (k - 1) as nat);
        lemma_pieces(ty, items, i);
        lemma_next_offset(ty, items, k);
        let t = item_ty(ty, i);
        assert(wf(t) && valid(t, items[i]));
        lemma_items_fit_prefix(ty, items, k, n);
        assert(offsets_fit(t, items[i]));
        let start = item_start(ty, bytes, i);
        let end = item_end(ty, bytes, n, i);
        if is_fixed(t) {
            lemma_serialize_len(t, items[i]);
        } else {
            lemma_offset_at(ty, items, i);
        }
        assert(bytes.subrange(start as int, end as int) == serialize(t, items[i]));
        lemma_round_trip(t, items[i]);
        assert(items.subrange(0, k as int) =~= items.subrange(0, k - 1).push(items[i]));
    }
}

} // verus!
