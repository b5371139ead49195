//! Descriptors of one shape are one type: whatever is said of the values
//! and bytes of one holds of the other.

use crate::decode::{
    deserialize, deserialize_items, has_variable, item_end, item_start, items_from, list_count,
    next_offset,
};
use crate::encode::{
    fixed_part, is_item_count, item_ty, prefix_len, serialize, valid_items, var_part, items_fit,
    offsets_fit,
};
use crate::from_elx::{
    conversion_failure, converted, converted_items, external, external_items, items_failure,
};
use crate::merkle::{
    chunk_count, elem_leaves, field_leaves, hash_root, hashable, is_basic, leaf_count,
    packing_factor, vec_root,
};
use crate::from_elx::{lemma_converted_is_valid, lemma_converted_items_valid};
use crate::helpers::{
    decode_ssz_ensures, encode_ssz_ensures, hash_list_ensures, hash_tree_root_ensures,
    hash_vector_ensures, list_of, top_type, NifError,
};
use crate::laws::lemma_decoded_is_valid;
use crate::schema::{shape_of, shapes_upto, FieldShape};
use crate::types::{
    fields_part_len, fixed_size, is_fixed, part_len, valid, wf, Field, SszType, Value,
};
use vstd::prelude::*;

verus! {

/// Whether two descriptors have one shape.
pub open spec fn same_shape(a: SszType, b: SszType) -> bool {
    shape_of(a) == shape_of(b)
}

/// The shapes of the first `k` fields are `k` shapes: for each field its
/// name and the shape of its type.
pub proof fn lemma_shapes_upto_index(fields: Seq<Field>, k: nat)
    requires
        k <= fields.len(),
    ensures
        shapes_upto(fields, k).len() == k,
        forall|i: int|
            0 <= i < k ==> #[trigger] shapes_upto(fields, k)[i] == (FieldShape {
                name: fields[i].name@,
                shape: shape_of(fields[i].ty),
            }),
    decreases k,
{
    if k > 0 {
        lemma_shapes_upto_index(fields, (k - 1) as nat);
    }
}

/// Whether two descriptors are built alike: the same variant with the same
/// numbers, over elements or fields of the same shapes.
pub open spec fn built_alike(a: SszType, b: SszType) -> bool {
    match a {
        SszType::Vector(ea, n) => b matches SszType::Vector(eb, m) && n == m && same_shape(
            *ea,
            *eb,
        ),
        SszType::List(ea, n) => b matches SszType::List(eb, m) && n == m && same_shape(*ea, *eb),
        SszType::Container(fa) => b matches SszType::Container(fb) && fa.len() == fb.len()
            && forall|i: int|
            0 <= i < fa.len() ==> same_shape(#[trigger] fa[i].ty, fb[i].ty),
        _ => a == b,
    }
}

/// Descriptors of one shape are built alike.
pub proof fn lemma_built_alike(a: SszType, b: SszType)
    requires
        same_shape(a, b),
    ensures
        built_alike(a, b),
        a is Vector || a is List || a is Container ==> forall|i: int|
            (a is Container ==> 0 <= i < a->Container_0.len()) ==> same_shape(
                #[trigger] item_ty(a, i),
                item_ty(b, i),
            ),
{
    match a {
        SszType::Container(fa) => {
            let fb = b->Container_0;
            lemma_shapes_upto_index(fa@, fa.len() as nat);
            lemma_shapes_upto_index(fb@, fb.len() as nat);
            let sa = shapes_upto(fa@, fa.len() as nat);
            let sb = shapes_upto(fb@, fb.len() as nat);
            assert(sa == sb);
            assert forall|i: int| 0 <= i < fa.len() implies same_shape(
                #[trigger] fa[i].ty,
                fb[i].ty,
            ) by {
                assert(sa[i] == sb[i]);
            }
        },
        _ => {},
    }
}

/// The fixed parts of the fields of two containers of one shape are of one
/// length.
proof fn lemma_fields_part_len_alike(fa: Seq<Field>, fb: Seq<Field>, k: nat)
    requires
        fa.len() == fb.len(),
        k <= fa.len(),
        forall|i: int| 0 <= i < fa.len() ==> part_len(#[trigger] fa[i].ty) == part_len(fb[i].ty),
    ensures
        fields_part_len(fa, k) == fields_part_len(fb, k),
    decreases k,
{
    if k > 0 {
        lemma_fields_part_len_alike(fa, fb, (k - 1) as nat);
        assert(part_len(fa[k - 1].ty) == part_len(fb[k - 1].ty));
    }
}

/// Descriptors of one shape are both of fixed size or both not, of one
/// size, and both well-formed or both not.
pub proof fn lemma_sizes_alike(a: SszType, b: SszType)
    requires
        same_shape(a, b),
    ensures
        is_fixed(a) == is_fixed(b),
        fixed_size(a) == fixed_size(b),
        part_len(a) == part_len(b),
        wf(a) == wf(b),
    decreases a,
{
    lemma_built_alike(a, b);
    match a {
        SszType::Vector(ea, _) => {
            lemma_sizes_alike(*ea, *b->Vector_0);
        },
        SszType::List(ea, _) => {
            lemma_sizes_alike(*ea, *b->List_0);
        },
        SszType::Container(fa) => {
            let fb = b->Container_0;
            assert forall|i: int| 0 <= i < fa.len() implies is_fixed(#[trigger] fa[i].ty)
                == is_fixed(fb[i].ty) && part_len(fa[i].ty) == part_len(fb[i].ty) && wf(fa[i].ty)
                == wf(fb[i].ty) by {
                lemma_sizes_alike(fa[i].ty, fb[i].ty);
            }
            lemma_fields_part_len_alike(fa@, fb@, fa.len() as nat);
            if is_fixed(a) {
                assert forall|i: int| 0 <= i < fb.len() implies is_fixed(#[trigger] fb[i].ty) by {
                    assert(is_fixed(fa[i].ty));
                }
            }
            if is_fixed(b) {
                assert forall|i: int| 0 <= i < fa.len() implies is_fixed(#[trigger] fa[i].ty) by {
                    assert(is_fixed(fb[i].ty));
                }
            }
            if wf(a) {
                assert forall|i: int| 0 <= i < fb.len() implies wf(#[trigger] fb[i].ty) by {
                    assert(wf(fa[i].ty));
                }
            }
            if wf(b) {
                assert forall|i: int| 0 <= i < fa.len() implies wf(#[trigger] fa[i].ty) by {
                    assert(wf(fb[i].ty));
                }
            }
        },
        _ => {},
    }
}

/// The fixed parts of the first `k` items of two descriptors of one shape
/// are of one length.
pub proof fn lemma_prefix_len_alike(a: SszType, b: SszType, k: nat)
    requires
        same_shape(a, b),
        a matches SszType::Container(fields) ==> k <= fields.len(),
    ensures
        prefix_len(a, k) == prefix_len(b, k),
{
    reveal(prefix_len);
    lemma_built_alike(a, b);
    match a {
        SszType::Vector(ea, _) => {
            lemma_sizes_alike(*ea, *b->Vector_0);
        },
        SszType::List(ea, _) => {
            lemma_sizes_alike(*ea, *b->List_0);
        },
        SszType::Container(fa) => {
            let fb = b->Container_0;
            assert forall|i: int| 0 <= i < fa.len() implies part_len(#[trigger] fa[i].ty)
                == part_len(fb[i].ty) by {
                lemma_sizes_alike(fa[i].ty, fb[i].ty);
            }
            lemma_fields_part_len_alike(fa@, fb@, k);
        },
        _ => {},
    }
}

/// Whether the items of a value can be held against the items of a type:
/// a vector or list has one type for all, a container one for each field.
pub open spec fn items_in_reach(a: SszType, n: nat) -> bool {
    match a {
        SszType::Vector(_, _) => true,
        SszType::List(_, _) => true,
        SszType::Container(fields) => n <= fields.len(),
        _ => false,
    }
}

/// A value is of both of two descriptors of one shape, or of neither.
pub proof fn lemma_valid_alike(a: SszType, b: SszType, v: Value)
    requires
        same_shape(a, b),
    ensures
        valid(a, v) == valid(b, v),
    decreases v,
{
    lemma_built_alike(a, b);
    match v {
        Value::List(items) => {
            if a is Vector || a is List {
                assert forall|i: int| 0 <= i < items.len() implies valid(
                    item_ty(a, i),
                    #[trigger] items[i],
                ) == valid(item_ty(b, i), items[i]) by {
                    lemma_valid_alike(item_ty(a, i), item_ty(b, i), items[i]);
                }
            }
        },
        Value::Container(items) => {
            if a is Container && items.len() == a->Container_0.len() {
                assert forall|i: int| 0 <= i < items.len() implies valid(
                    item_ty(a, i),
                    #[trigger] items[i],
                ) == valid(item_ty(b, i), items[i]) by {
                    lemma_valid_alike(item_ty(a, i), item_ty(b, i), items[i]);
                }
            }
        },
        _ => {},
    }
}

/// A valid value has one encoding under two descriptors of one shape.
pub proof fn lemma_serialize_alike(a: SszType, b: SszType, v: Value)
    requires
        same_shape(a, b),
        valid(a, v),
    ensures
        serialize(a, v) == serialize(b, v),
    decreases v, 0nat,
{
    lemma_built_alike(a, b);
    match v {
        Value::List(items) => {
            lemma_parts_alike(a, b, items, items.len());
        },
        Value::Container(items) => {
            lemma_parts_alike(a, b, items, items.len());
        },
        _ => {},
    }
}

/// The parts of the first `k` items are the same under two descriptors of
/// one shape.
pub proof fn lemma_parts_alike(a: SszType, b: SszType, items: Seq<Value>, k: nat)
    requires
        same_shape(a, b),
        valid_items(a, items),
        k <= items.len(),
    ensures
        fixed_part(a, items, k) == fixed_part(b, items, k),
        var_part(a, items, k) == var_part(b, items, k),
    decreases items, k,
{
    lemma_built_alike(a, b);
    if k > 0 {
        let i = k - 1;
        lemma_parts_alike(a, b, items, (k - 1) as nat);
        lemma_prefix_len_alike(a, b, items.len());
        assert(same_shape(item_ty(a, i), item_ty(b, i)));
        lemma_sizes_alike(item_ty(a, i), item_ty(b, i));
        assert(valid(item_ty(a, i), items[i]));
        lemma_serialize_alike(item_ty(a, i), item_ty(b, i), items[i]);
    }
}

/// The offsets of a valid value fit under both of two descriptors of one
/// shape, or under neither.
pub proof fn lemma_offsets_fit_alike(a: SszType, b: SszType, v: Value)
    requires
        same_shape(a, b),
        valid(a, v),
    ensures
        offsets_fit(a, v) == offsets_fit(b, v),
    decreases v, 0nat,
{
    lemma_built_alike(a, b);
    match v {
        Value::List(items) => {
            lemma_items_fit_alike(a, b, items, items.len());
        },
        Value::Container(items) => {
            lemma_items_fit_alike(a, b, items, items.len());
        },
        _ => {},
    }
}

/// The offsets of the first `k` items fit under both of two descriptors of
/// one shape, or under neither.
pub proof fn lemma_items_fit_alike(a: SszType, b: SszType, items: Seq<Value>, k: nat)
    requires
        same_shape(a, b),
        valid_items(a, items),
        k <= items.len(),
    ensures
        items_fit(a, items, k) == items_fit(b, items, k),
    decreases items, k,
{
    lemma_built_alike(a, b);
    if k > 0 {
        let i = k - 1;
        lemma_items_fit_alike(a, b, items, (k - 1) as nat);
        lemma_prefix_len_alike(a, b, items.len());
        lemma_parts_alike(a, b, items, (k - 1) as nat);
        assert(same_shape(item_ty(a, i), item_ty(b, i)));
        lemma_sizes_alike(item_ty(a, i), item_ty(b, i));
        assert(valid(item_ty(a, i), items[i]));
        lemma_offsets_fit_alike(item_ty(a, i), item_ty(b, i), items[i]);
    }
}

/// Where the next variable-size item starts is the same under two
/// descriptors of one shape.
proof fn lemma_next_offset_alike(a: SszType, b: SszType, bytes: Seq<u8>, n: nat, j: nat)
    requires
        same_shape(a, b),
        is_item_count(a, n),
    ensures
        next_offset(a, bytes, n, j) == next_offset(b, bytes, n, j),
    decreases n - j,
{
    lemma_built_alike(a, b);
    if j < n {
        assert(same_shape(item_ty(a, j as int), item_ty(b, j as int)));
        lemma_sizes_alike(item_ty(a, j as int), item_ty(b, j as int));
        lemma_prefix_len_alike(a, b, j);
        lemma_next_offset_alike(a, b, bytes, n, j + 1);
    }
}

/// Bytes hold the same under two descriptors of one shape: the same value,
/// or they break the same rule.
pub proof fn lemma_deserialize_alike(a: SszType, b: SszType, bytes: Seq<u8>)
    requires
        same_shape(a, b),
    ensures
        deserialize(a, bytes) == deserialize(b, bytes),
    decreases a, 1nat, 0nat,
{
    lemma_built_alike(a, b);
    match a {
        SszType::Vector(_, n) => {
            lemma_deserialize_items_alike(a, b, bytes, n as nat);
        },
        SszType::List(ea, _) => {
            lemma_sizes_alike(*ea, *b->List_0);
            assert(list_count(a, bytes) == list_count(b, bytes));
            if list_count(a, bytes) is Ok {
                lemma_deserialize_items_alike(a, b, bytes, list_count(a, bytes)->Ok_0);
            }
        },
        SszType::Container(fields) => {
            lemma_deserialize_items_alike(a, b, bytes, fields.len() as nat);
        },
        _ => {},
    }
}

/// Bytes hold the same `n` items under two descriptors of one shape.
pub proof fn lemma_deserialize_items_alike(a: SszType, b: SszType, bytes: Seq<u8>, n: nat)
    requires
        same_shape(a, b),
        is_item_count(a, n),
    ensures
        deserialize_items(a, bytes, n) == deserialize_items(b, bytes, n),
    decreases a, 0nat, n + 1,
{
    lemma_built_alike(a, b);
    lemma_prefix_len_alike(a, b, n);
    lemma_next_offset_alike(a, b, bytes, n, 0);
    lemma_items_from_alike(a, b, bytes, n, n);
    assert forall|i: int| 0 <= i < n implies is_fixed(#[trigger] item_ty(a, i)) == is_fixed(
        item_ty(b, i),
    ) by {
        lemma_sizes_alike(item_ty(a, i), item_ty(b, i));
    }
    if has_variable(a, n) {
        let i = choose|i: int| 0 <= i < n && !is_fixed(#[trigger] item_ty(a, i));
        assert(!is_fixed(item_ty(b, i)));
    }
    if has_variable(b, n) {
        let i = choose|i: int| 0 <= i < n && !is_fixed(#[trigger] item_ty(b, i));
        assert(!is_fixed(item_ty(a, i)));
    }
}

/// Bytes hold the same first `k` items under two descriptors of one shape.
proof fn lemma_items_from_alike(a: SszType, b: SszType, bytes: Seq<u8>, n: nat, k: nat)
    requires
        same_shape(a, b),
        is_item_count(a, n),
        k <= n,
    ensures
        items_from(a, bytes, n, k) == items_from(b, bytes, n, k),
    decreases a, 0nat, k,
{
    lemma_built_alike(a, b);
    if k > 0 {
        let i = k - 1;
        lemma_items_from_alike(a, b, bytes, n, (k - 1) as nat);
        assert(same_shape(item_ty(a, i), item_ty(b, i)));
        lemma_sizes_alike(item_ty(a, i), item_ty(b, i));
        lemma_prefix_len_alike(a, b, i as nat);
        lemma_next_offset_alike(a, b, bytes, n, k);
        assert(item_start(a, bytes, i) == item_start(b, bytes, i));
        assert(item_end(a, bytes, n, i) == item_end(b, bytes, n, i));
        let part = bytes.subrange(
            item_start(a, bytes, i) as int,
            item_end(a, bytes, n, i) as int,
        );
        lemma_deserialize_alike(item_ty(a, i), item_ty(b, i), part);
    }
}

/// The host means the same by a value under two descriptors of one shape,
/// and where it means nothing, for the same reason.
pub proof fn lemma_converted_alike(a: SszType, b: SszType, v: Value)
    requires
        same_shape(a, b),
    ensures
        converted(a, v) == converted(b, v),
        conversion_failure(a, v) == conversion_failure(b, v),
    decreases v, 0nat,
{
    lemma_built_alike(a, b);
    lemma_valid_alike(a, b, v);
    match v {
        Value::List(items) => {
            if a is Vector || a is List {
                lemma_converted_items_alike(a, b, items, items.len());
            }
        },
        Value::Container(items) => {
            if a is Container && items.len() == a->Container_0.len() {
                lemma_converted_items_alike(a, b, items, items.len());
            }
        },
        _ => {},
    }
}

/// The host means the same by the first `k` items under two descriptors of
/// one shape.
pub proof fn lemma_converted_items_alike(a: SszType, b: SszType, items: Seq<Value>, k: nat)
    requires
        same_shape(a, b),
        items_in_reach(a, items.len()),
        k <= items.len(),
    ensures
        converted_items(a, items, k) == converted_items(b, items, k),
        items_failure(a, items, k) == items_failure(b, items, k),
    decreases items, k,
{
    lemma_built_alike(a, b);
    if k > 0 {
        let i = k - 1;
        lemma_converted_items_alike(a, b, items, (k - 1) as nat);
        assert(same_shape(item_ty(a, i), item_ty(b, i)));
        lemma_converted_alike(item_ty(a, i), item_ty(b, i), items[i]);
    }
}

/// The host is handed the same for a valid value under two descriptors of
/// one shape.
pub proof fn lemma_external_alike(a: SszType, b: SszType, v: Value)
    requires
        same_shape(a, b),
        valid(a, v),
    ensures
        external(a, v) == external(b, v),
    decreases v, 0nat,
{
    lemma_built_alike(a, b);
    match v {
        Value::List(items) => {
            lemma_external_items_alike(a, b, items, items.len());
        },
        Value::Container(items) => {
            lemma_external_items_alike(a, b, items, items.len());
        },
        _ => {},
    }
}

/// The host is handed the same for the first `k` items.
pub proof fn lemma_external_items_alike(a: SszType, b: SszType, items: Seq<Value>, k: nat)
    requires
        same_shape(a, b),
        valid_items(a, items),
        k <= items.len(),
    ensures
        external_items(a, items, k) == external_items(b, items, k),
    decreases items, k,
{
    lemma_built_alike(a, b);
    if k > 0 {
        let i = k - 1;
        lemma_external_items_alike(a, b, items, (k - 1) as nat);
        assert(same_shape(item_ty(a, i), item_ty(b, i)));
        assert(valid(item_ty(a, i), items[i]));
        lemma_external_alike(item_ty(a, i), item_ty(b, i), items[i]);
    }
}

/// Elements of two descriptors of one shape are packed alike into chunks.
pub proof fn lemma_packing_alike(a: SszType, b: SszType, size: nat)
    requires
        same_shape(a, b),
    ensures
        is_basic(a) == is_basic(b),
        packing_factor(a) == packing_factor(b),
        chunk_count(a, size) == chunk_count(b, size),
{
    lemma_built_alike(a, b);
}

/// The trees of two descriptors of one shape have as many leaves, and can
/// both be built or both not.
pub proof fn lemma_hashable_alike(a: SszType, b: SszType)
    requires
        same_shape(a, b),
    ensures
        leaf_count(a) == leaf_count(b),
        hashable(a) == hashable(b),
    decreases a,
{
    lemma_built_alike(a, b);
    match a {
        SszType::Vector(ea, n) => {
            lemma_hashable_alike(*ea, *b->Vector_0);
            lemma_packing_alike(*ea, *b->Vector_0, n as nat);
        },
        SszType::List(ea, n) => {
            lemma_hashable_alike(*ea, *b->List_0);
            lemma_packing_alike(*ea, *b->List_0, n as nat);
        },
        SszType::Container(fa) => {
            let fb = b->Container_0;
            assert forall|i: int| 0 <= i < fa.len() implies hashable(#[trigger] fa[i].ty)
                == hashable(fb[i].ty) by {
                lemma_hashable_alike(fa[i].ty, fb[i].ty);
            }
            if hashable(a) {
                assert forall|i: int| 0 <= i < fb.len() implies hashable(#[trigger] fb[i].ty) by {
                    assert(hashable(fa[i].ty));
                }
            }
            if hashable(b) {
                assert forall|i: int| 0 <= i < fa.len() implies hashable(#[trigger] fa[i].ty) by {
                    assert(hashable(fb[i].ty));
                }
            }
        },
        _ => {},
    }
}

/// A valid value has one root under two descriptors of one shape.
pub proof fn lemma_hash_alike(a: SszType, b: SszType, v: Value)
    requires
        same_shape(a, b),
        valid(a, v),
    ensures
        hash_root(a, v) == hash_root(b, v),
    decreases v, 0nat,
{
    lemma_built_alike(a, b);
    lemma_hashable_alike(a, b);
    match v {
        Value::List(items) => {
            match a {
                SszType::Vector(ea, n) => {
                    lemma_vec_root_alike(*ea, *b->Vector_0, items, n as nat);
                },
                SszType::List(ea, n) => {
                    lemma_vec_root_alike(*ea, *b->List_0, items, n as nat);
                },
                _ => {},
            }
        },
        Value::Container(items) => {
            lemma_field_leaves_alike(a, b, items, items.len());
        },
        _ => {},
    }
}

/// The tree over valid elements has one root under two element types of
/// one shape.
pub proof fn lemma_vec_root_alike(ea: SszType, eb: SszType, items: Seq<Value>, size: nat)
    requires
        same_shape(ea, eb),
        forall|i: int| 0 <= i < items.len() ==> valid(ea, #[trigger] items[i]),
    ensures
        vec_root(ea, items, size) == vec_root(eb, items, size),
    decreases items, items.len() + 1,
{
    lemma_packing_alike(ea, eb, size);
    lemma_elem_leaves_alike(ea, eb, items, items.len());
}

/// The first `k` elements give the same to the leaves under two element
/// types of one shape.
pub proof fn lemma_elem_leaves_alike(ea: SszType, eb: SszType, items: Seq<Value>, k: nat)
    requires
        same_shape(ea, eb),
        forall|i: int| 0 <= i < items.len() ==> valid(ea, #[trigger] items[i]),
        k <= items.len(),
    ensures
        elem_leaves(ea, items, k) == elem_leaves(eb, items, k),
    decreases items, k,
{
    lemma_packing_alike(ea, eb, 0);
    if k > 0 {
        lemma_elem_leaves_alike(ea, eb, items, (k - 1) as nat);
        assert(valid(ea, items[k - 1]));
        lemma_serialize_alike(ea, eb, items[k - 1]);
        lemma_hash_alike(ea, eb, items[k - 1]);
    }
}

/// The first `k` fields give the same to the leaves under two containers
/// of one shape.
pub proof fn lemma_field_leaves_alike(a: SszType, b: SszType, items: Seq<Value>, k: nat)
    requires
        same_shape(a, b),
        a is Container,
        valid(a, Value::Container(items)),
        k <= items.len(),
    ensures
        field_leaves(a->Container_0@, items, k) == field_leaves(b->Container_0@, items, k),
    decreases items, k,
{
    lemma_built_alike(a, b);
    if k > 0 {
        let i = k - 1;
        lemma_field_leaves_alike(a, b, items, (k - 1) as nat);
        assert(same_shape(item_ty(a, i), item_ty(b, i)));
        assert(valid(item_ty(a, i), items[i]));
        lemma_hash_alike(item_ty(a, i), item_ty(b, i), items[i]);
    }
}

/// Descriptors of one shape are one type: they are both well-formed or
/// both not, the same values are theirs, bytes hold the same under both,
/// the host means the same under both, and a valid value has one encoding,
/// one root and one form for the host.
pub proof fn lemma_same_shape_alike(a: SszType, b: SszType, v: Value, bytes: Seq<u8>)
    requires
        same_shape(a, b),
    ensures
        wf(a) == wf(b),
        is_fixed(a) == is_fixed(b),
        fixed_size(a) == fixed_size(b),
        hashable(a) == hashable(b),
        valid(a, v) == valid(b, v),
        deserialize(a, bytes) == deserialize(b, bytes),
        converted(a, v) == converted(b, v),
        conversion_failure(a, v) == conversion_failure(b, v),
        valid(a, v) ==> serialize(a, v) == serialize(b, v),
        valid(a, v) ==> offsets_fit(a, v) == offsets_fit(b, v),
        valid(a, v) ==> hash_root(a, v) == hash_root(b, v),
        valid(a, v) ==> external(a, v) == external(b, v),
{
    lemma_sizes_alike(a, b);
    lemma_hashable_alike(a, b);
    lemma_valid_alike(a, b, v);
    lemma_deserialize_alike(a, b, bytes);
    lemma_converted_alike(a, b, v);
    if valid(a, v) {
        lemma_serialize_alike(a, b, v);
        lemma_offsets_fit_alike(a, b, v);
        lemma_hash_alike(a, b, v);
        lemma_external_alike(a, b, v);
    }
}

/// The lists of any number of elements of two descriptors of one shape
/// are of one shape.
pub proof fn lemma_list_of_alike(a: SszType, b: SszType)
    requires
        same_shape(a, b),
    ensures
        same_shape(list_of(a), list_of(b)),
        wf(list_of(a)) == wf(a),
{
}

/// What `encode_ssz` may return is the same for two descriptors of one
/// shape.
pub proof fn lemma_encode_ssz_alike(a: SszType, b: SszType, v: Value, r: Result<Seq<u8>, NifError>)
    requires
        same_shape(a, b),
        wf(a),
    ensures
        encode_ssz_ensures(a, v, r) == encode_ssz_ensures(b, v, r),
{
    lemma_list_of_alike(a, b);
    let ta = top_type(a, v);
    let tb = top_type(b, v);
    assert(same_shape(ta, tb));
    lemma_converted_alike(ta, tb, v);
    if converted(ta, v) is Some {
        lemma_converted_is_valid(ta, v);
        lemma_serialize_alike(ta, tb, converted(ta, v)->Some_0);
        lemma_offsets_fit_alike(ta, tb, converted(ta, v)->Some_0);
    }
}

/// What `decode_ssz` may return is the same for two descriptors of one
/// shape.
pub proof fn lemma_decode_ssz_alike(
    a: SszType,
    b: SszType,
    bytes: Seq<u8>,
    r: Result<Value, NifError>,
)
    requires
        same_shape(a, b),
        wf(a),
    ensures
        decode_ssz_ensures(a, bytes, r) == decode_ssz_ensures(b, bytes, r),
{
    lemma_deserialize_alike(a, b, bytes);
    if deserialize(a, bytes) is Ok {
        lemma_decoded_is_valid(a, bytes);
        lemma_external_alike(a, b, deserialize(a, bytes)->Ok_0);
    }
}

/// What `hash_tree_root` may return is the same for two descriptors of one
/// shape.
pub proof fn lemma_hash_tree_root_alike(
    a: SszType,
    b: SszType,
    v: Value,
    r: Result<Seq<u8>, NifError>,
)
    requires
        same_shape(a, b),
        wf(a),
    ensures
        hash_tree_root_ensures(a, v, r) == hash_tree_root_ensures(b, v, r),
{
    lemma_converted_alike(a, b, v);
    lemma_hashable_alike(a, b);
    if converted(a, v) is Some {
        lemma_converted_is_valid(a, v);
        lemma_hash_alike(a, b, converted(a, v)->Some_0);
    }
}

/// What `hash_vector_tree_root` and `hash_list_tree_root` may return is
/// the same for two descriptors of one shape.
pub proof fn lemma_hash_list_alike(
    a: SszType,
    b: SszType,
    items: Seq<Value>,
    max_size: nat,
    r: Result<Seq<u8>, NifError>,
)
    requires
        same_shape(a, b),
        wf(a),
    ensures
        hash_vector_ensures(a, items, max_size, r) == hash_vector_ensures(b, items, max_size, r),
        hash_list_ensures(a, items, max_size, r) == hash_list_ensures(b, items, max_size, r),
{
    lemma_list_of_alike(a, b);
    let la = list_of(a);
    let lb = list_of(b);
    lemma_converted_items_alike(la, lb, items, items.len());
    lemma_hashable_alike(a, b);
    lemma_packing_alike(a, b, max_size);
    if converted_items(la, items, items.len()) is Some {
        let xs = converted_items(la, items, items.len())->Some_0;
        lemma_converted_items_valid(la, items, items.len());
        assert forall|i: int| 0 <= i < xs.len() implies valid(a, #[trigger] xs[i]) by {
            assert(item_ty(la, i) == a);
        }
        lemma_vec_root_alike(a, b, xs, max_size);
    }
}

} // verus!
