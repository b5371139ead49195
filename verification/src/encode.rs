//! Serialization: the bytes of a value of a given type.

use crate::bits::{bitlist_bytes, pack_bits};
use crate::bits::push_packed_bits;
use crate::types::{
    fields_part_len, fixed_size, is_fixed, lemma_view_items, part_len, seq_view, valid, wf, SszType,
    SszValue, Value, MAX_LENGTH, OFFSET_LEN,
};
use crate::uint::{
    le_bytes, lemma_le_bytes_len, lemma_pow256_le, lemma_pow256_values, pow256, push_le,
};
use vstd::prelude::*;

verus! {

/// Why a value could not be encoded.
#[derive(Debug, Clone, Copy, PartialEq, Eq, Structural)]
pub enum EncodeError {
    /// The value is not of the type, or is over one of the type's bounds.
    InvalidValue,
    /// An offset that has to be written does not fit in its four bytes.
    TooLarge,
}

/// The type of item `i` of a vector, list or container.
pub open spec fn item_ty(ty: SszType, i: int) -> SszType {
    match ty {
        SszType::Vector(elem, _) => *elem,
        SszType::List(elem, _) => *elem,
        SszType::Container(fields) => fields[i].ty,
        _ => ty,
    }
}

/// The length of the fixed part that the first `k` items of a vector, list
/// or container take up.
#[verifier::opaque]
pub open spec fn prefix_len(ty: SszType, k: nat) -> nat {
    match ty {
        SszType::Vector(elem, _) => k * part_len(*elem),
        SszType::List(elem, _) => k * part_len(*elem),
        SszType::Container(fields) => fields_part_len(fields@, k),
        _ => 0,
    }
}

/// The bytes of `v` as a value of type `ty`.
pub open spec fn serialize(ty: SszType, v: Value) -> Seq<u8>
    decreases v, 0nat,
{
    match v {
        Value::Bool(b) => if b {
            seq![1u8]
        } else {
            seq![0u8]
        },
        Value::Uint(x) => match ty {
            SszType::Uint(width) => le_bytes(x as nat, width as nat),
            _ => Seq::empty(),
        },
        Value::Bytes(b) => b,
        Value::Bits(bits) => match ty {
            SszType::Bitlist(_) => bitlist_bytes(bits),
            _ => pack_bits(bits),
        },
        Value::List(items) => fixed_part(ty, items, items.len()) + var_part(
            ty,
            items,
            items.len(),
        ),
        Value::Container(items) => fixed_part(ty, items, items.len()) + var_part(
            ty,
            items,
            items.len(),
        ),
    }
}

/// The bytes of a vector, list or container with the given items: the
/// fixed part, then the variable part.
pub open spec fn serialize_items(ty: SszType, items: Seq<Value>) -> Seq<u8> {
    fixed_part(ty, items, items.len()) + var_part(ty, items, items.len())
}

/// The fixed part that the first `k` items contribute: a fixed-size item
/// its bytes, a variable-size item the offset at which its bytes start.
pub open spec fn fixed_part(ty: SszType, items: Seq<Value>, k: nat) -> Seq<u8>
    decreases items, k,
{
    if k == 0 || k > items.len() {
        Seq::empty()
    } else {
        let t = item_ty(ty, k - 1);
        fixed_part(ty, items, (k - 1) as nat) + if is_fixed(t) {
            serialize(t, items[k - 1])
        } else {
            le_bytes(
                prefix_len(ty, items.len()) + var_part(ty, items, (k - 1) as nat).len(),
                OFFSET_LEN as nat,
            )
        }
    }
}

/// The variable part that the first `k` items contribute: the bytes of the
/// variable-size items among them, in order.
pub open spec fn var_part(ty: SszType, items: Seq<Value>, k: nat) -> Seq<u8>
    decreases items, k,
{
    if k == 0 || k > items.len() {
        Seq::empty()
    } else {
        let t = item_ty(ty, k - 1);
        var_part(ty, items, (k - 1) as nat) + if is_fixed(t) {
            Seq::empty()
        } else {
            serialize(t, items[k - 1])
        }
    }
}

/// Whether `items` are the items of a valid vector, list or container of
/// type `ty`.
pub open spec fn valid_items(ty: SszType, items: Seq<Value>) -> bool {
    match ty {
        SszType::Vector(_, _) => valid(ty, Value::List(items)),
        SszType::List(_, _) => valid(ty, Value::List(items)),
        SszType::Container(_) => valid(ty, Value::Container(items)),
        _ => false,
    }
}

/// Whether `n` items can be the items of a value of type `ty`.
pub open spec fn is_item_count(ty: SszType, n: nat) -> bool {
    match ty {
        SszType::Vector(_, len) => n == len,
        SszType::List(_, _) => true,
        SszType::Container(fields) => n == fields.len(),
        _ => false,
    }
}

/// The fixed part of no items is empty; that of all the items of a vector
/// or container is the fixed part of its type; that of `n` elements of a
/// list is `n` times the part of one.
pub proof fn lemma_prefix_len_total(ty: SszType, n: nat)
    requires
        is_item_count(ty, n),
    ensures
        prefix_len(ty, 0) == 0,
        !(ty is List) ==> prefix_len(ty, n) == fixed_size(ty),
        ty matches SszType::List(elem, _) ==> prefix_len(ty, n) == n * part_len(*elem),
{
    reveal(prefix_len);
    match ty {
        SszType::Vector(elem, _) => {
            assert(0 * part_len(*elem) == 0) by (nonlinear_arith);
        },
        SszType::List(elem, _) => {
            assert(0 * part_len(*elem) == 0) by (nonlinear_arith);
        },
        _ => {},
    }
}

/// One more item adds its part to the fixed part.
pub proof fn lemma_prefix_len_step(ty: SszType, k: nat)
    requires
        ty is Vector || ty is List || (ty matches SszType::Container(fields) && k < fields.len()),
    ensures
        prefix_len(ty, k + 1) == prefix_len(ty, k) + part_len(item_ty(ty, k as int)),
{
    reveal(prefix_len);
    match ty {
        SszType::Vector(elem, _) => {
            assert((k + 1) * part_len(*elem) == k * part_len(*elem) + part_len(*elem))
                by (nonlinear_arith);
        },
        SszType::List(elem, _) => {
            assert((k + 1) * part_len(*elem) == k * part_len(*elem) + part_len(*elem))
                by (nonlinear_arith);
        },
        _ => {},
    }
}

/// A value of a fixed-size type has the type's length; the fixed part of
/// the first `k` items of a sequence has the length that the types give.
pub proof fn lemma_serialize_len(ty: SszType, v: Value)
    requires
        wf(ty),
        valid(ty, v),
        is_fixed(ty),
    ensures
        serialize(ty, v).len() == fixed_size(ty),
    decreases v, 0nat,
{
    match v {
        Value::Uint(x) => {
            lemma_le_bytes_len(x as nat, fixed_size(ty));
        },
        Value::List(items) => {
            lemma_parts_len(ty, items, items.len());
            lemma_prefix_len_total(ty, items.len());
        },
        Value::Container(items) => {
            lemma_parts_len(ty, items, items.len());
            lemma_prefix_len_total(ty, items.len());
        },
        _ => {},
    }
}

/// The fixed part of the first `k` items has the length that their types
/// give; where every item is of fixed size, the variable part is empty.
pub proof fn lemma_parts_len(ty: SszType, items: Seq<Value>, k: nat)
    requires
        wf(ty),
        valid_items(ty, items),
        k <= items.len(),
    ensures
        fixed_part(ty, items, k).len() == prefix_len(ty, k),
        is_fixed(ty) ==> var_part(ty, items, k).len() == 0,
    decreases items, k,
{
    lemma_prefix_len_total(ty, items.len());
    if k > 0 {
        lemma_parts_len(ty, items, (k - 1) as nat);
        lemma_prefix_len_step(ty, (k - 1) as nat);
        let t = item_ty(ty, k - 1);
        assert(wf(t) && valid(t, items[k - 1]));
        if is_fixed(t) {
            lemma_serialize_len(t, items[k - 1]);
        } else {
            lemma_le_bytes_len(
                prefix_len(ty, items.len()) + var_part(ty, items, (k - 1) as nat).len(),
                OFFSET_LEN as nat,
            );
        }
    }
}

/// The parts grow with the number of items.
pub proof fn lemma_parts_monotonic(ty: SszType, items: Seq<Value>, a: nat, b: nat)
    requires
        a <= b <= items.len(),
    ensures
        fixed_part(ty, items, a).len() <= fixed_part(ty, items, b).len(),
        var_part(ty, items, a).len() <= var_part(ty, items, b).len(),
    decreases b,
{
    if a < b {
        lemma_parts_monotonic(ty, items, a, (b - 1) as nat);
    }
}

/// Whether each offset that the encoding of `v` holds, at any depth, fits
/// in the four bytes of an offset. A value without variable-size items
/// holds no offset.
pub open spec fn offsets_fit(ty: SszType, v: Value) -> bool
    decreases v, 0nat,
{
    match v {
        Value::List(items) => items_fit(ty, items, items.len()),
        Value::Container(items) => items_fit(ty, items, items.len()),
        _ => true,
    }
}

/// Whether the offsets written for the first `k` items, and those inside
/// them, fit in the four bytes of an offset.
pub open spec fn items_fit(ty: SszType, items: Seq<Value>, k: nat) -> bool
    decreases items, k,
{
    if k == 0 || k > items.len() {
        true
    } else {
        let t = item_ty(ty, k - 1);
        &&& items_fit(ty, items, (k - 1) as nat)
        &&& offsets_fit(t, items[k - 1])
        &&& is_fixed(t) || prefix_len(ty, items.len()) + var_part(
            ty,
            items,
            (k - 1) as nat,
        ).len() <= MAX_LENGTH
    }
}

/// Whether a type is a list of fixed-size elements, whose encoding is the
/// encodings of its elements, one after the other, and nothing else.
pub open spec fn is_plain_list(ty: SszType) -> bool {
    ty matches SszType::List(elem, _) && is_fixed(*elem)
}

/// Where the offsets of the first items fit, those of fewer items do.
pub proof fn lemma_items_fit_prefix(ty: SszType, items: Seq<Value>, a: nat, b: nat)
    requires
        a <= b <= items.len(),
        items_fit(ty, items, b),
    ensures
        items_fit(ty, items, a),
    decreases b,
{
    if a < b {
        lemma_items_fit_prefix(ty, items, a, (b - 1) as nat);
    }
}

/// A valid value of a fixed-size type holds no offset, so its offsets fit
/// whatever its length.
pub proof fn lemma_fixed_size_fits(ty: SszType, v: Value)
    requires
        is_fixed(ty),
        valid(ty, v),
    ensures
        offsets_fit(ty, v),
    decreases v, 0nat,
{
    match v {
        Value::List(items) => {
            lemma_fixed_items_fit(ty, items, items.len());
        },
        Value::Container(items) => {
            lemma_fixed_items_fit(ty, items, items.len());
        },
        _ => {},
    }
}

/// Valid items of fixed-size types hold no offset.
pub proof fn lemma_fixed_items_fit(ty: SszType, items: Seq<Value>, k: nat)
    requires
        valid_items(ty, items),
        forall|i: int| 0 <= i < items.len() ==> is_fixed(#[trigger] item_ty(ty, i)),
        k <= items.len(),
    ensures
        items_fit(ty, items, k),
    decreases items, k,
{
    if k > 0 {
        lemma_fixed_items_fit(ty, items, (k - 1) as nat);
        assert(is_fixed(item_ty(ty, k - 1)));
        assert(valid(item_ty(ty, k - 1), items[k - 1]));
        lemma_fixed_size_fits(item_ty(ty, k - 1), items[k - 1]);
    }
}

/// The offsets of an encoding of at most `2^32 - 1` bytes fit.
pub proof fn lemma_short_fits(ty: SszType, v: Value)
    requires
        wf(ty),
        valid(ty, v),
        serialize(ty, v).len() <= MAX_LENGTH,
    ensures
        offsets_fit(ty, v),
    decreases v, 0nat,
{
    match v {
        Value::List(items) => {
            lemma_short_items_fit(ty, items, items.len());
        },
        Value::Container(items) => {
            lemma_short_items_fit(ty, items, items.len());
        },
        _ => {},
    }
}

/// The offsets of the items of an encoding of at most `2^32 - 1` bytes
/// fit.
pub proof fn lemma_short_items_fit(ty: SszType, items: Seq<Value>, k: nat)
    requires
        wf(ty),
        valid_items(ty, items),
        serialize_items(ty, items).len() <= MAX_LENGTH,
        k <= items.len(),
    ensures
        items_fit(ty, items, k),
    decreases items, k,
{
    if k > 0 {
        let n = items.len();
        let t = item_ty(ty, k - 1);
        lemma_short_items_fit(ty, items, (k - 1) as nat);
        lemma_parts_len(ty, items, n);
        lemma_parts_monotonic(ty, items, k, n);
        lemma_parts_monotonic(ty, items, (k - 1) as nat, n);
        assert(wf(t) && valid(t, items[k - 1]));
        lemma_short_fits(t, items[k - 1]);
    }
}

/// Whether `x` fits in `width` bytes.
pub fn fits_width(x: u64, width: u64) -> (r: bool)
    ensures
        r == ((x as nat) < pow256(width as nat)),
{
    proof {
        lemma_pow256_values();
    }
    if width >= 8 {
        proof {
            lemma_pow256_le(8, width as nat);
        }
        return true;
    }
    let mut bound: u64 = 1;
    let mut i: u64 = 0;
    while i < width
        invariant
            i <= width < 8,
            bound as nat == pow256(i as nat),
            bound as nat <= pow256(7),
        decreases width - i,
    {
        proof {
            lemma_pow256_le((i + 1) as nat, 7);
            reveal_with_fuel(pow256, 9);
        }
        bound = bound * 256;
        i = i + 1;
    }
    x < bound
}

/// Whether `v` is a value of type `ty`, within the type's bounds.
#[verifier::loop_isolation(false)]
pub fn check_value(ty: &SszType, v: &SszValue) -> (r: bool)
    ensures
        r == valid(*ty, v@),
    decreases v,
{
    match v {
        SszValue::Bool(_) => match ty {
            SszType::Bool => true,
            _ => false,
        },
        SszValue::Uint(x) => match ty {
            SszType::Uint(width) => fits_width(*x, *width),
            _ => false,
        },
        SszValue::Bytes(b) => match ty {
            SszType::Uint256 => b.len() == 32,
            SszType::ByteArray(n) => b.len() as u64 == *n,
            SszType::ByteVector(n) => b.len() as u64 == *n,
            SszType::ByteList(n) => b.len() as u64 <= *n,
            _ => false,
        },
        SszValue::Bits(b) => match ty {
            SszType::Bitvector(n) => b.len() as u64 == *n,
            SszType::Bitlist(n) => b.len() as u64 <= *n,
            _ => false,
        },
        SszValue::List(items) => {
            proof {
                lemma_view_items(*items);
            }
            let ok: bool = match ty {
                SszType::Vector(_, n) => items.len() as u64 == *n,
                SszType::List(_, n) => items.len() as u64 <= *n,
                _ => false,
            };
            if !ok {
                return false;
            }
            let mut i: usize = 0;
            while i < items.len()
                invariant
                    i <= items.len(),
                    forall|j: int|
                        0 <= j < i ==> valid(item_ty(*ty, j), #[trigger] seq_view(items@)[j]),
                decreases items.len() - i,
            {
                if !check_value(item_type(ty, i), &items[i]) {
                    assert(!valid(item_ty(*ty, i as int), seq_view(items@)[i as int]));
                    return false;
                }
                i = i + 1;
            }
            true
        },
        SszValue::Container(items) => {
            proof {
                lemma_view_items(*items);
            }
            let ok: bool = match ty {
                SszType::Container(fields) => items.len() == fields.len(),
                _ => false,
            };
            if !ok {
                return false;
            }
            let mut i: usize = 0;
            while i < items.len()
                invariant
                    i <= items.len(),
                    forall|j: int|
                        0 <= j < i ==> valid(item_ty(*ty, j), #[trigger] seq_view(items@)[j]),
                decreases items.len() - i,
            {
                if !check_value(item_type(ty, i), &items[i]) {
                    assert(!valid(item_ty(*ty, i as int), seq_view(items@)[i as int]));
                    return false;
                }
                i = i + 1;
            }
            true
        },
    }
}

/// The type of item `i` of a vector, list or container.
pub fn item_type(ty: &SszType, i: usize) -> (r: &SszType)
    requires
        *ty is Vector || *ty is List || (*ty matches SszType::Container(fields) && i
            < fields.len()),
    ensures
        *r == item_ty(*ty, i as int),
{
    match ty {
        SszType::Vector(elem, _) => elem,
        SszType::List(elem, _) => elem,
        SszType::Container(fields) => &fields[i].ty,
        _ => ty,
    }
}

/// Appends the bytes of `v` to `out`. Fails, leaving `out` as it was, where
/// an offset that the encoding holds does not fit in four bytes, and only
/// there.
pub fn encode_into(ty: &SszType, v: &SszValue, out: &mut Vec<u8>) -> (r: Result<(), EncodeError>)
    requires
        wf(*ty),
        valid(*ty, v@),
    ensures
        r is Ok <==> offsets_fit(*ty, v@),
        r is Ok ==> final(out)@ == old(out)@ + serialize(*ty, v@),
        r is Err ==> final(out)@ == old(out)@,
    decreases v, 0nat,
{
    match v {
        SszValue::Bool(b) => {
            if *b {
                out.push(1);
            } else {
                out.push(0);
            }
            assert(out@ =~= old(out)@ + serialize(*ty, v@));
            Ok(())
        },
        SszValue::Uint(x) => {
            match ty {
                SszType::Uint(width) => {
                    push_le(*x, *width as usize, out);
                },
                _ => {},
            }
            Ok(())
        },
        SszValue::Bytes(b) => {
            let mut i: usize = 0;
            while i < b.len()
                invariant
                    i <= b.len(),
                    out@ == old(out)@ + b@.subrange(0, i as int),
                decreases b.len() - i,
            {
                out.push(b[i]);
                assert(out@ =~= old(out)@ + b@.subrange(0, i + 1));
                i = i + 1;
            }
            assert(b@.subrange(0, b.len() as int) =~= b@);
            Ok(())
        },
        SszValue::Bits(bits) => {
            match ty {
                SszType::Bitlist(_) => {
                    push_packed_bits(bits.as_slice(), true, out);
                },
                _ => {
                    push_packed_bits(bits.as_slice(), false, out);
                },
            }
            Ok(())
        },
        SszValue::List(items) => {
            proof {
                lemma_view_items(*items);
            }
            encode_items(ty, items, out)
        },
        SszValue::Container(items) => {
            proof {
                lemma_view_items(*items);
            }
            encode_items(ty, items, out)
        },
    }
}

/// Appends to `out` the bytes of a vector, list or container with the given
/// items. Fails, leaving `out` as it was, where an offset that the bytes
/// hold does not fit in four bytes, and only there.
pub fn encode_items(ty: &SszType, items: &Vec<SszValue>, out: &mut Vec<u8>) -> (r: Result<
    (),
    EncodeError,
>)
    requires
        wf(*ty),
        valid_items(*ty, seq_view(items@)),
    ensures
        r is Ok <==> items_fit(*ty, seq_view(items@), items.len() as nat),
        r is Ok ==> final(out)@ == old(out)@ + serialize_items(*ty, seq_view(items@)),
        r is Err ==> final(out)@ == old(out)@,
    decreases items, 1nat,
{
    let ghost vals = seq_view(items@);
    let n: usize = items.len();
    proof {
        lemma_prefix_len_total(*ty, n as nat);
    }
    // where the fixed part ends: asked for only where an offset is written
    let fixed_total: usize = match ty {
        SszType::List(elem, _) => {
            if elem.is_fixed_len() {
                0
            } else if n > MAX_LENGTH / OFFSET_LEN {
                proof {
                    assert(prefix_len(*ty, n as nat) == n * 4);
                    assert(!items_fit(*ty, vals, 1));
                    if items_fit(*ty, vals, n as nat) {
                        lemma_items_fit_prefix(*ty, vals, 1, n as nat);
                    }
                }
                return Err(EncodeError::TooLarge);
            } else {
                OFFSET_LEN * n
            }
        },
        _ => ty.fixed_len(),
    };
    let ghost no_offsets = is_plain_list(*ty);
    let mut fixed: Vec<u8> = Vec::new();
    let mut variable: Vec<u8> = Vec::new();
    let mut i: usize = 0;
    while i < n
        invariant
            i <= n,
            n == items.len(),
            vals == seq_view(items@),
            wf(*ty),
            valid_items(*ty, vals),
            no_offsets == is_plain_list(*ty),
            no_offsets || fixed_total == prefix_len(*ty, n as nat),
            fixed_total <= MAX_LENGTH,
            fixed@ == fixed_part(*ty, vals, i as nat),
            variable@ == var_part(*ty, vals, i as nat),
            items_fit(*ty, vals, i as nat),
            out@ == old(out)@,
        decreases n - i,
    {
        let t: &SszType = item_type(ty, i);
        proof {
            assert(wf(*t) && valid(*t, vals[i as int]));
            if items_fit(*ty, vals, n as nat) {
                lemma_items_fit_prefix(*ty, vals, (i + 1) as nat, n as nat);
            }
        }
        if t.is_fixed_len() {
            match encode_into(t, &items[i], &mut fixed) {
                Ok(()) => {},
                Err(_) => {
                    return Err(EncodeError::TooLarge);
                },
            }
        } else {
            if variable.len() > MAX_LENGTH {
                return Err(EncodeError::TooLarge);
            }
            let offset: u64 = fixed_total as u64 + variable.len() as u64;
            if offset > MAX_LENGTH as u64 {
                return Err(EncodeError::TooLarge);
            }
            push_le(offset, OFFSET_LEN, &mut fixed);
            match encode_into(t, &items[i], &mut variable) {
                Ok(()) => {},
                Err(_) => {
                    return Err(EncodeError::TooLarge);
                },
            }
        }
        i = i + 1;
    }
    out.append(&mut fixed);
    out.append(&mut variable);
    Ok(())
}

/// What `encode` returns: the bytes of a valid value, where each offset
/// that they hold fits in four bytes.
pub open spec fn encode_ensures(ty: SszType, v: Value, r: Result<Seq<u8>, EncodeError>) -> bool {
    match r {
        Ok(bytes) => valid(ty, v) && offsets_fit(ty, v) && bytes == serialize(ty, v),
        Err(EncodeError::InvalidValue) => !valid(ty, v),
        Err(EncodeError::TooLarge) => valid(ty, v) && !offsets_fit(ty, v),
    }
}

/// Encodes `v` as a value of type `ty`.
pub fn encode(ty: &SszType, v: &SszValue) -> (r: Result<Vec<u8>, EncodeError>)
    requires
        wf(*ty),
    ensures
        match r {
            Ok(bytes) => encode_ensures(*ty, v@, Ok(bytes@)),
            Err(e) => encode_ensures(*ty, v@, Err(e)),
        },
{
    if !check_value(ty, v) {
        return Err(EncodeError::InvalidValue);
    }
    let mut out: Vec<u8> = Vec::new();
    match encode_into(ty, v, &mut out) {
        Ok(()) => Ok(out),
        Err(_) => Err(EncodeError::TooLarge),
    }
}

} // verus!
