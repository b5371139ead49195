//! Deserialization: the value of a given type that some bytes hold, or the
//! rule that the bytes break.

use crate::bits::{
    bitlist_len, bytes_for_bits, high_bit_of, pow2, pow2_of, unpack_bits, unpack_bits_of,
};
use crate::encode::{
    is_item_count, item_ty, item_type, lemma_prefix_len_step, lemma_prefix_len_total, prefix_len,
};
use crate::types::{
    fixed_size, is_fixed, lemma_part_len_positive, lemma_vector_len_bound, lemma_view_items,
    part_len, seq_view, wf, SszType, SszValue, Value, MAX_LENGTH, OFFSET_LEN,
};
use crate::canonical::{lemma_decode_canonical, lemma_decoded_fits};
use crate::encode::{offsets_fit, serialize};
use crate::laws::lemma_decoded_is_valid;
use crate::types::valid;
use crate::uint::{le_value, lemma_le_value_bound, lemma_pow256_values, read_le};
use vstd::prelude::*;
use vstd::slice::{slice_subrange, slice_to_vec};

verus! {

/// The rule that malformed input breaks.
#[derive(Debug, Clone, Copy, PartialEq, Eq, Structural)]
pub enum DecodeError {
    /// The number of bytes is not the one that the type fixes, is less than
    /// the fixed part of the type, or is no multiple of the element size.
    InvalidByteLength,
    /// There are bytes, but fewer than an offset takes.
    InvalidLengthPrefix,
    /// A boolean byte is neither `0` nor `1`.
    InvalidBool,
    /// The first offset points into the fixed part.
    OffsetIntoFixedPortion,
    /// The first offset points past the end of the fixed part.
    OffsetSkipsVariableBytes,
    /// An offset is less than the one before it.
    OffsetsAreDecreasing,
    /// An offset points past the end of the bytes.
    OffsetOutOfBounds,
    /// The first offset of a list is no positive multiple of the offset
    /// length.
    InvalidListFixedBytesLen,
    /// There are more elements, bytes or bits than the type allows.
    ExceedsMaxLength,
    /// A bit list has no bytes, or its last byte holds no sentinel bit.
    MissingLengthInformation,
    /// A bit vector has bits set past its length.
    ExcessBits,
}

/// The text that tells of a broken rule: the name of the rule.
pub open spec fn decode_error_text(e: DecodeError) -> Seq<char> {
    match e {
        DecodeError::InvalidByteLength => "InvalidByteLength"@,
        DecodeError::InvalidLengthPrefix => "InvalidLengthPrefix"@,
        DecodeError::InvalidBool => "InvalidBool"@,
        DecodeError::OffsetIntoFixedPortion => "OffsetIntoFixedPortion"@,
        DecodeError::OffsetSkipsVariableBytes => "OffsetSkipsVariableBytes"@,
        DecodeError::OffsetsAreDecreasing => "OffsetsAreDecreasing"@,
        DecodeError::OffsetOutOfBounds => "OffsetOutOfBounds"@,
        DecodeError::InvalidListFixedBytesLen => "InvalidListFixedBytesLen"@,
        DecodeError::ExceedsMaxLength => "ExceedsMaxLength"@,
        DecodeError::MissingLengthInformation => "MissingLengthInformation"@,
        DecodeError::ExcessBits => "ExcessBits"@,
    }
}

impl DecodeError {
    /// The text that tells of the broken rule.
    pub fn name(&self) -> (r: &'static str)
        ensures
            r@ == decode_error_text(*self),
    {
        match self {
            DecodeError::InvalidByteLength => "InvalidByteLength",
            DecodeError::InvalidLengthPrefix => "InvalidLengthPrefix",
            DecodeError::InvalidBool => "InvalidBool",
            DecodeError::OffsetIntoFixedPortion => "OffsetIntoFixedPortion",
            DecodeError::OffsetSkipsVariableBytes => "OffsetSkipsVariableBytes",
            DecodeError::OffsetsAreDecreasing => "OffsetsAreDecreasing",
            DecodeError::OffsetOutOfBounds => "OffsetOutOfBounds",
            DecodeError::InvalidListFixedBytesLen => "InvalidListFixedBytesLen",
            DecodeError::ExceedsMaxLength => "ExceedsMaxLength",
            DecodeError::MissingLengthInformation => "MissingLengthInformation",
            DecodeError::ExcessBits => "ExcessBits",
        }
    }
}

/// The offset written in the fixed part for item `i`.
pub open spec fn offset_at(ty: SszType, bytes: Seq<u8>, i: int) -> nat {
    le_value(
        bytes.subrange(prefix_len(ty, i as nat) as int, prefix_len(ty, i as nat) + OFFSET_LEN),
    )
}

/// The offset of the first variable-size item at index `j` or after it, or
/// the length of the bytes where there is none: where the variable-size
/// item before `j` ends.
pub open spec fn next_offset(ty: SszType, bytes: Seq<u8>, n: nat, j: nat) -> nat
    decreases n - j,
{
    if j >= n {
        bytes.len()
    } else if !is_fixed(item_ty(ty, j as int)) {
        offset_at(ty, bytes, j as int)
    } else {
        next_offset(ty, bytes, n, j + 1)
    }
}

/// Whether one of the first `n` items is of variable size.
pub open spec fn has_variable(ty: SszType, n: nat) -> bool {
    exists|i: int| 0 <= i < n && !is_fixed(#[trigger] item_ty(ty, i))
}

/// The value that `bytes` hold as a value of type `ty`, or the first rule
/// that they break.
pub open spec fn deserialize(ty: SszType, bytes: Seq<u8>) -> Result<Value, DecodeError>
    decreases ty, 2nat, 0nat,
{
    match ty {
        SszType::Bool => if bytes.len() != 1 {
            Err(DecodeError::InvalidByteLength)
        } else if bytes[0] == 0 {
            Ok(Value::Bool(false))
        } else if bytes[0] == 1 {
            Ok(Value::Bool(true))
        } else {
            Err(DecodeError::InvalidBool)
        },
        SszType::Uint(width) => if bytes.len() != width || width > 8 {
            Err(DecodeError::InvalidByteLength)
        } else {
            Ok(Value::Uint(le_value(bytes) as u64))
        },
        SszType::Uint256 => if bytes.len() != 32 {
            Err(DecodeError::InvalidByteLength)
        } else {
            Ok(Value::Bytes(bytes))
        },
        SszType::ByteArray(n) => if bytes.len() != n {
            Err(DecodeError::InvalidByteLength)
        } else {
            Ok(Value::Bytes(bytes))
        },
        SszType::ByteVector(n) => if bytes.len() != n {
            Err(DecodeError::InvalidByteLength)
        } else {
            Ok(Value::Bytes(bytes))
        },
        SszType::ByteList(max) => if bytes.len() > max {
            Err(DecodeError::ExceedsMaxLength)
        } else {
            Ok(Value::Bytes(bytes))
        },
        SszType::Bitvector(n) => if bytes.len() != bytes_for_bits(n as nat) || n == 0 {
            Err(DecodeError::InvalidByteLength)
        } else if n % 8 != 0 && bytes.last() as nat >= pow2((n % 8) as int) {
            Err(DecodeError::ExcessBits)
        } else {
            Ok(Value::Bits(unpack_bits(bytes, n as nat)))
        },
        SszType::Bitlist(max) => if bytes.len() == 0 || bytes.last() == 0 {
            Err(DecodeError::MissingLengthInformation)
        } else if bitlist_len(bytes) > max {
            Err(DecodeError::ExceedsMaxLength)
        } else {
            Ok(Value::Bits(unpack_bits(bytes, bitlist_len(bytes) as nat)))
        },
        SszType::Vector(_, n) => match deserialize_items(ty, bytes, n as nat) {
            Ok(items) => Ok(Value::List(items)),
            Err(e) => Err(e),
        },
        SszType::List(elem, max) => match list_count(ty, bytes) {
            Ok(count) => match deserialize_items(ty, bytes, count) {
                Ok(items) => Ok(Value::List(items)),
                Err(e) => Err(e),
            },
            Err(e) => Err(e),
        },
        SszType::Container(fields) => match deserialize_items(ty, bytes, fields.len() as nat) {
            Ok(items) => Ok(Value::Container(items)),
            Err(e) => Err(e),
        },
    }
}

/// The number of elements of the list that `bytes` hold: for elements of
/// fixed size, the number of bytes over the size of one; else the first
/// offset over the length of an offset.
pub open spec fn list_count(ty: SszType, bytes: Seq<u8>) -> Result<nat, DecodeError> {
    match ty {
        SszType::List(elem, max) => {
            if is_fixed(*elem) {
                let size = fixed_size(*elem);
                if size == 0 || bytes.len() % size != 0 {
                    Err(DecodeError::InvalidByteLength)
                } else if bytes.len() / size > max {
                    Err(DecodeError::ExceedsMaxLength)
                } else {
                    Ok(bytes.len() / size)
                }
            } else if bytes.len() == 0 {
                Ok(0)
            } else if bytes.len() < OFFSET_LEN {
                Err(DecodeError::InvalidLengthPrefix)
            } else {
                let first = le_value(bytes.subrange(0, OFFSET_LEN as int));
                if first > bytes.len() {
                    Err(DecodeError::OffsetOutOfBounds)
                } else if first % (OFFSET_LEN as nat) != 0 || first < OFFSET_LEN {
                    Err(DecodeError::InvalidListFixedBytesLen)
                } else if first / (OFFSET_LEN as nat) > max {
                    Err(DecodeError::ExceedsMaxLength)
                } else {
                    Ok(first / (OFFSET_LEN as nat))
                }
            }
        },
        _ => Err(DecodeError::InvalidByteLength),
    }
}

/// The `n` items that `bytes` hold as a vector, list or container of type
/// `ty`.
pub open spec fn deserialize_items(ty: SszType, bytes: Seq<u8>, n: nat) -> Result<
    Seq<Value>,
    DecodeError,
>
    decreases ty, 1nat, 0nat,
{
    let fixed_total = prefix_len(ty, n);
    let first = next_offset(ty, bytes, n, 0);
    if bytes.len() < fixed_total {
        Err(DecodeError::InvalidByteLength)
    } else if first != fixed_total {
        if !has_variable(ty, n) {
            Err(DecodeError::InvalidByteLength)
        } else if first < fixed_total {
            Err(DecodeError::OffsetIntoFixedPortion)
        } else {
            Err(DecodeError::OffsetSkipsVariableBytes)
        }
    } else {
        items_from(ty, bytes, n, n)
    }
}

/// The first `k` of the `n` items that `bytes` hold, or the first rule
/// that one of them breaks.
pub open spec fn items_from(ty: SszType, bytes: Seq<u8>, n: nat, k: nat) -> Result<
    Seq<Value>,
    DecodeError,
>
    decreases ty, 0nat, k,
{
    if k == 0 || k > n {
        Ok(Seq::empty())
    } else {
        match items_from(ty, bytes, n, (k - 1) as nat) {
            Err(e) => Err(e),
            Ok(items) => {
                let i = k - 1;
                let start = item_start(ty, bytes, i);
                let end = item_end(ty, bytes, n, i);
                if end > bytes.len() {
                    Err(DecodeError::OffsetOutOfBounds)
                } else if end < start {
                    Err(DecodeError::OffsetsAreDecreasing)
                } else {
                    let part = bytes.subrange(start as int, end as int);
                    let item = match ty {
                        SszType::Vector(elem, _) => deserialize(*elem, part),
                        SszType::List(elem, _) => deserialize(*elem, part),
                        SszType::Container(fields) => if i < fields.len() {
                            deserialize(fields[i].ty, part)
                        } else {
                            Err(DecodeError::InvalidByteLength)
                        },
                        _ => Err(DecodeError::InvalidByteLength),
                    };
                    match item {
                        Err(e) => Err(e),
                        Ok(v) => Ok(items.push(v)),
                    }
                }
            },
        }
    }
}

/// Where the bytes of item `i` start: a fixed-size item in the fixed part,
/// a variable-size item at its offset.
pub open spec fn item_start(ty: SszType, bytes: Seq<u8>, i: int) -> nat {
    if is_fixed(item_ty(ty, i)) {
        prefix_len(ty, i as nat)
    } else {
        offset_at(ty, bytes, i)
    }
}

/// Where the bytes of item `i` end: a fixed-size item after its size, a
/// variable-size item where the next one starts, the last one at the end.
pub open spec fn item_end(ty: SszType, bytes: Seq<u8>, n: nat, i: int) -> nat {
    if is_fixed(item_ty(ty, i)) {
        prefix_len(ty, i as nat) + fixed_size(item_ty(ty, i))
    } else {
        next_offset(ty, bytes, n, (i + 1) as nat)
    }
}

/// The fixed part grows with the number of items.
pub proof fn lemma_prefix_len_monotonic(ty: SszType, a: nat, b: nat)
    requires
        wf(ty),
        a <= b,
        ty is Vector || ty is List || (ty matches SszType::Container(fields) && b
            <= fields.len()),
    ensures
        prefix_len(ty, a) <= prefix_len(ty, b),
    decreases b,
{
    if a < b {
        lemma_prefix_len_monotonic(ty, a, (b - 1) as nat);
        lemma_prefix_len_step(ty, (b - 1) as nat);
    }
}

/// Once an item breaks a rule, the items after it do not matter.
pub proof fn lemma_items_from_err(ty: SszType, bytes: Seq<u8>, n: nat, a: nat, b: nat)
    requires
        a <= b <= n,
        items_from(ty, bytes, n, a) is Err,
    ensures
        items_from(ty, bytes, n, b) == items_from(ty, bytes, n, a),
    decreases b,
{
    if a < b {
        lemma_items_from_err(ty, bytes, n, a, (b - 1) as nat);
    }
}

/// What one more item adds to the items decoded so far.
pub open spec fn next_items(ty: SszType, bytes: Seq<u8>, n: nat, i: int, items: Seq<Value>) -> Result<
    Seq<Value>,
    DecodeError,
> {
    let start = item_start(ty, bytes, i);
    let end = item_end(ty, bytes, n, i);
    if end > bytes.len() {
        Err(DecodeError::OffsetOutOfBounds)
    } else if end < start {
        Err(DecodeError::OffsetsAreDecreasing)
    } else {
        match deserialize(item_ty(ty, i), bytes.subrange(start as int, end as int)) {
            Err(e) => Err(e),
            Ok(v) => Ok(items.push(v)),
        }
    }
}

/// The first `i + 1` items are the first `i` and what one more item adds.
pub proof fn lemma_items_from_step(ty: SszType, bytes: Seq<u8>, n: nat, i: nat)
    requires
        i < n,
        is_item_count(ty, n),
        items_from(ty, bytes, n, i) is Ok,
    ensures
        items_from(ty, bytes, n, i + 1) == next_items(
            ty,
            bytes,
            n,
            i as int,
            items_from(ty, bytes, n, i)->Ok_0,
        ),
{
}

/// The offset of the first variable-size item at index `j` or after it,
/// and whether there is one; else the length of the bytes.
fn next_offset_of(ty: &SszType, bytes: &[u8], n: usize, j: usize, pos: usize) -> (r: (
    usize,
    bool,
))
    requires
        wf(*ty),
        is_item_count(*ty, n as nat),
        j <= n,
        pos == prefix_len(*ty, j as nat),
        prefix_len(*ty, n as nat) <= bytes.len(),
    ensures
        r.0 == next_offset(*ty, bytes@, n as nat, j as nat),
        r.1 == (exists|i: int| j <= i < n && !is_fixed(#[trigger] item_ty(*ty, i))),
        r.1 ==> r.0 <= MAX_LENGTH,
{
    let mut i: usize = j;
    let mut at: usize = pos;
    while i < n
        invariant
            j <= i <= n,
            wf(*ty),
            is_item_count(*ty, n as nat),
            at == prefix_len(*ty, i as nat),
            prefix_len(*ty, n as nat) <= bytes.len(),
            next_offset(*ty, bytes@, n as nat, j as nat) == next_offset(
                *ty,
                bytes@,
                n as nat,
                i as nat,
            ),
            forall|m: int| j <= m < i ==> is_fixed(#[trigger] item_ty(*ty, m)),
        decreases n - i,
    {
        let t: &SszType = item_type(ty, i);
        proof {
            lemma_prefix_len_step(*ty, i as nat);
            lemma_prefix_len_monotonic(*ty, (i + 1) as nat, n as nat);
            lemma_part_len_positive(*t);
        }
        if !t.is_fixed_len() {
            proof {
                lemma_le_value_bound(bytes@.subrange(at as int, at + OFFSET_LEN));
                lemma_pow256_values();
            }
            let offset: u64 = read_le(bytes, at, OFFSET_LEN);
            return (offset as usize, true);
        }
        at = at + t.fixed_len();
        i = i + 1;
    }
    (bytes.len(), false)
}

/// Decodes the `n` items of a vector, list or container of type `ty`.
pub fn decode_items(ty: &SszType, bytes: &[u8], n: usize, fixed_total: usize) -> (r: Result<
    Vec<SszValue>,
    DecodeError,
>)
    requires
        wf(*ty),
        is_item_count(*ty, n as nat),
        fixed_total == prefix_len(*ty, n as nat),
    ensures
        match r {
            Ok(items) => deserialize_items(*ty, bytes@, n as nat) == Ok::<
                Seq<Value>,
                DecodeError,
            >(seq_view(items@)),
            Err(e) => deserialize_items(*ty, bytes@, n as nat) == Err::<Seq<Value>, DecodeError>(
                e,
            ),
        },
    decreases ty, 0nat,
{
    if bytes.len() < fixed_total {
        return Err(DecodeError::InvalidByteLength);
    }
    proof {
        lemma_prefix_len_total(*ty, n as nat);
    }
    let (first, found) = next_offset_of(ty, bytes, n, 0, 0);
    if first != fixed_total {
        if !found {
            return Err(DecodeError::InvalidByteLength);
        } else if first < fixed_total {
            return Err(DecodeError::OffsetIntoFixedPortion);
        } else {
            return Err(DecodeError::OffsetSkipsVariableBytes);
        }
    }
    let mut items: Vec<SszValue> = Vec::new();
    let mut i: usize = 0;
    let mut pos: usize = 0;
    assert(seq_view(items@) =~= Seq::<Value>::empty());
    while i < n
        invariant
            i <= n,
            wf(*ty),
            is_item_count(*ty, n as nat),
            fixed_total == prefix_len(*ty, n as nat),
            fixed_total <= bytes.len(),
            pos == prefix_len(*ty, i as nat),
            deserialize_items(*ty, bytes@, n as nat) == items_from(
                *ty,
                bytes@,
                n as nat,
                n as nat,
            ),
            items_from(*ty, bytes@, n as nat, i as nat) == Ok::<Seq<Value>, DecodeError>(
                seq_view(items@),
            ),
        decreases n - i,
    {
        let t: &SszType = item_type(ty, i);
        proof {
            lemma_prefix_len_step(*ty, i as nat);
            lemma_prefix_len_monotonic(*ty, (i + 1) as nat, n as nat);
            lemma_part_len_positive(*t);
        }
        let start: usize;
        let end: usize;
        let next_pos: usize;
        if t.is_fixed_len() {
            let size: usize = t.fixed_len();
            start = pos;
            end = pos + size;
            next_pos = pos + size;
        } else {
            proof {
                lemma_le_value_bound(bytes@.subrange(pos as int, pos + OFFSET_LEN));
                lemma_pow256_values();
            }
            let offset: u64 = read_le(bytes, pos, OFFSET_LEN);
            let (next, _) = next_offset_of(ty, bytes, n, i + 1, pos + OFFSET_LEN);
            start = offset as usize;
            end = next;
            next_pos = pos + OFFSET_LEN;
        }
        assert(start == item_start(*ty, bytes@, i as int));
        assert(end == item_end(*ty, bytes@, n as nat, i as int));
        proof {
            lemma_items_from_step(*ty, bytes@, n as nat, i as nat);
            if items_from(*ty, bytes@, n as nat, (i + 1) as nat) is Err {
                lemma_items_from_err(*ty, bytes@, n as nat, (i + 1) as nat, n as nat);
            }
        }
        if end > bytes.len() {
            return Err(DecodeError::OffsetOutOfBounds);
        }
        if end < start {
            return Err(DecodeError::OffsetsAreDecreasing);
        }
        let part: &[u8] = slice_subrange(bytes, start, end);
        match decode(t, part) {
            Err(e) => {
                return Err(e);
            },
            Ok(v) => {
                let ghost before = seq_view(items@);
                items.push(v);
                assert(seq_view(items@) =~= before.push(v@));
            },
        }
        pos = next_pos;
        i = i + 1;
    }
    Ok(items)
}

/// Whether a type has no items: it is neither a vector, a list nor a
/// container.
pub open spec fn is_leaf(ty: SszType) -> bool {
    !(ty is Vector || ty is List || ty is Container)
}

/// Decodes `bytes` as a value of a type without items.
fn decode_leaf(ty: &SszType, bytes: &[u8]) -> (r: Result<SszValue, DecodeError>)
    requires
        wf(*ty),
        is_leaf(*ty),
    ensures
        match r {
            Ok(v) => deserialize(*ty, bytes@) == Ok::<Value, DecodeError>(v@),
            Err(e) => deserialize(*ty, bytes@) == Err::<Value, DecodeError>(e),
        },
{
    match ty {
        SszType::Bool => {
            if bytes.len() != 1 {
                Err(DecodeError::InvalidByteLength)
            } else if bytes[0] == 0 {
                Ok(SszValue::Bool(false))
            } else if bytes[0] == 1 {
                Ok(SszValue::Bool(true))
            } else {
                Err(DecodeError::InvalidBool)
            }
        },
        SszType::Uint(width) => {
            if bytes.len() as u64 != *width {
                Err(DecodeError::InvalidByteLength)
            } else {
                assert(bytes@.subrange(0, *width as int) =~= bytes@);
                Ok(SszValue::Uint(read_le(bytes, 0, *width as usize)))
            }
        },
        SszType::ByteList(max) => {
            if bytes.len() as u64 > *max {
                Err(DecodeError::ExceedsMaxLength)
            } else {
                Ok(SszValue::Bytes(slice_to_vec(bytes)))
            }
        },
        SszType::Bitvector(n) => decode_bitvector(*n, bytes),
        SszType::Bitlist(max) => decode_bitlist(*max, bytes),
        _ => {
            if bytes.len() != ty.fixed_len() {
                Err(DecodeError::InvalidByteLength)
            } else {
                Ok(SszValue::Bytes(slice_to_vec(bytes)))
            }
        },
    }
}

/// Decodes the `n` bits of a bit vector.
fn decode_bitvector(n: u64, bytes: &[u8]) -> (r: Result<SszValue, DecodeError>)
    requires
        1 <= n <= MAX_LENGTH,
    ensures
        match r {
            Ok(v) => deserialize(SszType::Bitvector(n), bytes@) == Ok::<Value, DecodeError>(v@),
            Err(e) => deserialize(SszType::Bitvector(n), bytes@) == Err::<Value, DecodeError>(e),
        },
{
    if bytes.len() as u64 != (n - 1) / 8 + 1 {
        return Err(DecodeError::InvalidByteLength);
    }
    let last: u8 = bytes[bytes.len() - 1];
    if n % 8 != 0 && last >= pow2_of((n % 8) as usize) {
        return Err(DecodeError::ExcessBits);
    }
    Ok(SszValue::Bits(unpack_bits_of(bytes, (n / 8) as usize, (n % 8) as usize)))
}

/// Decodes a bit list of at most `max` bits: the bits below the sentinel.
fn decode_bitlist(max: u64, bytes: &[u8]) -> (r: Result<SszValue, DecodeError>)
    ensures
        match r {
            Ok(v) => deserialize(SszType::Bitlist(max), bytes@) == Ok::<Value, DecodeError>(v@),
            Err(e) => deserialize(SszType::Bitlist(max), bytes@) == Err::<Value, DecodeError>(e),
        },
{
    if bytes.len() == 0 {
        return Err(DecodeError::MissingLengthInformation);
    }
    let last: u8 = bytes[bytes.len() - 1];
    if last == 0 {
        return Err(DecodeError::MissingLengthInformation);
    }
    let full: usize = bytes.len() - 1;
    let high: usize = high_bit_of(last);
    if full as u64 > max / 8 {
        return Err(DecodeError::ExceedsMaxLength);
    }
    let count: u64 = 8 * (full as u64) + high as u64;
    if count > max {
        return Err(DecodeError::ExceedsMaxLength);
    }
    Ok(SszValue::Bits(unpack_bits_of(bytes, full, high)))
}

/// The number of elements of the list that `bytes` hold, and the length of
/// their fixed part.
fn decode_list_count(ty: &SszType, bytes: &[u8]) -> (r: Result<(usize, usize), DecodeError>)
    requires
        wf(*ty),
        *ty is List,
    ensures
        match r {
            Ok((count, fixed_total)) => list_count(*ty, bytes@) == Ok::<nat, DecodeError>(
                count as nat,
            ) && fixed_total == prefix_len(*ty, count as nat),
            Err(e) => list_count(*ty, bytes@) == Err::<nat, DecodeError>(e),
        },
{
    match ty {
        SszType::List(elem, max) => {
            if elem.is_fixed_len() {
                let size: usize = elem.part_len();
                if bytes.len() % size != 0 {
                    return Err(DecodeError::InvalidByteLength);
                }
                let count: usize = bytes.len() / size;
                if count as u64 > *max {
                    return Err(DecodeError::ExceedsMaxLength);
                }
                proof {
                    assert(count * size == bytes.len()) by (nonlinear_arith)
                        requires
                            size > 0,
                            bytes.len() % size == 0,
                            count == bytes.len() / size,
                    ;
                    lemma_prefix_len_total(*ty, count as nat);
                }
                Ok((count, bytes.len()))
            } else if bytes.len() == 0 {
                proof {
                    lemma_prefix_len_total(*ty, 0);
                }
                Ok((0, 0))
            } else if bytes.len() < OFFSET_LEN {
                Err(DecodeError::InvalidLengthPrefix)
            } else {
                proof {
                    lemma_le_value_bound(bytes@.subrange(0, OFFSET_LEN as int));
                    lemma_pow256_values();
                }
                let first: usize = read_le(bytes, 0, OFFSET_LEN) as usize;
                if first > bytes.len() {
                    return Err(DecodeError::OffsetOutOfBounds);
                }
                if first % OFFSET_LEN != 0 || first < OFFSET_LEN {
                    return Err(DecodeError::InvalidListFixedBytesLen);
                }
                let count: usize = first / OFFSET_LEN;
                if count as u64 > *max {
                    return Err(DecodeError::ExceedsMaxLength);
                }
                proof {
                    lemma_prefix_len_total(*ty, count as nat);
                    assert(count * 4 == first);
                    assert(part_len(**elem) == 4);
                }
                Ok((count, first))
            }
        },
        _ => Err(DecodeError::InvalidByteLength),
    }
}

/// Decodes `bytes` as a value of type `ty`: the value that the bytes
/// hold, or the first rule that they break.
pub fn decode(ty: &SszType, bytes: &[u8]) -> (r: Result<SszValue, DecodeError>)
    requires
        wf(*ty),
    ensures
        match r {
            Ok(v) => deserialize(*ty, bytes@) == Ok::<Value, DecodeError>(v@),
            Err(e) => deserialize(*ty, bytes@) == Err::<Value, DecodeError>(e),
        },
        r is Ok ==> valid(*ty, r->Ok_0@) && offsets_fit(*ty, r->Ok_0@) && serialize(
            *ty,
            r->Ok_0@,
        ) == bytes@,
    decreases ty, 1nat,
{
    proof {
        if deserialize(*ty, bytes@) is Ok {
            lemma_decoded_is_valid(*ty, bytes@);
            lemma_decode_canonical(*ty, bytes@);
            lemma_decoded_fits(*ty, bytes@);
        }
    }
    match ty {
        SszType::Vector(_, n) => {
            let fixed_total: usize = ty.fixed_len();
            proof {
                lemma_vector_len_bound(*ty);
                lemma_prefix_len_total(*ty, *n as nat);
            }
            match decode_items(ty, bytes, *n as usize, fixed_total) {
                Ok(items) => {
                    proof {
                        lemma_view_items(items);
                    }
                    Ok(SszValue::List(items))
                },
                Err(e) => Err(e),
            }
        },
        SszType::List(_, _) => {
            match decode_list_count(ty, bytes) {
                Err(e) => Err(e),
                Ok((count, fixed_total)) => {
                    match decode_items(ty, bytes, count, fixed_total) {
                        Ok(items) => {
                            proof {
                                lemma_view_items(items);
                            }
                            Ok(SszValue::List(items))
                        },
                        Err(e) => Err(e),
                    }
                },
            }
        },
        SszType::Container(fields) => {
            let fixed_total: usize = ty.fixed_len();
            proof {
                lemma_prefix_len_total(*ty, fields.len() as nat);
            }
            match decode_items(ty, bytes, fields.len(), fixed_total) {
                Ok(items) => {
                    proof {
                        lemma_view_items(items);
                    }
                    Ok(SszValue::Container(items))
                },
                Err(e) => Err(e),
            }
        },
        _ => decode_leaf(ty, bytes),
    }
}

} // verus!
