//! Values as the host hands them over, and their conversion into values of
//! a type.

use crate::bits::push_packed_bits;
use crate::decode::{decode, decode_error_text, deserialize, DecodeError};
use crate::encode::{fits_width, item_ty, item_type, serialize};
use crate::laws::lemma_decoded_is_valid;
use crate::types::{lemma_view_items, seq_view, valid, wf, SszType, SszValue, Value};
use vstd::prelude::*;
use vstd::slice::slice_to_vec;
use vstd::std_specs::convert::FromSpecImpl;
use vstd::string::to_string_from_display_ensures;

verus! {

/// Why a value handed over by the host is not a value of the type asked
/// for: a message for the host.
#[derive(Debug)]
pub struct FromElxError(pub String);

impl From<String> for FromElxError {
    fn from(t: String) -> (r: Self) {
        Self(t)
    }
}

impl FromSpecImpl<String> for FromElxError {
    open spec fn obeys_from_spec() -> bool {
        true
    }

    open spec fn from_spec(t: String) -> Self {
        FromElxError(t)
    }
}

/// `format!` with `{:?}`: the debug text of `t`.
#[verifier::external_body]
pub(crate) fn debug_string<T: core::fmt::Debug>(t: &T) -> String {
    format!("{t:?}")
}

impl FromElxError {
    /// An error whose message is the display text of `t`.
    pub fn from_display<T: core::fmt::Display>(t: T) -> (r: Self)
        ensures
            to_string_from_display_ensures::<T>(&t, r.0),
    {
        FromElxError::from(t.to_string())
    }

    /// An error whose message is the debug text of `t`.
    pub fn from_debug<T: core::fmt::Debug>(t: T) -> (r: Self) {
        FromElxError::from(debug_string(&t))
    }

    /// The message.
    pub fn message(&self) -> (r: String)
        ensures
            r@ == self.0@,
    {
        self.0.clone()
    }
}

/// What is wrong with a value handed over by the host.
#[derive(Debug, Clone, Copy, PartialEq, Eq, Structural)]
pub enum ConversionError {
    /// The value is of another kind than the type asks for.
    Mismatch,
    /// A number does not fit in the width of its type.
    OutOfRange,
    /// There are `i` elements or bytes where the type asks for `len`, or for
    /// at most `len`.
    OutOfBounds { i: usize, len: u64 },
}

/// The 32 bytes of a 256-bit number handed over as `b`: the first 32 bytes
/// of `b`, filled up with zero bytes.
pub open spec fn uint256_bytes(b: Seq<u8>) -> Seq<u8> {
    Seq::new(
        32,
        |i: int|
            if i < b.len() {
                b[i]
            } else {
                0u8
            },
    )
}

/// The value of type `ty` that the host means by `v`, where there is one.
/// The host hands over bit vectors and bit lists as their encodings, and
/// 256-bit numbers as bytes that are cut or filled up to 32.
pub open spec fn converted(ty: SszType, v: Value) -> Option<Value>
    decreases v, 0nat,
{
    match v {
        Value::Bool(_) => if valid(ty, v) {
            Some(v)
        } else {
            None
        },
        Value::Uint(_) => if valid(ty, v) {
            Some(v)
        } else {
            None
        },
        Value::Bytes(b) => match ty {
            SszType::Uint256 => Some(Value::Bytes(uint256_bytes(b))),
            SszType::Bitvector(_) => match deserialize(ty, b) {
                Ok(bits) => Some(bits),
                Err(_) => None,
            },
            SszType::Bitlist(_) => match deserialize(ty, b) {
                Ok(bits) => Some(bits),
                Err(_) => None,
            },
            _ => if valid(ty, v) {
                Some(v)
            } else {
                None
            },
        },
        Value::Bits(_) => None,
        Value::List(items) => match ty {
            SszType::Vector(_, n) => match converted_items(ty, items, items.len()) {
                Some(done) => if items.len() == n {
                    Some(Value::List(done))
                } else {
                    None
                },
                None => None,
            },
            SszType::List(_, n) => match converted_items(ty, items, items.len()) {
                Some(done) => if items.len() <= n {
                    Some(Value::List(done))
                } else {
                    None
                },
                None => None,
            },
            _ => None,
        },
        Value::Container(items) => match ty {
            SszType::Container(fields) => if items.len() == fields.len() {
                match converted_items(ty, items, items.len()) {
                    Some(done) => Some(Value::Container(done)),
                    None => None,
                }
            } else {
                None
            },
            _ => None,
        },
    }
}

/// The first `k` items, converted, where each of them can be.
pub open spec fn converted_items(ty: SszType, items: Seq<Value>, k: nat) -> Option<Seq<Value>>
    decreases items, k,
{
    if k == 0 || k > items.len() {
        Some(Seq::empty())
    } else {
        match converted_items(ty, items, (k - 1) as nat) {
            None => None,
            Some(done) => match converted(item_ty(ty, k - 1), items[k - 1]) {
                None => None,
                Some(item) => Some(done.push(item)),
            },
        }
    }
}

/// Once an item cannot be converted, the items cannot.
pub proof fn lemma_converted_items_none(ty: SszType, items: Seq<Value>, a: nat, b: nat)
    requires
        a <= b <= items.len(),
        converted_items(ty, items, a) is None,
    ensures
        converted_items(ty, items, b) is None,
    decreases b,
{
    if a < b {
        lemma_converted_items_none(ty, items, a, (b - 1) as nat);
    }
}

/// What comes out of a conversion is a value of the type.
pub proof fn lemma_converted_is_valid(ty: SszType, v: Value)
    requires
        wf(ty),
        converted(ty, v) is Some,
    ensures
        valid(ty, converted(ty, v)->Some_0),
    decreases v, 0nat,
{
    match v {
        Value::Bytes(b) => {
            match ty {
                SszType::Bitvector(_) => {
                    lemma_decoded_is_valid(ty, b);
                },
                SszType::Bitlist(_) => {
                    lemma_decoded_is_valid(ty, b);
                },
                _ => {},
            }
        },
        Value::List(items) => {
            lemma_converted_items_valid(ty, items, items.len());
        },
        Value::Container(items) => {
            lemma_converted_items_valid(ty, items, items.len());
        },
        _ => {},
    }
}

/// The items that come out of a conversion are values of their types.
pub proof fn lemma_converted_items_valid(ty: SszType, items: Seq<Value>, k: nat)
    requires
        wf(ty),
        ty is Vector || ty is List || (ty matches SszType::Container(fields) && items.len()
            == fields.len()),
        k <= items.len(),
        converted_items(ty, items, k) is Some,
    ensures
        converted_items(ty, items, k)->Some_0.len() == k,
        forall|i: int|
            0 <= i < k ==> valid(item_ty(ty, i), #[trigger] converted_items(ty, items, k)->Some_0[i]),
    decreases items, k,
{
    if k > 0 {
        lemma_converted_items_valid(ty, items, (k - 1) as nat);
        assert(wf(item_ty(ty, k - 1)));
        lemma_converted_is_valid(item_ty(ty, k - 1), items[k - 1]);
    }
}

/// The text that tells that there are `i` elements or bytes where a type
/// asks for `len`: what `format!` with `{:?}` gives for the two numbers
/// under the name of the error.
pub uninterp spec fn out_of_bounds_text(i: nat, len: nat) -> Seq<char>;

/// `format!` with `{:?}` on the error that holds the two numbers: its
/// debug text, which is the same for the same numbers.
#[verifier::external_body]
fn out_of_bounds_string(i: usize, len: u64) -> (r: String)
    ensures
        r@ == out_of_bounds_text(i as nat, len as nat),
{
    format!("{:?}", ConversionError::OutOfBounds { i, len })
}

/// The text that tells of a conversion error: its name, and for numbers
/// that are out of bounds the numbers with it.
pub open spec fn conversion_error_text(e: ConversionError) -> Seq<char> {
    match e {
        ConversionError::Mismatch => "Mismatch"@,
        ConversionError::OutOfRange => "OutOfRange"@,
        ConversionError::OutOfBounds { i, len } => out_of_bounds_text(i as nat, len as nat),
    }
}

/// The text that tells of a conversion error.
fn conversion_error_string(e: &ConversionError) -> (r: String)
    ensures
        r@ == conversion_error_text(*e),
{
    match e {
        ConversionError::Mismatch => "Mismatch".to_owned(),
        ConversionError::OutOfRange => "OutOfRange".to_owned(),
        ConversionError::OutOfBounds { i, len } => out_of_bounds_string(*i, *len),
    }
}

/// Why a value handed over by the host cannot be converted.
pub ghost enum Failure {
    /// The value is not what the type asks for.
    Conversion(ConversionError),
    /// The bytes of a byte array are not as many as the array has.
    ArrayLength,
    /// The bytes of a bit vector or bit list do not decode.
    Decode(DecodeError),
}

/// The message that tells of a failure.
pub open spec fn failure_text(failure: Failure) -> Seq<char> {
    match failure {
        Failure::Conversion(e) => conversion_error_text(e),
        Failure::ArrayLength => "could not convert slice to array"@,
        Failure::Decode(e) => decode_error_text(e),
    }
}

/// That there are `n` elements or bytes where the type asks for `len`, or
/// for at most `len`.
pub open spec fn out_of_bounds(n: nat, len: u64) -> Failure {
    Failure::Conversion(ConversionError::OutOfBounds { i: n as usize, len })
}

/// Why `v` cannot be converted into a value of type `ty`, where it cannot:
/// in a vector, list or container the failure of the first item that
/// cannot be converted, and for a vector or list whose items all can, that
/// they are too many or too few.
pub open spec fn conversion_failure(ty: SszType, v: Value) -> Failure
    decreases v, 0nat,
{
    match v {
        Value::Bool(_) => Failure::Conversion(ConversionError::Mismatch),
        Value::Uint(_) => if ty is Uint {
            Failure::Conversion(ConversionError::OutOfRange)
        } else {
            Failure::Conversion(ConversionError::Mismatch)
        },
        Value::Bytes(b) => match ty {
            SszType::ByteArray(_) => Failure::ArrayLength,
            SszType::ByteVector(n) => out_of_bounds(b.len(), n),
            SszType::ByteList(n) => out_of_bounds(b.len(), n),
            SszType::Bitvector(_) => match deserialize(ty, b) {
                Ok(_) => Failure::Conversion(ConversionError::Mismatch),
                Err(e) => Failure::Decode(e),
            },
            SszType::Bitlist(_) => match deserialize(ty, b) {
                Ok(_) => Failure::Conversion(ConversionError::Mismatch),
                Err(e) => Failure::Decode(e),
            },
            _ => Failure::Conversion(ConversionError::Mismatch),
        },
        Value::Bits(_) => Failure::Conversion(ConversionError::Mismatch),
        Value::List(items) => match ty {
            SszType::Vector(_, n) => if converted_items(ty, items, items.len()) is None {
                items_failure(ty, items, items.len())
            } else {
                out_of_bounds(items.len(), n)
            },
            SszType::List(_, n) => if converted_items(ty, items, items.len()) is None {
                items_failure(ty, items, items.len())
            } else {
                out_of_bounds(items.len(), n)
            },
            _ => Failure::Conversion(ConversionError::Mismatch),
        },
        Value::Container(items) => match ty {
            SszType::Container(fields) => if items.len() == fields.len() {
                items_failure(ty, items, items.len())
            } else {
                Failure::Conversion(ConversionError::Mismatch)
            },
            _ => Failure::Conversion(ConversionError::Mismatch),
        },
    }
}

/// The failure of the first of the first `k` items that cannot be
/// converted.
pub open spec fn items_failure(ty: SszType, items: Seq<Value>, k: nat) -> Failure
    decreases items, k,
{
    if k == 0 || k > items.len() {
        Failure::Conversion(ConversionError::Mismatch)
    } else if converted_items(ty, items, (k - 1) as nat) is None {
        items_failure(ty, items, (k - 1) as nat)
    } else {
        conversion_failure(item_ty(ty, k - 1), items[k - 1])
    }
}

/// The failure of the items is that of the first item that cannot be
/// converted, however many items follow it.
pub proof fn lemma_items_failure_first(ty: SszType, items: Seq<Value>, a: nat, b: nat)
    requires
        a <= b <= items.len(),
        converted_items(ty, items, a) is None,
    ensures
        converted_items(ty, items, b) is None,
        items_failure(ty, items, b) == items_failure(ty, items, a),
    decreases b,
{
    if a < b {
        lemma_items_failure_first(ty, items, a, (b - 1) as nat);
    }
}

/// The error that tells of a conversion error.
fn conversion_failed(e: ConversionError) -> (r: FromElxError)
    ensures
        r.0@ == failure_text(Failure::Conversion(e)),
{
    FromElxError::from(conversion_error_string(&e))
}

/// The error that tells of a decode error.
fn decode_failed(e: DecodeError) -> (r: FromElxError)
    ensures
        r.0@ == failure_text(Failure::Decode(e)),
{
    FromElxError::from(e.name().to_owned())
}

/// The error that tells of a byte array of another length.
fn array_failed() -> (r: FromElxError)
    ensures
        r.0@ == failure_text(Failure::ArrayLength),
{
    FromElxError::from("could not convert slice to array".to_owned())
}

/// The bytes of `b`.
fn copy_bytes(b: &Vec<u8>) -> (r: Vec<u8>)
    ensures
        r@ == b@,
{
    slice_to_vec(b.as_slice())
}

/// The 32 bytes of a 256-bit number handed over as `b`.
fn uint256_from(b: &Vec<u8>) -> (r: Vec<u8>)
    ensures
        r@ == uint256_bytes(b@),
{
    let mut r: Vec<u8> = Vec::new();
    let mut i: usize = 0;
    while i < 32
        invariant
            i <= 32,
            r@.len() == i,
            forall|j: int|
                0 <= j < i ==> r@[j] == if j < b@.len() {
                    b@[j]
                } else {
                    0u8
                },
        decreases 32 - i,
    {
        if i < b.len() {
            r.push(b[i]);
        } else {
            r.push(0);
        }
        i = i + 1;
    }
    assert(r@ =~= uint256_bytes(b@));
    r
}

/// The value of type `ty` that the host means by `value`, or the error
/// that tells why there is none.
pub fn from_elx(ty: &SszType, value: &SszValue) -> (r: Result<SszValue, FromElxError>)
    requires
        wf(*ty),
    ensures
        match r {
            Ok(v) => converted(*ty, value@) == Some(v@) && valid(*ty, v@),
            Err(e) => converted(*ty, value@) is None && e.0@ == failure_text(
                conversion_failure(*ty, value@),
            ),
        },
    decreases value, 0nat,
{
    proof {
        if converted(*ty, value@) is Some {
            lemma_converted_is_valid(*ty, value@);
        }
    }
    match value {
        SszValue::Bool(b) => match ty {
            SszType::Bool => Ok(SszValue::Bool(*b)),
            _ => Err(conversion_failed(ConversionError::Mismatch)),
        },
        SszValue::Uint(x) => match ty {
            SszType::Uint(width) => {
                if fits_width(*x, *width) {
                    Ok(SszValue::Uint(*x))
                } else {
                    Err(conversion_failed(ConversionError::OutOfRange))
                }
            },
            _ => Err(conversion_failed(ConversionError::Mismatch)),
        },
        SszValue::Bytes(b) => from_elx_bytes(ty, b),
        SszValue::Bits(_) => Err(conversion_failed(ConversionError::Mismatch)),
        SszValue::List(items) => {
            proof {
                lemma_view_items(*items);
            }
            let bound: u64 = match ty {
                SszType::Vector(_, n) => *n,
                SszType::List(_, n) => *n,
                _ => {
                    return Err(conversion_failed(ConversionError::Mismatch));
                },
            };
            let done = match from_elx_items(ty, items) {
                Ok(done) => done,
                Err(e) => {
                    return Err(e);
                },
            };
            let fits: bool = match ty {
                SszType::Vector(_, _) => items.len() as u64 == bound,
                _ => items.len() as u64 <= bound,
            };
            if fits {
                proof {
                    lemma_view_items(done);
                }
                Ok(SszValue::List(done))
            } else {
                Err(conversion_failed(ConversionError::OutOfBounds { i: items.len(), len: bound }))
            }
        },
        SszValue::Container(items) => {
            proof {
                lemma_view_items(*items);
            }
            match ty {
                SszType::Container(fields) => {
                    if items.len() != fields.len() {
                        return Err(conversion_failed(ConversionError::Mismatch));
                    }
                    match from_elx_items(ty, items) {
                        Ok(done) => {
                            proof {
                                lemma_view_items(done);
                            }
                            Ok(SszValue::Container(done))
                        },
                        Err(e) => Err(e),
                    }
                },
                _ => Err(conversion_failed(ConversionError::Mismatch)),
            }
        },
    }
}

/// The value of type `ty` that the host means by the bytes `b`.
fn from_elx_bytes(ty: &SszType, b: &Vec<u8>) -> (r: Result<SszValue, FromElxError>)
    requires
        wf(*ty),
    ensures
        match r {
            Ok(v) => converted(*ty, Value::Bytes(b@)) == Some(v@),
            Err(e) => converted(*ty, Value::Bytes(b@)) is None && e.0@ == failure_text(
                conversion_failure(*ty, Value::Bytes(b@)),
            ),
        },
{
    match ty {
        SszType::Uint256 => Ok(SszValue::Bytes(uint256_from(b))),
        SszType::ByteArray(n) => {
            if b.len() as u64 == *n {
                Ok(SszValue::Bytes(copy_bytes(b)))
            } else {
                Err(array_failed())
            }
        },
        SszType::ByteVector(n) => {
            if b.len() as u64 == *n {
                Ok(SszValue::Bytes(copy_bytes(b)))
            } else {
                Err(conversion_failed(ConversionError::OutOfBounds { i: b.len(), len: *n }))
            }
        },
        SszType::ByteList(n) => {
            if b.len() as u64 <= *n {
                Ok(SszValue::Bytes(copy_bytes(b)))
            } else {
                Err(conversion_failed(ConversionError::OutOfBounds { i: b.len(), len: *n }))
            }
        },
        SszType::Bitvector(_) => match decode(ty, b.as_slice()) {
            Ok(bits) => Ok(bits),
            Err(e) => Err(decode_failed(e)),
        },
        SszType::Bitlist(_) => match decode(ty, b.as_slice()) {
            Ok(bits) => Ok(bits),
            Err(e) => Err(decode_failed(e)),
        },
        _ => Err(conversion_failed(ConversionError::Mismatch)),
    }
}

/// The items of a vector, list or container, converted, or the error of
/// the first that cannot be.
pub fn from_elx_items(ty: &SszType, items: &Vec<SszValue>) -> (r: Result<Vec<SszValue>, FromElxError>)
    requires
        wf(*ty),
        *ty is Vector || *ty is List || (*ty matches SszType::Container(fields) && items.len()
            == fields.len()),
    ensures
        match r {
            Ok(done) => converted_items(*ty, seq_view(items@), items.len() as nat) == Some(
                seq_view(done@),
            ),
            Err(e) => converted_items(*ty, seq_view(items@), items.len() as nat) is None && e.0@
                == failure_text(items_failure(*ty, seq_view(items@), items.len() as nat)),
        },
    decreases items, 1nat,
{
    let ghost vals = seq_view(items@);
    let mut done: Vec<SszValue> = Vec::new();
    let mut i: usize = 0;
    assert(seq_view(done@) =~= Seq::<Value>::empty());
    while i < items.len()
        invariant
            i <= items.len(),
            vals == seq_view(items@),
            wf(*ty),
            *ty is Vector || *ty is List || (*ty matches SszType::Container(fields)
                && items.len() == fields.len()),
            converted_items(*ty, vals, i as nat) == Some(seq_view(done@)),
        decreases items.len() - i,
    {
        let t: &SszType = item_type(ty, i);
        assert(wf(*t));
        match from_elx(t, &items[i]) {
            Ok(item) => {
                let ghost before = seq_view(done@);
                done.push(item);
                assert(seq_view(done@) =~= before.push(item@));
            },
            Err(e) => {
                proof {
                    assert(items_failure(*ty, vals, (i + 1) as nat) == conversion_failure(
                        *t,
                        vals[i as int],
                    ));
                    lemma_items_failure_first(*ty, vals, (i + 1) as nat, items.len() as nat);
                }
                return Err(e);
            },
        }
        i = i + 1;
    }
    Ok(done)
}

/// What the host is handed for the value `v` of type `ty`: bit vectors and
/// bit lists as their encodings, everything else as it is.
pub open spec fn external(ty: SszType, v: Value) -> Value
    decreases v, 0nat,
{
    match v {
        Value::Bits(_) => Value::Bytes(serialize(ty, v)),
        Value::List(items) => Value::List(external_items(ty, items, items.len())),
        Value::Container(items) => Value::Container(external_items(ty, items, items.len())),
        _ => v,
    }
}

/// What the host is handed for the first `k` items.
pub open spec fn external_items(ty: SszType, items: Seq<Value>, k: nat) -> Seq<Value>
    decreases items, k,
{
    if k == 0 || k > items.len() {
        Seq::empty()
    } else {
        external_items(ty, items, (k - 1) as nat).push(external(item_ty(ty, k - 1), items[k - 1]))
    }
}

/// What the host is handed for the value `v` of type `ty`.
pub fn from_ssz(ty: &SszType, v: &SszValue) -> (r: SszValue)
    requires
        valid(*ty, v@),
    ensures
        r@ == external(*ty, v@),
    decreases v, 0nat,
{
    match v {
        SszValue::Bool(b) => SszValue::Bool(*b),
        SszValue::Uint(x) => SszValue::Uint(*x),
        SszValue::Bytes(b) => SszValue::Bytes(copy_bytes(b)),
        SszValue::Bits(bits) => {
            let mut out: Vec<u8> = Vec::new();
            match ty {
                SszType::Bitlist(_) => {
                    push_packed_bits(bits.as_slice(), true, &mut out);
                },
                _ => {
                    push_packed_bits(bits.as_slice(), false, &mut out);
                },
            }
            assert(out@ =~= serialize(*ty, v@));
            SszValue::Bytes(out)
        },
        SszValue::List(items) => {
            proof {
                lemma_view_items(*items);
            }
            let done = from_ssz_items(ty, items);
            proof {
                lemma_view_items(done);
            }
            SszValue::List(done)
        },
        SszValue::Container(items) => {
            proof {
                lemma_view_items(*items);
            }
            let done = from_ssz_items(ty, items);
            proof {
                lemma_view_items(done);
            }
            SszValue::Container(done)
        },
    }
}

/// What the host is handed for the items of a vector, list or container.
fn from_ssz_items(ty: &SszType, items: &Vec<SszValue>) -> (r: Vec<SszValue>)
    requires
        crate::encode::valid_items(*ty, seq_view(items@)),
    ensures
        seq_view(r@) == external_items(*ty, seq_view(items@), items.len() as nat),
    decreases items, 1nat,
{
    let ghost vals = seq_view(items@);
    let mut done: Vec<SszValue> = Vec::new();
    let mut i: usize = 0;
    assert(seq_view(done@) =~= Seq::<Value>::empty());
    while i < items.len()
        invariant
            i <= items.len(),
            vals == seq_view(items@),
            crate::encode::valid_items(*ty, vals),
            seq_view(done@) == external_items(*ty, vals, i as nat),
        decreases items.len() - i,
    {
        let t: &SszType = item_type(ty, i);
        assert(valid(*t, vals[i as int]));
        let item = from_ssz(t, &items[i]);
        let ghost before = seq_view(done@);
        done.push(item);
        assert(seq_view(done@) =~= before.push(item@));
        i = i + 1;
    }
    done
}

} // verus!
