//! Type descriptors and values, and what it means for a value to conform to
//! a type.

use crate::uint::pow256;
use vstd::prelude::*;

verus! {

/// The largest length, in bytes, that a four-byte offset can point at.
pub const MAX_LENGTH: usize = 0xFFFF_FFFF;

/// The number of bytes of an offset.
pub const OFFSET_LEN: usize = 4;

/// A named field of a container.
#[derive(Debug, PartialEq, Eq)]
pub struct Field {
    pub name: &'static str,
    pub ty: SszType,
}

/// The shape of a value on the wire and in the hash tree.
#[derive(Debug, PartialEq, Eq)]
pub enum SszType {
    /// One byte, `0` or `1`.
    Bool,
    /// An unsigned integer of 1, 2, 4 or 8 bytes.
    Uint(u64),
    /// A 256-bit unsigned integer, held as its 32 little-endian bytes.
    Uint256,
    /// A byte array of at most 32 bytes that is hashed as a single chunk.
    ByteArray(u64),
    /// A vector of bytes of the given length.
    ByteVector(u64),
    /// A list of at most the given number of bytes.
    ByteList(u64),
    /// The given number of bits.
    Bitvector(u64),
    /// At most the given number of bits.
    Bitlist(u64),
    /// The given number of elements of one type.
    Vector(Box<SszType>, u64),
    /// At most the given number of elements of one type.
    List(Box<SszType>, u64),
    /// Fields of given types, in order.
    Container(Vec<Field>),
}

/// A value, before it is held against a type.
#[derive(Debug, PartialEq, Eq)]
pub enum SszValue {
    Bool(bool),
    Uint(u64),
    Bytes(Vec<u8>),
    Bits(Vec<bool>),
    List(Vec<SszValue>),
    Container(Vec<SszValue>),
}

/// The mathematical content of an [`SszValue`].
pub ghost enum Value {
    Bool(bool),
    Uint(u64),
    Bytes(Seq<u8>),
    Bits(Seq<bool>),
    List(Seq<Value>),
    Container(Seq<Value>),
}

/// The content of a value.
pub open spec fn value_of(v: SszValue) -> Value
    decreases v,
{
    match v {
        SszValue::Bool(b) => Value::Bool(b),
        SszValue::Uint(x) => Value::Uint(x),
        SszValue::Bytes(b) => Value::Bytes(b@),
        SszValue::Bits(b) => Value::Bits(b@),
        SszValue::List(items) => Value::List(values_of(items@, items.len() as nat)),
        SszValue::Container(items) => Value::Container(values_of(items@, items.len() as nat)),
    }
}

/// The contents of the first `k` of `items`.
pub open spec fn values_of(items: Seq<SszValue>, k: nat) -> Seq<Value>
    decreases items, k,
{
    if k == 0 || k > items.len() {
        Seq::empty()
    } else {
        values_of(items, (k - 1) as nat).push(value_of(items[k - 1]))
    }
}

impl View for SszValue {
    type V = Value;

    open spec fn view(&self) -> Value {
        value_of(*self)
    }
}

/// The contents of a sequence of values.
pub open spec fn seq_view(items: Seq<SszValue>) -> Seq<Value> {
    Seq::new(items.len(), |i: int| items[i]@)
}

/// The contents of the first `k` items are the first `k` contents.
pub proof fn lemma_values_of(items: Seq<SszValue>, k: nat)
    requires
        k <= items.len(),
    ensures
        values_of(items, k) == seq_view(items).subrange(0, k as int),
    decreases k,
{
    if k > 0 {
        lemma_values_of(items, (k - 1) as nat);
    }
    assert(values_of(items, k) =~= seq_view(items).subrange(0, k as int));
}

/// The view of a list or container is the list or container of the views.
pub proof fn lemma_view_items(items: Vec<SszValue>)
    ensures
        SszValue::List(items)@ == Value::List(seq_view(items@)),
        SszValue::Container(items)@ == Value::Container(seq_view(items@)),
{
    lemma_values_of(items@, items.len() as nat);
    assert(seq_view(items@).subrange(0, items.len() as int) =~= seq_view(items@));
}

/// Whether every value of the type has the same encoded length.
pub open spec fn is_fixed(ty: SszType) -> bool
    decreases ty,
{
    match ty {
        SszType::Bool => true,
        SszType::Uint(_) => true,
        SszType::Uint256 => true,
        SszType::ByteArray(_) => true,
        SszType::ByteVector(_) => true,
        SszType::ByteList(_) => false,
        SszType::Bitvector(_) => true,
        SszType::Bitlist(_) => false,
        SszType::Vector(elem, _) => is_fixed(*elem),
        SszType::List(_, _) => false,
        SszType::Container(fields) => forall|i: int|
            0 <= i < fields.len() ==> is_fixed(#[trigger] fields[i].ty),
    }
}

/// The encoded length of a value of a fixed-size type.
pub open spec fn fixed_size(ty: SszType) -> nat
    decreases ty, 0nat,
{
    match ty {
        SszType::Bool => 1,
        SszType::Uint(width) => width as nat,
        SszType::Uint256 => 32,
        SszType::ByteArray(n) => n as nat,
        SszType::ByteVector(n) => n as nat,
        SszType::ByteList(_) => 0,
        SszType::Bitvector(n) => ((n + 7) / 8) as nat,
        SszType::Bitlist(_) => 0,
        SszType::Vector(elem, n) => (n as nat) * part_len(*elem),
        SszType::List(_, _) => 0,
        SszType::Container(fields) => fields_part_len(fields@, fields.len() as nat),
    }
}

/// What a value of the type takes up in the fixed part of an enclosing
/// value: its own bytes if it is fixed-size, an offset if it is not.
pub open spec fn part_len(ty: SszType) -> nat
    decreases ty, 1nat,
{
    if is_fixed(ty) {
        fixed_size(ty)
    } else {
        OFFSET_LEN as nat
    }
}

/// The length of the fixed part that the first `k` fields take up.
pub open spec fn fields_part_len(fields: Seq<Field>, k: nat) -> nat
    decreases fields, k,
{
    if k == 0 || k > fields.len() {
        0
    } else {
        fields_part_len(fields, (k - 1) as nat) + part_len(fields[k - 1].ty)
    }
}

/// Whether a type descriptor makes sense: integer widths that exist, no
/// empty vector or container, and a fixed part that four-byte offsets can
/// address.
pub open spec fn wf(ty: SszType) -> bool
    decreases ty,
{
    match ty {
        SszType::Bool => true,
        SszType::Uint(width) => width == 1 || width == 2 || width == 4 || width == 8,
        SszType::Uint256 => true,
        SszType::ByteArray(n) => 1 <= n <= 32,
        SszType::ByteVector(n) => 1 <= n <= MAX_LENGTH,
        SszType::ByteList(_) => true,
        SszType::Bitvector(n) => 1 <= n <= MAX_LENGTH,
        SszType::Bitlist(_) => true,
        SszType::Vector(elem, n) => wf(*elem) && 1 <= n && n * part_len(*elem) <= MAX_LENGTH,
        SszType::List(elem, _) => wf(*elem),
        SszType::Container(fields) => {
            &&& fields.len() >= 1
            &&& forall|i: int| 0 <= i < fields.len() ==> wf(#[trigger] fields[i].ty)
            &&& fields_part_len(fields@, fields.len() as nat) <= MAX_LENGTH
        },
    }
}

/// Whether `v` is a value of type `ty`, within the type's bounds.
pub open spec fn valid(ty: SszType, v: Value) -> bool
    decreases v,
{
    match (ty, v) {
        (SszType::Bool, Value::Bool(_)) => true,
        (SszType::Uint(width), Value::Uint(x)) => (x as nat) < pow256(width as nat),
        (SszType::Uint256, Value::Bytes(b)) => b.len() == 32,
        (SszType::ByteArray(n), Value::Bytes(b)) => b.len() == n,
        (SszType::ByteVector(n), Value::Bytes(b)) => b.len() == n,
        (SszType::ByteList(n), Value::Bytes(b)) => b.len() <= n,
        (SszType::Bitvector(n), Value::Bits(b)) => b.len() == n,
        (SszType::Bitlist(n), Value::Bits(b)) => b.len() <= n,
        (SszType::Vector(elem, n), Value::List(items)) => {
            &&& items.len() == n
            &&& forall|i: int| 0 <= i < items.len() ==> valid(*elem, #[trigger] items[i])
        },
        (SszType::List(elem, n), Value::List(items)) => {
            &&& items.len() <= n
            &&& forall|i: int| 0 <= i < items.len() ==> valid(*elem, #[trigger] items[i])
        },
        (SszType::Container(fields), Value::Container(items)) => {
            &&& items.len() == fields.len()
            &&& forall|i: int|
                0 <= i < items.len() ==> valid(fields[i].ty, #[trigger] items[i])
        },
        _ => false,
    }
}

/// A fixed part is never empty.
pub proof fn lemma_part_len_positive(ty: SszType)
    requires
        wf(ty),
    ensures
        1 <= part_len(ty) <= MAX_LENGTH,
    decreases ty,
{
    match ty {
        SszType::Vector(elem, n) => {
            lemma_part_len_positive(*elem);
            assert(n * part_len(*elem) >= 1) by (nonlinear_arith)
                requires
                    n >= 1,
                    part_len(*elem) >= 1,
            ;
        },
        SszType::Container(fields) => {
            lemma_part_len_positive(fields[0].ty);
            lemma_fields_part_len_monotonic(fields@, 1, fields.len() as nat);
            reveal_with_fuel(fields_part_len, 2);
        },
        _ => {},
    }
}

/// A vector is no longer than its fixed part.
pub proof fn lemma_vector_len_bound(ty: SszType)
    requires
        wf(ty),
        ty is Vector,
    ensures
        ty->Vector_1 <= MAX_LENGTH,
{
    let elem = *ty->Vector_0;
    let n = ty->Vector_1;
    lemma_part_len_positive(elem);
    assert(n <= n * part_len(elem)) by (nonlinear_arith)
        requires
            part_len(elem) >= 1,
    ;
}

/// The fixed part grows with the number of fields.
pub proof fn lemma_fields_part_len_monotonic(fields: Seq<Field>, a: nat, b: nat)
    requires
        a <= b <= fields.len(),
    ensures
        fields_part_len(fields, a) <= fields_part_len(fields, b),
    decreases b,
{
    if a < b {
        lemma_fields_part_len_monotonic(fields, a, (b - 1) as nat);
    }
}

impl SszType {
    /// Whether every value of the type has the same encoded length.
    #[verifier::loop_isolation(false)]
    pub fn is_fixed_len(&self) -> (r: bool)
        ensures
            r == is_fixed(*self),
        decreases self,
    {
        match self {
            SszType::Bool => true,
            SszType::Uint(_) => true,
            SszType::Uint256 => true,
            SszType::ByteArray(_) => true,
            SszType::ByteVector(_) => true,
            SszType::ByteList(_) => false,
            SszType::Bitvector(_) => true,
            SszType::Bitlist(_) => false,
            SszType::Vector(elem, _) => elem.is_fixed_len(),
            SszType::List(_, _) => false,
            SszType::Container(fields) => {
                let mut i: usize = 0;
                while i < fields.len()
                    invariant
                        i <= fields.len(),
                        forall|j: int| 0 <= j < i ==> is_fixed(#[trigger] fields[j].ty),
                    decreases fields.len() - i,
                {
                    if !fields[i].ty.is_fixed_len() {
                        return false;
                    }
                    i = i + 1;
                }
                true
            },
        }
    }

    /// The length of the fixed part of a value of the type: the whole value
    /// where the type is fixed-size. `None` where the descriptor is not
    /// well-formed.
    #[verifier::loop_isolation(false)]
    pub fn checked_fixed_len(&self) -> (r: Option<usize>)
        ensures
            r is Some <==> wf(*self),
            r is Some ==> r->Some_0 == fixed_size(*self) && r->Some_0 <= MAX_LENGTH,
        decreases self, 0nat,
    {
        match self {
            SszType::Bool => Some(1),
            SszType::Uint(width) => {
                if *width == 1 || *width == 2 || *width == 4 || *width == 8 {
                    Some(*width as usize)
                } else {
                    None
                }
            },
            SszType::Uint256 => Some(32),
            SszType::ByteArray(n) => {
                if 1 <= *n && *n <= 32 {
                    Some(*n as usize)
                } else {
                    None
                }
            },
            SszType::ByteVector(n) => {
                if 1 <= *n && *n <= MAX_LENGTH as u64 {
                    Some(*n as usize)
                } else {
                    None
                }
            },
            SszType::ByteList(_) => Some(0),
            SszType::Bitvector(n) => {
                if 1 <= *n && *n <= MAX_LENGTH as u64 {
                    Some(((*n - 1) / 8 + 1) as usize)
                } else {
                    None
                }
            },
            SszType::Bitlist(_) => Some(0),
            SszType::Vector(elem, n) => {
                match elem.checked_part_len() {
                    None => None,
                    Some(part) => {
                        if *n < 1 || *n > MAX_LENGTH as u64 {
                            proof {
                                if *n >= 1 {
                                    lemma_part_len_positive(**elem);
                                    assert(*n * part_len(**elem) > MAX_LENGTH) by (nonlinear_arith)
                                        requires
                                            *n > MAX_LENGTH,
                                            part_len(**elem) >= 1,
                                    ;
                                }
                            }
                            return None;
                        }
                        assert(*n * part <= 0xFFFF_FFFF * 0xFFFF_FFFF) by (nonlinear_arith)
                            requires
                                *n <= 0xFFFF_FFFF,
                                part <= 0xFFFF_FFFF,
                        ;
                        let total: u64 = *n * (part as u64);
                        if total > MAX_LENGTH as u64 {
                            None
                        } else {
                            Some(total as usize)
                        }
                    },
                }
            },
            SszType::List(elem, _) => {
                match elem.checked_part_len() {
                    None => None,
                    Some(_) => Some(0),
                }
            },
            SszType::Container(fields) => {
                if fields.len() < 1 {
                    return None;
                }
                let mut total: u64 = 0;
                let mut i: usize = 0;
                while i < fields.len()
                    invariant
                        i <= fields.len(),
                        forall|j: int| 0 <= j < i ==> wf(#[trigger] fields[j].ty),
                        total == fields_part_len(fields@, i as nat),
                        total <= MAX_LENGTH,
                    decreases fields.len() - i,
                {
                    match fields[i].ty.checked_part_len() {
                        None => {
                            return None;
                        },
                        Some(part) => {
                            total = total + part as u64;
                            if total > MAX_LENGTH as u64 {
                                proof {
                                    lemma_fields_part_len_monotonic(
                                        fields@,
                                        (i + 1) as nat,
                                        fields.len() as nat,
                                    );
                                }
                                return None;
                            }
                        },
                    }
                    i = i + 1;
                }
                Some(total as usize)
            },
        }
    }

    /// What a value of the type takes up in the fixed part of an enclosing
    /// value. `None` where the descriptor is not well-formed.
    pub fn checked_part_len(&self) -> (r: Option<usize>)
        ensures
            r is Some <==> wf(*self),
            r is Some ==> r->Some_0 == part_len(*self) && r->Some_0 <= MAX_LENGTH,
        decreases self, 1nat,
    {
        match self.checked_fixed_len() {
            None => None,
            Some(n) => {
                if self.is_fixed_len() {
                    Some(n)
                } else {
                    Some(OFFSET_LEN)
                }
            },
        }
    }

    /// Whether the descriptor is well-formed.
    pub fn is_well_formed(&self) -> (r: bool)
        ensures
            r == wf(*self),
    {
        self.checked_fixed_len().is_some()
    }

    /// The length of the fixed part of a value of the type.
    pub fn fixed_len(&self) -> (r: usize)
        requires
            wf(*self),
        ensures
            r == fixed_size(*self),
            r <= MAX_LENGTH,
    {
        match self.checked_fixed_len() {
            Some(n) => n,
            None => 0,
        }
    }

    /// What a value of the type takes up in the fixed part of an enclosing
    /// value.
    pub fn part_len(&self) -> (r: usize)
        requires
            wf(*self),
        ensures
            r == part_len(*self),
            1 <= r <= MAX_LENGTH,
    {
        proof {
            lemma_part_len_positive(*self);
        }
        match self.checked_part_len() {
            Some(n) => n,
            None => 0,
        }
    }
}

/// A copy of a value.
pub fn copy_value(v: &SszValue) -> (r: SszValue)
    ensures
        r@ == v@,
    decreases v,
{
    match v {
        SszValue::Bool(b) => SszValue::Bool(*b),
        SszValue::Uint(x) => SszValue::Uint(*x),
        SszValue::Bytes(b) => SszValue::Bytes(vstd::slice::slice_to_vec(b.as_slice())),
        SszValue::Bits(b) => SszValue::Bits(vstd::slice::slice_to_vec(b.as_slice())),
        SszValue::List(items) => {
            let copies = copy_values(items);
            proof {
                lemma_view_items(*items);
                lemma_view_items(copies);
            }
            SszValue::List(copies)
        },
        SszValue::Container(items) => {
            let copies = copy_values(items);
            proof {
                lemma_view_items(*items);
                lemma_view_items(copies);
            }
            SszValue::Container(copies)
        },
    }
}

/// Copies of the values.
fn copy_values(items: &Vec<SszValue>) -> (r: Vec<SszValue>)
    ensures
        seq_view(r@) == seq_view(items@),
    decreases items,
{
    let mut copies: Vec<SszValue> = Vec::new();
    let mut i: usize = 0;
    while i < items.len()
        invariant
            i <= items.len(),
            copies.len() == i,
            forall|j: int| 0 <= j < i ==> copies@[j]@ == items@[j]@,
        decreases items.len() - i,
    {
        copies.push(copy_value(&items[i]));
        i = i + 1;
    }
    assert(seq_view(copies@) =~= seq_view(items@));
    copies
}

impl Clone for SszValue {
    fn clone(&self) -> (r: Self)
        ensures
            r@ == self@,
    {
        copy_value(self)
    }
}

} // verus!
