//! The operations on a resolved type: encoding and hashing of values that
//! the host hands over, decoding into values that the host is handed.

use crate::decode::{decode, decode_error_text, deserialize};
use crate::encode::{encode_into, offsets_fit, serialize};
use crate::from_elx::{
    conversion_failure, failure_text, from_elx_items, items_failure, lemma_converted_items_valid,
    converted, converted_items, debug_string, external, from_elx, from_ssz, FromElxError,
};
use crate::merkle::{
    chunk_count, hash_root, hashable, is_hashable, mix_in_length, mixed, root_of, tree_limit,
    vec_root, vec_tree_hash_root,
};
use crate::types::{seq_view, valid, wf, SszType, SszValue, Value};
use vstd::prelude::*;

verus! {

/// What the host is told when an operation fails.
#[derive(Debug, PartialEq, Eq)]
pub enum NifError {
    /// The schema or the configuration is not known.
    BadArg,
    /// The operation failed on the value or the bytes, with a message.
    Term(String),
}

/// The failure that tells the host why a value could not be converted.
pub fn to_nif_result(result: FromElxError) -> (r: NifError)
    ensures
        r matches NifError::Term(message) && message@ == result.0@,
{
    NifError::Term(result.message())
}

/// The failure that tells the host the debug text of an error.
pub fn debug_error_to_nif<T: core::fmt::Debug>(error: T) -> (r: NifError)
    ensures
        r is Term,
{
    NifError::Term(debug_string(&error))
}

/// The list of any number of elements of type `ty`.
pub open spec fn list_of(ty: SszType) -> SszType {
    SszType::List(Box::new(ty), u64::MAX)
}

/// The type as which a value handed over for type `ty` is encoded: a list
/// is encoded as a list of any number of elements of the type.
pub open spec fn top_type(ty: SszType, v: Value) -> SszType {
    if v is List {
        list_of(ty)
    } else {
        ty
    }
}

/// The bytes of the value that the host means by `v`, where it means one
/// and each offset among the bytes fits in four bytes.
pub open spec fn encoded(ty: SszType, v: Value) -> Option<Seq<u8>> {
    let top = top_type(ty, v);
    match converted(top, v) {
        Some(x) => if offsets_fit(top, x) {
            Some(serialize(top, x))
        } else {
            None
        },
        None => None,
    }
}

/// Whether a failure tells the host `text`.
pub open spec fn tells(e: NifError, text: Seq<char>) -> bool {
    e matches NifError::Term(message) && message@ == text
}

/// The failure that tells the host `message`.
fn term(message: &str) -> (r: NifError)
    ensures
        tells(r, message@),
{
    NifError::Term(message.to_owned())
}

/// What `encode_ssz` returns: the bytes, or the failure that tells why the
/// host means no value, or that an offset does not fit.
pub open spec fn encode_ssz_ensures(ty: SszType, v: Value, r: Result<Seq<u8>, NifError>) -> bool {
    match r {
        Ok(bytes) => encoded(ty, v) == Some(bytes),
        Err(e) => encoded(ty, v) is None && if converted(top_type(ty, v), v) is None {
            tells(e, failure_text(conversion_failure(top_type(ty, v), v)))
        } else {
            tells(e, "TooLarge"@)
        },
    }
}

/// Encodes the value that the host means by `value`: a value of type `ty`,
/// or a list of such values.
pub fn encode_ssz(ty: SszType, value: &SszValue) -> (r: Result<Vec<u8>, NifError>)
    requires
        wf(ty),
    ensures
        match r {
            Ok(bytes) => encode_ssz_ensures(ty, value@, Ok(bytes@)),
            Err(e) => encode_ssz_ensures(ty, value@, Err(e)),
        },
{
    let top: SszType = match value {
        SszValue::List(_) => SszType::List(Box::new(ty), u64::MAX),
        _ => ty,
    };
    assert(top == top_type(ty, value@));
    let value_ssz = match from_elx(&top, value) {
        Ok(v) => v,
        Err(e) => {
            return Err(to_nif_result(e));
        },
    };
    let mut out: Vec<u8> = Vec::new();
    match encode_into(&top, &value_ssz, &mut out) {
        Ok(()) => Ok(out),
        Err(_) => Err(term("TooLarge")),
    }
}

/// What `decode_ssz` returns: what the host is handed for the value that
/// the bytes hold, or the failure that tells which rule the bytes break.
pub open spec fn decode_ssz_ensures(ty: SszType, bytes: Seq<u8>, r: Result<Value, NifError>) -> bool {
    match r {
        Ok(v) => deserialize(ty, bytes) matches Ok(x) && v == external(ty, x),
        Err(e) => deserialize(ty, bytes) matches Err(broken) && tells(
            e,
            decode_error_text(broken),
        ),
    }
}

/// Decodes `bytes` as a value of type `ty`, and hands it to the host.
pub fn decode_ssz(ty: &SszType, bytes: &[u8]) -> (r: Result<SszValue, NifError>)
    requires
        wf(*ty),
    ensures
        match r {
            Ok(v) => decode_ssz_ensures(*ty, bytes@, Ok(v@)),
            Err(e) => decode_ssz_ensures(*ty, bytes@, Err(e)),
        },
{
    match decode(ty, bytes) {
        Ok(recovered_value) => Ok(from_ssz(ty, &recovered_value)),
        Err(e) => Err(term(e.name())),
    }
}

/// Decodes `bytes` as a list of any number of values of type `ty`.
pub fn list_decode_ssz(ty: SszType, bytes: &[u8]) -> (r: Result<SszValue, NifError>)
    requires
        wf(ty),
    ensures
        match r {
            Ok(v) => decode_ssz_ensures(list_of(ty), bytes@, Ok(v@)),
            Err(e) => decode_ssz_ensures(list_of(ty), bytes@, Err(e)),
        },
{
    let list: SszType = SszType::List(Box::new(ty), u64::MAX);
    decode_ssz(&list, bytes)
}

/// What `hash_tree_root` returns: the root of the value that the host
/// means, where it means one and the trees of the type can be built.
pub open spec fn hash_tree_root_ensures(ty: SszType, v: Value, r: Result<Seq<u8>, NifError>) -> bool {
    match r {
        Ok(root) => converted(ty, v) matches Some(x) && hashable(ty) && root == hash_root(ty, x),
        Err(e) => if converted(ty, v) is None {
            tells(e, failure_text(conversion_failure(ty, v)))
        } else {
            !hashable(ty) && tells(e, "CapacityExceeded"@)
        },
    }
}

/// The root of the value of type `ty` that the host means by `value`.
pub fn hash_tree_root(ty: &SszType, value: &SszValue) -> (r: Result<[u8; 32], NifError>)
    requires
        wf(*ty),
    ensures
        match r {
            Ok(root) => hash_tree_root_ensures(*ty, value@, Ok(root@)),
            Err(e) => hash_tree_root_ensures(*ty, value@, Err(e)),
        },
{
    let value_ssz = match from_elx(ty, value) {
        Ok(v) => v,
        Err(e) => {
            return Err(to_nif_result(e));
        },
    };
    if !is_hashable(ty) {
        return Err(term("CapacityExceeded"));
    }
    Ok(root_of(ty, &value_ssz))
}

/// Whether a tree for `max_size` elements of type `ty` can be built and
/// holds `n` elements.
pub open spec fn tree_holds(ty: SszType, n: nat, max_size: nat) -> bool {
    &&& n <= max_size
    &&& hashable(ty)
    &&& chunk_count(ty, max_size) <= tree_limit()
}

/// What `hash_vector_tree_root` returns: the root of the tree over the
/// elements that the host means, made for `max_size` elements, or the
/// failure that tells which element the host cannot mean, or that the tree
/// cannot hold the elements.
pub open spec fn hash_vector_ensures(
    ty: SszType,
    items: Seq<Value>,
    max_size: nat,
    r: Result<Seq<u8>, NifError>,
) -> bool {
    let done = converted_items(list_of(ty), items, items.len());
    match r {
        Ok(root) => done matches Some(xs) && tree_holds(ty, items.len(), max_size) && root
            == vec_root(ty, xs, max_size),
        Err(e) => if done is None {
            tells(e, failure_text(items_failure(list_of(ty), items, items.len())))
        } else {
            !tree_holds(ty, items.len(), max_size) && tells(e, "CapacityExceeded"@)
        },
    }
}

/// What `hash_list_tree_root` returns: the root of the tree over the
/// elements, with their number mixed in.
pub open spec fn hash_list_ensures(
    ty: SszType,
    items: Seq<Value>,
    max_size: nat,
    r: Result<Seq<u8>, NifError>,
) -> bool {
    let done = converted_items(list_of(ty), items, items.len());
    match r {
        Ok(root) => done matches Some(xs) && tree_holds(ty, items.len(), max_size) && root
            == mixed(vec_root(ty, xs, max_size), items.len()),
        Err(e) => if done is None {
            tells(e, failure_text(items_failure(list_of(ty), items, items.len())))
        } else {
            !tree_holds(ty, items.len(), max_size) && tells(e, "CapacityExceeded"@)
        },
    }
}

/// The elements that the host means by `list`, and the type of one.
fn convert_elements(ty: SszType, list: &Vec<SszValue>) -> (r: Result<
    (SszType, Vec<SszValue>),
    NifError,
>)
    requires
        wf(ty),
    ensures
        match r {
            Ok((elem, xs)) => elem == ty && converted_items(
                list_of(ty),
                seq_view(list@),
                list.len() as nat,
            ) == Some(seq_view(xs@)) && xs.len() == list.len() && forall|i: int|
                0 <= i < xs.len() ==> valid(ty, #[trigger] seq_view(xs@)[i]),
            Err(e) => converted_items(list_of(ty), seq_view(list@), list.len() as nat) is None
                && tells(
                e,
                failure_text(items_failure(list_of(ty), seq_view(list@), list.len() as nat)),
            ),
        },
{
    let top: SszType = SszType::List(Box::new(ty), u64::MAX);
    let converted = from_elx_items(&top, list);
    match converted {
        Err(e) => Err(to_nif_result(e)),
        Ok(done) => {
            proof {
                lemma_converted_items_valid(top, seq_view(list@), list.len() as nat);
                assert forall|i: int| 0 <= i < done.len() implies valid(
                    ty,
                    #[trigger] seq_view(done@)[i],
                ) by {
                    assert(crate::encode::item_ty(top, i) == ty);
                }
            }
            match top {
                SszType::List(elem, _) => Ok((*elem, done)),
                _ => Err(NifError::BadArg),
            }
        },
    }
}

/// The root of the tree over the elements of type `ty` that the host means
/// by `list`, made for `max_size` elements.
pub fn hash_vector_tree_root(ty: SszType, list: &Vec<SszValue>, max_size: usize) -> (r: Result<
    [u8; 32],
    NifError,
>)
    requires
        wf(ty),
    ensures
        match r {
            Ok(root) => hash_vector_ensures(ty, seq_view(list@), max_size as nat, Ok(root@)),
            Err(e) => hash_vector_ensures(ty, seq_view(list@), max_size as nat, Err(e)),
        },
{
    let (elem, x) = match convert_elements(ty, list) {
        Ok(pair) => pair,
        Err(e) => {
            return Err(e);
        },
    };
    if x.len() > max_size || !is_hashable(&elem) || !crate::merkle::tree_fits(&elem, max_size) {
        return Err(term("CapacityExceeded"));
    }
    Ok(vec_tree_hash_root(&elem, &x, max_size))
}

/// The root of the list of the elements of type `ty` that the host means
/// by `list`, in a tree made for `max_size` elements: the root of the tree
/// with the number of elements mixed in.
pub fn hash_list_tree_root(ty: SszType, list: &Vec<SszValue>, max_size: usize) -> (r: Result<
    [u8; 32],
    NifError,
>)
    requires
        wf(ty),
    ensures
        match r {
            Ok(root) => hash_list_ensures(ty, seq_view(list@), max_size as nat, Ok(root@)),
            Err(e) => hash_list_ensures(ty, seq_view(list@), max_size as nat, Err(e)),
        },
{
    let root = match hash_vector_tree_root(ty, list, max_size) {
        Ok(root) => root,
        Err(e) => {
            return Err(e);
        },
    };
    Ok(mix_in_length(&root, list.len()))
}

} // verus!
