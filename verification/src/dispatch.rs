//! The operations by name: a schema name and a configuration name pick the
//! type, the operation does the rest.

use crate::config::{lemma_presets_fit, lemma_presets_limits_fit, preset_by_name, Config};
use crate::helpers::{
    decode_ssz, decode_ssz_ensures, encode_ssz, encode_ssz_ensures, hash_list_ensures,
    hash_list_tree_root, hash_tree_root, hash_tree_root_ensures, list_decode_ssz, list_of, NifError,
};
use crate::from_elx::{converted_items, failure_text, items_failure};
use crate::helpers::tells;
use crate::merkle::{hashable, mixed, vec_root};
use crate::schema::{schema_shape, schema_type, shape_of};
use crate::shape::{
    lemma_decode_ssz_alike, lemma_encode_ssz_alike, lemma_hash_list_alike,
    lemma_hash_tree_root_alike, lemma_list_of_alike, same_shape,
};
use crate::types::{seq_view, wf, SszType, SszValue, Value};
use vstd::prelude::*;

verus! {

/// Whether both names are known.
pub open spec fn known(schema: Seq<char>, config: Seq<char>) -> bool {
    preset_by_name(config) matches Some(cfg) && schema_shape(schema, cfg) is Some
}

/// Whether `ty` is a descriptor of the type that the names stand for. Such
/// a descriptor is well-formed, and on a machine that counts to `2^40` the
/// trees of its values can be built.
pub open spec fn resolves_to(schema: Seq<char>, config: Seq<char>, ty: SszType) -> bool {
    &&& wf(ty)
    &&& usize::MAX >= 0x100_0000_0000 ==> hashable(ty)
    &&& preset_by_name(config) matches Some(cfg) && schema_shape(schema, cfg) == Some(
        shape_of(ty),
    )
}

/// The type that a schema name stands for under the configuration of a
/// name. It fails where one of the names is not known.
pub fn resolve(schema: &str, config: &str) -> (r: Result<SszType, NifError>)
    ensures
        match r {
            Ok(ty) => resolves_to(schema@, config@, ty),
            Err(e) => e is BadArg && !known(schema@, config@),
        },
{
    proof {
        lemma_presets_fit();
        if usize::MAX >= 0x100_0000_0000 {
            lemma_presets_limits_fit();
        }
    }
    match Config::by_name(config) {
        None => Err(NifError::BadArg),
        Some(cfg) => match schema_type(schema, &cfg) {
            None => Err(NifError::BadArg),
            Some(ty) => Ok(ty),
        },
    }
}

/// What `to_ssz_rs` returns: a bad argument where a name is not known, else
/// what `encode_ssz` returns for a descriptor of the type that the names
/// stand for.
pub open spec fn to_ssz_rs_returns(
    value: Value,
    schema: Seq<char>,
    config: Seq<char>,
    r: Result<Seq<u8>, NifError>,
) -> bool {
    if known(schema, config) {
        exists|ty: SszType| resolves_to(schema, config, ty) && encode_ssz_ensures(ty, value, r)
    } else {
        r == Err::<Seq<u8>, NifError>(NifError::BadArg)
    }
}

/// Encodes the value that the host means by `value` as a value of the type
/// that the names stand for.
pub fn to_ssz_rs(value: &SszValue, schema: &str, config: &str) -> (r: Result<Vec<u8>, NifError>)
    ensures
        match r {
            Ok(bytes) => to_ssz_rs_returns(value@, schema@, config@, Ok(bytes@)),
            Err(e) => to_ssz_rs_returns(value@, schema@, config@, Err(e)),
        },
{
    let ty = match resolve(schema, config) {
        Ok(ty) => ty,
        Err(e) => {
            return Err(NifError::BadArg);
        },
    };
    let ghost chosen = ty;
    let r = encode_ssz(ty, value);
    proof {
        assert(resolves_to(schema@, config@, chosen) && match r {
            Ok(bytes) => encode_ssz_ensures(chosen, value@, Ok(bytes@)),
            Err(e) => encode_ssz_ensures(chosen, value@, Err(e)),
        });
    }
    r
}

/// What `from_ssz_rs` returns: a bad argument where a name is not known,
/// else what `decode_ssz` returns for a descriptor of the type that the
/// names stand for.
pub open spec fn from_ssz_rs_returns(
    bytes: Seq<u8>,
    schema: Seq<char>,
    config: Seq<char>,
    r: Result<Value, NifError>,
) -> bool {
    if known(schema, config) {
        exists|ty: SszType| resolves_to(schema, config, ty) && decode_ssz_ensures(ty, bytes, r)
    } else {
        r == Err::<Value, NifError>(NifError::BadArg)
    }
}

/// Decodes `bytes` as a value of the type that the names stand for.
pub fn from_ssz_rs(bytes: &[u8], schema: &str, config: &str) -> (r: Result<SszValue, NifError>)
    ensures
        match r {
            Ok(v) => from_ssz_rs_returns(bytes@, schema@, config@, Ok(v@)),
            Err(e) => from_ssz_rs_returns(bytes@, schema@, config@, Err(e)),
        },
{
    let ty = match resolve(schema, config) {
        Ok(ty) => ty,
        Err(e) => {
            return Err(NifError::BadArg);
        },
    };
    let r = decode_ssz(&ty, bytes);
    proof {
        assert(resolves_to(schema@, config@, ty) && match r {
            Ok(v) => decode_ssz_ensures(ty, bytes@, Ok(v@)),
            Err(e) => decode_ssz_ensures(ty, bytes@, Err(e)),
        });
    }
    r
}

/// What `list_from_ssz_rs` returns: a bad argument where a name is not
/// known, else what `decode_ssz` returns for the list of any number of
/// elements of the type that the names stand for.
pub open spec fn list_from_ssz_rs_returns(
    bytes: Seq<u8>,
    schema: Seq<char>,
    config: Seq<char>,
    r: Result<Value, NifError>,
) -> bool {
    if known(schema, config) {
        exists|ty: SszType| resolves_to(schema, config, ty) && decode_ssz_ensures(list_of(ty), bytes, r)
    } else {
        r == Err::<Value, NifError>(NifError::BadArg)
    }
}

/// Decodes `bytes` as a list of any number of values of the type that the
/// names stand for.
pub fn list_from_ssz_rs(bytes: &[u8], schema: &str, config: &str) -> (r: Result<
    SszValue,
    NifError,
>)
    ensures
        match r {
            Ok(v) => list_from_ssz_rs_returns(bytes@, schema@, config@, Ok(v@)),
            Err(e) => list_from_ssz_rs_returns(bytes@, schema@, config@, Err(e)),
        },
{
    let ty = match resolve(schema, config) {
        Ok(ty) => ty,
        Err(e) => {
            return Err(NifError::BadArg);
        },
    };
    let ghost chosen = ty;
    let r = list_decode_ssz(ty, bytes);
    proof {
        assert(resolves_to(schema@, config@, chosen) && match r {
            Ok(v) => decode_ssz_ensures(list_of(chosen), bytes@, Ok(v@)),
            Err(e) => decode_ssz_ensures(list_of(chosen), bytes@, Err(e)),
        });
    }
    r
}

/// What `hash_tree_root_rs` returns: a bad argument where a name is not
/// known, else what `hash_tree_root` returns for a descriptor of the type
/// that the names stand for.
pub open spec fn hash_tree_root_rs_returns(
    value: Value,
    schema: Seq<char>,
    config: Seq<char>,
    r: Result<Seq<u8>, NifError>,
) -> bool {
    if known(schema, config) {
        exists|ty: SszType| resolves_to(schema, config, ty) && hash_tree_root_ensures(ty, value, r)
    } else {
        r == Err::<Seq<u8>, NifError>(NifError::BadArg)
    }
}

/// The root of the value that the host means by `value`, as a value of the
/// type that the names stand for.
pub fn hash_tree_root_rs(value: &SszValue, schema: &str, config: &str) -> (r: Result<
    [u8; 32],
    NifError,
>)
    ensures
        match r {
            Ok(root) => hash_tree_root_rs_returns(value@, schema@, config@, Ok(root@)),
            Err(e) => hash_tree_root_rs_returns(value@, schema@, config@, Err(e)),
        },
{
    let ty = match resolve(schema, config) {
        Ok(ty) => ty,
        Err(e) => {
            return Err(NifError::BadArg);
        },
    };
    let r = hash_tree_root(&ty, value);
    proof {
        assert(resolves_to(schema@, config@, ty) && match r {
            Ok(root) => hash_tree_root_ensures(ty, value@, Ok(root@)),
            Err(e) => hash_tree_root_ensures(ty, value@, Err(e)),
        });
    }
    r
}

/// What `hash_tree_root_list_rs` returns: a bad argument where a name is
/// not known, else what `hash_list_tree_root` returns for a descriptor of
/// the type that the names stand for.
pub open spec fn hash_tree_root_list_rs_returns(
    items: Seq<Value>,
    max_size: nat,
    schema: Seq<char>,
    config: Seq<char>,
    r: Result<Seq<u8>, NifError>,
) -> bool {
    if known(schema, config) {
        exists|ty: SszType| resolves_to(schema, config, ty) && hash_list_ensures(
            ty,
            items,
            max_size,
            r,
        )
    } else {
        r == Err::<Seq<u8>, NifError>(NifError::BadArg)
    }
}

/// The root of the list of the values that the host means by `list`, each
/// of the type that the names stand for, in a tree made for `max_size`
/// elements.
pub fn hash_tree_root_list_rs(
    list: &Vec<SszValue>,
    max_size: usize,
    schema: &str,
    config: &str,
) -> (r: Result<[u8; 32], NifError>)
    ensures
        match r {
            Ok(root) => hash_tree_root_list_rs_returns(
                seq_view(list@),
                max_size as nat,
                schema@,
                config@,
                Ok(root@),
            ),
            Err(e) => hash_tree_root_list_rs_returns(
                seq_view(list@),
                max_size as nat,
                schema@,
                config@,
                Err(e),
            ),
        },
{
    let ty = match resolve(schema, config) {
        Ok(ty) => ty,
        Err(e) => {
            return Err(NifError::BadArg);
        },
    };
    let ghost chosen = ty;
    let r = hash_list_tree_root(ty, list, max_size);
    proof {
        assert(resolves_to(schema@, config@, chosen) && match r {
            Ok(root) => hash_list_ensures(chosen, seq_view(list@), max_size as nat, Ok(root@)),
            Err(e) => hash_list_ensures(
                chosen,
                seq_view(list@),
                max_size as nat,
                Err(e),
            ),
        });
    }
    r
}

/// Whether two results are one outcome: the same value, or a failure that
/// tells the host the same.
pub open spec fn agree<T>(first: Result<T, NifError>, second: Result<T, NifError>) -> bool {
    match (first, second) {
        (Ok(x), Ok(y)) => x == y,
        (Err(e), Err(f)) => (e is BadArg && f is BadArg) || (e matches NifError::Term(m)
            && f matches NifError::Term(n) && m@ == n@),
        _ => false,
    }
}

/// Two descriptors that the same names stand for are of one shape.
pub proof fn lemma_resolved_alike(schema: Seq<char>, config: Seq<char>, a: SszType, b: SszType)
    requires
        resolves_to(schema, config, a),
        resolves_to(schema, config, b),
    ensures
        same_shape(a, b),
{
}

/// Encoding by name is a function of the names and the value: two results
/// that `to_ssz_rs` may give for the same arguments are one outcome.
pub proof fn lemma_to_ssz_rs_agrees(
    value: Value,
    schema: Seq<char>,
    config: Seq<char>,
    first: Result<Seq<u8>, NifError>,
    second: Result<Seq<u8>, NifError>,
)
    requires
        to_ssz_rs_returns(value, schema, config, first),
        to_ssz_rs_returns(value, schema, config, second),
    ensures
        agree(first, second),
{
    if known(schema, config) {
        let a = choose|ty: SszType|
            resolves_to(schema, config, ty) && encode_ssz_ensures(ty, value, first);
        let b = choose|ty: SszType|
            resolves_to(schema, config, ty) && encode_ssz_ensures(ty, value, second);
        lemma_encode_ssz_alike(b, a, value, second);
    }
}

/// Decoding by name is a function of the names and the bytes: two results
/// that `from_ssz_rs` may give for the same arguments are one outcome.
pub proof fn lemma_from_ssz_rs_agrees(
    bytes: Seq<u8>,
    schema: Seq<char>,
    config: Seq<char>,
    first: Result<Value, NifError>,
    second: Result<Value, NifError>,
)
    requires
        from_ssz_rs_returns(bytes, schema, config, first),
        from_ssz_rs_returns(bytes, schema, config, second),
    ensures
        agree(first, second),
{
    if known(schema, config) {
        let a = choose|ty: SszType|
            resolves_to(schema, config, ty) && decode_ssz_ensures(ty, bytes, first);
        let b = choose|ty: SszType|
            resolves_to(schema, config, ty) && decode_ssz_ensures(ty, bytes, second);
        lemma_decode_ssz_alike(b, a, bytes, second);
    }
}

/// Decoding a list by name is a function of the names and the bytes.
pub proof fn lemma_list_from_ssz_rs_agrees(
    bytes: Seq<u8>,
    schema: Seq<char>,
    config: Seq<char>,
    first: Result<Value, NifError>,
    second: Result<Value, NifError>,
)
    requires
        list_from_ssz_rs_returns(bytes, schema, config, first),
        list_from_ssz_rs_returns(bytes, schema, config, second),
    ensures
        agree(first, second),
{
    if known(schema, config) {
        let a = choose|ty: SszType|
            resolves_to(schema, config, ty) && decode_ssz_ensures(list_of(ty), bytes, first);
        let b = choose|ty: SszType|
            resolves_to(schema, config, ty) && decode_ssz_ensures(list_of(ty), bytes, second);
        lemma_list_of_alike(b, a);
        lemma_decode_ssz_alike(list_of(b), list_of(a), bytes, second);
    }
}

/// Hashing by name is a function of the names and the value: two results
/// that `hash_tree_root_rs` may give for the same arguments are one
/// outcome.
pub proof fn lemma_hash_tree_root_rs_agrees(
    value: Value,
    schema: Seq<char>,
    config: Seq<char>,
    first: Result<Seq<u8>, NifError>,
    second: Result<Seq<u8>, NifError>,
)
    requires
        hash_tree_root_rs_returns(value, schema, config, first),
        hash_tree_root_rs_returns(value, schema, config, second),
    ensures
        agree(first, second),
{
    if known(schema, config) {
        let a = choose|ty: SszType|
            resolves_to(schema, config, ty) && hash_tree_root_ensures(ty, value, first);
        let b = choose|ty: SszType|
            resolves_to(schema, config, ty) && hash_tree_root_ensures(ty, value, second);
        lemma_hash_tree_root_alike(b, a, value, second);
    }
}

/// Hashing a list by name is a function of the names, the values and the
/// size of the tree.
pub proof fn lemma_hash_tree_root_list_rs_agrees(
    items: Seq<Value>,
    max_size: nat,
    schema: Seq<char>,
    config: Seq<char>,
    first: Result<Seq<u8>, NifError>,
    second: Result<Seq<u8>, NifError>,
)
    requires
        hash_tree_root_list_rs_returns(items, max_size, schema, config, first),
        hash_tree_root_list_rs_returns(items, max_size, schema, config, second),
    ensures
        agree(first, second),
{
    if known(schema, config) {
        let a = choose|ty: SszType|
            resolves_to(schema, config, ty) && hash_list_ensures(ty, items, max_size, first);
        let b = choose|ty: SszType|
            resolves_to(schema, config, ty) && hash_list_ensures(ty, items, max_size, second);
        lemma_hash_list_alike(b, a, items, max_size, second);
        let done = converted_items(list_of(a), items, items.len());
        match (first, second) {
            (Ok(x), Ok(y)) => {
                assert(x == mixed(vec_root(a, done->Some_0, max_size), items.len()));
                assert(y == mixed(vec_root(a, done->Some_0, max_size), items.len()));
            },
            (Err(e), Err(f)) => {
                if done is None {
                    let text = failure_text(items_failure(list_of(a), items, items.len()));
                    assert(tells(e, text) && tells(f, text));
                } else {
                    assert(tells(e, "CapacityExceeded"@) && tells(f, "CapacityExceeded"@));
                }
            },
            _ => {},
        }
    }
}

} // verus!
