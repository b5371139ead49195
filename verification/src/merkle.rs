//! Merkle tree hashing: the 32-byte root that commits to a value.
//!
//! The tree itself is built by `tree_hash::MerkleHasher`; what is hashed,
//! in what order and under how many leaves is decided here.

use crate::bits::{bytes_for_bits, pack_bits, push_packed_bits};
use crate::encode::{check_value, lemma_serialize_len, serialize};
use crate::types::{fixed_size, lemma_view_items, seq_view, valid, wf, SszType, SszValue, Value};
use crate::uint::{le_bytes, lemma_le_bytes_len, push_le};
use vstd::pervasive::unreached;
use vstd::prelude::*;

verus! {

/// The number of bytes of a chunk, and of a root.
pub const BYTES_PER_CHUNK: usize = 32;

/// The largest number of leaves that a tree may be declared with on any
/// machine: past it the hasher has no padding nodes.
pub const MAX_TREE_LEAVES: u64 = 0x2_0000_0000_0000;

/// `tree_hash::MerkleHasher`, a hasher that builds a Merkle tree from the
/// bytes written to it. Nothing of its inside is known here.
#[verifier::external_type_specification]
#[verifier::external_body]
pub struct ExMerkleHasher(tree_hash::MerkleHasher);

/// `tree_hash::Error`, the failure of a hasher. Nothing of its inside is
/// known here.
#[verifier::external_type_specification]
#[verifier::external_body]
pub struct ExMerkleError(tree_hash::Error);

/// The bytes written to a hasher so far.
pub uninterp spec fn hasher_bytes(hasher: tree_hash::MerkleHasher) -> Seq<u8>;

/// The number of leaves of the tree of a hasher: the power of two that
/// its depth gives. A hasher made for 6 leaves has 8.
pub uninterp spec fn hasher_leaves(hasher: tree_hash::MerkleHasher) -> nat;

/// The SHA-256 hash of `left` followed by `right`: what
/// `ethereum_hashing::hash32_concat` returns, and what the hasher computes
/// for a node from its two children.
pub uninterp spec fn sha256_pair(left: Seq<u8>, right: Seq<u8>) -> Seq<u8>;

/// Chunk `i` of `bytes`: the 32 bytes from `32 * i` on, filled up with zero
/// bytes where `bytes` end.
pub open spec fn chunk(bytes: Seq<u8>, i: nat) -> Seq<u8> {
    Seq::new(
        32,
        |k: int|
            if 32 * i + k < bytes.len() {
                bytes[32 * i + k]
            } else {
                0u8
            },
    )
}

/// The depth of the tree that is made for `leaves` leaves: the least `d`
/// with `2^d >= leaves`.
pub open spec fn tree_depth(leaves: nat) -> nat
    decreases leaves,
{
    if leaves <= 1 {
        0
    } else {
        1 + tree_depth((leaves + 1) / 2)
    }
}

/// Node `index`, counted from the left, of the nodes that are `height`
/// levels above the leaves: a leaf is a chunk, any other node the hash of
/// its two children.
pub open spec fn tree_node(bytes: Seq<u8>, height: nat, index: nat) -> Seq<u8>
    decreases height,
{
    if height == 0 {
        chunk(bytes, index)
    } else {
        sha256_pair(
            tree_node(bytes, (height - 1) as nat, 2 * index),
            tree_node(bytes, (height - 1) as nat, 2 * index + 1),
        )
    }
}

/// The root of the Merkle tree over `bytes` in a tree made for `leaves`
/// leaves: the tree has the least power of two of leaves that is no less
/// than `leaves`, leaf `i` is chunk `i` of `bytes`, and a leaf past the
/// end of `bytes` holds zero bytes.
pub open spec fn merkle_root_of(bytes: Seq<u8>, leaves: nat) -> Seq<u8> {
    tree_node(bytes, tree_depth(leaves), 0)
}

/// The most leaves that a tree can be made for on this machine: the
/// hasher counts nodes up to eight times the number of leaves in a `usize`.
pub open spec fn tree_limit() -> nat {
    if usize::MAX / 8 + 1 < MAX_TREE_LEAVES {
        (usize::MAX / 8 + 1) as nat
    } else {
        MAX_TREE_LEAVES as nat
    }
}

/// `tree_hash::MerkleHasher::with_leaves`: a hasher to which nothing has
/// been written, for the tree of the least depth that has `num_leaves`
/// leaves or more; the tree has no more leaves than the limit, which is a
/// power of two. The bound keeps the tree within the depth for which the
/// hasher has padding nodes, and the numbers of its nodes within a `usize`.
#[verifier::external_body]
fn hasher_with_leaves(num_leaves: usize) -> (hasher: tree_hash::MerkleHasher)
    requires
        num_leaves <= tree_limit(),
    ensures
        hasher_bytes(hasher) == Seq::<u8>::empty(),
        num_leaves <= hasher_leaves(hasher) <= tree_limit(),
        tree_depth(hasher_leaves(hasher)) == tree_depth(num_leaves as nat),
{
    tree_hash::MerkleHasher::with_leaves(num_leaves)
}

/// `tree_hash::MerkleHasher::write`: takes `bytes` as the next bytes of
/// the leaves. It fails only where more leaves would be written than the
/// hasher was made for, which the precondition rules out.
#[verifier::external_body]
fn hasher_write(hasher: &mut tree_hash::MerkleHasher, bytes: &[u8]) -> (r: Result<
    (),
    tree_hash::Error,
>)
    requires
        hasher_leaves(*old(hasher)) <= tree_limit(),
        hasher_bytes(*old(hasher)).len() + bytes.len() <= BYTES_PER_CHUNK * hasher_leaves(
            *old(hasher),
        ),
    ensures
        r is Ok,
        hasher_bytes(*final(hasher)) == hasher_bytes(*old(hasher)) + bytes@,
        hasher_leaves(*final(hasher)) == hasher_leaves(*old(hasher)),
{
    hasher.write(bytes)
}

/// `tree_hash::MerkleHasher::finish`: the root of the tree over the bytes
/// written, the last chunk and the leaves that were not written filled with
/// zero bytes, each node the SHA-256 hash of its two children. It fails
/// only where the bytes written are more than the leaves hold.
#[verifier::external_body]
fn hasher_finish(hasher: tree_hash::MerkleHasher) -> (r: Result<[u8; 32], tree_hash::Error>)
    requires
        hasher_leaves(hasher) <= tree_limit(),
        hasher_bytes(hasher).len() <= BYTES_PER_CHUNK * hasher_leaves(hasher),
    ensures
        r is Ok,
        r->Ok_0@ == merkle_root_of(hasher_bytes(hasher), hasher_leaves(hasher)),
{
    hasher.finish().map(|root| root.0)
}

/// `tree_hash::mix_in_length`: the hash of `root` followed by `length` as
/// 32 little-endian bytes.
#[verifier::external_body]
pub(crate) fn mix_in_length(root: &[u8; 32], length: usize) -> (r: [u8; 32])
    ensures
        r@ == sha256_pair(root@, le_bytes(length as nat, BYTES_PER_CHUNK as nat)),
{
    tree_hash::mix_in_length(&tree_hash::Hash256::from(*root), length).0
}

/// Whether the elements of a vector or list of this type are packed, several
/// to a chunk.
pub open spec fn is_basic(ty: SszType) -> bool {
    ty is Bool || ty is Uint
}

/// How many elements of a packed type share a chunk; one for any other
/// type.
pub open spec fn packing_factor(elem: SszType) -> nat {
    match elem {
        SszType::Bool => 32,
        SszType::Uint(width) => if width == 1 {
            32
        } else if width == 2 {
            16
        } else if width == 4 {
            8
        } else if width == 8 {
            4
        } else {
            1
        },
        _ => 1,
    }
}

/// The number of chunks that `size` elements of type `elem` take up.
pub open spec fn chunk_count(elem: SszType, size: nat) -> nat {
    (size + packing_factor(elem) - 1) as nat / packing_factor(elem)
}

/// Elements take up no more chunks than there are elements.
pub proof fn lemma_chunk_count_le(elem: SszType, size: nat)
    ensures
        chunk_count(elem, size) <= size,
{
}

/// The number of chunks that `n` bits take up.
pub open spec fn bit_chunks(n: nat) -> nat {
    (bytes_for_bits(n) + 31) / 32
}

/// Whether the trees of the values of a type can be built: none of them is
/// declared with more leaves than [`tree_limit`].
pub open spec fn hashable(ty: SszType) -> bool
    decreases ty,
{
    match ty {
        SszType::ByteVector(n) => (n + 31) / 32 <= tree_limit(),
        SszType::ByteList(n) => (n + 31) / 32 <= tree_limit(),
        SszType::Bitvector(n) => bit_chunks(n as nat) <= tree_limit(),
        SszType::Bitlist(n) => bit_chunks(n as nat) <= tree_limit(),
        SszType::Vector(elem, n) => hashable(*elem) && chunk_count(*elem, n as nat)
            <= tree_limit(),
        SszType::List(elem, n) => hashable(*elem) && n <= usize::MAX && chunk_count(
            *elem,
            n as nat,
        ) <= tree_limit(),
        SszType::Container(fields) => fields.len() <= tree_limit() && forall|i: int|
            0 <= i < fields.len() ==> hashable(#[trigger] fields[i].ty),
        _ => true,
    }
}

/// The number of leaves of the tree of a value of type `ty`; for a type
/// that is hashed as one chunk, one.
pub open spec fn leaf_count(ty: SszType) -> nat {
    match ty {
        SszType::ByteVector(n) => ((n + 31) / 32) as nat,
        SszType::ByteList(n) => ((n + 31) / 32) as nat,
        SszType::Bitvector(n) => bit_chunks(n as nat),
        SszType::Bitlist(n) => bit_chunks(n as nat),
        SszType::Vector(elem, n) => chunk_count(*elem, n as nat),
        SszType::List(elem, n) => chunk_count(*elem, n as nat),
        SszType::Container(fields) => fields.len() as nat,
        _ => 1,
    }
}

/// `n` zero bytes.
pub open spec fn zeros(n: nat) -> Seq<u8> {
    Seq::new(n, |i: int| 0u8)
}

/// A root with a length mixed in: the hash of the root followed by the
/// length as 32 little-endian bytes.
pub open spec fn mixed(root: Seq<u8>, length: nat) -> Seq<u8> {
    sha256_pair(root, le_bytes(length, BYTES_PER_CHUNK as nat))
}

/// The root of `v` as a value of type `ty`.
pub open spec fn hash_root(ty: SszType, v: Value) -> Seq<u8>
    decreases v, 0nat,
{
    match v {
        Value::Bool(b) => le_bytes(
            if b {
                1
            } else {
                0
            },
            BYTES_PER_CHUNK as nat,
        ),
        Value::Uint(x) => le_bytes(x as nat, BYTES_PER_CHUNK as nat),
        Value::Bytes(b) => match ty {
            SszType::ByteVector(_) => merkle_root_of(b, leaf_count(ty)),
            SszType::ByteList(_) => mixed(merkle_root_of(b, leaf_count(ty)), b.len()),
            _ => b + zeros((BYTES_PER_CHUNK - b.len()) as nat),
        },
        Value::Bits(bits) => match ty {
            SszType::Bitlist(_) => mixed(
                merkle_root_of(pack_bits(bits), leaf_count(ty)),
                bits.len(),
            ),
            _ => merkle_root_of(pack_bits(bits), leaf_count(ty)),
        },
        Value::List(items) => match ty {
            SszType::Vector(elem, n) => vec_root(*elem, items, n as nat),
            SszType::List(elem, n) => mixed(vec_root(*elem, items, n as nat), items.len()),
            _ => Seq::empty(),
        },
        Value::Container(items) => match ty {
            SszType::Container(fields) => merkle_root_of(
                field_leaves(fields@, items, items.len()),
                fields.len() as nat,
            ),
            _ => Seq::empty(),
        },
    }
}

/// The root of the tree over `items`, elements of type `elem`, made for
/// `size` elements: the root of a vector, and of a list before its length
/// is mixed in.
pub open spec fn vec_root(elem: SszType, items: Seq<Value>, size: nat) -> Seq<u8>
    decreases items, items.len() + 1,
{
    merkle_root_of(elem_leaves(elem, items, items.len()), chunk_count(elem, size))
}

/// The bytes that the first `k` elements give to the leaves: an element of
/// a packed type its encoding, any other its root.
pub open spec fn elem_leaves(elem: SszType, items: Seq<Value>, k: nat) -> Seq<u8>
    decreases items, k,
{
    if k == 0 || k > items.len() {
        Seq::empty()
    } else {
        elem_leaves(elem, items, (k - 1) as nat) + if is_basic(elem) {
            serialize(elem, items[k - 1])
        } else {
            hash_root(elem, items[k - 1])
        }
    }
}

/// The bytes that the first `k` fields give to the leaves: the root of
/// each.
pub open spec fn field_leaves(fields: Seq<crate::types::Field>, items: Seq<Value>, k: nat) -> Seq<
    u8,
>
    decreases items, k,
{
    if k == 0 || k > items.len() || k > fields.len() {
        Seq::empty()
    } else {
        field_leaves(fields, items, (k - 1) as nat) + hash_root(fields[k - 1].ty, items[k - 1])
    }
}

/// Why a root could not be computed.
#[derive(Debug, Clone, Copy, PartialEq, Eq, Structural)]
pub enum HashError {
    /// The value is not of the type, or is over one of the type's bounds.
    InvalidValue,
    /// A tree of the type would have more leaves than can be declared.
    CapacityExceeded,
}

/// The most leaves that a tree can be made for on this machine.
pub fn tree_limit_of() -> (r: u64)
    ensures
        r == tree_limit(),
{
    let narrow: u64 = (usize::MAX / 8) as u64 + 1;
    if narrow < MAX_TREE_LEAVES {
        narrow
    } else {
        MAX_TREE_LEAVES
    }
}

/// `size` over `factor`, rounded up.
fn chunks_for(size: u64, factor: u64) -> (r: u64)
    requires
        factor == 1 || factor == 4 || factor == 8 || factor == 16 || factor == 32,
    ensures
        r == (size + factor - 1) / (factor as int),
{
    if factor == 1 {
        size
    } else if factor == 4 {
        size / 4 + if size % 4 != 0 {
            1u64
        } else {
            0u64
        }
    } else if factor == 8 {
        size / 8 + if size % 8 != 0 {
            1u64
        } else {
            0u64
        }
    } else if factor == 16 {
        size / 16 + if size % 16 != 0 {
            1u64
        } else {
            0u64
        }
    } else {
        size / 32 + if size % 32 != 0 {
            1u64
        } else {
            0u64
        }
    }
}

/// How many elements of a packed type share a chunk; one for any other
/// type.
fn packing_factor_of(elem: &SszType) -> (r: u64)
    ensures
        r == packing_factor(*elem),
        r == 1 || r == 4 || r == 8 || r == 16 || r == 32,
{
    match elem {
        SszType::Bool => 32,
        SszType::Uint(width) => {
            if *width == 1 {
                32
            } else if *width == 2 {
                16
            } else if *width == 4 {
                8
            } else if *width == 8 {
                4
            } else {
                1
            }
        },
        _ => 1,
    }
}

/// The number of leaves of the tree of a value of type `ty`, where it can
/// be declared.
fn checked_leaf_count(ty: &SszType) -> (r: Option<usize>)
    ensures
        r is Some <==> leaf_count(*ty) <= tree_limit(),
        r is Some ==> r->Some_0 == leaf_count(*ty),
{
    let count: u64 = match ty {
        SszType::ByteVector(n) => chunks_for(*n, 32),
        SszType::ByteList(n) => chunks_for(*n, 32),
        SszType::Bitvector(n) => chunks_for(chunks_for(*n, 8), 32),
        SszType::Bitlist(n) => chunks_for(chunks_for(*n, 8), 32),
        SszType::Vector(elem, n) => chunks_for(*n, packing_factor_of(elem)),
        SszType::List(elem, n) => chunks_for(*n, packing_factor_of(elem)),
        SszType::Container(fields) => fields.len() as u64,
        _ => 1,
    };
    if count <= tree_limit_of() {
        Some(count as usize)
    } else {
        None
    }
}

/// Whether a tree for `size` elements of type `elem` can be declared.
pub fn tree_fits(elem: &SszType, size: usize) -> (r: bool)
    ensures
        r == (chunk_count(*elem, size as nat) <= tree_limit()),
{
    chunks_for(size as u64, packing_factor_of(elem)) <= tree_limit_of()
}

/// Whether the trees of the values of a type can be built.
#[verifier::loop_isolation(false)]
pub fn is_hashable(ty: &SszType) -> (r: bool)
    ensures
        r == hashable(*ty),
    decreases ty,
{
    if checked_leaf_count(ty).is_none() {
        return false;
    }
    match ty {
        SszType::Vector(elem, _) => is_hashable(elem),
        SszType::List(elem, n) => *n <= usize::MAX as u64 && is_hashable(elem),
        SszType::Container(fields) => {
            let mut i: usize = 0;
            while i < fields.len()
                invariant
                    i <= fields.len(),
                    forall|j: int| 0 <= j < i ==> hashable(#[trigger] fields[j].ty),
                decreases fields.len() - i,
            {
                if !is_hashable(&fields[i].ty) {
                    return false;
                }
                i = i + 1;
            }
            true
        },
        _ => true,
    }
}

/// A chunk that holds `bytes`, filled up with zero bytes.
fn padded_chunk(bytes: &[u8]) -> (r: [u8; 32])
    requires
        bytes.len() <= BYTES_PER_CHUNK,
    ensures
        r@ == bytes@ + zeros((BYTES_PER_CHUNK - bytes.len()) as nat),
{
    let mut r: [u8; 32] = [0u8; 32];
    let mut i: usize = 0;
    while i < bytes.len()
        invariant
            i <= bytes.len() <= BYTES_PER_CHUNK,
            forall|j: int| 0 <= j < i ==> r@[j] == bytes@[j],
            forall|j: int| i <= j < 32 ==> r@[j] == 0,
        decreases bytes.len() - i,
    {
        r[i] = bytes[i];
        i = i + 1;
    }
    assert(r@ =~= bytes@ + zeros((BYTES_PER_CHUNK - bytes.len()) as nat));
    r
}

/// The bytes that an element of a packed type gives to the leaves: its
/// encoding.
fn packed_encoding(elem: &SszType, v: &SszValue) -> (r: Vec<u8>)
    requires
        is_basic(*elem),
        wf(*elem),
        valid(*elem, v@),
    ensures
        r@ == serialize(*elem, v@),
{
    let mut buf: Vec<u8> = Vec::new();
    match v {
        SszValue::Bool(b) => {
            if *b {
                buf.push(1);
            } else {
                buf.push(0);
            }
        },
        SszValue::Uint(x) => {
            match elem {
                SszType::Uint(width) => {
                    push_le(*x, *width as usize, &mut buf);
                },
                _ => {},
            }
        },
        _ => {},
    }
    assert(buf@ =~= serialize(*elem, v@));
    buf
}

/// A write that is known to have succeeded.
fn written(r: Result<(), tree_hash::Error>)
    requires
        r is Ok,
{
}

/// The root that a hasher is known to have given.
fn finished(r: Result<[u8; 32], tree_hash::Error>) -> (root: [u8; 32])
    requires
        r is Ok,
    ensures
        root == r->Ok_0,
{
    match r {
        Ok(root) => root,
        Err(_) => unreached(),
    }
}

/// The root of the tree over `bytes`, made for `leaves` leaves.
fn bytes_root(bytes: &[u8], leaves: usize) -> (r: [u8; 32])
    requires
        leaves <= tree_limit(),
        bytes.len() <= BYTES_PER_CHUNK * leaves,
    ensures
        r@ == merkle_root_of(bytes@, leaves as nat),
{
    let mut hasher = hasher_with_leaves(leaves);
    written(hasher_write(&mut hasher, bytes));
    finished(hasher_finish(hasher))
}

/// The root of `v`, a valid value of type `ty`.
pub fn root_of(ty: &SszType, v: &SszValue) -> (root: [u8; 32])
    requires
        wf(*ty),
        hashable(*ty),
        valid(*ty, v@),
    ensures
        root@ == hash_root(*ty, v@),
    decreases v, 0nat,
{
    match v {
        SszValue::Bool(b) => {
            let mut buf: Vec<u8> = Vec::new();
            push_le(
                if *b {
                    1
                } else {
                    0
                },
                BYTES_PER_CHUNK,
                &mut buf,
            );
            proof {
                lemma_le_bytes_len(
                    if *b {
                        1
                    } else {
                        0
                    },
                    32,
                );
            }
            let r = padded_chunk(buf.as_slice());
            assert(r@ =~= hash_root(*ty, v@));
            r
        },
        SszValue::Uint(x) => {
            let mut buf: Vec<u8> = Vec::new();
            push_le(*x, BYTES_PER_CHUNK, &mut buf);
            proof {
                lemma_le_bytes_len(*x as nat, 32);
            }
            let r = padded_chunk(buf.as_slice());
            assert(r@ =~= hash_root(*ty, v@));
            r
        },
        SszValue::Bytes(b) => {
            match ty {
                SszType::ByteVector(_) => {
                    let leaves: usize = checked_leaf_count(ty).unwrap();
                    bytes_root(b.as_slice(), leaves)
                },
                SszType::ByteList(_) => {
                    let leaves: usize = checked_leaf_count(ty).unwrap();
                    let root = bytes_root(b.as_slice(), leaves);
                    mix_in_length(&root, b.len())
                },
                _ => padded_chunk(b.as_slice()),
            }
        },
        SszValue::Bits(bits) => {
            let leaves: usize = checked_leaf_count(ty).unwrap();
            let mut packed: Vec<u8> = Vec::new();
            push_packed_bits(bits.as_slice(), false, &mut packed);
            assert(packed@ =~= pack_bits(bits@));
            let root = bytes_root(packed.as_slice(), leaves);
            match ty {
                SszType::Bitlist(_) => mix_in_length(&root, bits.len()),
                _ => root,
            }
        },
        SszValue::List(items) => {
            proof {
                lemma_view_items(*items);
            }
            match ty {
                SszType::Vector(elem, n) => vec_tree_hash_root(elem, items, *n as usize),
                SszType::List(elem, n) => {
                    let root = vec_tree_hash_root(elem, items, *n as usize);
                    mix_in_length(&root, items.len())
                },
                _ => [0u8; 32],
            }
        },
        SszValue::Container(items) => {
            proof {
                lemma_view_items(*items);
            }
            match ty {
                SszType::Container(fields) => fields_root(fields, items),
                _ => [0u8; 32],
            }
        },
    }
}

/// What one element gives to the leaves: a packed element its encoding,
/// any other a chunk.
pub open spec fn piece_len(elem: SszType) -> nat {
    if is_basic(elem) {
        fixed_size(elem)
    } else {
        32
    }
}

/// The elements that share a chunk fill it.
proof fn lemma_piece_times_factor(elem: SszType)
    requires
        wf(elem),
    ensures
        piece_len(elem) * packing_factor(elem) == 32,
{
    let piece = piece_len(elem);
    let factor = packing_factor(elem);
    if piece == 1 {
        assert(factor == 32);
        assert(piece * factor == 32) by (nonlinear_arith)
            requires
                piece == 1,
                factor == 32,
        ;
    } else if piece == 2 {
        assert(factor == 16);
        assert(piece * factor == 32) by (nonlinear_arith)
            requires
                piece == 2,
                factor == 16,
        ;
    } else if piece == 4 {
        assert(factor == 8);
        assert(piece * factor == 32) by (nonlinear_arith)
            requires
                piece == 4,
                factor == 8,
        ;
    } else if piece == 8 {
        assert(factor == 4);
        assert(piece * factor == 32) by (nonlinear_arith)
            requires
                piece == 8,
                factor == 4,
        ;
    } else {
        assert(piece == 32 && factor == 1);
        assert(piece * factor == 32) by (nonlinear_arith)
            requires
                piece == 32,
                factor == 1,
        ;
    }
}

/// A helper function providing common functionality between the tree
/// hashes of vectors and lists: the root of the tree over `vec`, elements
/// of type `elem`, made for `size` elements. Elements of a packed type are
/// written as their encodings, several to a leaf, all others as their
/// roots, one to a leaf.
pub fn vec_tree_hash_root(elem: &SszType, vec: &Vec<SszValue>, size: usize) -> (root: [u8; 32])
    requires
        wf(*elem),
        hashable(*elem),
        vec.len() <= size,
        chunk_count(*elem, size as nat) <= tree_limit(),
        forall|i: int| 0 <= i < vec.len() ==> valid(*elem, #[trigger] seq_view(vec@)[i]),
    ensures
        root@ == vec_root(*elem, seq_view(vec@), size as nat),
    decreases vec, 1nat,
{
    let ghost vals = seq_view(vec@);
    let factor: u64 = packing_factor_of(elem);
    let leaves: usize = chunks_for(size as u64, factor) as usize;
    let basic: bool = match elem {
        SszType::Bool => true,
        SszType::Uint(_) => true,
        _ => false,
    };
    let ghost piece: nat = piece_len(*elem);
    proof {
        lemma_piece_times_factor(*elem);
    }
    assert(size * piece <= 32 * leaves) by (nonlinear_arith)
        requires
            piece * factor == 32,
            factor > 0,
            leaves == (size + factor - 1) / (factor as int),
    ;
    let mut hasher = hasher_with_leaves(leaves);
    let mut i: usize = 0;
    while i < vec.len()
        invariant
            i <= vec.len() <= size,
            vals == seq_view(vec@),
            wf(*elem),
            hashable(*elem),
            basic == is_basic(*elem),
            piece == piece_len(*elem),
            size * piece <= 32 * leaves,
            forall|j: int| 0 <= j < vec.len() ==> valid(*elem, #[trigger] vals[j]),
            leaves <= hasher_leaves(hasher) <= tree_limit(),
            tree_depth(hasher_leaves(hasher)) == tree_depth(leaves as nat),
            hasher_bytes(hasher) == elem_leaves(*elem, vals, i as nat),
            hasher_bytes(hasher).len() == i * piece,
        decreases vec.len() - i,
    {
        proof {
            assert(valid(*elem, vals[i as int]));
            assert((i + 1) * piece == i * piece + piece) by (nonlinear_arith);
            assert((i + 1) * piece <= size * piece) by (nonlinear_arith)
                requires
                    i + 1 <= size,
            ;
        }
        if basic {
            proof {
                lemma_serialize_len(*elem, vals[i as int]);
            }
            let buf = packed_encoding(elem, &vec[i]);
            written(hasher_write(&mut hasher, buf.as_slice()));
        } else {
            let r = root_of(elem, &vec[i]);
            written(hasher_write(&mut hasher, r.as_slice()));
        }
        i = i + 1;
    }
    assert(i * piece <= size * piece) by (nonlinear_arith)
        requires
            i <= size,
    ;
    finished(hasher_finish(hasher))
}

/// The root of a container: the root of the tree whose leaves are the
/// roots of the fields.
fn fields_root(fields: &Vec<crate::types::Field>, items: &Vec<SszValue>) -> (root: [u8; 32])
    requires
        wf(SszType::Container(*fields)),
        hashable(SszType::Container(*fields)),
        valid(SszType::Container(*fields), Value::Container(seq_view(items@))),
    ensures
        root@ == merkle_root_of(
            field_leaves(fields@, seq_view(items@), items.len() as nat),
            fields.len() as nat,
        ),
    decreases items, 1nat,
{
    let ghost vals = seq_view(items@);
    let n: usize = items.len();
    let mut hasher = hasher_with_leaves(n);
    let mut i: usize = 0;
    while i < n
        invariant
            i <= n,
            n == items.len(),
            n == fields.len(),
            vals == seq_view(items@),
            forall|j: int|
                0 <= j < n ==> wf(#[trigger] fields[j].ty) && hashable(fields[j].ty) && valid(
                    fields[j].ty,
                    vals[j],
                ),
            n <= hasher_leaves(hasher) <= tree_limit(),
            tree_depth(hasher_leaves(hasher)) == tree_depth(n as nat),
            hasher_bytes(hasher) == field_leaves(fields@, vals, i as nat),
            hasher_bytes(hasher).len() == 32 * i,
        decreases n - i,
    {
        assert(wf(fields[i as int].ty));
        let r = root_of(&fields[i].ty, &items[i]);
        written(hasher_write(&mut hasher, r.as_slice()));
        i = i + 1;
    }
    finished(hasher_finish(hasher))
}

/// What `tree_hash_root` returns: the root of a valid value, where the
/// trees of the type can be built.
pub open spec fn hash_ensures(ty: SszType, v: Value, r: Result<Seq<u8>, HashError>) -> bool {
    match r {
        Ok(root) => valid(ty, v) && hashable(ty) && root == hash_root(ty, v),
        Err(HashError::InvalidValue) => !valid(ty, v),
        Err(HashError::CapacityExceeded) => valid(ty, v) && !hashable(ty),
    }
}

/// The root of `v` as a value of type `ty`.
pub fn tree_hash_root(ty: &SszType, v: &SszValue) -> (r: Result<[u8; 32], HashError>)
    requires
        wf(*ty),
    ensures
        match r {
            Ok(root) => hash_ensures(*ty, v@, Ok(root@)),
            Err(e) => hash_ensures(*ty, v@, Err(e)),
        },
{
    if !check_value(ty, v) {
        Err(HashError::InvalidValue)
    } else if !is_hashable(ty) {
        Err(HashError::CapacityExceeded)
    } else {
        Ok(root_of(ty, v))
    }
}

} // verus!
