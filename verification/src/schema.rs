//! The container types of the consensus records: for each its fields, in
//! order, with their types, under a given configuration.

use crate::config::{bounds_fit, limits_fit, str_eq, Config};
use crate::merkle::{hashable, lemma_chunk_count_le, tree_limit};
use crate::types::{fields_part_len, fixed_size, is_fixed, part_len, wf, Field, SszType, MAX_LENGTH};
use vstd::prelude::*;

verus! {

/// The mathematical content of a type descriptor.
pub ghost enum Shape {
    Bool,
    Uint(u64),
    Uint256,
    ByteArray(u64),
    ByteVector(u64),
    ByteList(u64),
    Bitvector(u64),
    Bitlist(u64),
    Vector(Box<Shape>, u64),
    List(Box<Shape>, u64),
    Container(Seq<FieldShape>),
}

/// The mathematical content of a field: its name and the shape of its
/// type.
pub ghost struct FieldShape {
    pub name: Seq<char>,
    pub shape: Shape,
}

/// The shape of a field.
pub open spec fn field_shape(name: Seq<char>, shape: Shape) -> FieldShape {
    FieldShape { name, shape }
}

/// The shape of a vector of `n` elements.
pub open spec fn vector_shape(elem: Shape, n: u64) -> Shape {
    Shape::Vector(Box::new(elem), n)
}

/// The shape of a list of at most `n` elements.
pub open spec fn list_shape(elem: Shape, n: u64) -> Shape {
    Shape::List(Box::new(elem), n)
}

/// The shape of a type descriptor.
pub open spec fn shape_of(ty: SszType) -> Shape
    decreases ty,
{
    match ty {
        SszType::Bool => Shape::Bool,
        SszType::Uint(width) => Shape::Uint(width),
        SszType::Uint256 => Shape::Uint256,
        SszType::ByteArray(n) => Shape::ByteArray(n),
        SszType::ByteVector(n) => Shape::ByteVector(n),
        SszType::ByteList(n) => Shape::ByteList(n),
        SszType::Bitvector(n) => Shape::Bitvector(n),
        SszType::Bitlist(n) => Shape::Bitlist(n),
        SszType::Vector(elem, n) => Shape::Vector(Box::new(shape_of(*elem)), n),
        SszType::List(elem, n) => Shape::List(Box::new(shape_of(*elem)), n),
        SszType::Container(fields) => Shape::Container(
            shapes_upto(fields@, fields.len() as nat),
        ),
    }
}

/// The shapes of the first `k` fields.
pub open spec fn shapes_upto(fields: Seq<Field>, k: nat) -> Seq<FieldShape>
    decreases fields, k,
{
    if k == 0 || k > fields.len() {
        Seq::empty()
    } else {
        shapes_upto(fields, (k - 1) as nat).push(
            FieldShape { name: fields[k - 1].name@, shape: shape_of(fields[k - 1].ty) },
        )
    }
}

/// The shapes of all the fields.
pub open spec fn field_shapes(fields: Seq<Field>) -> Seq<FieldShape> {
    shapes_upto(fields, fields.len())
}

/// A field added at the end leaves the shapes of the fields before it as
/// they were.
pub proof fn lemma_shapes_upto_push(fields: Seq<Field>, field: Field, k: nat)
    requires
        k <= fields.len(),
    ensures
        shapes_upto(fields.push(field), k) == shapes_upto(fields, k),
    decreases k,
{
    if k > 0 {
        lemma_shapes_upto_push(fields, field, (k - 1) as nat);
    }
}

/// A field added at the end leaves the fixed part of the fields before it
/// as it was.
pub proof fn lemma_part_len_push(fields: Seq<Field>, field: Field, k: nat)
    requires
        k <= fields.len(),
    ensures
        fields_part_len(fields.push(field), k) == fields_part_len(fields, k),
    decreases k,
{
    if k > 0 {
        lemma_part_len_push(fields, field, (k - 1) as nat);
    }
}

/// Whether the type of each field is well-formed.
pub open spec fn all_wf(fields: Seq<Field>) -> bool {
    forall|i: int| 0 <= i < fields.len() ==> wf(#[trigger] fields[i].ty)
}

/// Whether the type of each field is fixed-size.
pub open spec fn all_fixed(fields: Seq<Field>) -> bool {
    forall|i: int| 0 <= i < fields.len() ==> is_fixed(#[trigger] fields[i].ty)
}

/// Whether the trees of the type of each field can be built.
pub open spec fn all_hashable(fields: Seq<Field>) -> bool {
    forall|i: int| 0 <= i < fields.len() ==> hashable(#[trigger] fields[i].ty)
}

/// The length of the fixed part of all the fields.
pub open spec fn fixed_part_len(fields: Seq<Field>) -> nat {
    fields_part_len(fields, fields.len())
}

/// A field of a container.
fn push_field(fields: &mut Vec<Field>, name: &'static str, ty: SszType)
    ensures
        final(fields)@ == old(fields)@.push(Field { name, ty }),
        field_shapes(final(fields)@) == field_shapes(old(fields)@).push(
            FieldShape { name: name@, shape: shape_of(ty) },
        ),
        fixed_part_len(final(fields)@) == fixed_part_len(old(fields)@) + part_len(ty),
        all_wf(final(fields)@) == (all_wf(old(fields)@) && wf(ty)),
        all_fixed(final(fields)@) == (all_fixed(old(fields)@) && is_fixed(ty)),
        all_hashable(old(fields)@) && hashable(ty) ==> all_hashable(final(fields)@),
{
    let ghost before = fields@;
    let ghost field = Field { name, ty };
    proof {
        lemma_shapes_upto_push(before, field, before.len());
        lemma_part_len_push(before, field, before.len());
    }
    fields.push(Field { name, ty });
    proof {
        let after = fields@;
        assert(after[before.len() as int] == field);
        assert forall|i: int| 0 <= i < before.len() implies after[i] == before[i] by {}
        if all_wf(before) && wf(ty) {
            assert forall|i: int| 0 <= i < after.len() implies wf(#[trigger] after[i].ty) by {
                if i < before.len() {
                    assert(after[i] == before[i]);
                }
            }
        }
        if all_wf(after) {
            assert(wf(after[before.len() as int].ty));
            assert forall|i: int| 0 <= i < before.len() implies wf(#[trigger] before[i].ty) by {
                assert(after[i] == before[i]);
            }
        }
        if all_fixed(before) && is_fixed(ty) {
            assert forall|i: int| 0 <= i < after.len() implies is_fixed(
                #[trigger] after[i].ty,
            ) by {
                if i < before.len() {
                    assert(after[i] == before[i]);
                }
            }
        }
        if all_hashable(before) && hashable(ty) {
            assert forall|i: int| 0 <= i < after.len() implies hashable(
                #[trigger] after[i].ty,
            ) by {
                if i < before.len() {
                    assert(after[i] == before[i]);
                }
            }
        }
        if all_fixed(after) {
            assert(is_fixed(after[before.len() as int].ty));
            assert forall|i: int| 0 <= i < before.len() implies is_fixed(
                #[trigger] before[i].ty,
            ) by {
                assert(after[i] == before[i]);
            }
        }
    }
}

/// A container of the given fields.
fn container(fields: Vec<Field>) -> (t: SszType)
    ensures
        t == SszType::Container(fields),
        shape_of(t) == Shape::Container(field_shapes(fields@)),
        is_fixed(t) == all_fixed(fields@),
        fixed_size(t) == fixed_part_len(fields@),
        wf(t) == (fields.len() >= 1 && all_wf(fields@) && fixed_part_len(fields@) <= MAX_LENGTH),
        hashable(t) == (fields.len() <= tree_limit() && all_hashable(fields@)),
{
    SszType::Container(fields)
}

/// An unsigned integer of `width` bytes.
fn uint(width: u64) -> (t: SszType)
    ensures
        t == SszType::Uint(width),
{
    SszType::Uint(width)
}

/// A vector of `n` elements, each of which takes up `part` bytes of the
/// fixed part.
fn vector(elem: SszType, Ghost(part): Ghost<nat>, n: u64) -> (t: SszType)
    requires
        part == part_len(elem),
    ensures
        shape_of(t) == Shape::Vector(Box::new(shape_of(elem)), n),
        is_fixed(t) == is_fixed(elem),
        fixed_size(t) == n * part,
        wf(t) == (wf(elem) && 1 <= n && n * part <= MAX_LENGTH),
        hashable(elem) && n <= tree_limit() ==> hashable(t),
{
    proof {
        lemma_chunk_count_le(elem, n as nat);
    }
    SszType::Vector(Box::new(elem), n)
}

/// A list of at most `n` elements.
fn list(elem: SszType, n: u64) -> (t: SszType)
    ensures
        shape_of(t) == Shape::List(Box::new(shape_of(elem)), n),
        !is_fixed(t),
        wf(t) == wf(elem),
        hashable(elem) && n <= tree_limit() ==> hashable(t),
{
    proof {
        lemma_chunk_count_le(elem, n as nat);
    }
    SszType::List(Box::new(elem), n)
}

/// A transaction: at most 2^30 bytes.
pub open spec fn transaction_shape() -> Shape {
    Shape::ByteList(1073741824)
}

/// A transaction: at most 2^30 bytes.
pub fn transaction() -> (t: SszType)
    ensures
        shape_of(t) == transaction_shape(),
        wf(t),
        hashable(t),
        !is_fixed(t),
{
    SszType::ByteList(1073741824)
}

/// A root: 32 bytes.
pub open spec fn root_shape() -> Shape {
    Shape::ByteArray(32)
}

/// A root: 32 bytes.
pub fn root() -> (t: SszType)
    ensures
        shape_of(t) == root_shape(),
        wf(t),
        hashable(t),
        is_fixed(t),
        fixed_size(t) == 32,
{
    SszType::ByteArray(32)
}

/// An epoch: a 64-bit number.
pub open spec fn epoch_shape() -> Shape {
    Shape::Uint(8)
}

/// An epoch: a 64-bit number.
pub fn epoch() -> (t: SszType)
    ensures
        shape_of(t) == epoch_shape(),
        wf(t),
        hashable(t),
        is_fixed(t),
        fixed_size(t) == 8,
{
    uint(8)
}

/// The shape of a `Fork`.
pub open spec fn fork_shape() -> Shape {
    Shape::Container(
        Seq::empty()
            .push(field_shape("previous_version"@, Shape::ByteArray(4)))
            .push(field_shape("current_version"@, Shape::ByteArray(4)))
            .push(field_shape("epoch"@, Shape::Uint(8))),
    )
}

/// The type of a `Fork`.
pub fn fork() -> (t: SszType)
    ensures
        shape_of(t) == fork_shape(),
        wf(t) && is_fixed(t) && fixed_size(t) == 16,
        hashable(t),
{
    let mut fields: Vec<Field> = Vec::new();
    push_field(&mut fields, "previous_version", SszType::ByteArray(4));
    push_field(&mut fields, "current_version", SszType::ByteArray(4));
    push_field(&mut fields, "epoch", uint(8));
    container(fields)
}

/// The shape of a `ForkData`.
pub open spec fn fork_data_shape() -> Shape {
    Shape::Container(
        Seq::empty()
            .push(field_shape("current_version"@, Shape::ByteArray(4)))
            .push(field_shape("genesis_validators_root"@, Shape::ByteArray(32))),
    )
}

/// The type of a `ForkData`.
pub fn fork_data() -> (t: SszType)
    ensures
        shape_of(t) == fork_data_shape(),
        wf(t) && is_fixed(t) && fixed_size(t) == 36,
        hashable(t),
{
    let mut fields: Vec<Field> = Vec::new();
    push_field(&mut fields, "current_version", SszType::ByteArray(4));
    push_field(&mut fields, "genesis_validators_root", SszType::ByteArray(32));
    container(fields)
}

/// The shape of a `Checkpoint`.
pub open spec fn checkpoint_shape() -> Shape {
    Shape::Container(
        Seq::empty()
            .push(field_shape("epoch"@, Shape::Uint(8)))
            .push(field_shape("root"@, Shape::ByteArray(32))),
    )
}

/// The type of a `Checkpoint`.
pub fn checkpoint() -> (t: SszType)
    ensures
        shape_of(t) == checkpoint_shape(),
        wf(t) && is_fixed(t) && fixed_size(t) == 40,
        hashable(t),
{
    let mut fields: Vec<Field> = Vec::new();
    push_field(&mut fields, "epoch", uint(8));
    push_field(&mut fields, "root", SszType::ByteArray(32));
    container(fields)
}

/// The shape of a `Validator`.
pub open spec fn validator_shape() -> Shape {
    Shape::Container(
        Seq::empty()
            .push(field_shape("pubkey"@, Shape::ByteVector(48)))
            .push(field_shape("withdrawal_credentials"@, Shape::ByteArray(32)))
            .push(field_shape("effective_balance"@, Shape::Uint(8)))
            .push(field_shape("slashed"@, Shape::Bool))
            .push(field_shape("activation_eligibility_epoch"@, Shape::Uint(8)))
            .push(field_shape("activation_epoch"@, Shape::Uint(8)))
            .push(field_shape("exit_epoch"@, Shape::Uint(8)))
            .push(field_shape("withdrawable_epoch"@, Shape::Uint(8))),
    )
}

/// The type of a `Validator`.
pub fn validator() -> (t: SszType)
    ensures
        shape_of(t) == validator_shape(),
        wf(t) && is_fixed(t) && fixed_size(t) == 121,
        hashable(t),
{
    let mut fields: Vec<Field> = Vec::new();
    push_field(&mut fields, "pubkey", SszType::ByteVector(48));
    push_field(&mut fields, "withdrawal_credentials", SszType::ByteArray(32));
    push_field(&mut fields, "effective_balance", uint(8));
    push_field(&mut fields, "slashed", SszType::Bool);
    push_field(&mut fields, "activation_eligibility_epoch", uint(8));
    push_field(&mut fields, "activation_epoch", uint(8));
    push_field(&mut fields, "exit_epoch", uint(8));
    push_field(&mut fields, "withdrawable_epoch", uint(8));
    container(fields)
}

/// The shape of an `AttestationData`.
pub open spec fn attestation_data_shape() -> Shape {
    Shape::Container(
        Seq::empty()
            .push(field_shape("slot"@, Shape::Uint(8)))
            .push(field_shape("index"@, Shape::Uint(8)))
            .push(field_shape("beacon_block_root"@, Shape::ByteArray(32)))
            .push(field_shape("source"@, checkpoint_shape()))
            .push(field_shape("target"@, checkpoint_shape())),
    )
}

/// The type of an `AttestationData`.
pub fn attestation_data() -> (t: SszType)
    ensures
        shape_of(t) == attestation_data_shape(),
        wf(t) && is_fixed(t) && fixed_size(t) == 128,
        hashable(t),
{
    let mut fields: Vec<Field> = Vec::new();
    push_field(&mut fields, "slot", uint(8));
    push_field(&mut fields, "index", uint(8));
    push_field(&mut fields, "beacon_block_root", SszType::ByteArray(32));
    push_field(&mut fields, "source", checkpoint());
    push_field(&mut fields, "target", checkpoint());
    container(fields)
}

/// The shape of an `IndexedAttestation`.
pub open spec fn indexed_attestation_shape(cfg: Config) -> Shape {
    Shape::Container(
        Seq::empty()
            .push(field_shape(
                "attesting_indices"@,
                list_shape(Shape::Uint(8), cfg.max_validators_per_committee),
            ))
            .push(field_shape("data"@, attestation_data_shape()))
            .push(field_shape("signature"@, Shape::ByteVector(96))),
    )
}

/// The type of an `IndexedAttestation`.
pub fn indexed_attestation(cfg: &Config) -> (t: SszType)
    ensures
        shape_of(t) == indexed_attestation_shape(*cfg),
        bounds_fit(*cfg) ==> wf(t) && !is_fixed(t),
        bounds_fit(*cfg) && limits_fit(*cfg) ==> hashable(t),
{
    let mut fields: Vec<Field> = Vec::new();
    push_field(&mut fields, "attesting_indices", list(uint(8), cfg.max_validators_per_committee));
    push_field(&mut fields, "data", attestation_data());
    push_field(&mut fields, "signature", SszType::ByteVector(96));
    container(fields)
}

/// The shape of a `PendingAttestation`.
pub open spec fn pending_attestation_shape(cfg: Config) -> Shape {
    Shape::Container(
        Seq::empty()
            .push(field_shape(
                "aggregation_bits"@,
                Shape::Bitlist(cfg.max_validators_per_committee),
            ))
            .push(field_shape("data"@, attestation_data_shape()))
            .push(field_shape("inclusion_delay"@, Shape::Uint(8)))
            .push(field_shape("proposer_index"@, Shape::Uint(8))),
    )
}

/// The type of a `PendingAttestation`.
pub fn pending_attestation(cfg: &Config) -> (t: SszType)
    ensures
        shape_of(t) == pending_attestation_shape(*cfg),
        bounds_fit(*cfg) ==> wf(t) && !is_fixed(t),
        bounds_fit(*cfg) && limits_fit(*cfg) ==> hashable(t),
{
    let mut fields: Vec<Field> = Vec::new();
    push_field(
        &mut fields,
        "aggregation_bits",
        SszType::Bitlist(cfg.max_validators_per_committee),
    );
    push_field(&mut fields, "data", attestation_data());
    push_field(&mut fields, "inclusion_delay", uint(8));
    push_field(&mut fields, "proposer_index", uint(8));
    container(fields)
}

/// The shape of an `Eth1Data`.
pub open spec fn eth1_data_shape() -> Shape {
    Shape::Container(
        Seq::empty()
            .push(field_shape("deposit_root"@, Shape::ByteArray(32)))
            .push(field_shape("deposit_count"@, Shape::Uint(8)))
            .push(field_shape("block_hash"@, Shape::ByteArray(32))),
    )
}

/// The type of an `Eth1Data`.
pub fn eth1_data() -> (t: SszType)
    ensures
        shape_of(t) == eth1_data_shape(),
        wf(t) && is_fixed(t) && fixed_size(t) == 72,
        hashable(t),
{
    let mut fields: Vec<Field> = Vec::new();
    push_field(&mut fields, "deposit_root", SszType::ByteArray(32));
    push_field(&mut fields, "deposit_count", uint(8));
    push_field(&mut fields, "block_hash", SszType::ByteArray(32));
    container(fields)
}

/// The shape of a `HistoricalBatch`.
pub open spec fn historical_batch_shape(cfg: Config) -> Shape {
    Shape::Container(
        Seq::empty()
            .push(field_shape(
                "block_roots"@,
                vector_shape(Shape::ByteArray(32), cfg.slots_per_historical_root),
            ))
            .push(field_shape(
                "state_roots"@,
                vector_shape(Shape::ByteArray(32), cfg.slots_per_historical_root),
            )),
    )
}

/// The type of a `HistoricalBatch`.
pub fn historical_batch(cfg: &Config) -> (t: SszType)
    ensures
        shape_of(t) == historical_batch_shape(*cfg),
        bounds_fit(*cfg) ==> wf(t) && is_fixed(t) && fixed_size(t)
            == 64 * cfg.slots_per_historical_root,
        bounds_fit(*cfg) && limits_fit(*cfg) ==> hashable(t),
{
    let mut fields: Vec<Field> = Vec::new();
    push_field(
        &mut fields,
        "block_roots",
        vector(SszType::ByteArray(32), Ghost(32), cfg.slots_per_historical_root),
    );
    push_field(
        &mut fields,
        "state_roots",
        vector(SszType::ByteArray(32), Ghost(32), cfg.slots_per_historical_root),
    );
    container(fields)
}

/// The shape of a `DepositMessage`.
pub open spec fn deposit_message_shape() -> Shape {
    Shape::Container(
        Seq::empty()
            .push(field_shape("pubkey"@, Shape::ByteVector(48)))
            .push(field_shape("withdrawal_credentials"@, Shape::ByteArray(32)))
            .push(field_shape("amount"@, Shape::Uint(8))),
    )
}

/// The type of a `DepositMessage`.
pub fn deposit_message() -> (t: SszType)
    ensures
        shape_of(t) == deposit_message_shape(),
        wf(t) && is_fixed(t) && fixed_size(t) == 88,
        hashable(t),
{
    let mut fields: Vec<Field> = Vec::new();
    push_field(&mut fields, "pubkey", SszType::ByteVector(48));
    push_field(&mut fields, "withdrawal_credentials", SszType::ByteArray(32));
    push_field(&mut fields, "amount", uint(8));
    container(fields)
}

/// The shape of a `DepositData`.
pub open spec fn deposit_data_shape() -> Shape {
    Shape::Container(
        Seq::empty()
            .push(field_shape("pubkey"@, Shape::ByteVector(48)))
            .push(field_shape("withdrawal_credentials"@, Shape::ByteArray(32)))
            .push(field_shape("amount"@, Shape::Uint(8)))
            .push(field_shape("signature"@, Shape::ByteVector(96))),
    )
}

/// The type of a `DepositData`.
pub fn deposit_data() -> (t: SszType)
    ensures
        shape_of(t) == deposit_data_shape(),
        wf(t) && is_fixed(t) && fixed_size(t) == 184,
        hashable(t),
{
    let mut fields: Vec<Field> = Vec::new();
    push_field(&mut fields, "pubkey", SszType::ByteVector(48));
    push_field(&mut fields, "withdrawal_credentials", SszType::ByteArray(32));
    push_field(&mut fields, "amount", uint(8));
    push_field(&mut fields, "signature", SszType::ByteVector(96));
    container(fields)
}

/// The shape of a `HistoricalSummary`.
pub open spec fn historical_summary_shape() -> Shape {
    Shape::Container(
        Seq::empty()
            .push(field_shape("block_summary_root"@, Shape::ByteArray(32)))
            .push(field_shape("state_summary_root"@, Shape::ByteArray(32))),
    )
}

/// The type of a `HistoricalSummary`.
pub fn historical_summary() -> (t: SszType)
    ensures
        shape_of(t) == historical_summary_shape(),
        wf(t) && is_fixed(t) && fixed_size(t) == 64,
        hashable(t),
{
    let mut fields: Vec<Field> = Vec::new();
    push_field(&mut fields, "block_summary_root", SszType::ByteArray(32));
    push_field(&mut fields, "state_summary_root", SszType::ByteArray(32));
    container(fields)
}

/// The shape of a `Deposit`.
pub open spec fn deposit_shape() -> Shape {
    Shape::Container(
        Seq::empty()
            .push(field_shape("proof"@, vector_shape(Shape::ByteArray(32), 33)))
            .push(field_shape("data"@, deposit_data_shape())),
    )
}

/// The type of a `Deposit`.
pub fn deposit() -> (t: SszType)
    ensures
        shape_of(t) == deposit_shape(),
        wf(t) && is_fixed(t) && fixed_size(t) == 1240,
        hashable(t),
{
    let mut fields: Vec<Field> = Vec::new();
    push_field(&mut fields, "proof", vector(SszType::ByteArray(32), Ghost(32), 33));
    push_field(&mut fields, "data", deposit_data());
    container(fields)
}

/// The shape of a `VoluntaryExit`.
pub open spec fn voluntary_exit_shape() -> Shape {
    Shape::Container(
        Seq::empty()
            .push(field_shape("epoch"@, Shape::Uint(8)))
            .push(field_shape("validator_index"@, Shape::Uint(8))),
    )
}

/// The type of a `VoluntaryExit`.
pub fn voluntary_exit() -> (t: SszType)
    ensures
        shape_of(t) == voluntary_exit_shape(),
        wf(t) && is_fixed(t) && fixed_size(t) == 16,
        hashable(t),
{
    let mut fields: Vec<Field> = Vec::new();
    push_field(&mut fields, "epoch", uint(8));
    push_field(&mut fields, "validator_index", uint(8));
    container(fields)
}

/// The shape of an `Attestation`.
pub open spec fn attestation_shape(cfg: Config) -> Shape {
    Shape::Container(
        Seq::empty()
            .push(field_shape(
                "aggregation_bits"@,
                Shape::Bitlist(cfg.max_validators_per_committee),
            ))
            .push(field_shape("data"@, attestation_data_shape()))
            .push(field_shape("signature"@, Shape::ByteVector(96))),
    )
}

/// The type of an `Attestation`.
pub fn attestation(cfg: &Config) -> (t: SszType)
    ensures
        shape_of(t) == attestation_shape(*cfg),
        bounds_fit(*cfg) ==> wf(t) && !is_fixed(t),
        bounds_fit(*cfg) && limits_fit(*cfg) ==> hashable(t),
{
    let mut fields: Vec<Field> = Vec::new();
    push_field(
        &mut fields,
        "aggregation_bits",
        SszType::Bitlist(cfg.max_validators_per_committee),
    );
    push_field(&mut fields, "data", attestation_data());
    push_field(&mut fields, "signature", SszType::ByteVector(96));
    container(fields)
}

/// The shape of a `BeaconBlock`.
pub open spec fn beacon_block_shape(cfg: Config) -> Shape {
    Shape::Container(
        Seq::empty()
            .push(field_shape("slot"@, Shape::Uint(8)))
            .push(field_shape("proposer_index"@, Shape::Uint(8)))
            .push(field_shape("parent_root"@, Shape::ByteArray(32)))
            .push(field_shape("state_root"@, Shape::ByteArray(32)))
            .push(field_shape("body"@, beacon_block_body_shape(cfg))),
    )
}

/// The type of a `BeaconBlock`.
pub fn beacon_block(cfg: &Config) -> (t: SszType)
    ensures
        shape_of(t) == beacon_block_shape(*cfg),
        bounds_fit(*cfg) ==> wf(t) && !is_fixed(t),
        bounds_fit(*cfg) && limits_fit(*cfg) ==> hashable(t),
{
    let mut fields: Vec<Field> = Vec::new();
    push_field(&mut fields, "slot", uint(8));
    push_field(&mut fields, "proposer_index", uint(8));
    push_field(&mut fields, "parent_root", SszType::ByteArray(32));
    push_field(&mut fields, "state_root", SszType::ByteArray(32));
    push_field(&mut fields, "body", beacon_block_body(cfg));
    container(fields)
}

/// The shape of a `BeaconBlockHeader`.
pub open spec fn beacon_block_header_shape() -> Shape {
    Shape::Container(
        Seq::empty()
            .push(field_shape("slot"@, Shape::Uint(8)))
            .push(field_shape("proposer_index"@, Shape::Uint(8)))
            .push(field_shape("parent_root"@, Shape::ByteArray(32)))
            .push(field_shape("state_root"@, Shape::ByteArray(32)))
            .push(field_shape("body_root"@, Shape::ByteArray(32))),
    )
}

/// The type of a `BeaconBlockHeader`.
pub fn beacon_block_header() -> (t: SszType)
    ensures
        shape_of(t) == beacon_block_header_shape(),
        wf(t) && is_fixed(t) && fixed_size(t) == 112,
        hashable(t),
{
    let mut fields: Vec<Field> = Vec::new();
    push_field(&mut fields, "slot", uint(8));
    push_field(&mut fields, "proposer_index", uint(8));
    push_field(&mut fields, "parent_root", SszType::ByteArray(32));
    push_field(&mut fields, "state_root", SszType::ByteArray(32));
    push_field(&mut fields, "body_root", SszType::ByteArray(32));
    container(fields)
}

/// The shape of a `SignedBeaconBlock`.
pub open spec fn signed_beacon_block_shape(cfg: Config) -> Shape {
    Shape::Container(
        Seq::empty()
            .push(field_shape("message"@, beacon_block_shape(cfg)))
            .push(field_shape("signature"@, Shape::ByteVector(96))),
    )
}

/// The type of a `SignedBeaconBlock`.
pub fn signed_beacon_block(cfg: &Config) -> (t: SszType)
    ensures
        shape_of(t) == signed_beacon_block_shape(*cfg),
        bounds_fit(*cfg) ==> wf(t) && !is_fixed(t),
        bounds_fit(*cfg) && limits_fit(*cfg) ==> hashable(t),
{
    let mut fields: Vec<Field> = Vec::new();
    push_field(&mut fields, "message", beacon_block(cfg));
    push_field(&mut fields, "signature", SszType::ByteVector(96));
    container(fields)
}

/// The shape of a `SignedBeaconBlockHeader`.
pub open spec fn signed_beacon_block_header_shape() -> Shape {
    Shape::Container(
        Seq::empty()
            .push(field_shape("message"@, beacon_block_header_shape()))
            .push(field_shape("signature"@, Shape::ByteVector(96))),
    )
}

/// The type of a `SignedBeaconBlockHeader`.
pub fn signed_beacon_block_header() -> (t: SszType)
    ensures
        shape_of(t) == signed_beacon_block_header_shape(),
        wf(t) && is_fixed(t) && fixed_size(t) == 208,
        hashable(t),
{
    let mut fields: Vec<Field> = Vec::new();
    push_field(&mut fields, "message", beacon_block_header());
    push_field(&mut fields, "signature", SszType::ByteVector(96));
    container(fields)
}

/// The shape of an `AttesterSlashing`.
pub open spec fn attester_slashing_shape(cfg: Config) -> Shape {
    Shape::Container(
        Seq::empty()
            .push(field_shape("attestation_1"@, indexed_attestation_shape(cfg)))
            .push(field_shape("attestation_2"@, indexed_attestation_shape(cfg))),
    )
}

/// The type of an `AttesterSlashing`.
pub fn attester_slashing(cfg: &Config) -> (t: SszType)
    ensures
        shape_of(t) == attester_slashing_shape(*cfg),
        bounds_fit(*cfg) ==> wf(t) && !is_fixed(t),
        bounds_fit(*cfg) && limits_fit(*cfg) ==> hashable(t),
{
    let mut fields: Vec<Field> = Vec::new();
    push_field(&mut fields, "attestation_1", indexed_attestation(cfg));
    push_field(&mut fields, "attestation_2", indexed_attestation(cfg));
    container(fields)
}

/// The shape of a `SigningData`.
pub open spec fn signing_data_shape() -> Shape {
    Shape::Container(
        Seq::empty()
            .push(field_shape("object_root"@, Shape::ByteArray(32)))
            .push(field_shape("domain"@, Shape::ByteArray(32))),
    )
}

/// The type of a `SigningData`.
pub fn signing_data() -> (t: SszType)
    ensures
        shape_of(t) == signing_data_shape(),
        wf(t) && is_fixed(t) && fixed_size(t) == 64,
        hashable(t),
{
    let mut fields: Vec<Field> = Vec::new();
    push_field(&mut fields, "object_root", SszType::ByteArray(32));
    push_field(&mut fields, "domain", SszType::ByteArray(32));
    container(fields)
}

/// The shape of a `BLSToExecutionChange`.
pub open spec fn bls_to_execution_change_shape() -> Shape {
    Shape::Container(
        Seq::empty()
            .push(field_shape("validator_index"@, Shape::Uint(8)))
            .push(field_shape("from_bls_pubkey"@, Shape::ByteVector(48)))
            .push(field_shape("to_execution_address"@, Shape::ByteVector(20))),
    )
}

/// The type of a `BLSToExecutionChange`.
pub fn bls_to_execution_change() -> (t: SszType)
    ensures
        shape_of(t) == bls_to_execution_change_shape(),
        wf(t) && is_fixed(t) && fixed_size(t) == 76,
        hashable(t),
{
    let mut fields: Vec<Field> = Vec::new();
    push_field(&mut fields, "validator_index", uint(8));
    push_field(&mut fields, "from_bls_pubkey", SszType::ByteVector(48));
    push_field(&mut fields, "to_execution_address", SszType::ByteVector(20));
    container(fields)
}

/// The shape of a `SignedBLSToExecutionChange`.
pub open spec fn signed_bls_to_execution_change_shape() -> Shape {
    Shape::Container(
        Seq::empty()
            .push(field_shape("message"@, bls_to_execution_change_shape()))
            .push(field_shape("signature"@, Shape::ByteVector(96))),
    )
}

/// The type of a `SignedBLSToExecutionChange`.
pub fn signed_bls_to_execution_change() -> (t: SszType)
    ensures
        shape_of(t) == signed_bls_to_execution_change_shape(),
        wf(t) && is_fixed(t) && fixed_size(t) == 172,
        hashable(t),
{
    let mut fields: Vec<Field> = Vec::new();
    push_field(&mut fields, "message", bls_to_execution_change());
    push_field(&mut fields, "signature", SszType::ByteVector(96));
    container(fields)
}

/// The shape of a `SignedVoluntaryExit`.
pub open spec fn signed_voluntary_exit_shape() -> Shape {
    Shape::Container(
        Seq::empty()
            .push(field_shape("message"@, voluntary_exit_shape()))
            .push(field_shape("signature"@, Shape::ByteVector(96))),
    )
}

/// The type of a `SignedVoluntaryExit`.
pub fn signed_voluntary_exit() -> (t: SszType)
    ensures
        shape_of(t) == signed_voluntary_exit_shape(),
        wf(t) && is_fixed(t) && fixed_size(t) == 112,
        hashable(t),
{
    let mut fields: Vec<Field> = Vec::new();
    push_field(&mut fields, "message", voluntary_exit());
    push_field(&mut fields, "signature", SszType::ByteVector(96));
    container(fields)
}

/// The shape of a `ProposerSlashing`.
pub open spec fn proposer_slashing_shape() -> Shape {
    Shape::Container(
        Seq::empty()
            .push(field_shape("signed_header_1"@, signed_beacon_block_header_shape()))
            .push(field_shape("signed_header_2"@, signed_beacon_block_header_shape())),
    )
}

/// The type of a `ProposerSlashing`.
pub fn proposer_slashing() -> (t: SszType)
    ensures
        shape_of(t) == proposer_slashing_shape(),
        wf(t) && is_fixed(t) && fixed_size(t) == 416,
        hashable(t),
{
    let mut fields: Vec<Field> = Vec::new();
    push_field(&mut fields, "signed_header_1", signed_beacon_block_header());
    push_field(&mut fields, "signed_header_2", signed_beacon_block_header());
    container(fields)
}

/// The shape of a `SyncAggregate`.
pub open spec fn sync_aggregate_shape(cfg: Config) -> Shape {
    Shape::Container(
        Seq::empty()
            .push(field_shape("sync_committee_bits"@, Shape::Bitvector(cfg.sync_committee_size)))
            .push(field_shape("sync_committee_signature"@, Shape::ByteVector(96))),
    )
}

/// The type of a `SyncAggregate`.
pub fn sync_aggregate(cfg: &Config) -> (t: SszType)
    ensures
        shape_of(t) == sync_aggregate_shape(*cfg),
        bounds_fit(*cfg) ==> wf(t) && is_fixed(t) && fixed_size(t)
            == ((cfg.sync_committee_size + 7) / 8) + 96,
        bounds_fit(*cfg) && limits_fit(*cfg) ==> hashable(t),
{
    let mut fields: Vec<Field> = Vec::new();
    push_field(&mut fields, "sync_committee_bits", SszType::Bitvector(cfg.sync_committee_size));
    push_field(&mut fields, "sync_committee_signature", SszType::ByteVector(96));
    container(fields)
}

/// The shape of a `Withdrawal`.
pub open spec fn withdrawal_shape() -> Shape {
    Shape::Container(
        Seq::empty()
            .push(field_shape("index"@, Shape::Uint(8)))
            .push(field_shape("validator_index"@, Shape::Uint(8)))
            .push(field_shape("address"@, Shape::ByteVector(20)))
            .push(field_shape("amount"@, Shape::Uint(8))),
    )
}

/// The type of a `Withdrawal`.
pub fn withdrawal() -> (t: SszType)
    ensures
        shape_of(t) == withdrawal_shape(),
        wf(t) && is_fixed(t) && fixed_size(t) == 44,
        hashable(t),
{
    let mut fields: Vec<Field> = Vec::new();
    push_field(&mut fields, "index", uint(8));
    push_field(&mut fields, "validator_index", uint(8));
    push_field(&mut fields, "address", SszType::ByteVector(20));
    push_field(&mut fields, "amount", uint(8));
    container(fields)
}

/// The shape of an `ExecutionPayloadHeader`.
pub open spec fn execution_payload_header_shape(cfg: Config) -> Shape {
    Shape::Container(
        Seq::empty()
            .push(field_shape("parent_hash"@, Shape::ByteArray(32)))
            .push(field_shape("fee_recipient"@, Shape::ByteVector(20)))
            .push(field_shape("state_root"@, Shape::ByteArray(32)))
            .push(field_shape("receipts_root"@, Shape::ByteArray(32)))
            .push(field_shape("logs_bloom"@, Shape::ByteVector(cfg.bytes_per_logs_bloom)))
            .push(field_shape("prev_randao"@, Shape::ByteArray(32)))
            .push(field_shape("block_number"@, Shape::Uint(8)))
            .push(field_shape("gas_limit"@, Shape::Uint(8)))
            .push(field_shape("gas_used"@, Shape::Uint(8)))
            .push(field_shape("timestamp"@, Shape::Uint(8)))
            .push(field_shape("extra_data"@, Shape::ByteList(cfg.max_extra_data_bytes)))
            .push(field_shape("base_fee_per_gas"@, Shape::Uint256))
            .push(field_shape("block_hash"@, Shape::ByteArray(32)))
            .push(field_shape("transactions_root"@, Shape::ByteArray(32)))
            .push(field_shape("withdrawals_root"@, Shape::ByteArray(32)))
            .push(field_shape("blob_gas_used"@, Shape::Uint(8)))
            .push(field_shape("excess_blob_gas"@, Shape::Uint(8))),
    )
}

/// The type of an `ExecutionPayloadHeader`.
pub fn execution_payload_header(cfg: &Config) -> (t: SszType)
    ensures
        shape_of(t) == execution_payload_header_shape(*cfg),
        bounds_fit(*cfg) ==> wf(t) && !is_fixed(t),
        bounds_fit(*cfg) && limits_fit(*cfg) ==> hashable(t),
{
    let mut fields: Vec<Field> = Vec::new();
    push_field(&mut fields, "parent_hash", SszType::ByteArray(32));
    push_field(&mut fields, "fee_recipient", SszType::ByteVector(20));
    push_field(&mut fields, "state_root", SszType::ByteArray(32));
    push_field(&mut fields, "receipts_root", SszType::ByteArray(32));
    push_field(&mut fields, "logs_bloom", SszType::ByteVector(cfg.bytes_per_logs_bloom));
    push_field(&mut fields, "prev_randao", SszType::ByteArray(32));
    push_field(&mut fields, "block_number", uint(8));
    push_field(&mut fields, "gas_limit", uint(8));
    push_field(&mut fields, "gas_used", uint(8));
    push_field(&mut fields, "timestamp", uint(8));
    push_field(&mut fields, "extra_data", SszType::ByteList(cfg.max_extra_data_bytes));
    push_field(&mut fields, "base_fee_per_gas", SszType::Uint256);
    push_field(&mut fields, "block_hash", SszType::ByteArray(32));
    push_field(&mut fields, "transactions_root", SszType::ByteArray(32));
    push_field(&mut fields, "withdrawals_root", SszType::ByteArray(32));
    push_field(&mut fields, "blob_gas_used", uint(8));
    push_field(&mut fields, "excess_blob_gas", uint(8));
    container(fields)
}

/// The shape of an `ExecutionPayload`.
pub open spec fn execution_payload_shape(cfg: Config) -> Shape {
    Shape::Container(
        Seq::empty()
            .push(field_shape("parent_hash"@, Shape::ByteArray(32)))
            .push(field_shape("fee_recipient"@, Shape::ByteVector(20)))
            .push(field_shape("state_root"@, Shape::ByteArray(32)))
            .push(field_shape("receipts_root"@, Shape::ByteArray(32)))
            .push(field_shape("logs_bloom"@, Shape::ByteVector(cfg.bytes_per_logs_bloom)))
            .push(field_shape("prev_randao"@, Shape::ByteArray(32)))
            .push(field_shape("block_number"@, Shape::Uint(8)))
            .push(field_shape("gas_limit"@, Shape::Uint(8)))
            .push(field_shape("gas_used"@, Shape::Uint(8)))
            .push(field_shape("timestamp"@, Shape::Uint(8)))
            .push(field_shape("extra_data"@, Shape::ByteList(cfg.max_extra_data_bytes)))
            .push(field_shape("base_fee_per_gas"@, Shape::Uint256))
            .push(field_shape("block_hash"@, Shape::ByteArray(32)))
            .push(field_shape(
                "transactions"@,
                list_shape(transaction_shape(), cfg.max_transactions_per_payload),
            ))
            .push(field_shape(
                "withdrawals"@,
                list_shape(withdrawal_shape(), cfg.max_withdrawals_per_payload),
            ))
            .push(field_shape("blob_gas_used"@, Shape::Uint(8)))
            .push(field_shape("excess_blob_gas"@, Shape::Uint(8))),
    )
}

/// The type of an `ExecutionPayload`.
pub fn execution_payload(cfg: &Config) -> (t: SszType)
    ensures
        shape_of(t) == execution_payload_shape(*cfg),
        bounds_fit(*cfg) ==> wf(t) && !is_fixed(t),
        bounds_fit(*cfg) && limits_fit(*cfg) ==> hashable(t),
{
    let mut fields: Vec<Field> = Vec::new();
    push_field(&mut fields, "parent_hash", SszType::ByteArray(32));
    push_field(&mut fields, "fee_recipient", SszType::ByteVector(20));
    push_field(&mut fields, "state_root", SszType::ByteArray(32));
    push_field(&mut fields, "receipts_root", SszType::ByteArray(32));
    push_field(&mut fields, "logs_bloom", SszType::ByteVector(cfg.bytes_per_logs_bloom));
    push_field(&mut fields, "prev_randao", SszType::ByteArray(32));
    push_field(&mut fields, "block_number", uint(8));
    push_field(&mut fields, "gas_limit", uint(8));
    push_field(&mut fields, "gas_used", uint(8));
    push_field(&mut fields, "timestamp", uint(8));
    push_field(&mut fields, "extra_data", SszType::ByteList(cfg.max_extra_data_bytes));
    push_field(&mut fields, "base_fee_per_gas", SszType::Uint256);
    push_field(&mut fields, "block_hash", SszType::ByteArray(32));
    push_field(&mut fields, "transactions", list(transaction(), cfg.max_transactions_per_payload));
    push_field(&mut fields, "withdrawals", list(withdrawal(), cfg.max_withdrawals_per_payload));
    push_field(&mut fields, "blob_gas_used", uint(8));
    push_field(&mut fields, "excess_blob_gas", uint(8));
    container(fields)
}

/// The shape of a `SyncCommittee`.
pub open spec fn sync_committee_shape(cfg: Config) -> Shape {
    Shape::Container(
        Seq::empty()
            .push(field_shape(
                "pubkeys"@,
                vector_shape(Shape::ByteVector(48), cfg.sync_committee_size),
            ))
            .push(field_shape("aggregate_pubkey"@, Shape::ByteVector(48))),
    )
}

/// The type of a `SyncCommittee`.
pub fn sync_committee(cfg: &Config) -> (t: SszType)
    ensures
        shape_of(t) == sync_committee_shape(*cfg),
        bounds_fit(*cfg) ==> wf(t) && is_fixed(t) && fixed_size(t)
            == 48 * cfg.sync_committee_size + 48,
        bounds_fit(*cfg) && limits_fit(*cfg) ==> hashable(t),
{
    let mut fields: Vec<Field> = Vec::new();
    push_field(
        &mut fields,
        "pubkeys",
        vector(SszType::ByteVector(48), Ghost(48), cfg.sync_committee_size),
    );
    push_field(&mut fields, "aggregate_pubkey", SszType::ByteVector(48));
    container(fields)
}

/// The shape of a `BeaconBlockBody`.
pub open spec fn beacon_block_body_shape(cfg: Config) -> Shape {
    Shape::Container(
        Seq::empty()
            .push(field_shape("randao_reveal"@, Shape::ByteVector(96)))
            .push(field_shape("eth1_data"@, eth1_data_shape()))
            .push(field_shape("graffiti"@, Shape::ByteArray(32)))
            .push(field_shape(
                "proposer_slashings"@,
                list_shape(proposer_slashing_shape(), cfg.max_proposer_slashings),
            ))
            .push(field_shape(
                "attester_slashings"@,
                list_shape(attester_slashing_shape(cfg), cfg.max_attester_slashings),
            ))
            .push(field_shape(
                "attestations"@,
                list_shape(attestation_shape(cfg), cfg.max_attestations),
            ))
            .push(field_shape("deposits"@, list_shape(deposit_shape(), cfg.max_deposits)))
            .push(field_shape(
                "voluntary_exits"@,
                list_shape(signed_voluntary_exit_shape(), cfg.max_voluntary_exits),
            ))
            .push(field_shape("sync_aggregate"@, sync_aggregate_shape(cfg)))
            .push(field_shape("execution_payload"@, execution_payload_shape(cfg)))
            .push(field_shape(
                "bls_to_execution_changes"@,
                list_shape(signed_bls_to_execution_change_shape(), cfg.max_bls_to_execution_changes),
            ))
            .push(field_shape(
                "blob_kzg_commitments"@,
                list_shape(Shape::ByteVector(48), cfg.max_blob_commitments_per_block),
            )),
    )
}

/// The type of a `BeaconBlockBody`.
pub fn beacon_block_body(cfg: &Config) -> (t: SszType)
    ensures
        shape_of(t) == beacon_block_body_shape(*cfg),
        bounds_fit(*cfg) ==> wf(t) && !is_fixed(t),
        bounds_fit(*cfg) && limits_fit(*cfg) ==> hashable(t),
{
    let mut fields: Vec<Field> = Vec::new();
    push_field(&mut fields, "randao_reveal", SszType::ByteVector(96));
    push_field(&mut fields, "eth1_data", eth1_data());
    push_field(&mut fields, "graffiti", SszType::ByteArray(32));
    push_field(
        &mut fields,
        "proposer_slashings",
        list(proposer_slashing(), cfg.max_proposer_slashings),
    );
    push_field(
        &mut fields,
        "attester_slashings",
        list(attester_slashing(cfg), cfg.max_attester_slashings),
    );
    push_field(&mut fields, "attestations", list(attestation(cfg), cfg.max_attestations));
    push_field(&mut fields, "deposits", list(deposit(), cfg.max_deposits));
    push_field(
        &mut fields,
        "voluntary_exits",
        list(signed_voluntary_exit(), cfg.max_voluntary_exits),
    );
    push_field(&mut fields, "sync_aggregate", sync_aggregate(cfg));
    push_field(&mut fields, "execution_payload", execution_payload(cfg));
    push_field(
        &mut fields,
        "bls_to_execution_changes",
        list(signed_bls_to_execution_change(), cfg.max_bls_to_execution_changes),
    );
    push_field(
        &mut fields,
        "blob_kzg_commitments",
        list(SszType::ByteVector(48), cfg.max_blob_commitments_per_block),
    );
    container(fields)
}

/// The shape of a `BeaconState`.
pub open spec fn beacon_state_shape(cfg: Config) -> Shape {
    Shape::Container(
        Seq::empty()
            .push(field_shape("genesis_time"@, Shape::Uint(8)))
            .push(field_shape("genesis_validators_root"@, Shape::ByteArray(32)))
            .push(field_shape("slot"@, Shape::Uint(8)))
            .push(field_shape("fork"@, fork_shape()))
            .push(field_shape("latest_block_header"@, beacon_block_header_shape()))
            .push(field_shape(
                "block_roots"@,
                vector_shape(Shape::ByteArray(32), cfg.slots_per_historical_root),
            ))
            .push(field_shape(
                "state_roots"@,
                vector_shape(Shape::ByteArray(32), cfg.slots_per_historical_root),
            ))
            .push(field_shape(
                "historical_roots"@,
                list_shape(Shape::ByteArray(32), cfg.historical_roots_limit),
            ))
            .push(field_shape("eth1_data"@, eth1_data_shape()))
            .push(field_shape(
                "eth1_data_votes"@,
                list_shape(eth1_data_shape(), cfg.slots_per_eth1_voting_period),
            ))
            .push(field_shape("eth1_deposit_index"@, Shape::Uint(8)))
            .push(field_shape(
                "validators"@,
                list_shape(validator_shape(), cfg.validator_registry_limit),
            ))
            .push(field_shape(
                "balances"@,
                list_shape(Shape::Uint(8), cfg.validator_registry_limit),
            ))
            .push(field_shape(
                "randao_mixes"@,
                vector_shape(Shape::ByteArray(32), cfg.epochs_per_historical_vector),
            ))
            .push(field_shape(
                "slashings"@,
                vector_shape(Shape::Uint(8), cfg.epochs_per_slashings_vector),
            ))
            .push(field_shape(
                "previous_epoch_participation"@,
                list_shape(Shape::Uint(1), cfg.validator_registry_limit),
            ))
            .push(field_shape(
                "current_epoch_participation"@,
                list_shape(Shape::Uint(1), cfg.validator_registry_limit),
            ))
            .push(field_shape(
                "justification_bits"@,
                Shape::Bitvector(cfg.justification_bits_length),
            ))
            .push(field_shape("previous_justified_checkpoint"@, checkpoint_shape()))
            .push(field_shape("current_justified_checkpoint"@, checkpoint_shape()))
            .push(field_shape("finalized_checkpoint"@, checkpoint_shape()))
            .push(field_shape(
                "inactivity_scores"@,
                list_shape(Shape::Uint(8), cfg.validator_registry_limit),
            ))
            .push(field_shape("current_sync_committee"@, sync_committee_shape(cfg)))
            .push(field_shape("next_sync_committee"@, sync_committee_shape(cfg)))
            .push(field_shape(
                "latest_execution_payload_header"@,
                execution_payload_header_shape(cfg),
            ))
            .push(field_shape("next_withdrawal_index"@, Shape::Uint(8)))
            .push(field_shape("next_withdrawal_validator_index"@, Shape::Uint(8)))
            .push(field_shape(
                "historical_summaries"@,
                list_shape(historical_summary_shape(), cfg.historical_roots_limit),
            )),
    )
}

/// The type of a `BeaconState`.
pub fn beacon_state(cfg: &Config) -> (t: SszType)
    ensures
        shape_of(t) == beacon_state_shape(*cfg),
        bounds_fit(*cfg) ==> wf(t) && !is_fixed(t),
        bounds_fit(*cfg) && limits_fit(*cfg) ==> hashable(t),
{
    let mut fields: Vec<Field> = Vec::new();
    push_field(&mut fields, "genesis_time", uint(8));
    push_field(&mut fields, "genesis_validators_root", SszType::ByteArray(32));
    push_field(&mut fields, "slot", uint(8));
    push_field(&mut fields, "fork", fork());
    push_field(&mut fields, "latest_block_header", beacon_block_header());
    push_field(
        &mut fields,
        "block_roots",
        vector(SszType::ByteArray(32), Ghost(32), cfg.slots_per_historical_root),
    );
    push_field(
        &mut fields,
        "state_roots",
        vector(SszType::ByteArray(32), Ghost(32), cfg.slots_per_historical_root),
    );
    push_field(
        &mut fields,
        "historical_roots",
        list(SszType::ByteArray(32), cfg.historical_roots_limit),
    );
    push_field(&mut fields, "eth1_data", eth1_data());
    push_field(
        &mut fields,
        "eth1_data_votes",
        list(eth1_data(), cfg.slots_per_eth1_voting_period),
    );
    push_field(&mut fields, "eth1_deposit_index", uint(8));
    push_field(&mut fields, "validators", list(validator(), cfg.validator_registry_limit));
    push_field(&mut fields, "balances", list(uint(8), cfg.validator_registry_limit));
    push_field(
        &mut fields,
        "randao_mixes",
        vector(SszType::ByteArray(32), Ghost(32), cfg.epochs_per_historical_vector),
    );
    push_field(
        &mut fields,
        "slashings",
        vector(uint(8), Ghost(8), cfg.epochs_per_slashings_vector),
    );
    push_field(
        &mut fields,
        "previous_epoch_participation",
        list(uint(1), cfg.validator_registry_limit),
    );
    push_field(
        &mut fields,
        "current_epoch_participation",
        list(uint(1), cfg.validator_registry_limit),
    );
    push_field(
        &mut fields,
        "justification_bits",
        SszType::Bitvector(cfg.justification_bits_length),
    );
    push_field(&mut fields, "previous_justified_checkpoint", checkpoint());
    push_field(&mut fields, "current_justified_checkpoint", checkpoint());
    push_field(&mut fields, "finalized_checkpoint", checkpoint());
    push_field(&mut fields, "inactivity_scores", list(uint(8), cfg.validator_registry_limit));
    push_field(&mut fields, "current_sync_committee", sync_committee(cfg));
    push_field(&mut fields, "next_sync_committee", sync_committee(cfg));
    push_field(&mut fields, "latest_execution_payload_header", execution_payload_header(cfg));
    push_field(&mut fields, "next_withdrawal_index", uint(8));
    push_field(&mut fields, "next_withdrawal_validator_index", uint(8));
    push_field(
        &mut fields,
        "historical_summaries",
        list(historical_summary(), cfg.historical_roots_limit),
    );
    container(fields)
}

/// The shape of a `StatusMessage`.
pub open spec fn status_message_shape() -> Shape {
    Shape::Container(
        Seq::empty()
            .push(field_shape("fork_digest"@, Shape::ByteArray(4)))
            .push(field_shape("finalized_root"@, Shape::ByteArray(32)))
            .push(field_shape("finalized_epoch"@, Shape::Uint(8)))
            .push(field_shape("head_root"@, Shape::ByteArray(32)))
            .push(field_shape("head_slot"@, Shape::Uint(8))),
    )
}

/// The type of a `StatusMessage`.
pub fn status_message() -> (t: SszType)
    ensures
        shape_of(t) == status_message_shape(),
        wf(t) && is_fixed(t) && fixed_size(t) == 84,
        hashable(t),
{
    let mut fields: Vec<Field> = Vec::new();
    push_field(&mut fields, "fork_digest", SszType::ByteArray(4));
    push_field(&mut fields, "finalized_root", SszType::ByteArray(32));
    push_field(&mut fields, "finalized_epoch", uint(8));
    push_field(&mut fields, "head_root", SszType::ByteArray(32));
    push_field(&mut fields, "head_slot", uint(8));
    container(fields)
}

/// The shape of a `BeaconBlocksByRangeRequest`.
pub open spec fn beacon_blocks_by_range_request_shape() -> Shape {
    Shape::Container(
        Seq::empty()
            .push(field_shape("start_slot"@, Shape::Uint(8)))
            .push(field_shape("count"@, Shape::Uint(8)))
            .push(field_shape("step"@, Shape::Uint(8))),
    )
}

/// The type of a `BeaconBlocksByRangeRequest`.
pub fn beacon_blocks_by_range_request() -> (t: SszType)
    ensures
        shape_of(t) == beacon_blocks_by_range_request_shape(),
        wf(t) && is_fixed(t) && fixed_size(t) == 24,
        hashable(t),
{
    let mut fields: Vec<Field> = Vec::new();
    push_field(&mut fields, "start_slot", uint(8));
    push_field(&mut fields, "count", uint(8));
    push_field(&mut fields, "step", uint(8));
    container(fields)
}

/// The shape of a `Metadata`.
pub open spec fn metadata_shape(cfg: Config) -> Shape {
    Shape::Container(
        Seq::empty()
            .push(field_shape("seq_number"@, Shape::Uint(8)))
            .push(field_shape("attnets"@, Shape::Bitvector(cfg.attestation_subnet_count)))
            .push(field_shape("syncnets"@, Shape::Bitvector(cfg.sync_committee_subnet_count))),
    )
}

/// The type of a `Metadata`.
pub fn metadata(cfg: &Config) -> (t: SszType)
    ensures
        shape_of(t) == metadata_shape(*cfg),
        bounds_fit(*cfg) ==> wf(t) && is_fixed(t) && fixed_size(t)
            == ((cfg.attestation_subnet_count + 7) / 8) + ((cfg.sync_committee_subnet_count + 7) / 8) + 8,
        bounds_fit(*cfg) && limits_fit(*cfg) ==> hashable(t),
{
    let mut fields: Vec<Field> = Vec::new();
    push_field(&mut fields, "seq_number", uint(8));
    push_field(&mut fields, "attnets", SszType::Bitvector(cfg.attestation_subnet_count));
    push_field(&mut fields, "syncnets", SszType::Bitvector(cfg.sync_committee_subnet_count));
    container(fields)
}

/// The shape of a `BlobSidecar`.
pub open spec fn blob_sidecar_shape(cfg: Config) -> Shape {
    Shape::Container(
        Seq::empty()
            .push(field_shape("index"@, Shape::Uint(8)))
            .push(field_shape("blob"@, Shape::ByteVector(cfg.bytes_per_blob)))
            .push(field_shape("kzg_commitment"@, Shape::ByteVector(48)))
            .push(field_shape("kzg_proof"@, Shape::ByteVector(48)))
            .push(field_shape("signed_block_header"@, signed_beacon_block_header_shape()))
            .push(field_shape(
                "kzg_commitment_inclusion_proof"@,
                vector_shape(Shape::ByteArray(32), cfg.kzg_commitment_inclusion_proof_depth),
            )),
    )
}

/// The type of a `BlobSidecar`.
pub fn blob_sidecar(cfg: &Config) -> (t: SszType)
    ensures
        shape_of(t) == blob_sidecar_shape(*cfg),
        bounds_fit(*cfg) ==> wf(t) && is_fixed(t) && fixed_size(t)
            == cfg.bytes_per_blob + 32 * cfg.kzg_commitment_inclusion_proof_depth + 312,
        bounds_fit(*cfg) && limits_fit(*cfg) ==> hashable(t),
{
    let mut fields: Vec<Field> = Vec::new();
    push_field(&mut fields, "index", uint(8));
    push_field(&mut fields, "blob", SszType::ByteVector(cfg.bytes_per_blob));
    push_field(&mut fields, "kzg_commitment", SszType::ByteVector(48));
    push_field(&mut fields, "kzg_proof", SszType::ByteVector(48));
    push_field(&mut fields, "signed_block_header", signed_beacon_block_header());
    push_field(
        &mut fields,
        "kzg_commitment_inclusion_proof",
        vector(SszType::ByteArray(32), Ghost(32), cfg.kzg_commitment_inclusion_proof_depth),
    );
    container(fields)
}

/// The shape of a `BlobIdentifier`.
pub open spec fn blob_identifier_shape() -> Shape {
    Shape::Container(
        Seq::empty()
            .push(field_shape("block_root"@, Shape::ByteArray(32)))
            .push(field_shape("index"@, Shape::Uint(8))),
    )
}

/// The type of a `BlobIdentifier`.
pub fn blob_identifier() -> (t: SszType)
    ensures
        shape_of(t) == blob_identifier_shape(),
        wf(t) && is_fixed(t) && fixed_size(t) == 40,
        hashable(t),
{
    let mut fields: Vec<Field> = Vec::new();
    push_field(&mut fields, "block_root", SszType::ByteArray(32));
    push_field(&mut fields, "index", uint(8));
    container(fields)
}

/// The shape of an `AggregateAndProof`.
pub open spec fn aggregate_and_proof_shape(cfg: Config) -> Shape {
    Shape::Container(
        Seq::empty()
            .push(field_shape("aggregator_index"@, Shape::Uint(8)))
            .push(field_shape("aggregate"@, attestation_shape(cfg)))
            .push(field_shape("selection_proof"@, Shape::ByteVector(96))),
    )
}

/// The type of an `AggregateAndProof`.
pub fn aggregate_and_proof(cfg: &Config) -> (t: SszType)
    ensures
        shape_of(t) == aggregate_and_proof_shape(*cfg),
        bounds_fit(*cfg) ==> wf(t) && !is_fixed(t),
        bounds_fit(*cfg) && limits_fit(*cfg) ==> hashable(t),
{
    let mut fields: Vec<Field> = Vec::new();
    push_field(&mut fields, "aggregator_index", uint(8));
    push_field(&mut fields, "aggregate", attestation(cfg));
    push_field(&mut fields, "selection_proof", SszType::ByteVector(96));
    container(fields)
}

/// The shape of a `SignedAggregateAndProof`.
pub open spec fn signed_aggregate_and_proof_shape(cfg: Config) -> Shape {
    Shape::Container(
        Seq::empty()
            .push(field_shape("message"@, aggregate_and_proof_shape(cfg)))
            .push(field_shape("signature"@, Shape::ByteVector(96))),
    )
}

/// The type of a `SignedAggregateAndProof`.
pub fn signed_aggregate_and_proof(cfg: &Config) -> (t: SszType)
    ensures
        shape_of(t) == signed_aggregate_and_proof_shape(*cfg),
        bounds_fit(*cfg) ==> wf(t) && !is_fixed(t),
        bounds_fit(*cfg) && limits_fit(*cfg) ==> hashable(t),
{
    let mut fields: Vec<Field> = Vec::new();
    push_field(&mut fields, "message", aggregate_and_proof(cfg));
    push_field(&mut fields, "signature", SszType::ByteVector(96));
    container(fields)
}

/// The shape of a `SyncCommitteeMessage`.
pub open spec fn sync_committee_message_shape() -> Shape {
    Shape::Container(
        Seq::empty()
            .push(field_shape("slot"@, Shape::Uint(8)))
            .push(field_shape("beacon_block_root"@, Shape::ByteArray(32)))
            .push(field_shape("validator_index"@, Shape::Uint(8)))
            .push(field_shape("signature"@, Shape::ByteVector(96))),
    )
}

/// The type of a `SyncCommitteeMessage`.
pub fn sync_committee_message() -> (t: SszType)
    ensures
        shape_of(t) == sync_committee_message_shape(),
        wf(t) && is_fixed(t) && fixed_size(t) == 144,
        hashable(t),
{
    let mut fields: Vec<Field> = Vec::new();
    push_field(&mut fields, "slot", uint(8));
    push_field(&mut fields, "beacon_block_root", SszType::ByteArray(32));
    push_field(&mut fields, "validator_index", uint(8));
    push_field(&mut fields, "signature", SszType::ByteVector(96));
    container(fields)
}

/// The shape of a `SyncCommitteeContribution`.
pub open spec fn sync_committee_contribution_shape(cfg: Config) -> Shape {
    Shape::Container(
        Seq::empty()
            .push(field_shape("slot"@, Shape::Uint(8)))
            .push(field_shape("beacon_block_root"@, Shape::ByteArray(32)))
            .push(field_shape("subcommittee_index"@, Shape::Uint(8)))
            .push(field_shape("aggregation_bits"@, Shape::Bitvector(cfg.sync_subcommittee_size)))
            .push(field_shape("signature"@, Shape::ByteVector(96))),
    )
}

/// The type of a `SyncCommitteeContribution`.
pub fn sync_committee_contribution(cfg: &Config) -> (t: SszType)
    ensures
        shape_of(t) == sync_committee_contribution_shape(*cfg),
        bounds_fit(*cfg) ==> wf(t) && is_fixed(t) && fixed_size(t)
            == ((cfg.sync_subcommittee_size + 7) / 8) + 144,
        bounds_fit(*cfg) && limits_fit(*cfg) ==> hashable(t),
{
    let mut fields: Vec<Field> = Vec::new();
    push_field(&mut fields, "slot", uint(8));
    push_field(&mut fields, "beacon_block_root", SszType::ByteArray(32));
    push_field(&mut fields, "subcommittee_index", uint(8));
    push_field(&mut fields, "aggregation_bits", SszType::Bitvector(cfg.sync_subcommittee_size));
    push_field(&mut fields, "signature", SszType::ByteVector(96));
    container(fields)
}

/// The shape of a `ContributionAndProof`.
pub open spec fn contribution_and_proof_shape(cfg: Config) -> Shape {
    Shape::Container(
        Seq::empty()
            .push(field_shape("aggregator_index"@, Shape::Uint(8)))
            .push(field_shape("contribution"@, sync_committee_contribution_shape(cfg)))
            .push(field_shape("selection_proof"@, Shape::ByteVector(96))),
    )
}

/// The type of a `ContributionAndProof`.
pub fn contribution_and_proof(cfg: &Config) -> (t: SszType)
    ensures
        shape_of(t) == contribution_and_proof_shape(*cfg),
        bounds_fit(*cfg) ==> wf(t) && is_fixed(t) && fixed_size(t)
            == ((cfg.sync_subcommittee_size + 7) / 8) + 248,
        bounds_fit(*cfg) && limits_fit(*cfg) ==> hashable(t),
{
    let mut fields: Vec<Field> = Vec::new();
    push_field(&mut fields, "aggregator_index", uint(8));
    push_field(&mut fields, "contribution", sync_committee_contribution(cfg));
    push_field(&mut fields, "selection_proof", SszType::ByteVector(96));
    container(fields)
}

/// The shape of a `SignedContributionAndProof`.
pub open spec fn signed_contribution_and_proof_shape(cfg: Config) -> Shape {
    Shape::Container(
        Seq::empty()
            .push(field_shape("message"@, contribution_and_proof_shape(cfg)))
            .push(field_shape("signature"@, Shape::ByteVector(96))),
    )
}

/// The type of a `SignedContributionAndProof`.
pub fn signed_contribution_and_proof(cfg: &Config) -> (t: SszType)
    ensures
        shape_of(t) == signed_contribution_and_proof_shape(*cfg),
        bounds_fit(*cfg) ==> wf(t) && is_fixed(t) && fixed_size(t)
            == ((cfg.sync_subcommittee_size + 7) / 8) + 344,
        bounds_fit(*cfg) && limits_fit(*cfg) ==> hashable(t),
{
    let mut fields: Vec<Field> = Vec::new();
    push_field(&mut fields, "message", contribution_and_proof(cfg));
    push_field(&mut fields, "signature", SszType::ByteVector(96));
    container(fields)
}

/// The shape of the type that a schema name stands for under a
/// configuration, where the name is known.
pub open spec fn schema_shape(schema: Seq<char>, cfg: Config) -> Option<Shape> {
    if schema == "HistoricalSummary"@ {
        Some(historical_summary_shape())
    } else if schema == "AttestationData"@ {
        Some(attestation_data_shape())
    } else if schema == "IndexedAttestation"@ {
        Some(indexed_attestation_shape(cfg))
    } else if schema == "Checkpoint"@ {
        Some(checkpoint_shape())
    } else if schema == "Eth1Data"@ {
        Some(eth1_data_shape())
    } else if schema == "Fork"@ {
        Some(fork_shape())
    } else if schema == "ForkData"@ {
        Some(fork_data_shape())
    } else if schema == "HistoricalBatch"@ {
        Some(historical_batch_shape(cfg))
    } else if schema == "PendingAttestation"@ {
        Some(pending_attestation_shape(cfg))
    } else if schema == "Validator"@ {
        Some(validator_shape())
    } else if schema == "DepositData"@ {
        Some(deposit_data_shape())
    } else if schema == "VoluntaryExit"@ {
        Some(voluntary_exit_shape())
    } else if schema == "Deposit"@ {
        Some(deposit_shape())
    } else if schema == "DepositMessage"@ {
        Some(deposit_message_shape())
    } else if schema == "BLSToExecutionChange"@ {
        Some(bls_to_execution_change_shape())
    } else if schema == "SignedBLSToExecutionChange"@ {
        Some(signed_bls_to_execution_change_shape())
    } else if schema == "Attestation"@ {
        Some(attestation_shape(cfg))
    } else if schema == "BeaconBlock"@ {
        Some(beacon_block_shape(cfg))
    } else if schema == "BeaconBlockHeader"@ {
        Some(beacon_block_header_shape())
    } else if schema == "AttesterSlashing"@ {
        Some(attester_slashing_shape(cfg))
    } else if schema == "SignedBeaconBlock"@ {
        Some(signed_beacon_block_shape(cfg))
    } else if schema == "SignedBeaconBlockHeader"@ {
        Some(signed_beacon_block_header_shape())
    } else if schema == "SignedVoluntaryExit"@ {
        Some(signed_voluntary_exit_shape())
    } else if schema == "ProposerSlashing"@ {
        Some(proposer_slashing_shape())
    } else if schema == "ExecutionPayload"@ {
        Some(execution_payload_shape(cfg))
    } else if schema == "ExecutionPayloadHeader"@ {
        Some(execution_payload_header_shape(cfg))
    } else if schema == "Withdrawal"@ {
        Some(withdrawal_shape())
    } else if schema == "SigningData"@ {
        Some(signing_data_shape())
    } else if schema == "SyncAggregate"@ {
        Some(sync_aggregate_shape(cfg))
    } else if schema == "SyncCommittee"@ {
        Some(sync_committee_shape(cfg))
    } else if schema == "SyncCommitteeMessage"@ {
        Some(sync_committee_message_shape())
    } else if schema == "SyncCommitteeContribution"@ {
        Some(sync_committee_contribution_shape(cfg))
    } else if schema == "ContributionAndProof"@ {
        Some(contribution_and_proof_shape(cfg))
    } else if schema == "SignedContributionAndProof"@ {
        Some(signed_contribution_and_proof_shape(cfg))
    } else if schema == "BeaconState"@ {
        Some(beacon_state_shape(cfg))
    } else if schema == "BeaconBlockBody"@ {
        Some(beacon_block_body_shape(cfg))
    } else if schema == "StatusMessage"@ {
        Some(status_message_shape())
    } else if schema == "AggregateAndProof"@ {
        Some(aggregate_and_proof_shape(cfg))
    } else if schema == "SignedAggregateAndProof"@ {
        Some(signed_aggregate_and_proof_shape(cfg))
    } else if schema == "BeaconBlocksByRangeRequest"@ {
        Some(beacon_blocks_by_range_request_shape())
    } else if schema == "Transaction"@ {
        Some(transaction_shape())
    } else if schema == "Metadata"@ {
        Some(metadata_shape(cfg))
    } else if schema == "Root"@ {
        Some(root_shape())
    } else if schema == "Epoch"@ {
        Some(epoch_shape())
    } else if schema == "BlobSidecar"@ {
        Some(blob_sidecar_shape(cfg))
    } else if schema == "BlobIdentifier"@ {
        Some(blob_identifier_shape())
    } else {
        None
    }
}

/// The type that a schema name stands for under a configuration, where
/// the name is known.
pub fn schema_type(schema: &str, cfg: &Config) -> (r: Option<SszType>)
    ensures
        match r {
            Some(t) => {
                &&& schema_shape(schema@, *cfg) == Some(shape_of(t))
                &&& bounds_fit(*cfg) ==> wf(t)
                &&& bounds_fit(*cfg) && limits_fit(*cfg) ==> hashable(t)
            },
            None => schema_shape(schema@, *cfg) is None,
        },
{
    if str_eq(schema, "HistoricalSummary") {
        Some(historical_summary())
    } else if str_eq(schema, "AttestationData") {
        Some(attestation_data())
    } else if str_eq(schema, "IndexedAttestation") {
        Some(indexed_attestation(cfg))
    } else if str_eq(schema, "Checkpoint") {
        Some(checkpoint())
    } else if str_eq(schema, "Eth1Data") {
        Some(eth1_data())
    } else if str_eq(schema, "Fork") {
        Some(fork())
    } else if str_eq(schema, "ForkData") {
        Some(fork_data())
    } else if str_eq(schema, "HistoricalBatch") {
        Some(historical_batch(cfg))
    } else if str_eq(schema, "PendingAttestation") {
        Some(pending_attestation(cfg))
    } else if str_eq(schema, "Validator") {
        Some(validator())
    } else if str_eq(schema, "DepositData") {
        Some(deposit_data())
    } else if str_eq(schema, "VoluntaryExit") {
        Some(voluntary_exit())
    } else if str_eq(schema, "Deposit") {
        Some(deposit())
    } else if str_eq(schema, "DepositMessage") {
        Some(deposit_message())
    } else if str_eq(schema, "BLSToExecutionChange") {
        Some(bls_to_execution_change())
    } else if str_eq(schema, "SignedBLSToExecutionChange") {
        Some(signed_bls_to_execution_change())
    } else if str_eq(schema, "Attestation") {
        Some(attestation(cfg))
    } else if str_eq(schema, "BeaconBlock") {
        Some(beacon_block(cfg))
    } else if str_eq(schema, "BeaconBlockHeader") {
        Some(beacon_block_header())
    } else if str_eq(schema, "AttesterSlashing") {
        Some(attester_slashing(cfg))
    } else if str_eq(schema, "SignedBeaconBlock") {
        Some(signed_beacon_block(cfg))
    } else if str_eq(schema, "SignedBeaconBlockHeader") {
        Some(signed_beacon_block_header())
    } else if str_eq(schema, "SignedVoluntaryExit") {
        Some(signed_voluntary_exit())
    } else if str_eq(schema, "ProposerSlashing") {
        Some(proposer_slashing())
    } else if str_eq(schema, "ExecutionPayload") {
        Some(execution_payload(cfg))
    } else if str_eq(schema, "ExecutionPayloadHeader") {
        Some(execution_payload_header(cfg))
    } else if str_eq(schema, "Withdrawal") {
        Some(withdrawal())
    } else if str_eq(schema, "SigningData") {
        Some(signing_data())
    } else if str_eq(schema, "SyncAggregate") {
        Some(sync_aggregate(cfg))
    } else if str_eq(schema, "SyncCommittee") {
        Some(sync_committee(cfg))
    } else if str_eq(schema, "SyncCommitteeMessage") {
        Some(sync_committee_message())
    } else if str_eq(schema, "SyncCommitteeContribution") {
        Some(sync_committee_contribution(cfg))
    } else if str_eq(schema, "ContributionAndProof") {
        Some(contribution_and_proof(cfg))
    } else if str_eq(schema, "SignedContributionAndProof") {
        Some(signed_contribution_and_proof(cfg))
    } else if str_eq(schema, "BeaconState") {
        Some(beacon_state(cfg))
    } else if str_eq(schema, "BeaconBlockBody") {
        Some(beacon_block_body(cfg))
    } else if str_eq(schema, "StatusMessage") {
        Some(status_message())
    } else if str_eq(schema, "AggregateAndProof") {
        Some(aggregate_and_proof(cfg))
    } else if str_eq(schema, "SignedAggregateAndProof") {
        Some(signed_aggregate_and_proof(cfg))
    } else if str_eq(schema, "BeaconBlocksByRangeRequest") {
        Some(beacon_blocks_by_range_request())
    } else if str_eq(schema, "Transaction") {
        Some(transaction())
    } else if str_eq(schema, "Metadata") {
        Some(metadata(cfg))
    } else if str_eq(schema, "Root") {
        Some(root())
    } else if str_eq(schema, "Epoch") {
        Some(epoch())
    } else if str_eq(schema, "BlobSidecar") {
        Some(blob_sidecar(cfg))
    } else if str_eq(schema, "BlobIdentifier") {
        Some(blob_identifier())
    } else {
        None
    }
}

} // verus!
