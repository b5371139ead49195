//! Configuration presets: the bounds that give the container types of a
//! network their shapes.

use vstd::prelude::*;

verus! {

/// A complete assignment of the bounds.
#[derive(Debug, Clone, Copy, PartialEq, Eq, Structural)]
pub struct Config {
    /// The number of justification bits kept in the state.
    pub justification_bits_length: u64,
    /// The number of bits of a subnet bit field.
    pub subnet_bitfield_length: u64,
    /// The most validators that a committee holds.
    pub max_validators_per_committee: u64,
    /// The first epoch.
    pub genesis_epoch: u64,
    /// The number of slots of an epoch.
    pub slots_per_epoch: u64,
    /// The number of epochs of a voting period on deposit data.
    pub epochs_per_eth1_voting_period: u64,
    /// The number of block and state roots kept in the state.
    pub slots_per_historical_root: u64,
    /// The number of randomness mixes kept in the state.
    pub epochs_per_historical_vector: u64,
    /// The number of slashing sums kept in the state.
    pub epochs_per_slashings_vector: u64,
    /// The most historical roots, and historical summaries, that the state
    /// holds.
    pub historical_roots_limit: u64,
    /// The most validators that the state holds.
    pub validator_registry_limit: u64,
    /// The most proposer slashings of a block.
    pub max_proposer_slashings: u64,
    /// The most attester slashings of a block.
    pub max_attester_slashings: u64,
    /// The most attestations of a block.
    pub max_attestations: u64,
    /// The most deposits of a block.
    pub max_deposits: u64,
    /// The most voluntary exits of a block.
    pub max_voluntary_exits: u64,
    /// The number of members of the sync committee.
    pub sync_committee_size: u64,
    /// The number of subnets of the sync committee.
    pub sync_committee_subnet_count: u64,
    /// The number of attestation subnets.
    pub attestation_subnet_count: u64,
    /// The most bytes of a transaction.
    pub max_bytes_per_transaction: u64,
    /// The most transactions of an execution payload.
    pub max_transactions_per_payload: u64,
    /// The number of bytes of a logs bloom filter.
    pub bytes_per_logs_bloom: u64,
    /// The divisor that bounds the change of the gas limit.
    pub gas_limit_denominator: u64,
    /// The least gas limit.
    pub min_gas_limit: u64,
    /// The most bytes of extra data of an execution payload.
    pub max_extra_data_bytes: u64,
    /// The most changes of withdrawal credentials of a block.
    pub max_bls_to_execution_changes: u64,
    /// The most withdrawals of an execution payload.
    pub max_withdrawals_per_payload: u64,
    /// The most blobs of a block.
    pub max_blobs_per_block: u64,
    /// The most blob commitments of a block.
    pub max_blob_commitments_per_block: u64,
    /// The number of field elements of a blob.
    pub field_elements_per_blob: u64,
    /// The number of bytes of a field element.
    pub bytes_per_field_element: u64,
    /// The depth of the proof that a commitment is in a block.
    pub kzg_commitment_inclusion_proof_depth: u64,
    /// The members of one subnet of the sync committee: the size of the
    /// committee over the number of subnets.
    pub sync_subcommittee_size: u64,
    /// The most pending attestations of an epoch: the most attestations of a
    /// block times the slots of an epoch.
    pub max_pending_attestations: u64,
    /// The slots of a voting period: its epochs times the slots of an epoch.
    pub slots_per_eth1_voting_period: u64,
    /// The number of bytes of a blob: its field elements times the bytes of
    /// one.
    pub bytes_per_blob: u64,
}

/// The preset of the main network.
pub open spec fn mainnet_preset() -> Config {
    Config {
        justification_bits_length: 4,
        subnet_bitfield_length: 64,
        max_validators_per_committee: 2048,
        genesis_epoch: 0,
        slots_per_epoch: 32,
        epochs_per_eth1_voting_period: 64,
        slots_per_historical_root: 8192,
        epochs_per_historical_vector: 65536,
        epochs_per_slashings_vector: 8192,
        historical_roots_limit: 16777216,
        validator_registry_limit: 1099511627776,
        max_proposer_slashings: 16,
        max_attester_slashings: 2,
        max_attestations: 128,
        max_deposits: 16,
        max_voluntary_exits: 16,
        sync_committee_size: 512,
        sync_committee_subnet_count: 4,
        attestation_subnet_count: 64,
        max_bytes_per_transaction: 1073741824,
        max_transactions_per_payload: 1048576,
        bytes_per_logs_bloom: 256,
        gas_limit_denominator: 1024,
        min_gas_limit: 5000,
        max_extra_data_bytes: 32,
        max_bls_to_execution_changes: 16,
        max_withdrawals_per_payload: 16,
        max_blobs_per_block: 6,
        max_blob_commitments_per_block: 4096,
        field_elements_per_blob: 4096,
        bytes_per_field_element: 32,
        kzg_commitment_inclusion_proof_depth: 17,
        sync_subcommittee_size: 128,
        max_pending_attestations: 4096,
        slots_per_eth1_voting_period: 2048,
        bytes_per_blob: 131072,
    }
}

/// A preset with small bounds, for testing.
pub open spec fn minimal_preset() -> Config {
    Config {
        justification_bits_length: 4,
        subnet_bitfield_length: 64,
        max_validators_per_committee: 2048,
        genesis_epoch: 0,
        slots_per_epoch: 8,
        epochs_per_eth1_voting_period: 4,
        slots_per_historical_root: 64,
        epochs_per_historical_vector: 64,
        epochs_per_slashings_vector: 64,
        historical_roots_limit: 16777216,
        validator_registry_limit: 1099511627776,
        max_proposer_slashings: 16,
        max_attester_slashings: 2,
        max_attestations: 128,
        max_deposits: 16,
        max_voluntary_exits: 16,
        sync_committee_size: 32,
        sync_committee_subnet_count: 4,
        attestation_subnet_count: 64,
        max_bytes_per_transaction: 1073741824,
        max_transactions_per_payload: 1048576,
        bytes_per_logs_bloom: 256,
        gas_limit_denominator: 1024,
        min_gas_limit: 5000,
        max_extra_data_bytes: 32,
        max_bls_to_execution_changes: 16,
        max_withdrawals_per_payload: 4,
        max_blobs_per_block: 6,
        max_blob_commitments_per_block: 16,
        field_elements_per_blob: 4096,
        bytes_per_field_element: 32,
        kzg_commitment_inclusion_proof_depth: 9,
        sync_subcommittee_size: 8,
        max_pending_attestations: 1024,
        slots_per_eth1_voting_period: 32,
        bytes_per_blob: 131072,
    }
}

/// The preset of the Gnosis network.
pub open spec fn gnosis_preset() -> Config {
    Config {
        justification_bits_length: 4,
        subnet_bitfield_length: 64,
        max_validators_per_committee: 2048,
        genesis_epoch: 0,
        slots_per_epoch: 16,
        epochs_per_eth1_voting_period: 64,
        slots_per_historical_root: 8192,
        epochs_per_historical_vector: 65536,
        epochs_per_slashings_vector: 8192,
        historical_roots_limit: 16777216,
        validator_registry_limit: 1099511627776,
        max_proposer_slashings: 16,
        max_attester_slashings: 2,
        max_attestations: 128,
        max_deposits: 16,
        max_voluntary_exits: 16,
        sync_committee_size: 512,
        sync_committee_subnet_count: 4,
        attestation_subnet_count: 64,
        max_bytes_per_transaction: 1073741824,
        max_transactions_per_payload: 1048576,
        bytes_per_logs_bloom: 256,
        gas_limit_denominator: 1024,
        min_gas_limit: 5000,
        max_extra_data_bytes: 32,
        max_bls_to_execution_changes: 16,
        max_withdrawals_per_payload: 8,
        max_blobs_per_block: 6,
        max_blob_commitments_per_block: 4096,
        field_elements_per_blob: 4096,
        bytes_per_field_element: 32,
        kzg_commitment_inclusion_proof_depth: 17,
        sync_subcommittee_size: 128,
        max_pending_attestations: 2048,
        slots_per_eth1_voting_period: 1024,
        bytes_per_blob: 131072,
    }
}

/// The preset of a name, where there is one.
pub open spec fn preset_by_name(name: Seq<char>) -> Option<Config> {
    if name == "mainnet"@ {
        Some(mainnet_preset())
    } else if name == "minimal"@ {
        Some(minimal_preset())
    } else if name == "gnosis"@ {
        Some(gnosis_preset())
    } else {
        None
    }
}

/// Whether the derived bounds of a configuration are what the others give.
pub open spec fn derived_bounds_hold(c: Config) -> bool {
    &&& c.sync_committee_subnet_count > 0
    &&& c.sync_subcommittee_size == c.sync_committee_size / c.sync_committee_subnet_count
    &&& c.max_pending_attestations == c.max_attestations * c.slots_per_epoch
    &&& c.slots_per_eth1_voting_period == c.epochs_per_eth1_voting_period * c.slots_per_epoch
    &&& c.bytes_per_blob == c.field_elements_per_blob * c.bytes_per_field_element
}

/// Whether the lengths that a configuration gives to vectors are such that
/// offsets can address the fixed part of every container.
pub open spec fn bounds_fit(c: Config) -> bool {
    &&& 1 <= c.justification_bits_length <= 0x1_0000
    &&& 1 <= c.attestation_subnet_count <= 0x1_0000
    &&& 1 <= c.sync_committee_subnet_count <= 0x1_0000
    &&& 1 <= c.sync_subcommittee_size <= 0x1_0000
    &&& 1 <= c.sync_committee_size <= 0x1_0000
    &&& 1 <= c.bytes_per_logs_bloom <= 0x1_0000
    &&& 1 <= c.kzg_commitment_inclusion_proof_depth <= 0x1_0000
    &&& 1 <= c.slots_per_historical_root <= 0x10_0000
    &&& 1 <= c.epochs_per_historical_vector <= 0x10_0000
    &&& 1 <= c.epochs_per_slashings_vector <= 0x10_0000
    &&& 1 <= c.bytes_per_blob <= 0x100_0000
}

/// Whether the bounds that a configuration gives to lists are such that
/// this machine can build the trees over them.
pub open spec fn limits_fit(c: Config) -> bool {
    &&& usize::MAX >= 0x100_0000_0000
    &&& c.max_validators_per_committee <= 0x100_0000_0000
    &&& c.historical_roots_limit <= 0x100_0000_0000
    &&& c.validator_registry_limit <= 0x100_0000_0000
    &&& c.max_proposer_slashings <= 0x100_0000_0000
    &&& c.max_attester_slashings <= 0x100_0000_0000
    &&& c.max_attestations <= 0x100_0000_0000
    &&& c.max_deposits <= 0x100_0000_0000
    &&& c.max_voluntary_exits <= 0x100_0000_0000
    &&& c.max_transactions_per_payload <= 0x100_0000_0000
    &&& c.max_extra_data_bytes <= 0x100_0000_0000
    &&& c.max_bls_to_execution_changes <= 0x100_0000_0000
    &&& c.max_withdrawals_per_payload <= 0x100_0000_0000
    &&& c.max_blob_commitments_per_block <= 0x100_0000_0000
    &&& c.slots_per_eth1_voting_period <= 0x100_0000_0000
}

/// On a machine that counts to `2^40`, the bounds of each preset fit.
pub proof fn lemma_presets_limits_fit()
    requires
        usize::MAX >= 0x100_0000_0000,
    ensures
        limits_fit(mainnet_preset()),
        limits_fit(minimal_preset()),
        limits_fit(gnosis_preset()),
{
}

/// The lengths of each preset fit.
pub proof fn lemma_presets_fit()
    ensures
        bounds_fit(mainnet_preset()),
        bounds_fit(minimal_preset()),
        bounds_fit(gnosis_preset()),
{
}

/// In each preset the derived bounds are what the others give.
pub proof fn lemma_presets_derived()
    ensures
        derived_bounds_hold(mainnet_preset()),
        derived_bounds_hold(minimal_preset()),
        derived_bounds_hold(gnosis_preset()),
{
}

/// Whether two strings hold the same characters.
pub fn str_eq(a: &str, b: &str) -> (r: bool)
    ensures
        r == (a@ == b@),
{
    a.to_owned().eq(&b.to_owned())
}

impl Config {
    /// The preset of the main network.
    pub fn mainnet() -> (c: Config)
        ensures
            c == mainnet_preset(),
    {
        Config {
            justification_bits_length: 4,
            subnet_bitfield_length: 64,
            max_validators_per_committee: 2048,
            genesis_epoch: 0,
            slots_per_epoch: 32,
            epochs_per_eth1_voting_period: 64,
            slots_per_historical_root: 8192,
            epochs_per_historical_vector: 65536,
            epochs_per_slashings_vector: 8192,
            historical_roots_limit: 16777216,
            validator_registry_limit: 1099511627776,
            max_proposer_slashings: 16,
            max_attester_slashings: 2,
            max_attestations: 128,
            max_deposits: 16,
            max_voluntary_exits: 16,
            sync_committee_size: 512,
            sync_committee_subnet_count: 4,
            attestation_subnet_count: 64,
            max_bytes_per_transaction: 1073741824,
            max_transactions_per_payload: 1048576,
            bytes_per_logs_bloom: 256,
            gas_limit_denominator: 1024,
            min_gas_limit: 5000,
            max_extra_data_bytes: 32,
            max_bls_to_execution_changes: 16,
            max_withdrawals_per_payload: 16,
            max_blobs_per_block: 6,
            max_blob_commitments_per_block: 4096,
            field_elements_per_blob: 4096,
            bytes_per_field_element: 32,
            kzg_commitment_inclusion_proof_depth: 17,
            sync_subcommittee_size: 128,
            max_pending_attestations: 4096,
            slots_per_eth1_voting_period: 2048,
            bytes_per_blob: 131072,
        }
    }

    /// A preset with small bounds, for testing.
    pub fn minimal() -> (c: Config)
        ensures
            c == minimal_preset(),
    {
        Config {
            justification_bits_length: 4,
            subnet_bitfield_length: 64,
            max_validators_per_committee: 2048,
            genesis_epoch: 0,
            slots_per_epoch: 8,
            epochs_per_eth1_voting_period: 4,
            slots_per_historical_root: 64,
            epochs_per_historical_vector: 64,
            epochs_per_slashings_vector: 64,
            historical_roots_limit: 16777216,
            validator_registry_limit: 1099511627776,
            max_proposer_slashings: 16,
            max_attester_slashings: 2,
            max_attestations: 128,
            max_deposits: 16,
            max_voluntary_exits: 16,
            sync_committee_size: 32,
            sync_committee_subnet_count: 4,
            attestation_subnet_count: 64,
            max_bytes_per_transaction: 1073741824,
            max_transactions_per_payload: 1048576,
            bytes_per_logs_bloom: 256,
            gas_limit_denominator: 1024,
            min_gas_limit: 5000,
            max_extra_data_bytes: 32,
            max_bls_to_execution_changes: 16,
            max_withdrawals_per_payload: 4,
            max_blobs_per_block: 6,
            max_blob_commitments_per_block: 16,
            field_elements_per_blob: 4096,
            bytes_per_field_element: 32,
            kzg_commitment_inclusion_proof_depth: 9,
            sync_subcommittee_size: 8,
            max_pending_attestations: 1024,
            slots_per_eth1_voting_period: 32,
            bytes_per_blob: 131072,
        }
    }

    /// The preset of the Gnosis network.
    pub fn gnosis() -> (c: Config)
        ensures
            c == gnosis_preset(),
    {
        Config {
            justification_bits_length: 4,
            subnet_bitfield_length: 64,
            max_validators_per_committee: 2048,
            genesis_epoch: 0,
            slots_per_epoch: 16,
            epochs_per_eth1_voting_period: 64,
            slots_per_historical_root: 8192,
            epochs_per_historical_vector: 65536,
            epochs_per_slashings_vector: 8192,
            historical_roots_limit: 16777216,
            validator_registry_limit: 1099511627776,
            max_proposer_slashings: 16,
            max_attester_slashings: 2,
            max_attestations: 128,
            max_deposits: 16,
            max_voluntary_exits: 16,
            sync_committee_size: 512,
            sync_committee_subnet_count: 4,
            attestation_subnet_count: 64,
            max_bytes_per_transaction: 1073741824,
            max_transactions_per_payload: 1048576,
            bytes_per_logs_bloom: 256,
            gas_limit_denominator: 1024,
            min_gas_limit: 5000,
            max_extra_data_bytes: 32,
            max_bls_to_execution_changes: 16,
            max_withdrawals_per_payload: 8,
            max_blobs_per_block: 6,
            max_blob_commitments_per_block: 4096,
            field_elements_per_blob: 4096,
            bytes_per_field_element: 32,
            kzg_commitment_inclusion_proof_depth: 17,
            sync_subcommittee_size: 128,
            max_pending_attestations: 2048,
            slots_per_eth1_voting_period: 1024,
            bytes_per_blob: 131072,
        }
    }

    /// The preset of a name, where there is one.
    pub fn by_name(name: &str) -> (r: Option<Config>)
        ensures
            r == preset_by_name(name@),
    {
        if str_eq(name, "mainnet") {
            Some(Config::mainnet())
        } else if str_eq(name, "minimal") {
            Some(Config::minimal())
        } else if str_eq(name, "gnosis") {
            Some(Config::gnosis())
        } else {
            None
        }
    }
}

} // verus!
