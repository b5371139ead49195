use ssz_nif::config::Config;
use ssz_nif::dispatch::resolve;
use ssz_nif::encode::encode;
use ssz_nif::helpers::NifError;
use ssz_nif::merkle::is_hashable;
use ssz_nif::schema::{historical_batch, schema_type};
use ssz_nif::types::{SszType, SszValue};

const SCHEMAS: [&str; 46] = [
    "HistoricalSummary",
    "AttestationData",
    "IndexedAttestation",
    "Checkpoint",
    "Eth1Data",
    "Fork",
    "ForkData",
    "HistoricalBatch",
    "PendingAttestation",
    "Validator",
    "DepositData",
    "VoluntaryExit",
    "Deposit",
    "DepositMessage",
    "BLSToExecutionChange",
    "SignedBLSToExecutionChange",
    "Attestation",
    "BeaconBlock",
    "BeaconBlockHeader",
    "AttesterSlashing",
    "SignedBeaconBlock",
    "SignedBeaconBlockHeader",
    "SignedVoluntaryExit",
    "ProposerSlashing",
    "ExecutionPayload",
    "ExecutionPayloadHeader",
    "Withdrawal",
    "SigningData",
    "SyncAggregate",
    "SyncCommittee",
    "SyncCommitteeMessage",
    "SyncCommitteeContribution",
    "ContributionAndProof",
    "SignedContributionAndProof",
    "BeaconState",
    "BeaconBlockBody",
    "StatusMessage",
    "AggregateAndProof",
    "SignedAggregateAndProof",
    "BeaconBlocksByRangeRequest",
    "Transaction",
    "Metadata",
    "Root",
    "Epoch",
    "BlobSidecar",
    "BlobIdentifier",
];

fn fixed_len_of(schema: &str, config: &str) -> Option<usize> {
    let ty = resolve(schema, config).unwrap();
    if ty.is_fixed_len() {
        Some(ty.fixed_len())
    } else {
        None
    }
}

#[test]
fn presets_hold_the_known_bounds() {
    let mainnet = Config::mainnet();
    assert_eq!(mainnet.slots_per_epoch, 32);
    assert_eq!(mainnet.slots_per_historical_root, 8192);
    assert_eq!(mainnet.validator_registry_limit, 1 << 40);
    assert_eq!(mainnet.max_validators_per_committee, 2048);
    assert_eq!(mainnet.sync_committee_size, 512);
    assert_eq!(mainnet.max_blob_commitments_per_block, 4096);
    let minimal = Config::minimal();
    assert_eq!(minimal.slots_per_epoch, 8);
    assert_eq!(minimal.slots_per_historical_root, 64);
    assert_eq!(minimal.sync_committee_size, 32);
    assert_eq!(minimal.max_withdrawals_per_payload, 4);
    assert_eq!(minimal.max_blob_commitments_per_block, 16);
    assert_eq!(minimal.kzg_commitment_inclusion_proof_depth, 9);
    assert_eq!(minimal.max_validators_per_committee, 2048);
    let gnosis = Config::gnosis();
    assert_eq!(gnosis.slots_per_epoch, 16);
    assert_eq!(gnosis.max_withdrawals_per_payload, 8);
    assert_eq!(gnosis.slots_per_historical_root, 8192);
}

#[test]
fn derived_bounds_follow_from_the_others() {
    for c in [Config::mainnet(), Config::minimal(), Config::gnosis()] {
        assert_eq!(c.sync_subcommittee_size, c.sync_committee_size / c.sync_committee_subnet_count);
        assert_eq!(c.max_pending_attestations, c.max_attestations * c.slots_per_epoch);
        assert_eq!(
            c.slots_per_eth1_voting_period,
            c.epochs_per_eth1_voting_period * c.slots_per_epoch
        );
        assert_eq!(c.bytes_per_blob, c.field_elements_per_blob * c.bytes_per_field_element);
    }
    assert_eq!(Config::mainnet().sync_subcommittee_size, 128);
    assert_eq!(Config::minimal().sync_subcommittee_size, 8);
    assert_eq!(Config::mainnet().max_pending_attestations, 4096);
    assert_eq!(Config::minimal().slots_per_eth1_voting_period, 32);
    assert_eq!(Config::gnosis().slots_per_eth1_voting_period, 1024);
    assert_eq!(Config::mainnet().bytes_per_blob, 131072);
}

#[test]
fn preset_names_are_the_three() {
    assert_eq!(Config::by_name("mainnet"), Some(Config::mainnet()));
    assert_eq!(Config::by_name("minimal"), Some(Config::minimal()));
    assert_eq!(Config::by_name("gnosis"), Some(Config::gnosis()));
    assert_eq!(Config::by_name("Mainnet"), None);
    assert_eq!(Config::by_name(""), None);
    assert_eq!(Config::by_name("sepolia"), None);
}

#[test]
fn every_schema_resolves_under_every_preset() {
    for config in ["mainnet", "minimal", "gnosis"] {
        for schema in SCHEMAS {
            let ty = resolve(schema, config).unwrap();
            assert!(ty.is_well_formed(), "{} under {}", schema, config);
            assert!(is_hashable(&ty), "{} under {}", schema, config);
        }
    }
}

#[test]
fn unknown_names_are_bad_arguments() {
    assert_eq!(resolve("Checkpoint", "testnet"), Err(NifError::BadArg));
    assert_eq!(resolve("checkpoint", "mainnet"), Err(NifError::BadArg));
    assert_eq!(resolve("", "mainnet"), Err(NifError::BadArg));
    assert_eq!(resolve("NoSuchThing", "minimal"), Err(NifError::BadArg));
    assert!(schema_type("NoSuchThing", &Config::mainnet()).is_none());
    assert!(schema_type("Checkpoint", &Config::mainnet()).is_some());
}

#[test]
fn fixed_size_records_have_their_wire_sizes() {
    assert_eq!(fixed_len_of("Fork", "mainnet"), Some(16));
    assert_eq!(fixed_len_of("ForkData", "mainnet"), Some(36));
    assert_eq!(fixed_len_of("Checkpoint", "mainnet"), Some(40));
    assert_eq!(fixed_len_of("Validator", "mainnet"), Some(121));
    assert_eq!(fixed_len_of("AttestationData", "mainnet"), Some(128));
    assert_eq!(fixed_len_of("Eth1Data", "mainnet"), Some(72));
    assert_eq!(fixed_len_of("DepositMessage", "mainnet"), Some(88));
    assert_eq!(fixed_len_of("DepositData", "mainnet"), Some(184));
    assert_eq!(fixed_len_of("Deposit", "mainnet"), Some(1240));
    assert_eq!(fixed_len_of("VoluntaryExit", "mainnet"), Some(16));
    assert_eq!(fixed_len_of("SignedVoluntaryExit", "mainnet"), Some(112));
    assert_eq!(fixed_len_of("BeaconBlockHeader", "mainnet"), Some(112));
    assert_eq!(fixed_len_of("SignedBeaconBlockHeader", "mainnet"), Some(208));
    assert_eq!(fixed_len_of("ProposerSlashing", "mainnet"), Some(416));
    assert_eq!(fixed_len_of("HistoricalSummary", "mainnet"), Some(64));
    assert_eq!(fixed_len_of("SigningData", "mainnet"), Some(64));
    assert_eq!(fixed_len_of("Withdrawal", "mainnet"), Some(44));
    assert_eq!(fixed_len_of("BLSToExecutionChange", "mainnet"), Some(76));
    assert_eq!(fixed_len_of("SignedBLSToExecutionChange", "mainnet"), Some(172));
    assert_eq!(fixed_len_of("StatusMessage", "mainnet"), Some(84));
    assert_eq!(fixed_len_of("BeaconBlocksByRangeRequest", "mainnet"), Some(24));
    assert_eq!(fixed_len_of("BlobIdentifier", "mainnet"), Some(40));
    assert_eq!(fixed_len_of("SyncCommitteeMessage", "mainnet"), Some(144));
    assert_eq!(fixed_len_of("Metadata", "mainnet"), Some(17));
    assert_eq!(fixed_len_of("SyncAggregate", "mainnet"), Some(160));
    assert_eq!(fixed_len_of("SyncAggregate", "minimal"), Some(100));
    assert_eq!(fixed_len_of("SyncCommittee", "mainnet"), Some(48 * 513));
    assert_eq!(fixed_len_of("SyncCommittee", "minimal"), Some(48 * 33));
    assert_eq!(fixed_len_of("SyncCommitteeContribution", "mainnet"), Some(160));
    assert_eq!(fixed_len_of("SyncCommitteeContribution", "minimal"), Some(145));
    assert_eq!(fixed_len_of("BlobSidecar", "mainnet"), Some(131072 + 32 * 17 + 312));
    assert_eq!(fixed_len_of("BlobSidecar", "minimal"), Some(131072 + 32 * 9 + 312));
    assert_eq!(fixed_len_of("Root", "mainnet"), Some(32));
    assert_eq!(fixed_len_of("Epoch", "mainnet"), Some(8));
}

#[test]
fn records_with_lists_are_of_variable_size() {
    for schema in [
        "IndexedAttestation",
        "PendingAttestation",
        "Attestation",
        "AttesterSlashing",
        "BeaconBlock",
        "SignedBeaconBlock",
        "BeaconBlockBody",
        "BeaconState",
        "ExecutionPayload",
        "ExecutionPayloadHeader",
        "AggregateAndProof",
        "SignedAggregateAndProof",
        "Transaction",
    ] {
        assert_eq!(fixed_len_of(schema, "mainnet"), None, "{}", schema);
    }
}

#[test]
fn historical_batch_is_shorter_under_minimal() {
    let roots = |n: usize| SszValue::List((0..n).map(|_| SszValue::Bytes(vec![0u8; 32])).collect());
    let minimal = resolve("HistoricalBatch", "minimal").unwrap();
    let mainnet = resolve("HistoricalBatch", "mainnet").unwrap();
    let small = encode(&minimal, &SszValue::Container(vec![roots(64), roots(64)])).unwrap();
    let large = encode(&mainnet, &SszValue::Container(vec![roots(8192), roots(8192)])).unwrap();
    assert_eq!(small.len(), 2 * 64 * 32);
    assert_eq!(large.len(), 2 * 8192 * 32);
    assert!(small.len() < large.len());
    assert!(encode(&mainnet, &SszValue::Container(vec![roots(64), roots(64)])).is_err());
    assert_eq!(historical_batch(&Config::minimal()), minimal);
}

#[test]
fn checkpoint_has_its_two_fields_in_order() {
    match resolve("Checkpoint", "mainnet").unwrap() {
        SszType::Container(fields) => {
            assert_eq!(fields.len(), 2);
            assert_eq!(fields[0].name, "epoch");
            assert_eq!(fields[0].ty, SszType::Uint(8));
            assert_eq!(fields[1].name, "root");
            assert_eq!(fields[1].ty, SszType::ByteArray(32));
        }
        other => panic!("not a container: {:?}", other),
    }
}

#[test]
fn beacon_state_has_its_fields_in_order() {
    match resolve("BeaconState", "minimal").unwrap() {
        SszType::Container(fields) => {
            assert_eq!(fields.len(), 28);
            assert_eq!(fields[0].name, "genesis_time");
            assert_eq!(fields[5].name, "block_roots");
            assert_eq!(
                fields[5].ty,
                SszType::Vector(Box::new(SszType::ByteArray(32)), 64)
            );
            assert_eq!(fields[11].name, "validators");
            assert_eq!(fields[17].name, "justification_bits");
            assert_eq!(fields[17].ty, SszType::Bitvector(4));
            assert_eq!(fields[27].name, "historical_summaries");
        }
        other => panic!("not a container: {:?}", other),
    }
}
