use ssz_nif::decode::decode;
use ssz_nif::dispatch::{from_ssz_rs, hash_tree_root_rs, resolve, to_ssz_rs};
use ssz_nif::encode::{check_value, encode};
use ssz_nif::from_elx::{from_elx, from_ssz};
use ssz_nif::merkle::tree_hash_root;
use ssz_nif::types::{SszType, SszValue};

const NAMES: [&str; 46] = [
    "HistoricalSummary",
    "AttestationData",
    "IndexedAttestation",
    "Checkpoint",
    "Eth1Data",
    "Fork",
    "ForkData",
    "HistoricalBatch",
    "PendingAttestation",
    "Validator",
    "DepositData",
    "VoluntaryExit",
    "Deposit",
    "DepositMessage",
    "BLSToExecutionChange",
    "SignedBLSToExecutionChange",
    "Attestation",
    "BeaconBlock",
    "BeaconBlockHeader",
    "AttesterSlashing",
    "SignedBeaconBlock",
    "SignedBeaconBlockHeader",
    "SignedVoluntaryExit",
    "ProposerSlashing",
    "ExecutionPayload",
    "ExecutionPayloadHeader",
    "Withdrawal",
    "SigningData",
    "SyncAggregate",
    "SyncCommittee",
    "SyncCommitteeMessage",
    "SyncCommitteeContribution",
    "ContributionAndProof",
    "SignedContributionAndProof",
    "BeaconState",
    "BeaconBlockBody",
    "StatusMessage",
    "AggregateAndProof",
    "SignedAggregateAndProof",
    "BeaconBlocksByRangeRequest",
    "Transaction",
    "Metadata",
    "Root",
    "Epoch",
    "BlobSidecar",
    "BlobIdentifier",
];

/// A stream of numbers that is the same at every run.
struct Numbers(u64);

impl Numbers {
    fn next(&mut self) -> u64 {
        self.0 = self.0.wrapping_mul(6364136223846793005).wrapping_add(1442695040888963407);
        self.0 >> 16
    }

    fn below(&mut self, bound: u64) -> u64 {
        self.next() % bound
    }

    fn bytes(&mut self, n: usize) -> Vec<u8> {
        (0..n).map(|_| self.next() as u8).collect()
    }

    fn bits(&mut self, n: usize) -> Vec<bool> {
        (0..n).map(|_| self.next() % 2 == 1).collect()
    }
}

/// A value of the type, with lists of at most three elements.
fn some_value(ty: &SszType, numbers: &mut Numbers) -> SszValue {
    match ty {
        SszType::Bool => SszValue::Bool(numbers.below(2) == 1),
        SszType::Uint(8) => SszValue::Uint(numbers.next() << 16 | numbers.below(1 << 16)),
        SszType::Uint(width) => SszValue::Uint(numbers.below(1 << (8 * width))),
        SszType::Uint256 => SszValue::Bytes(numbers.bytes(32)),
        SszType::ByteArray(n) | SszType::ByteVector(n) => SszValue::Bytes(numbers.bytes(*n as usize)),
        SszType::ByteList(max) => {
            let n = numbers.below((*max).min(40) + 1);
            SszValue::Bytes(numbers.bytes(n as usize))
        }
        SszType::Bitvector(n) => SszValue::Bits(numbers.bits(*n as usize)),
        SszType::Bitlist(max) => {
            let n = numbers.below((*max).min(40) + 1);
            SszValue::Bits(numbers.bits(n as usize))
        }
        SszType::Vector(elem, n) => {
            SszValue::List((0..*n).map(|_| some_value(elem, numbers)).collect())
        }
        SszType::List(elem, max) => {
            let n = numbers.below((*max).min(3) + 1);
            SszValue::List((0..n).map(|_| some_value(elem, numbers)).collect())
        }
        SszType::Container(fields) => {
            SszValue::Container(fields.iter().map(|f| some_value(&f.ty, numbers)).collect())
        }
    }
}

fn round_trips(config: &str, seed: u64) {
    let mut numbers = Numbers(seed);
    for name in NAMES {
        let ty = resolve(name, config).unwrap();
        let value = some_value(&ty, &mut numbers);
        assert!(check_value(&ty, &value), "{} under {}", name, config);

        let bytes = encode(&ty, &value).unwrap();
        if ty.is_fixed_len() {
            assert_eq!(bytes.len(), ty.fixed_len(), "{} under {}", name, config);
        }
        let back = decode(&ty, &bytes).unwrap();
        assert_eq!(back, value, "{} under {}", name, config);
        assert_eq!(encode(&ty, &back).unwrap(), bytes, "{} under {}", name, config);

        let root = tree_hash_root(&ty, &value).unwrap();
        assert_eq!(tree_hash_root(&ty, &back).unwrap(), root, "{} under {}", name, config);

        let handed = from_ssz(&ty, &value);
        assert_eq!(from_elx(&ty, &handed).unwrap(), value, "{} under {}", name, config);
        assert_eq!(to_ssz_rs(&handed, name, config).unwrap(), bytes, "{} under {}", name, config);
        assert_eq!(from_ssz_rs(&bytes, name, config).unwrap(), handed, "{} under {}", name, config);
        assert_eq!(
            hash_tree_root_rs(&handed, name, config).unwrap(),
            root,
            "{} under {}",
            name,
            config
        );
    }
}

#[test]
fn every_schema_round_trips_under_minimal() {
    round_trips("minimal", 1);
    round_trips("minimal", 2);
    round_trips("minimal", 3);
}

#[test]
fn every_schema_round_trips_under_mainnet() {
    round_trips("mainnet", 4);
}

#[test]
fn every_schema_round_trips_under_gnosis() {
    round_trips("gnosis", 5);
}

#[test]
fn truncated_bytes_never_decode_to_the_value() {
    let mut numbers = Numbers(6);
    for name in NAMES {
        let ty = resolve(name, "minimal").unwrap();
        let value = some_value(&ty, &mut numbers);
        let bytes = encode(&ty, &value).unwrap();
        if bytes.is_empty() {
            continue;
        }
        let cut = &bytes[..bytes.len() - 1];
        match decode(&ty, cut) {
            Ok(other) => {
                assert_ne!(other, value, "{}", name);
                assert_eq!(encode(&ty, &other).unwrap(), cut, "{}", name);
            }
            Err(_) => {}
        }
    }
}

#[test]
fn changed_value_changes_the_root() {
    let ty = resolve("BeaconBlockHeader", "mainnet").unwrap();
    let mut numbers = Numbers(7);
    let value = some_value(&ty, &mut numbers);
    let root = tree_hash_root(&ty, &value).unwrap();
    let changed = match &value {
        SszValue::Container(fields) => {
            let mut fields: Vec<SszValue> = fields.iter().map(|f| f.clone()).collect();
            fields[0] = SszValue::Uint(match fields[0] {
                SszValue::Uint(x) => x ^ 1,
                _ => 0,
            });
            SszValue::Container(fields)
        }
        other => other.clone(),
    };
    assert_ne!(tree_hash_root(&ty, &changed).unwrap(), root);
}
