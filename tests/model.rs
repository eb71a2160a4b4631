use fisher_relayer::attestation::AttestationManager;
use fisher_relayer::blob::{BlobEncoder, BLOB_SIZE, MAX_BLOBS_PER_TX};
use fisher_relayer::error::Error;
use fisher_relayer::fishing_spot::FishingSpotConfig;
use fisher_relayer::staking::FisherStaking;
use fisher_relayer::types::{Address, Intent, U256};

#[test]
fn test_attestation_manager() {
    let manager = AttestationManager::new(true);
    let config_hash = [0u8; 32];
    let report = manager.generate_report(config_hash);
    assert!(report.is_ok());
}

#[test]
fn attestation_report_data() {
    let manager = AttestationManager::new(true);
    let report = manager.generate_report([7u8; 32]).unwrap();
    assert_eq!(&report.quote.report_data[..32], &[7u8; 32]);
    let version_digest: [u8; 32] = [
        106, 217, 97, 58, 69, 87, 152, 214, 217, 46, 95, 95, 57, 10, 180, 186, 167, 5, 150, 188,
        134, 158, 214, 177, 127, 92, 221, 43, 40, 99, 95, 6,
    ];
    assert_eq!(&report.quote.report_data[32..], &version_digest);
    assert_eq!(report.quote.quote_data, vec![0xDE, 0xAD, 0xBE, 0xEF]);
    assert_eq!(report.fisher_version, "0.1.0");
    assert!(report.public_key.is_empty());
    assert_eq!(manager.verify_attestation(&report), Ok(true));
}

#[test]
fn attestation_switched_off() {
    let manager = AttestationManager::new(false);
    assert!(matches!(manager.generate_report([0u8; 32]), Err(Error::Attestation(_))));
}

#[test]
fn test_fishing_spot_config() {
    let config = FishingSpotConfig::default();
    assert_eq!(config.poll_interval_ms, 1000);
    assert_eq!(config.max_batch_size, 1000);
}

#[test]
fn fishing_spot_requests() {
    let mut config = FishingSpotConfig::default();
    config.endpoint = "http://spot".to_string();
    assert_eq!(config.pending_intents_url(), "http://spot/api/v1/pending-intents");
    assert_eq!(config.acknowledge_url(), "http://spot/api/v1/acknowledge");
    assert_eq!(config.stats_url(), "http://spot/api/v1/stats");
    assert_eq!(config.authorization(), None);
    config.auth_token = Some("tok".to_string());
    assert_eq!(config.authorization(), Some("Bearer tok".to_string()));
}

#[test]
fn blob_small_payload_segment() {
    let blobs = BlobEncoder::encode_bytes(&vec![1, 2, 3]).unwrap();
    assert_eq!(blobs.len(), 1);
    let b = &blobs[0];
    assert_eq!(b.blob_data.len(), BLOB_SIZE);
    assert_eq!(&b.blob_data[..11], &[3, 0, 0, 0, 0, 0, 0, 0, 1, 2, 3]);
    assert!(b.blob_data[11..].iter().all(|x| *x == 0));
    assert_eq!(b.commitment.len(), 48);
    assert_eq!(&b.commitment[..8], &[195, 127, 162, 90, 159, 127, 151, 149]);
    assert!(b.commitment[32..].iter().all(|x| *x == 0));
    assert_eq!(&b.versioned_hash[..8], &[1, 213, 239, 80, 218, 84, 216, 191]);
    assert_eq!(b.proof.len(), 48);
    assert_eq!(&b.proof[..8], &[3, 155, 74, 65, 42, 232, 53, 169]);
}

#[test]
fn blob_round_trip_bytes() {
    let data: Vec<u8> = (0..5000u32).map(|i| (i % 251) as u8).collect();
    let blobs = BlobEncoder::encode_bytes(&data).unwrap();
    assert_eq!(BlobEncoder::decode_bytes(&blobs).unwrap(), data);
}

#[test]
fn large_payload_multiple_blobs() {
    let data: Vec<u8> = (0..400_000u32).map(|i| (i % 7) as u8 + 1).collect();
    let blobs = BlobEncoder::encode_bytes(&data).unwrap();
    assert_eq!(blobs.len(), 4);
    assert!(blobs.len() <= MAX_BLOBS_PER_TX);
    let decoded = BlobEncoder::decode_bytes(&blobs).unwrap();
    assert_eq!(decoded.len(), 400_000);
    assert_eq!(decoded, data);
}

#[test]
fn blob_payload_limits() {
    let fits = vec![9u8; 6 * BLOB_SIZE - 8];
    assert_eq!(BlobEncoder::encode_bytes(&fits).unwrap().len(), 6);
    let too_big = vec![9u8; 6 * BLOB_SIZE - 7];
    assert!(matches!(BlobEncoder::encode_bytes(&too_big), Err(Error::BatchTooLarge(_))));
    assert!(matches!(BlobEncoder::decode_bytes(&Vec::new()), Err(Error::Serialization(_))));
}

#[test]
fn intent_fingerprint() {
    let a = Intent::new(
        "id-1".to_string(),
        Address::from_bytes([1u8; 20]),
        Address::from_bytes([2u8; 20]),
        U256::from_u128(1000),
        false,
        7,
        vec![1],
    );
    let mut b = a.clone();
    b.nonce = 8;
    let bytes = a.fingerprint_bytes();
    assert_eq!(bytes.len(), 4 + 20 + 20 + 32 + 8);
    assert_eq!(&bytes[..4], b"id-1");
    assert_eq!(&bytes[44 + 28..44 + 32], &[0, 0, 3, 232]);
    assert_eq!(&bytes[76..], &[7, 0, 0, 0, 0, 0, 0, 0]);
    assert_eq!(a.hash(), a.hash());
    assert_ne!(a.hash(), b.hash());
    assert_ne!(&a.hash()[..], &bytes[..32]);
    assert!(a.verify_signature());
}

#[test]
fn u256_arithmetic() {
    let max = U256 { hi: u128::MAX, lo: u128::MAX };
    assert_eq!(max.checked_add(&U256::from_u128(1)), None);
    assert_eq!(max.saturating_add(&U256::from_u128(5)), max);
    let a = U256 { hi: 0, lo: u128::MAX };
    assert_eq!(a.checked_add(&U256::from_u128(1)), Some(U256 { hi: 1, lo: 0 }));
    assert_eq!(a.to_u128(), Some(u128::MAX));
    assert_eq!(U256 { hi: 1, lo: 0 }.to_u128(), None);
    assert!(U256::zero().is_zero());
    let be = U256 { hi: 1, lo: 2 }.to_be_bytes();
    assert_eq!(be[15], 1);
    assert_eq!(be[31], 2);
    assert!(Address::zero().is_zero());
    assert!(!Address::from_bytes([0, 0, 0, 0, 0, 0, 0, 0, 0, 0, 0, 0, 0, 0, 0, 0, 0, 0, 0, 1]).is_zero());
}

type Row = (String, [u8; 20], [u8; 20], u128, bool, u64, Vec<u8>, u64, Option<u128>);
type BatchRows = (u64, Vec<Row>, u64, f64, u128, u128, u64);

fn create_test_batch(num_intents: usize) -> Vec<u8> {
    let rows: Vec<Row> = (0..num_intents)
        .map(|i| {
            let mut from = [0u8; 20];
            from[0] = i as u8;
            let mut to = [1u8; 20];
            to[0] = i as u8;
            (format!("intent_{}", i), from, to, 1000u128, false, i as u64, vec![0u8; 65], 1_234_567_890u64, Some(20_000_000_000u128))
        })
        .collect();
    let batch: BatchRows = (1, rows, 100, 0.5, 14_000_000, 226_000_000, 1_234_567_890);
    bincode::serialize(&batch).unwrap()
}

fn decode_test_batch(bytes: &[u8]) -> BatchRows {
    bincode::deserialize(bytes).unwrap()
}

#[test]
fn test_blob_encoding() {
    let batch = create_test_batch(100);
    let blobs = BlobEncoder::encode_bytes(&batch).unwrap();
    assert!(!blobs.is_empty());
    assert!(blobs.len() <= MAX_BLOBS_PER_TX);
    assert!(!blobs[0].commitment.is_empty());
    assert_eq!(blobs[0].commitment.len(), 48);
}

#[test]
fn test_blob_roundtrip() {
    let batch = create_test_batch(50);
    let blobs = BlobEncoder::encode_bytes(&batch).unwrap();
    let decoded = decode_test_batch(&BlobEncoder::decode_bytes(&blobs).unwrap());
    assert_eq!(decoded.1.len(), 50);
    assert_eq!(decoded.0, 1);
}

#[test]
fn test_large_batch_multiple_blobs() {
    let batch = create_test_batch(2000);
    let blobs = BlobEncoder::encode_bytes(&batch).unwrap();
    assert!(blobs.len() > 1);
    let decoded = decode_test_batch(&BlobEncoder::decode_bytes(&blobs).unwrap());
    assert_eq!(decoded.1.len(), 2000);
    assert_eq!(decoded.1[0].0, "intent_0");
    assert_eq!(decoded.1[1999].0, "intent_1999");
}

#[test]
fn test_staking_manager_creation() {
    let staking = FisherStaking::new(Address::zero(), Address::zero(), U256::from_u128(1000));
    assert_eq!(staking.min_stake, U256::from_u128(1000));
}

#[test]
fn stake_below_minimum_is_refused() {
    let staking = FisherStaking::new(Address::zero(), Address::zero(), U256::from_u128(1000));
    assert!(matches!(staking.check_stake(&U256::from_u128(999)), Err(Error::Other(_))));
    assert_eq!(staking.check_stake(&U256::from_u128(1000)), Ok(()));
    assert_eq!(staking.check_stake(&U256 { hi: 1, lo: 0 }), Ok(()));
}
