use fisher_relayer::engine::{BatchEngine, FlushPhase};
use fisher_relayer::error::Error;
use fisher_relayer::ordering::order_by_rank;
use fisher_relayer::williams::process_in_chunks;
use fisher_relayer::types::{
    estimate_batch_gas, settlement_successes, validate_config, Address, BatchResult, FisherConfig, Intent, U256,
};

fn valid_config(min: usize, max: usize) -> FisherConfig {
    let mut c = FisherConfig::default();
    c.fisher_address = Address::from_bytes([1u8; 20]);
    c.evvm_core_address = Address::from_bytes([2u8; 20]);
    c.min_batch_size = min;
    c.max_batch_size = max;
    c.batch_interval_ms = 2000;
    c
}

fn intent(id: &str, priority: bool, timestamp: u64) -> Intent {
    Intent {
        id: id.to_string(),
        from: Address::zero(),
        to: Address::zero(),
        amount: U256::from_u128(100),
        priority,
        nonce: 0,
        signature: vec![0xDE, 0xAD, 0xBE, 0xEF],
        timestamp,
        max_gas_price: None,
    }
}

fn result_for(batch_id: u64, n: usize, gas_saved: u128) -> BatchResult {
    BatchResult {
        batch_id,
        tx_hash: "0x00".to_string(),
        gas_used: U256::from_u128(14_000 * n as u128),
        gas_saved: U256::from_u128(gas_saved),
        successes: vec![true; n],
        processing_time_ms: 5,
        used_blob: false,
        blob_gas_saved: U256::zero(),
    }
}

#[test]
fn intake_queues_fifteen_intents() {
    let config = FisherConfig::default();
    assert!(matches!(validate_config(&config), Err(Error::Config(_))));
    let mut engine = BatchEngine::new(&valid_config(10, 1000)).unwrap();
    for i in 0..15u64 {
        let it = Intent::new(
            format!("test_{}", i),
            Address::zero(),
            Address::zero(),
            U256::from_u128(100),
            false,
            i,
            vec![0xDE, 0xAD, 0xBE, 0xEF],
        );
        engine.submit_intent(it).unwrap();
    }
    assert_eq!(engine.queue_len(), 15);
}

#[test]
fn fifteen_intents_one_tick_one_batch() {
    let mut engine = BatchEngine::new(&valid_config(5, 100)).unwrap();
    for i in 0..15 {
        let id = engine.submit_intent(intent(&format!("i{}", i), false, 1_000)).unwrap();
        assert_eq!(id, format!("i{}", i));
    }
    assert!(!engine.take_high_water());
    assert!(engine.request_flush());
    let drained = engine.drain().unwrap();
    assert_eq!(drained.len(), 15);
    assert_eq!(engine.queue_len(), 0);
    let ranked: Vec<(u64, Intent)> = drained.into_iter().map(|i| (7u64, i)).collect();
    let batch = engine.build_batch(ranked, 1_700_000_000).unwrap();
    assert_eq!(batch.intents.len(), 15);
    assert_eq!(batch.id, 1_700_000_000);
    assert_eq!(batch.chunk_size, 12);
    assert_eq!(batch.estimated_gas, U256::from_u128(210_000));
    assert_eq!(batch.estimated_savings, U256::from_u128(1_290_000));
    assert_eq!(engine.phase(), FlushPhase::Submitting);
    let res = result_for(batch.id, 15, 1_290_000);
    engine.complete_flush(batch.intents.len(), Some(&res));
    let m = engine.metrics();
    assert_eq!(m.total_batches, 1);
    assert_eq!(m.total_intents, 15);
    assert_eq!(m.total_gas_saved, U256::from_u128(1_290_000));
    assert_eq!(m.blob_batches, 0);
    assert_eq!(engine.phase(), FlushPhase::Idle);
}

#[test]
fn four_intents_below_minimum_are_dropped() {
    let mut engine = BatchEngine::new(&valid_config(5, 100)).unwrap();
    for i in 0..4 {
        engine.submit_intent(intent(&format!("i{}", i), false, 1)).unwrap();
    }
    assert!(engine.request_flush());
    assert!(matches!(engine.drain(), Err(Error::BatchProcessing(_))));
    assert_eq!(engine.queue_len(), 0);
    assert_eq!(engine.phase(), FlushPhase::Idle);
    assert_eq!(engine.metrics().total_batches, 0);
}

#[test]
fn high_water_fires_once_at_max() {
    let mut engine = BatchEngine::new(&valid_config(5, 100)).unwrap();
    for i in 0..99 {
        engine.submit_intent(intent(&format!("i{}", i), false, 1)).unwrap();
        assert!(!engine.take_high_water());
    }
    engine.submit_intent(intent("i99", false, 1)).unwrap();
    assert!(engine.take_high_water());
    assert!(engine.request_flush());
    let drained = engine.drain().unwrap();
    assert_eq!(drained.len(), 100);
    // intake continues while the batch is out
    engine.submit_intent(intent("late", false, 2)).unwrap();
    assert!(!engine.take_high_water());
    assert_eq!(engine.queue_len(), 1);
    // a trigger during the flush is coalesced
    assert!(!engine.request_flush());
    assert!(engine.flush_pending());
    let batch = engine.build_batch(drained.into_iter().map(|i| (0u64, i)).collect(), 10).unwrap();
    assert_eq!(batch.intents.len(), 100);
    engine.complete_flush(100, None);
    assert_eq!(engine.metrics().total_batches, 0);
    assert!(engine.resume_pending());
    assert_eq!(engine.phase(), FlushPhase::Draining);
    assert!(!engine.flush_pending());
}

#[test]
fn unsigned_intent_is_refused() {
    let mut engine = BatchEngine::new(&valid_config(1, 10)).unwrap();
    let mut it = intent("nosig", false, 1);
    it.signature = vec![];
    assert_eq!(engine.submit_intent(it), Err(Error::InvalidSignature));
    assert_eq!(engine.queue_len(), 0);
}

#[test]
fn batch_ids_strictly_increase() {
    let mut engine = BatchEngine::new(&valid_config(1, 10)).unwrap();
    let mut last = 0;
    for now in [50u64, 50, 49, 80] {
        engine.submit_intent(intent("x", false, 1)).unwrap();
        assert!(engine.request_flush());
        let d = engine.drain().unwrap();
        let b = engine.build_batch(d.into_iter().map(|i| (0u64, i)).collect(), now).unwrap();
        assert!(b.id > last);
        last = b.id;
        engine.complete_flush(1, None);
    }
    assert_eq!(last, 80);
}

#[test]
fn invalid_thresholds_are_refused() {
    assert!(matches!(BatchEngine::new(&valid_config(0, 10)), Err(Error::Config(_))));
    assert!(matches!(BatchEngine::new(&valid_config(11, 10)), Err(Error::Config(_))));
    let mut c = valid_config(1, 10);
    c.rpc_url = String::new();
    assert!(matches!(validate_config(&c), Err(Error::Config(_))));
    assert_eq!(validate_config(&valid_config(10, 10)), Ok(()));
}

#[test]
fn ranking_orders_by_key_then_age_then_id() {
    let items = vec![
        (5u64, intent("b", false, 10)),
        (9u64, intent("z", true, 10)),
        (5u64, intent("a", false, 10)),
        (5u64, intent("c", false, 3)),
    ];
    let out = order_by_rank(items);
    let ids: Vec<&str> = out.iter().map(|p| p.1.id.as_str()).collect();
    assert_eq!(ids, vec!["z", "c", "a", "b"]);
}

#[test]
fn ranking_puts_priority_first_when_keys_reflect_it() {
    let items: Vec<(u64, Intent)> = (0..6)
        .map(|i| (if i % 2 == 0 { 1u64 } else { 2u64 }, intent(&format!("p{}", i), i % 2 == 1, 100)))
        .collect();
    let out = order_by_rank(items);
    assert!(out[..3].iter().all(|p| p.1.priority));
    assert!(out[3..].iter().all(|p| !p.1.priority));
}

#[test]
fn gas_model_ratio() {
    for n in [1usize, 15, 1000] {
        let (gas, savings) = estimate_batch_gas(n);
        let g = gas.to_u128().unwrap();
        let s = savings.to_u128().unwrap();
        assert_eq!(g, 14_000 * n as u128);
        assert_eq!(s * 100_000, 86_000 * (g + s));
    }
}

#[test]
fn chunked_processing_covers_every_intent() {
    let intents: Vec<Intent> = (0..100).map(|i| intent(&format!("c{}", i), false, 1)).collect();
    let sizes = process_in_chunks(&intents, |c: &[Intent]| -> Result<usize, Error> { Ok(c.len()) }).unwrap();
    assert_eq!(sizes, vec![70, 30]);
    let firsts = process_in_chunks(&intents, |c: &[Intent]| -> Result<String, Error> { Ok(c[0].id.clone()) })
        .unwrap();
    assert_eq!(firsts, vec!["c0".to_string(), "c70".to_string()]);
    let none: Vec<Intent> = Vec::new();
    assert_eq!(process_in_chunks(&none, |c: &[Intent]| -> Result<usize, Error> { Ok(c.len()) }).unwrap(), Vec::<usize>::new());
    let failing = process_in_chunks(&intents, |c: &[Intent]| -> Result<usize, Error> {
        if c[0].id == "c70" { Err(Error::Other("stop".to_string())) } else { Ok(c.len()) }
    });
    assert_eq!(failing, Err(Error::Other("stop".to_string())));
}

#[test]
fn stop_lets_flight_finish_and_ignores_triggers() {
    let mut engine = BatchEngine::new(&valid_config(1, 10)).unwrap();
    engine.submit_intent(intent("a", false, 1)).unwrap();
    assert!(engine.request_flush());
    let d = engine.drain().unwrap();
    assert!(!engine.stop());
    assert!(!engine.request_flush());
    assert!(!engine.flush_pending());
    let b = engine.build_batch(d.into_iter().map(|i| (0u64, i)).collect(), 5).unwrap();
    engine.complete_flush(b.intents.len(), None);
    assert!(!engine.resume_pending());
    assert_eq!(engine.phase(), FlushPhase::Idle);
    assert!(!engine.request_flush());
}

#[test]
fn success_flags_follow_receipt_or_default_to_all() {
    assert_eq!(settlement_successes(Some(vec![true, false, true]), 3), vec![true, false, true]);
    assert_eq!(settlement_successes(Some(vec![false]), 3), vec![true, true, true]);
    assert_eq!(settlement_successes(None, 2), vec![true, true]);
}

#[test]
fn ranking_is_stable_for_equal_rank() {
    let mut items = Vec::new();
    for nonce in 0..5u64 {
        let mut it = intent("same", false, 10);
        it.nonce = nonce;
        items.push((3u64, it));
    }
    items.push((4u64, intent("first", false, 10)));
    let out = order_by_rank(items);
    assert_eq!(out[0].1.id, "first");
    let nonces: Vec<u64> = out[1..].iter().map(|p| p.1.nonce).collect();
    assert_eq!(nonces, vec![0, 1, 2, 3, 4]);
}
