use fisher_relayer::phi_optimization::{
    compound_growth, era_reward_with_decay, fibonacci, EraState, SCALE,
};
use fisher_relayer::williams::{tree_combine, williams_chunk_size};

#[test]
fn test_williams_chunk_size() {
    assert_eq!(williams_chunk_size(0), 0);
    assert_eq!(williams_chunk_size(1), 1);

    let chunk_100 = williams_chunk_size(100);
    assert!(chunk_100 > 50 && chunk_100 < 100);

    let chunk_10k = williams_chunk_size(10_000);
    assert!(chunk_10k > 1000 && chunk_10k < 1500);
    assert!(chunk_10k < 10_000 / 5);
}

#[test]
fn chunk_size_exact_values() {
    assert_eq!(williams_chunk_size(2), 1);
    assert_eq!(williams_chunk_size(4), 4);
    assert_eq!(williams_chunk_size(5), 6);
    assert_eq!(williams_chunk_size(100), 70);
    assert_eq!(williams_chunk_size(1000), 310);
    assert_eq!(williams_chunk_size(10_000), 1400);
    assert_eq!(williams_chunk_size(usize::MAX), 4_294_967_295 * 64);
}

#[test]
fn chunk_size_ten_thousand_scenario() {
    let c = williams_chunk_size(10_000);
    assert!(c >= 1300 && c <= 1500);
    let savings = (10_000 - c) as f64 / 10_000.0 * 100.0;
    assert!(savings >= 80.0 && savings <= 90.0);
}

#[test]
fn chunk_size_quarter_savings_from_one_hundred() {
    for n in [100usize, 128, 129, 256, 257, 1000, 65_536, 1_000_000] {
        let c = williams_chunk_size(n);
        assert!(c < n);
        assert!(4 * c <= 3 * n);
    }
}

#[test]
fn test_era_state() {
    let mut state = EraState::new(1_000_000_000_000_000_000, 50_000_000_000_000_000, 3600);

    assert_eq!(state.era, 0);
    assert_eq!(state.compute_current_fee(), 1_000_000_000_000_000_000);

    state.record_operations(100);
    assert_eq!(state.era_operations, 100);
    assert_eq!(state.total_operations, 100);

    state.advance_era();
    assert_eq!(state.era, 1);
    assert_eq!(state.era_operations, 0);

    let expected_fee = 1_050_000_000_000_000_000u128;
    assert!((state.compute_current_fee() as i128 - expected_fee as i128).abs() < 1_000_000);
}

#[test]
fn era_state_at_fixed_time() {
    let s = EraState::new_at(SCALE, SCALE / 20, 3600, 1_000);
    assert_eq!(s.era_start, 1_000);
    assert!(!s.should_advance_era_at(4_599));
    assert!(s.should_advance_era_at(4_600));
    assert_eq!(s.compute_batch_fees(1000), 1000);
}

#[test]
fn test_compound_growth() {
    let result = compound_growth(100 * SCALE, SCALE / 10, 5);
    let expected = 161 * SCALE;
    assert!((result as i128 - expected as i128).abs() < SCALE as i128);
}

#[test]
fn compound_growth_exact() {
    assert_eq!(compound_growth(100 * SCALE, SCALE / 10, 5), 161_051_000_000_000_000_000);
    assert_eq!(compound_growth(7, SCALE, 0), 7);
    assert_eq!(compound_growth(u128::MAX, SCALE, 1), u128::MAX / SCALE);
}

#[test]
fn test_fibonacci() {
    assert_eq!(fibonacci(0), 0);
    assert_eq!(fibonacci(1), 1);
    assert_eq!(fibonacci(2), 1);
    assert_eq!(fibonacci(3), 2);
    assert_eq!(fibonacci(4), 3);
    assert_eq!(fibonacci(5), 5);
    assert_eq!(fibonacci(10), 55);

    let fib_30 = fibonacci(30);
    assert!(fib_30 > 800_000 && fib_30 < 900_000);
}

#[test]
fn fibonacci_exact_and_capped() {
    assert_eq!(fibonacci(30), 832_040);
    assert_eq!(fibonacci(93), 12_200_160_415_121_876_738);
    assert_eq!(fibonacci(94), u64::MAX);
    assert_eq!(fibonacci(u64::MAX), u64::MAX);
}

#[test]
fn test_era_reward_decay() {
    let base = 1000u128;
    let decay = SCALE / 10;

    let reward_0 = era_reward_with_decay(base, 0, decay);
    assert_eq!(reward_0, base);

    let reward_1 = era_reward_with_decay(base, 1, decay);
    assert!(reward_1 >= 850 && reward_1 <= 950);

    let reward_5 = era_reward_with_decay(base, 5, decay);
    assert!(reward_5 >= 550 && reward_5 <= 650);
}

#[test]
fn era_reward_exact() {
    assert_eq!(era_reward_with_decay(1000, 1, SCALE / 10), 900);
    assert_eq!(era_reward_with_decay(1000, 5, SCALE / 10), 590);
    assert_eq!(era_reward_with_decay(1000, 3, SCALE), 0);
}

#[test]
fn tree_combine_sums() {
    assert_eq!(tree_combine(Vec::<u64>::new(), |a: u64, b: u64| a + b), None);
    assert_eq!(tree_combine(vec![4u64], |a: u64, b: u64| a + b), Some(4));
    let v: Vec<u64> = (1..=10).collect();
    assert_eq!(tree_combine(v, |a: u64, b: u64| a.wrapping_add(b)), Some(55));
}

#[test]
fn tree_combine_shape() {
    let v: Vec<String> = ["a", "b", "c", "d", "e"].iter().map(|s| s.to_string()).collect();
    let r = tree_combine(v, |a: String, b: String| format!("({}{})", a, b));
    assert_eq!(r, Some("(((ab)(cd))e)".to_string()));
}
