use rand::rngs::StdRng;
use rand::SeedableRng;
use sample::{reservoir_sample, Reservoir};

#[test]
fn main_test_reservoir_sample_fewer_items_than_k() {
    let items = vec![1, 2, 3];
    let k = 5;
    let mut rng = StdRng::from_entropy();

    let sample = reservoir_sample(items, k, &mut rng);

    assert_eq!(sample.len(), 3);
    assert!(sample.contains(&1));
    assert!(sample.contains(&2));
    assert!(sample.contains(&3));
}

#[test]
fn main_test_reservoir_sample_exact_k_items() {
    let items = vec![1, 2, 3, 4, 5];
    let k = 5;
    let mut rng = StdRng::from_entropy();

    let sample = reservoir_sample(items, k, &mut rng);

    assert_eq!(sample.len(), 5);
    assert!(sample.contains(&1));
    assert!(sample.contains(&2));
    assert!(sample.contains(&3));
    assert!(sample.contains(&4));
    assert!(sample.contains(&5));
}

#[test]
fn main_test_reservoir_sample_more_items_than_k() {
    let seed = [42; 32];
    let mut rng = StdRng::from_seed(seed);

    let items = vec![1, 2, 3, 4, 5, 6, 7, 8, 9, 10];
    let k = 3;

    let sample = reservoir_sample(items.clone(), k, &mut rng);

    assert_eq!(sample.len(), k);
    for item in &sample {
        assert!(items.contains(item));
    }
}

#[test]
fn main_test_reservoir_sample_empty_input() {
    let items: Vec<i32> = vec![];
    let k = 5;
    let mut rng = StdRng::from_entropy();

    let sample = reservoir_sample(items, k, &mut rng);

    assert_eq!(sample.len(), 0);
}

#[test]
fn main_test_reservoir_sample_with_header() {
    let mut rng = StdRng::from_entropy();
    let lines = [
        "header".to_string(),
        "data1".to_string(),
        "data2".to_string(),
        "data3".to_string(),
    ];
    let k = 2;

    let sample = reservoir_sample(lines[1..].to_vec(), k, &mut rng);
    assert_eq!(sample.len(), k);
}

#[test]
fn sampling_test_reservoir_sample_fewer_items_than_k() {
    let items = vec![1, 2, 3];
    let k = 5;
    let mut rng = StdRng::from_entropy();

    let sample = reservoir_sample(items, k, &mut rng);

    assert_eq!(sample.len(), 3);
    assert!(sample.contains(&1));
    assert!(sample.contains(&2));
    assert!(sample.contains(&3));
}

#[test]
fn sampling_test_reservoir_sample_exact_k_items() {
    let items = vec![1, 2, 3, 4, 5];
    let k = 5;
    let mut rng = StdRng::from_entropy();

    let sample = reservoir_sample(items, k, &mut rng);

    assert_eq!(sample.len(), 5);
    assert!(sample.contains(&1));
    assert!(sample.contains(&2));
    assert!(sample.contains(&3));
    assert!(sample.contains(&4));
    assert!(sample.contains(&5));
}

#[test]
fn sampling_test_reservoir_sample_more_items_than_k() {
    let seed = [42; 32];
    let mut rng = StdRng::from_seed(seed);

    let items = vec![1, 2, 3, 4, 5, 6, 7, 8, 9, 10];
    let k = 3;

    let sample = reservoir_sample(items.clone(), k, &mut rng);

    assert_eq!(sample.len(), k);
    for item in &sample {
        assert!(items.contains(item));
    }
}

#[test]
fn sampling_test_reservoir_sample_empty_input() {
    let items: Vec<i32> = vec![];
    let k = 5;
    let mut rng = StdRng::from_entropy();

    let sample = reservoir_sample(items, k, &mut rng);

    assert_eq!(sample.len(), 0);
}

#[test]
fn sampling_test_reservoir_sample_with_header() {
    let mut rng = StdRng::from_entropy();
    let lines = [
        "header".to_string(),
        "data1".to_string(),
        "data2".to_string(),
        "data3".to_string(),
    ];
    let k = 2;

    let sample = reservoir_sample(lines[1..].to_vec(), k, &mut rng);
    assert_eq!(sample.len(), k);
}

#[test]
fn short_input_is_kept_in_order() {
    let mut rng = StdRng::seed_from_u64(7);
    let items = vec![30, 10, 20];
    assert_eq!(reservoir_sample(items.clone(), 3, &mut rng), items);
    assert_eq!(reservoir_sample(items.clone(), 8, &mut rng), items);
}

#[test]
fn single_record_with_capacity_one() {
    let mut rng = StdRng::seed_from_u64(1);
    assert_eq!(reservoir_sample(vec!["only"], 1, &mut rng), vec!["only"]);
}

#[test]
fn long_input_gives_k_distinct_records() {
    for seed in 0..50u64 {
        let mut rng = StdRng::seed_from_u64(seed);
        let items: Vec<u32> = (0..40).collect();
        let mut sample = reservoir_sample(items.clone(), 6, &mut rng);
        assert_eq!(sample.len(), 6);
        assert!(sample.iter().all(|x| items.contains(x)));
        sample.sort();
        sample.dedup();
        assert_eq!(sample.len(), 6);
    }
}

#[test]
fn each_record_appears_with_frequency_near_k_over_n() {
    let n = 10usize;
    let k = 3usize;
    let trials = 20000u64;
    let mut counts = vec![0u64; n];
    for seed in 0..trials {
        let mut rng = StdRng::seed_from_u64(seed);
        let items: Vec<usize> = (0..n).collect();
        for picked in reservoir_sample(items, k, &mut rng) {
            counts[picked] += 1;
        }
    }
    let expected = trials as f64 * k as f64 / n as f64;
    for count in counts {
        let deviation = (count as f64 - expected).abs() / expected;
        assert!(deviation < 0.05, "count {} far from {}", count, expected);
    }
}

#[test]
fn same_seed_gives_same_reservoir() {
    let items: Vec<u32> = (0..100).collect();
    let mut first = StdRng::seed_from_u64(99);
    let mut second = StdRng::seed_from_u64(99);
    assert_eq!(
        reservoir_sample(items.clone(), 5, &mut first),
        reservoir_sample(items, 5, &mut second)
    );
}

#[test]
fn five_letters_two_picks_are_reproducible() {
    let letters = vec!["a", "b", "c", "d", "e"];
    let mut first = StdRng::seed_from_u64(2024);
    let mut second = StdRng::seed_from_u64(2024);
    let one = reservoir_sample(letters.clone(), 2, &mut first);
    let two = reservoir_sample(letters.clone(), 2, &mut second);
    assert_eq!(one.len(), 2);
    assert!(one.iter().all(|x| letters.contains(x)));
    assert_ne!(one[0], one[1]);
    assert_eq!(one, two);
}

#[test]
fn offers_with_given_draws_follow_algorithm_r() {
    let mut reservoir: Reservoir<char> = Reservoir::new(2);
    reservoir.offer_with_draw('a', 9);
    reservoir.offer_with_draw('b', 9);
    assert_eq!(reservoir.seen(), 2);
    // third item, slot 1 drawn: replaces 'b'
    reservoir.offer_with_draw('c', 1);
    // fourth item, slot 3 drawn: beyond the capacity, dropped
    reservoir.offer_with_draw('d', 3);
    // fifth item, slot 0 drawn: replaces 'a'
    reservoir.offer_with_draw('e', 0);
    assert_eq!(reservoir.seen(), 5);
    assert_eq!(reservoir.capacity(), 2);
    assert_eq!(reservoir.into_vec(), vec!['e', 'c']);
}

#[test]
fn zero_capacity_keeps_nothing() {
    let mut rng = StdRng::seed_from_u64(3);
    assert!(reservoir_sample(vec![1, 2, 3], 0, &mut rng).is_empty());
}
