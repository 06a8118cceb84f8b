use rand::rngs::StdRng;
use rand::{Rng, SeedableRng};
use sample::rate::DRAW_SCALE;
use sample::{percentage_sample_iter, Error, PercentageSampleIter, SampleRate};

#[test]
fn sampling_test_percentage_sample_iter() {
    let items: Vec<i32> = (1..1001).collect();
    let percentage = SampleRate::from_percent(10).unwrap();
    let seed = [42; 32];
    let rng = StdRng::from_seed(seed);

    let sample: Vec<i32> = percentage_sample_iter(items.clone(), percentage, rng);

    assert!(sample.len() > 50 && sample.len() < 150);
    for item in &sample {
        assert!(items.contains(item));
    }
}

#[test]
fn percentage_test_percentage_sample_iter() {
    let items: Vec<i32> = (1..1001).collect();
    let percentage = SampleRate::from_percent(10).unwrap();
    let seed = [42; 32];
    let rng = StdRng::from_seed(seed);

    let sample: Vec<i32> = percentage_sample_iter(items.clone(), percentage, rng);

    assert!(sample.len() > 50 && sample.len() < 150);
    for item in &sample {
        assert!(items.contains(item));
    }
}

#[test]
fn percentage_above_hundred_is_rejected() {
    assert!(matches!(SampleRate::from_percent(101), Err(Error::InvalidPercentage)));
    assert!(matches!(
        SampleRate::from_threshold(DRAW_SCALE + 1),
        Err(Error::InvalidPercentage)
    ));
    assert!(SampleRate::from_threshold(DRAW_SCALE).is_ok());
}

#[test]
fn whole_percentages_round_up_to_the_draw_resolution() {
    assert_eq!(SampleRate::from_percent(0).unwrap().threshold(), 0);
    assert_eq!(SampleRate::from_percent(10).unwrap().threshold(), 900719925474100);
    assert_eq!(SampleRate::from_percent(50).unwrap().threshold(), 4503599627370496);
    assert_eq!(SampleRate::from_percent(100).unwrap().threshold(), DRAW_SCALE);
    assert_eq!(SampleRate::from_threshold(12345).unwrap().threshold(), 12345);
}

#[test]
fn draw_is_read_from_its_top_bits() {
    let half = SampleRate::from_percent(50).unwrap();
    // top 53 bits of 1 << 63 are exactly one half: not below one half
    assert!(!half.admits_draw(1u64 << 63));
    assert!(half.admits_draw((1u64 << 63) - 1));
    assert!(half.admits_draw(0));
    let none = SampleRate::from_percent(0).unwrap();
    assert!(!none.admits_draw(0));
    let all = SampleRate::from_percent(100).unwrap();
    assert!(all.admits_draw(u64::MAX));
}

#[test]
fn zero_percent_keeps_nothing() {
    let items: Vec<u32> = (0..500).collect();
    let rate = SampleRate::from_percent(0).unwrap();
    assert!(percentage_sample_iter(items, rate, StdRng::seed_from_u64(5)).is_empty());
}

#[test]
fn hundred_percent_keeps_everything() {
    let items: Vec<u32> = (0..500).collect();
    let rate = SampleRate::from_percent(100).unwrap();
    assert_eq!(percentage_sample_iter(items.clone(), rate, StdRng::seed_from_u64(5)), items);
}

#[test]
fn kept_records_stay_in_input_order() {
    let items: Vec<u32> = (0..1000).collect();
    let rate = SampleRate::from_percent(30).unwrap();
    let sample = percentage_sample_iter(items, rate, StdRng::seed_from_u64(11));
    assert!(!sample.is_empty());
    assert!(sample.windows(2).all(|w| w[0] < w[1]));
}

#[test]
fn same_seed_gives_same_percentage_sample() {
    let items: Vec<u32> = (0..1000).collect();
    let rate = SampleRate::from_percent(25).unwrap();
    let one = percentage_sample_iter(items.clone(), rate, StdRng::seed_from_u64(8));
    let two = percentage_sample_iter(items, rate, StdRng::seed_from_u64(8));
    assert_eq!(one, two);
}

#[test]
fn streaming_sampler_decides_on_one_draw_per_record() {
    let rate = SampleRate::from_percent(40).unwrap();
    let mut sampler = PercentageSampleIter::new(rate, StdRng::seed_from_u64(21));
    let mut shadow = StdRng::seed_from_u64(21);
    assert_eq!(sampler.rate(), rate);
    for item in 0..200u32 {
        let raw: u64 = shadow.gen();
        let expected = if rate.admits_draw(raw) { Some(item) } else { None };
        assert_eq!(sampler.offer(item), expected);
    }
}
