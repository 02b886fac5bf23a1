use chromakey::{mean, Color};

#[test]
fn mean_of_one_sample_is_the_sample() {
    for c in [
        Color::new(0, 0, 0, 0),
        Color::new(255, 255, 255, 255),
        Color::new(1, 2, 3, 4),
        Color::new(200, 100, 50, 25),
    ] {
        assert_eq!(mean(vec![(c, 1)]), c);
    }
}

#[test]
fn mean_rounds_down_channel_by_channel() {
    let samples = vec![
        (Color::new(10, 0, 255, 7), 1),
        (Color::new(20, 1, 255, 8), 1),
        (Color::new(40, 1, 254, 9), 1),
    ];
    assert_eq!(mean(samples), Color::new(23, 0, 254, 8));
}

#[test]
fn mean_divides_by_the_number_of_samples_not_by_the_weights() {
    let samples = vec![(Color::new(10, 20, 30, 40), 1), (Color::new(20, 40, 60, 80), 3)];
    assert_eq!(mean(samples), Color::new(35, 70, 105, 140));
}

#[test]
fn zero_weight_still_counts_as_a_sample() {
    let samples = vec![(Color::new(100, 100, 100, 100), 1), (Color::new(200, 200, 200, 200), 0)];
    assert_eq!(mean(samples), Color::new(50, 50, 50, 50));
}

#[test]
fn quotient_above_the_range_keeps_its_low_byte() {
    assert_eq!(mean(vec![(Color::new(255, 128, 1, 0), 2)]), Color::new(254, 0, 2, 0));
    assert_eq!(mean(vec![(Color::new(255, 255, 255, 255), 255)]), Color::new(1, 1, 1, 1));
}

#[test]
fn mean_of_identical_samples_is_that_sample() {
    let c = Color::new(9, 99, 199, 255);
    let mut samples = Vec::new();
    for _ in 0..1000 {
        samples.push((c, 1));
    }
    assert_eq!(mean(samples), c);
}
