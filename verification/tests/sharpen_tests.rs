use chromakey::{sharpen_pixel, Color};

#[test]
fn differences_are_averaged_over_four_times_the_samples() {
    let origin = Color::new(10, 20, 30, 40);
    let sharp = sharpen_pixel(origin, vec![Color::new(5, 25, 30, 0)]);
    assert_eq!(sharp, Color::new(1, 62, 0, 10));
}

#[test]
fn negative_difference_wraps_around() {
    let origin = Color::new(0, 0, 0, 0);
    let sharp = sharpen_pixel(origin, vec![Color::new(1, 2, 255, 0)]);
    assert_eq!(sharp, Color::new(63, 63, 0, 0));
}

#[test]
fn several_samples_share_one_divisor() {
    let origin = Color::new(100, 100, 100, 100);
    let colors = vec![Color::new(90, 100, 101, 0), Color::new(80, 100, 100, 50)];
    // red: 10 + 20, green: 0, blue: 255 + 0, alpha: 100 + 50, each over 8
    assert_eq!(sharpen_pixel(origin, colors), Color::new(3, 0, 31, 18));
}

#[test]
fn sharpening_against_itself_gives_zero() {
    let origin = Color::new(12, 34, 56, 78);
    assert_eq!(sharpen_pixel(origin, vec![origin, origin, origin]), Color::new(0, 0, 0, 0));
}
