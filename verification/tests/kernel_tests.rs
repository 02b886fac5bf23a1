use chromakey::Kernel;

#[test]
fn box_of_radius_two_has_sixteen_unit_offsets() {
    let offsets = Kernel::BoxBlur(2).offsets();
    assert_eq!(offsets.len(), 16);
    let mut expected = Vec::new();
    for dx in [-2, -1, 0, 1] {
        for dy in [-2, -1, 0, 1] {
            expected.push((dx, dy, 1u8));
        }
    }
    assert_eq!(offsets, expected);
}

#[test]
fn box_of_radius_one_leaves_out_the_far_edge() {
    assert_eq!(
        Kernel::BoxBlur(1).offsets(),
        vec![(-1, -1, 1u8), (-1, 0, 1u8), (0, -1, 1u8), (0, 0, 1u8)]
    );
}

#[test]
fn box_of_radius_three_is_six_wide() {
    let offsets = Kernel::BoxBlur(3).offsets();
    assert_eq!(offsets.len(), 36);
    assert_eq!(offsets[0], (-3, -3, 1));
    assert_eq!(offsets[5], (-3, 2, 1));
    assert_eq!(offsets[6], (-2, -3, 1));
    assert_eq!(offsets[35], (2, 2, 1));
    assert!(offsets.iter().all(|o| o.0 != 3 && o.1 != 3 && o.2 == 1));
}

#[test]
fn radius_of_zero_or_less_gives_no_offsets() {
    assert!(Kernel::BoxBlur(0).offsets().is_empty());
    assert!(Kernel::BoxBlur(-1).offsets().is_empty());
    assert!(Kernel::BoxBlur(i32::MIN).offsets().is_empty());
}

#[test]
fn only_a_positive_radius_makes_a_usable_kernel() {
    assert_eq!(Kernel::box_blur(1), Some(Kernel::BoxBlur(1)));
    assert_eq!(Kernel::box_blur(7), Some(Kernel::BoxBlur(7)));
    assert_eq!(Kernel::box_blur(0), None);
    assert_eq!(Kernel::box_blur(-3), None);
    assert!(Kernel::BoxBlur(1).usable());
    assert!(!Kernel::BoxBlur(0).usable());
    assert!(!Kernel::BoxBlur(-5).usable());
}
