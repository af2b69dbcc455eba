use stitches::step::Step;

#[test]
fn add_usize_moves_along_the_domain() {
    assert_eq!(5u8.add_usize(250), Some(255));
    assert_eq!(5u16.add_usize(60_000), Some(60_005));
    assert_eq!(5u32.add_usize(7), Some(12));
    assert_eq!(5u64.add_usize(0), Some(5));
    assert_eq!(5usize.add_usize(usize::MAX - 5), Some(usize::MAX));
    assert_eq!(5u128.add_usize(usize::MAX), Some(usize::MAX as u128 + 5));
}

#[test]
fn add_usize_stops_at_the_end_of_the_domain() {
    assert_eq!(5u8.add_usize(251), None);
    assert_eq!(5u8.add_usize(usize::MAX), None);
    assert_eq!(u16::MAX.add_usize(1), None);
    assert_eq!(u32::MAX.add_usize(1), None);
    assert_eq!(u64::MAX.add_usize(1), None);
    assert_eq!(5usize.add_usize(usize::MAX - 4), None);
    assert_eq!((u128::MAX - 3).add_usize(4), None);
    assert_eq!((u128::MAX - 3).add_usize(3), Some(u128::MAX));
}

#[test]
fn steps_between_counts_the_distance() {
    assert_eq!(u8::steps_between(&3, &10), Some(7));
    assert_eq!(u16::steps_between(&0, &u16::MAX), Some(65_535));
    assert_eq!(u32::steps_between(&10, &10), Some(0));
    assert_eq!(u64::steps_between(&10, &3), Some(0));
    assert_eq!(usize::steps_between(&0, &usize::MAX), Some(usize::MAX));
    assert_eq!(u128::steps_between(&1, &(usize::MAX as u128 + 1)), Some(usize::MAX));
    assert_eq!(u128::steps_between(&0, &(usize::MAX as u128 + 1)), None);
    assert_eq!(u128::steps_between(&7, &2), Some(0));
}
