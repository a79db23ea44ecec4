use dungeon_protocol::coords::Coords;
use dungeon_protocol::coords::SingleAxis;
use dungeon_protocol::coords::CENTER_POINT;
use std::ops::AddAssign;
use std::ops::SubAssign;

fn distance(a: &Coords, b: &Coords) -> f64 {
    (a.squared_distance_from(b).unwrap() as f64).sqrt()
}

#[test]
#[allow(clippy::float_cmp)]
fn test_distance_from() {
    let first = SingleAxis::default();
    let second = first + SingleAxis::new(0, 3);
    let third = second - SingleAxis::new(0, 6);
    let fourth = third + SingleAxis::new(3, 28);

    assert_eq!(first.distance_from(&second), SingleAxis::new(0, 3));
    assert_eq!(first.distance_from(&third), SingleAxis::new(0, 3));
    assert_eq!(first.distance_from(&fourth), SingleAxis::new(3, 25));

    let first = Coords::default();
    let second = Coords::new(first.x + SingleAxis::new(0, 3), first.y);
    let third = Coords::new(second.x, second.y + SingleAxis::new(0, 3));

    assert_eq!(distance(&first, &second), 3.0);
    assert_eq!(distance(&first, &third), 4.242_640_687_119_285);
}

#[test]
fn add_test() {
    let first = SingleAxis::new(0, 0);
    let second = first + SingleAxis::new(1, 0);
    let third = second + SingleAxis::new(0, 40);
    let fourth = third + SingleAxis::new(1, 41);
    let fifth = fourth + SingleAxis::new(0, 38);
    let sixth = fifth + SingleAxis::new(0, 4);

    assert_eq!(first, SingleAxis::new(0, 0));
    assert_eq!(second, SingleAxis::new(1, 0));
    assert_eq!(third, SingleAxis::new(2, 0));
    assert_eq!(fourth, SingleAxis::new(4, 1));
    assert_eq!(fifth, SingleAxis::new(4, 39));
    assert_eq!(sixth, SingleAxis::new(5, 3));
}

#[test]
fn sub_test() {
    let sixth = SingleAxis::new(5, 3);
    let fifth = sixth - SingleAxis::new(0, 4);
    let fourth = fifth - SingleAxis::new(0, 38);
    let third = fourth - SingleAxis::new(1, 41);
    let second = third - SingleAxis::new(0, 40);
    let first = second - SingleAxis::new(1, 0);

    assert_eq!(sixth, SingleAxis::new(5, 3));
    assert_eq!(fifth, SingleAxis::new(4, 39));
    assert_eq!(fourth, SingleAxis::new(4, 1));
    assert_eq!(third, SingleAxis::new(2, 0));
    assert_eq!(second, SingleAxis::new(1, 0));
    assert_eq!(first, SingleAxis::new(0, 0));
}

#[test]
fn single_axis_carry() {
    assert_eq!(SingleAxis::new(0, 0) + SingleAxis::new(1, 41), SingleAxis::new(2, 1));
}

#[test]
fn single_axis_borrow() {
    assert_eq!(SingleAxis::new(5, 3) - SingleAxis::new(0, 4), SingleAxis::new(4, 39));
}

#[test]
fn single_axis_sum_of_large_offsets_is_normalized() {
    let sum = SingleAxis::new(7, 126) + SingleAxis::new(1, 126);
    assert_eq!(sum, SingleAxis::new(14, 12));
    assert!(sum.get_additionnal() < 40);
}

#[test]
fn single_axis_difference_borrows_several_blocks() {
    let difference = SingleAxis::new(10, 0) - SingleAxis::new(2, 126);
    assert_eq!(difference, SingleAxis::new(4, 34));
}

#[test]
fn single_axis_difference_of_large_offset_is_normalized() {
    let difference = SingleAxis::new(3, 100) - SingleAxis::new(1, 5);
    assert_eq!(difference, SingleAxis::new(4, 15));
}

#[test]
fn single_axis_assign_operators() {
    let mut axis = SingleAxis::new(0, 0);
    axis.add_assign(SingleAxis::new(1, 41));
    assert_eq!(axis, SingleAxis::new(2, 1));
    axis.sub_assign(SingleAxis::new(0, 4));
    assert_eq!(axis, SingleAxis::new(1, 37));
    axis += SingleAxis::new(0, 3);
    assert_eq!(axis, SingleAxis::new(2, 0));
    axis -= SingleAxis::new(2, 0);
    assert_eq!(axis, SingleAxis::new(0, 0));
}

#[test]
fn single_axis_order_is_block_then_offset() {
    assert!(SingleAxis::new(1, 39) < SingleAxis::new(2, 0));
    assert!(SingleAxis::new(2, 1) > SingleAxis::new(2, 0));
    assert!(SingleAxis::new(2, 0) <= SingleAxis::new(2, 0));
    assert!(!(SingleAxis::new(3, 0) < SingleAxis::new(2, 39)));
    assert_eq!(
        SingleAxis::new(2, 5).partial_cmp(&SingleAxis::new(2, 5)),
        Some(std::cmp::Ordering::Equal)
    );
}

#[test]
fn single_axis_default_is_the_center() {
    let center = SingleAxis::default();
    assert_eq!(center.main, CENTER_POINT);
    assert_eq!(center.main, 9_223_372_036_854_775_808);
    assert_eq!(center.get_additionnal(), 0);
}

#[test]
fn distance_is_symmetric() {
    let a = SingleAxis::new(12, 7);
    let b = SingleAxis::new(9, 30);
    assert_eq!(a.distance_from(&b), b.distance_from(&a));
    assert_eq!(a.distance_from(&b), SingleAxis::new(2, 17));
    assert_eq!(a.distance_from(&a), SingleAxis::new(0, 0));

    let p = Coords::new(a, b);
    let q = Coords::new(b, a);
    assert_eq!(p.squared_distance_from(&q), q.squared_distance_from(&p));
    assert_eq!(p.squared_distance_from(&q), Some(2 * 97 * 97));
    assert_eq!(p.is_within(&q, 200), q.is_within(&p, 200));
}

#[test]
fn coords_add_and_sub_by_component() {
    let a = Coords::new(SingleAxis::new(1, 30), SingleAxis::new(5, 3));
    let b = Coords::new(SingleAxis::new(0, 15), SingleAxis::new(0, 4));
    assert_eq!(a + b, Coords::new(SingleAxis::new(2, 5), SingleAxis::new(5, 7)));
    assert_eq!(a - b, Coords::new(SingleAxis::new(1, 15), SingleAxis::new(4, 39)));
    let mut c = a;
    c += b;
    c -= b;
    assert_eq!(c, a);
    assert_eq!(a.into_block(), (1, 5));
}

#[test]
fn coords_reach_is_euclidean() {
    let origin = Coords::default();
    let three_right = Coords::new(origin.x + SingleAxis::new(0, 3), origin.y);
    let diagonal = Coords::new(three_right.x, origin.y + SingleAxis::new(0, 3));
    let two_two = Coords::new(origin.x + SingleAxis::new(0, 2), origin.y + SingleAxis::new(0, 2));
    assert!(origin.is_within(&three_right, 3));
    assert!(!origin.is_within(&three_right, 2));
    assert!(!origin.is_within(&diagonal, 3));
    assert!(origin.is_within(&diagonal, 5));
    assert!(origin.is_within(&two_two, 3));
    assert!(origin.is_within(&origin, 0));
}

#[test]
fn coords_squared_distance_overflow_is_none() {
    let low = Coords::new(SingleAxis::new(0, 0), SingleAxis::new(0, 0));
    let high = Coords::new(SingleAxis::new(u64::MAX, 39), SingleAxis::new(u64::MAX, 39));
    assert_eq!(low.squared_distance_from(&high), None);
    assert!(!low.is_within(&high, 255));
    let far = Coords::new(SingleAxis::new(1_000_000, 0), SingleAxis::new(0, 0));
    assert_eq!(low.squared_distance_from(&far), Some(40_000_000u128 * 40_000_000u128));
}
